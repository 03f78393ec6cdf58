use tachydom::async_views::FutureViewExt;
use tachydom::html::class::class;
use tachydom::html::element::{main, p, span, Div, ElementType, HtmlElement, Main, Span, P};
use tachydom::html::islands::{Island, IslandChildren};
use tachydom::hydration::Cursor;
use tachydom::renderer::mock_dom::{Element, MockDom, Node, Placeholder, Text};
use tachydom::renderer::{CastFrom, Renderer};
use tachydom::view::either::Either;
use tachydom::view::{insert_before_this, Mountable, Position, PositionState, Render, RenderHtml};

/// The in-memory renderer, with a count of the calls that change the
/// document.
struct Counting {
    dom: MockDom,
    writes: usize,
}

impl Counting {
    fn new() -> Self {
        Counting {
            dom: MockDom::new(),
            writes: 0,
        }
    }
}

impl Renderer for Counting {
    type Node = Node;
    type Element = Element;
    type Text = Text;
    type Placeholder = Placeholder;

    fn nodes_left(&self) -> usize {
        self.dom.nodes_left()
    }

    fn create_element<E: ElementType>(&mut self) -> Element {
        self.writes += 1;
        self.dom.create_element::<E>()
    }

    fn create_text_node(&mut self, text: &str) -> Text {
        self.writes += 1;
        self.dom.create_text_node(text)
    }

    fn create_placeholder(&mut self) -> Placeholder {
        self.writes += 1;
        self.dom.create_placeholder()
    }

    fn set_text(&mut self, node: &Text, text: &str) {
        self.writes += 1;
        self.dom.set_text(node, text)
    }

    fn set_attribute(&mut self, node: &Element, name: &str, value: &str) {
        self.writes += 1;
        self.dom.set_attribute(node, name, value)
    }

    fn remove_attribute(&mut self, node: &Element, name: &str) {
        self.writes += 1;
        self.dom.remove_attribute(node, name)
    }

    fn insert_node(&mut self, parent: &Element, new_child: &Node, anchor: Option<&Node>) {
        self.writes += 1;
        self.dom.insert_node(parent, new_child, anchor)
    }

    fn remove_node(&mut self, parent: &Element, child: &Node) -> Option<Node> {
        self.writes += 1;
        self.dom.remove_node(parent, child)
    }

    fn remove(&mut self, node: &Node) {
        self.writes += 1;
        self.dom.remove(node)
    }

    fn get_parent(&self, node: &Node) -> Option<Node> {
        self.dom.get_parent(node)
    }

    fn first_child(&self, node: &Node) -> Option<Node> {
        self.dom.first_child(node)
    }

    fn next_sibling(&self, node: &Node) -> Option<Node> {
        self.dom.next_sibling(node)
    }

    fn cast_element(&self, node: Node) -> Option<Element> {
        self.dom.cast_element(node)
    }

    fn cast_text(&self, node: Node) -> Option<Text> {
        self.dom.cast_text(node)
    }

    fn cast_placeholder(&self, node: Node) -> Option<Placeholder> {
        self.dom.cast_placeholder(node)
    }

    fn clone_element(el: &Element) -> Element {
        *el
    }

    fn clone_node(node: &Node) -> Node {
        *node
    }

    fn element_node(el: &Element) -> Node {
        *el.as_node()
    }

    fn text_node(text: &Text) -> Node {
        *text.as_node()
    }

    fn placeholder_node(marker: &Placeholder) -> Node {
        *marker.as_node()
    }
}

#[test]
fn rebuilding_with_the_same_value_changes_nothing() {
    let mut rndr = Counting::new();
    let mut state = "hello".build(&mut rndr);
    let built = rndr.writes;
    "hello".rebuild(&mut state, &mut rndr);
    assert_eq!(rndr.writes, built);
    // a text that differs is set, once
    "world".rebuild(&mut state, &mut rndr);
    assert_eq!(rndr.writes, built + 1);
}

#[test]
fn rebuilding_a_tree_with_the_same_values_changes_nothing() {
    fn view() -> HtmlElement<
        Main,
        tachydom::html::class::Class<&'static str, Counting>,
        (
            HtmlElement<P, (), &'static str, Counting>,
            Option<HtmlElement<Span, (), String, Counting>>,
            Either<&'static str, ()>,
        ),
        Counting,
    > {
        main(
            class("app"),
            (
                p((), "a"),
                Some(span((), "b".to_string())),
                Either::Left("c"),
            ),
        )
    }
    let mut rndr = Counting::new();
    let mut state = view().build(&mut rndr);
    let before = state.el.to_debug_html(&rndr.dom);
    assert_eq!(
        before,
        "<main class=\"app\"><p>a</p><span>b</span>c<!></main>"
    );
    let built = rndr.writes;
    view().rebuild(&mut state, &mut rndr);
    view().rebuild(&mut state, &mut rndr);
    assert_eq!(rndr.writes, built);
    assert_eq!(state.el.to_debug_html(&rndr.dom), before);
}

#[test]
fn an_option_that_stays_as_it_is_changes_nothing() {
    let mut rndr = Counting::new();
    let root = rndr.create_element::<Main>();
    let mut state = None::<&str>.build(&mut rndr);
    state.mount(&mut rndr, &root, None);
    let built = rndr.writes;
    // no value after no value
    None::<&str>.rebuild(&mut state, &mut rndr);
    assert_eq!(rndr.writes, built);
    assert_eq!(root.to_debug_html(&rndr.dom), "<main><!></main>");
    // a value after a value is left to the value
    Some("a").rebuild(&mut state, &mut rndr);
    let shown = rndr.writes;
    Some("a").rebuild(&mut state, &mut rndr);
    assert_eq!(rndr.writes, shown);
    Some("b").rebuild(&mut state, &mut rndr);
    assert_eq!(rndr.writes, shown + 1);
    assert_eq!(root.to_debug_html(&rndr.dom), "<main>b</main>");
}

#[test]
fn says_how_many_nodes_a_view_takes() {
    assert_eq!(Render::<MockDom>::demand(&()), 0);
    assert_eq!(Render::<MockDom>::demand(&"text"), 1);
    assert_eq!(Render::<MockDom>::demand(&None::<&str>), 1);
    assert_eq!(Render::<MockDom>::demand(&Some(("a", "b"))), 2);
    let alternative: Either<&str, ()> = Either::Right(());
    assert_eq!(Render::<MockDom>::demand(&alternative), 1);
    let tree: HtmlElement<Main, (), _, MockDom> = main((), (p((), "a"), "b", span((), ())));
    assert_eq!(tree.demand(), 5);
    let island: Island<MockDom, _> = Island::new("Counter", ("a", "b"));
    assert_eq!(island.demand(), 2);
    let children: IslandChildren<MockDom, _> = IslandChildren::new(("a", "b"));
    assert_eq!(children.demand(), 0);

    let mut dom = MockDom::new();
    let before = dom.nodes_left();
    tree.build(&mut dom);
    assert_eq!(dom.nodes_left(), before - 5);
}

#[test]
fn a_view_that_does_not_fit_is_not_built() {
    // a renderer without room
    struct Full(MockDom);
    impl Renderer for Full {
        type Node = Node;
        type Element = Element;
        type Text = Text;
        type Placeholder = Placeholder;
        fn nodes_left(&self) -> usize {
            1
        }
        fn create_element<E: ElementType>(&mut self) -> Element {
            self.0.create_element::<E>()
        }
        fn create_text_node(&mut self, text: &str) -> Text {
            self.0.create_text_node(text)
        }
        fn create_placeholder(&mut self) -> Placeholder {
            self.0.create_placeholder()
        }
        fn set_text(&mut self, node: &Text, text: &str) {
            self.0.set_text(node, text)
        }
        fn set_attribute(&mut self, node: &Element, name: &str, value: &str) {
            self.0.set_attribute(node, name, value)
        }
        fn remove_attribute(&mut self, node: &Element, name: &str) {
            self.0.remove_attribute(node, name)
        }
        fn insert_node(&mut self, parent: &Element, new_child: &Node, anchor: Option<&Node>) {
            self.0.insert_node(parent, new_child, anchor)
        }
        fn remove_node(&mut self, parent: &Element, child: &Node) -> Option<Node> {
            self.0.remove_node(parent, child)
        }
        fn remove(&mut self, node: &Node) {
            self.0.remove(node)
        }
        fn get_parent(&self, node: &Node) -> Option<Node> {
            self.0.get_parent(node)
        }
        fn first_child(&self, node: &Node) -> Option<Node> {
            self.0.first_child(node)
        }
        fn next_sibling(&self, node: &Node) -> Option<Node> {
            self.0.next_sibling(node)
        }
        fn cast_element(&self, node: Node) -> Option<Element> {
            self.0.cast_element(node)
        }
        fn cast_text(&self, node: Node) -> Option<Text> {
            self.0.cast_text(node)
        }
        fn cast_placeholder(&self, node: Node) -> Option<Placeholder> {
            self.0.cast_placeholder(node)
        }
        fn clone_element(el: &Element) -> Element {
            *el
        }
        fn clone_node(node: &Node) -> Node {
            *node
        }
        fn element_node(el: &Element) -> Node {
            *el.as_node()
        }
        fn text_node(text: &Text) -> Node {
            *text.as_node()
        }
        fn placeholder_node(marker: &Placeholder) -> Node {
            *marker.as_node()
        }
    }

    let mut rndr = Full(MockDom::new());
    // the value and its marker take two nodes, and there is room for one
    let view = std::future::ready("done").suspend().with_fallback(());
    match view.build(&mut rndr) {
        Ok(_) => panic!("there was no room for the view"),
        Err(polled) => {
            assert!(matches!(polled.initial, Either::Right("done")));
            assert!(polled.pending.is_none());
        }
    }
    assert_eq!(rndr.0.document().len(), 0);

    // the fallback takes nothing, and its marker fits
    let view = std::future::pending::<&str>().suspend();
    assert!(view.build(&mut rndr).is_ok());
    assert_eq!(rndr.0.document().len(), 1);
}

#[test]
fn resetting_the_document_leaves_handles_dangling() {
    let mut dom = MockDom::new();
    let root = dom.create_element::<Main>();
    let text = dom.create_text_node("a");
    dom.insert_node(&root, text.as_node(), None);
    assert_eq!(dom.document().len(), 2);
    dom.reset();
    assert_eq!(dom.document().len(), 0);
    assert_eq!(root.to_debug_html(&dom), "");
    assert_eq!(dom.get_parent(text.as_node()), None);
    assert_eq!(dom.first_child(root.as_node()), None);
    assert!(dom.document().node(0).is_none());
    // calls on nodes that are gone do nothing
    dom.set_text(&text, "b");
    dom.set_attribute(&root, "id", "x");
    assert_eq!(dom.document().len(), 0);
    // new nodes are not the old ones
    let again = dom.create_element::<Div>();
    assert_ne!(again, root);
    assert_eq!(dom.cast_element(*root.as_node()), None);
}

#[test]
fn casts_by_the_kind_of_the_node() {
    let mut dom = MockDom::new();
    let el = dom.create_element::<P>();
    let text = dom.create_text_node("a");
    let marker = dom.create_placeholder();
    assert_eq!(Element::cast_from(*el.as_node(), &dom), Some(el));
    assert_eq!(Text::cast_from(*el.as_node(), &dom), None);
    assert_eq!(Placeholder::cast_from(*el.as_node(), &dom), None);
    assert_eq!(Text::cast_from(*text.as_node(), &dom), Some(text));
    assert_eq!(Element::cast_from(*text.as_node(), &dom), None);
    assert_eq!(Placeholder::cast_from(*marker.as_node(), &dom), Some(marker));
    assert_eq!(Text::cast_from(*marker.as_node(), &dom), None);
}

#[test]
fn attributes_keep_their_order_and_their_names_apart() {
    let mut dom = MockDom::new();
    let el = dom.create_element::<P>();
    dom.set_attribute(&el, "id", "a");
    dom.set_attribute(&el, "title", "b");
    dom.set_attribute(&el, "id", "c");
    assert_eq!(el.to_debug_html(&dom), "<p id=\"c\" title=\"b\"></p>");
    dom.remove_attribute(&el, "missing");
    dom.remove_attribute(&el, "id");
    assert_eq!(el.to_debug_html(&dom), "<p title=\"b\"></p>");
    // a text node takes no attribute, and an element takes no text
    let text = dom.create_text_node("t");
    let as_element = Element::cast_from(*text.as_node(), &dom);
    assert_eq!(as_element, None);
}

#[test]
fn removing_a_node_clears_its_parent() {
    let mut dom = MockDom::new();
    let root = dom.create_element::<Main>();
    let a = dom.create_text_node("a");
    let b = dom.create_text_node("b");
    dom.insert_node(&root, a.as_node(), None);
    dom.insert_node(&root, b.as_node(), None);
    assert_eq!(dom.remove_node(&root, a.as_node()), Some(*a.as_node()));
    assert_eq!(dom.get_parent(a.as_node()), None);
    assert_eq!(dom.next_sibling(a.as_node()), None);
    dom.remove(b.as_node());
    assert_eq!(root.to_debug_html(&dom), "<main></main>");
    // a removed node can go back in
    dom.insert_node(&root, a.as_node(), None);
    assert_eq!(root.to_debug_html(&dom), "<main>a</main>");
    // a parent that is no element removes nothing
    let other = dom.create_element::<P>();
    dom.reset();
    assert_eq!(dom.remove_node(&other, a.as_node()), None);
}

#[test]
fn bare_handles_mount_like_states() {
    let mut dom = MockDom::new();
    let root = dom.create_element::<Main>();
    let a = dom.create_text_node("a");
    let b = dom.create_element::<P>();
    a.mount(&mut dom, &root, None);
    assert!(insert_before_this(&a, &mut dom, &b));
    assert_eq!(root.to_debug_html(&dom), "<main><p></p>a</main>");
    a.unmount(&mut dom);
    assert_eq!(root.to_debug_html(&dom), "<main><p></p></main>");
    // a node that stands under no parent gives no place to insert at
    assert!(!insert_before_this(&a, &mut dom, &b));
    assert_eq!(root.to_debug_html(&dom), "<main><p></p></main>");
}

#[test]
fn an_island_is_hydrated_from_its_container() {
    let mut dom = MockDom::new();
    // <div><p>0</p></div>, the container standing for the island
    let container = dom.create_element::<Div>();
    let inner = dom.create_element::<P>();
    let text = dom.create_text_node("0");
    dom.insert_node(&inner, text.as_node(), None);
    dom.insert_node(&container, inner.as_node(), None);

    let view: HtmlElement<P, (), &str, MockDom> = p((), "0");
    let island: Island<MockDom, _> = Island::new("Counter", view);
    let mut cursor = Cursor::new(container);
    // wherever the walk stood, the island starts at the first child
    let mut position = PositionState::new(Position::NextChild);
    let state = island
        .hydrate::<true>(&mut dom, &mut cursor, &mut position)
        .expect("the container holds the island");
    assert_eq!(state.el, inner);
    assert_eq!(state.children.node, text);
    assert_eq!(cursor.current(), *container.as_node());
    assert_eq!(position.get(), Position::NextChild);
}

#[test]
fn island_children_are_passed_over() {
    let mut dom = MockDom::new();
    // <main><div>static</div>after</main>
    let root = dom.create_element::<Main>();
    let children = dom.create_element::<Div>();
    let inside = dom.create_text_node("static");
    dom.insert_node(&children, inside.as_node(), None);
    let after = dom.create_text_node("after");
    dom.insert_node(&root, children.as_node(), None);
    dom.insert_node(&root, after.as_node(), None);

    let view: (IslandChildren<MockDom, &str>, &str) = (IslandChildren::new("static"), "after");
    let mut cursor = Cursor::new(root);
    let mut position = PositionState::new(Position::FirstChild);
    let state = view
        .hydrate::<false>(&mut dom, &mut cursor, &mut position)
        .expect("the document holds the children and the text");
    assert_eq!(state.1.node, after);
    // what is in the children was left alone
    assert_eq!(root.to_debug_html(&dom), "<main><div>static</div>after</main>");
}

#[test]
fn a_number_that_is_no_handle_finds_no_node() {
    let mut dom = MockDom::new();
    let root = dom.create_element::<Main>();
    let text = dom.create_text_node("a");
    dom.insert_node(&root, text.as_node(), None);
    // the first key of a slot map, as the number that stands for it
    let first = slotmap::KeyData::from_ffi(1).as_ffi();
    assert_ne!(first, 1);
    match dom.document().node(first) {
        Some(data) => {
            assert!(data.parent().is_none());
            assert!(matches!(
                &data.ty,
                tachydom::renderer::mock_dom::NodeType::Element { tag, .. } if tag == "main"
            ));
        }
        None => panic!("the first node stands under the first key"),
    }
    // a number that only reads as that key is not the handle of a node
    assert!(dom.document().node(1).is_none());
    // the second node knows its parent
    let second = slotmap::KeyData::from_ffi(2).as_ffi();
    let parent = dom.document().node(second).and_then(|data| data.parent());
    assert_eq!(parent, Some(*root.as_node()));
}

#[test]
fn building_calls_once_for_each_node_attribute_and_place() {
    // an element, its class, two texts, and each text put under it
    let mut rndr = Counting::new();
    let view: HtmlElement<Main, _, _, Counting> = main(class("app"), ("a", "b"));
    view.build(&mut rndr);
    assert_eq!(rndr.writes, 1 + 1 + 2 + 2);

    // a marker alone, and an alternative with its marker
    let mut rndr = Counting::new();
    None::<&str>.build(&mut rndr);
    assert_eq!(rndr.writes, 1);
    let view: Either<&str, ()> = Either::Left("c");
    view.build(&mut rndr);
    assert_eq!(rndr.writes, 1 + 2);
}

#[test]
fn mounting_calls_once_for_each_node_and_unmounting_once_for_each_that_is_mounted() {
    let mut rndr = Counting::new();
    let root = rndr.create_element::<Main>();
    let state = ("a", "b", "c").build(&mut rndr);
    let built = rndr.writes;
    // nothing is mounted yet: nothing is taken out
    state.unmount(&mut rndr);
    assert_eq!(rndr.writes, built);
    state.mount(&mut rndr, &root, None);
    assert_eq!(rndr.writes, built + 3);
    state.unmount(&mut rndr);
    assert_eq!(rndr.writes, built + 6);
    assert_eq!(root.to_debug_html(&rndr.dom), "<main></main>");
}

#[test]
fn rebuilding_calls_once_for_each_text_that_differs() {
    let mut rndr = Counting::new();
    let view: HtmlElement<Main, _, _, Counting> = main(class("app"), ("a", "b", Some("c")));
    let mut state = view.build(&mut rndr);
    let built = rndr.writes;
    let view: HtmlElement<Main, _, _, Counting> = main(class("app"), ("a", "x", Some("y")));
    view.rebuild(&mut state, &mut rndr);
    assert_eq!(rndr.writes, built + 2);
    // the class counts as the texts do
    let view: HtmlElement<Main, _, _, Counting> = main(class("other"), ("a", "x", Some("y")));
    view.rebuild(&mut state, &mut rndr);
    assert_eq!(rndr.writes, built + 3);
    assert_eq!(
        state.el.to_debug_html(&rndr.dom),
        "<main class=\"other\">axy</main>"
    );
}

#[test]
fn taking_over_a_template_sets_each_text_once() {
    let mut rndr = Counting::new();
    // <main>&nbsp;<!>&nbsp;</main>
    let root = rndr.create_element::<Main>();
    let one = rndr.create_text_node(" ");
    let marker = rndr.create_placeholder();
    let two = rndr.create_text_node(" ");
    rndr.insert_node(&root, one.as_node(), None);
    rndr.insert_node(&root, marker.as_node(), None);
    rndr.insert_node(&root, two.as_node(), None);
    let made = rndr.writes;

    let mut cursor = Cursor::new(root);
    let mut position = PositionState::new(Position::FirstChild);
    ("a", "b")
        .hydrate::<false>(&mut rndr, &mut cursor, &mut position)
        .expect("the document holds two texts");
    assert_eq!(rndr.writes, made + 2);
    assert_eq!(root.to_debug_html(&rndr.dom), "<main>a<!>b</main>");

    // markup from the server is taken as it is
    let mut cursor = Cursor::new(root);
    let mut position = PositionState::new(Position::FirstChild);
    ("a", "b")
        .hydrate::<true>(&mut rndr, &mut cursor, &mut position)
        .expect("the document holds two texts");
    assert_eq!(rndr.writes, made + 2);
}
