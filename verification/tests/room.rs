use tachydom::async_views::{try_resolve, FutureViewExt, Suspend};
use tachydom::html::element::{ElementType, Main};
use tachydom::renderer::mock_dom::{Element, MockDom, Node, Placeholder, Text};
use tachydom::renderer::Renderer;
use tachydom::view::either::Either;
use tachydom::view::iterators::OptionState;
use tachydom::view::{Mountable, Render};

/// The in-memory renderer with room for a given number of nodes only.
struct Tight {
    dom: MockDom,
    left: usize,
}

impl Tight {
    fn with_room(left: usize) -> Tight {
        Tight { dom: MockDom::new(), left }
    }

    fn take(&mut self) {
        assert!(self.left > 0, "a node was created without room for it");
        self.left -= 1;
    }
}

impl Renderer for Tight {
    type Node = Node;
    type Element = Element;
    type Text = Text;
    type Placeholder = Placeholder;

    fn nodes_left(&self) -> usize {
        self.left
    }

    fn create_element<E: ElementType>(&mut self) -> Element {
        self.take();
        self.dom.create_element::<E>()
    }

    fn create_text_node(&mut self, text: &str) -> Text {
        self.take();
        self.dom.create_text_node(text)
    }

    fn create_placeholder(&mut self) -> Placeholder {
        self.take();
        self.dom.create_placeholder()
    }

    fn set_text(&mut self, node: &Text, text: &str) {
        self.dom.set_text(node, text)
    }

    fn set_attribute(&mut self, node: &Element, name: &str, value: &str) {
        self.dom.set_attribute(node, name, value)
    }

    fn remove_attribute(&mut self, node: &Element, name: &str) {
        self.dom.remove_attribute(node, name)
    }

    fn insert_node(&mut self, parent: &Element, new_child: &Node, anchor: Option<&Node>) {
        self.dom.insert_node(parent, new_child, anchor)
    }

    fn remove_node(&mut self, parent: &Element, child: &Node) -> Option<Node> {
        self.dom.remove_node(parent, child)
    }

    fn remove(&mut self, node: &Node) {
        self.dom.remove(node)
    }

    fn get_parent(&self, node: &Node) -> Option<Node> {
        self.dom.get_parent(node)
    }

    fn first_child(&self, node: &Node) -> Option<Node> {
        self.dom.first_child(node)
    }

    fn next_sibling(&self, node: &Node) -> Option<Node> {
        self.dom.next_sibling(node)
    }

    fn cast_element(&self, node: Node) -> Option<Element> {
        self.dom.cast_element(node)
    }

    fn cast_text(&self, node: Node) -> Option<Text> {
        self.dom.cast_text(node)
    }

    fn cast_placeholder(&self, node: Node) -> Option<Placeholder> {
        self.dom.cast_placeholder(node)
    }

    fn clone_element(el: &Element) -> Element {
        *el
    }

    fn clone_node(node: &Node) -> Node {
        *node
    }

    fn element_node(el: &Element) -> Node {
        *el.as_node()
    }

    fn text_node(text: &Text) -> Node {
        *text.as_node()
    }

    fn placeholder_node(marker: &Placeholder) -> Node {
        *marker.as_node()
    }
}

#[test]
fn a_rebuild_that_brings_nothing_in_needs_no_room() {
    // room for the root and the first build only
    let mut rndr = Tight::with_room(2);
    let root = rndr.create_element::<Main>();
    let mut state = None::<&str>.build(&mut rndr);
    state.mount(&mut rndr, &root, None);
    assert_eq!(rndr.nodes_left(), 0);

    // no value after no value: nothing is created
    None::<&str>.rebuild(&mut state, &mut rndr);
    assert!(matches!(state, OptionState::Absent(_)));
    assert_eq!(root.to_debug_html(&rndr.dom), "<main><!></main>");
}

#[test]
fn a_text_that_changes_needs_no_room() {
    let mut rndr = Tight::with_room(2);
    let root = rndr.create_element::<Main>();
    let mut state = Some("a").build(&mut rndr);
    state.mount(&mut rndr, &root, None);
    assert_eq!(rndr.nodes_left(), 0);

    Some("b").rebuild(&mut state, &mut rndr);
    assert_eq!(root.to_debug_html(&rndr.dom), "<main>b</main>");
}

#[test]
fn a_value_that_goes_takes_one_node_and_one_that_comes_takes_its_own() {
    let mut rndr = Tight::with_room(5);
    let root = rndr.create_element::<Main>();
    let mut state = Some(("a", "b")).build(&mut rndr);
    state.mount(&mut rndr, &root, None);
    assert_eq!(rndr.nodes_left(), 2);

    None::<(&str, &str)>.rebuild(&mut state, &mut rndr);
    assert_eq!(rndr.nodes_left(), 1);
    assert_eq!(root.to_debug_html(&rndr.dom), "<main><!></main>");
}

#[test]
fn building_a_suspended_view_without_room_hands_back_what_the_poll_gave() {
    let mut rndr = Tight::with_room(1);
    let view: Suspend<&str, std::future::Pending<&str>> =
        std::future::pending::<&str>().suspend().with_fallback("loading");
    // the fallback and its marker take two nodes
    match view.build(&mut rndr) {
        Ok(_) => panic!("there is no room for two nodes"),
        Err(polled) => {
            assert!(matches!(polled.initial, Either::Left("loading")));
            assert!(polled.pending.is_some());
        }
    }
    assert_eq!(rndr.nodes_left(), 1);
    assert_eq!(rndr.dom.document().len(), 0);

    let view: Suspend<&str, _> = std::future::ready("done").suspend().with_fallback("loading");
    match view.build(&mut rndr) {
        Ok(_) => panic!("there is no room for two nodes"),
        Err(polled) => {
            assert!(matches!(polled.initial, Either::Right("done")));
            assert!(polled.pending.is_none());
        }
    }
}

#[test]
fn falling_back_and_resolving_test_the_room_first() {
    let mut rndr = Tight::with_room(3);
    let root = rndr.create_element::<Main>();
    let view: Suspend<&str, _> = std::future::ready("done").suspend().with_fallback("loading");
    let mut built = match view.build(&mut rndr) {
        Ok(built) => built,
        Err(_) => panic!("there is room for two nodes"),
    };
    built.state.mount(&mut rndr, &root, None);
    assert_eq!(rndr.nodes_left(), 0);

    // without room the view comes back, and nothing has changed
    let view: Suspend<&str, _> = std::future::ready("again").suspend().with_fallback("loading");
    let view = match view.try_rebuild(&mut built.state, &mut rndr) {
        Ok(_) => panic!("there is no room for the fallback"),
        Err(view) => view,
    };
    assert_eq!(root.to_debug_html(&rndr.dom), "<main>done<!></main>");
    assert_eq!(try_resolve("late", &mut built.state, &mut rndr), Err("late"));
    assert_eq!(root.to_debug_html(&rndr.dom), "<main>done<!></main>");

    // with room for the fallback and a marker, the fallback shows
    rndr.left = 2;
    match view.try_rebuild(&mut built.state, &mut rndr) {
        Ok(_) => {}
        Err(_) => panic!("there is room for the fallback"),
    }
    assert_eq!(root.to_debug_html(&rndr.dom), "<main>loading<!></main>");
    // only the fallback was built: the marker stayed
    assert_eq!(rndr.nodes_left(), 1);

    rndr.left = 2;
    assert_eq!(try_resolve("late", &mut built.state, &mut rndr), Ok(()));
    assert_eq!(root.to_debug_html(&rndr.dom), "<main>late<!></main>");
    assert_eq!(rndr.nodes_left(), 1);
}
