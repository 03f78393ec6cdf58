use tachydom::html::class::class;
use tachydom::html::element::{p, span, ElementType, HtmlElement, Main, Span, P};
use tachydom::html::style::style;
use tachydom::hydration::Cursor;
use tachydom::renderer::mock_dom::{Element, MockDom, Node, Placeholder, Text};
use tachydom::renderer::{DomRenderer, Renderer};
use tachydom::view::iterators::OptionState;
use tachydom::view::{Mountable, Position, PositionState, Render, RenderHtml};

/// The in-memory renderer, with class lists and style declarations that
/// do nothing: the views below use neither.
struct Styled(MockDom);

impl Renderer for Styled {
    type Node = Node;
    type Element = Element;
    type Text = Text;
    type Placeholder = Placeholder;

    fn nodes_left(&self) -> usize {
        self.0.nodes_left()
    }

    fn create_element<E: ElementType>(&mut self) -> Element {
        self.0.create_element::<E>()
    }

    fn create_text_node(&mut self, text: &str) -> Text {
        self.0.create_text_node(text)
    }

    fn create_placeholder(&mut self) -> Placeholder {
        self.0.create_placeholder()
    }

    fn set_text(&mut self, node: &Text, text: &str) {
        self.0.set_text(node, text)
    }

    fn set_attribute(&mut self, node: &Element, name: &str, value: &str) {
        self.0.set_attribute(node, name, value)
    }

    fn remove_attribute(&mut self, node: &Element, name: &str) {
        self.0.remove_attribute(node, name)
    }

    fn insert_node(&mut self, parent: &Element, new_child: &Node, anchor: Option<&Node>) {
        self.0.insert_node(parent, new_child, anchor)
    }

    fn remove_node(&mut self, parent: &Element, child: &Node) -> Option<Node> {
        self.0.remove_node(parent, child)
    }

    fn remove(&mut self, node: &Node) {
        self.0.remove(node)
    }

    fn get_parent(&self, node: &Node) -> Option<Node> {
        self.0.get_parent(node)
    }

    fn first_child(&self, node: &Node) -> Option<Node> {
        self.0.first_child(node)
    }

    fn next_sibling(&self, node: &Node) -> Option<Node> {
        self.0.next_sibling(node)
    }

    fn cast_element(&self, node: Node) -> Option<Element> {
        self.0.cast_element(node)
    }

    fn cast_text(&self, node: Node) -> Option<Text> {
        self.0.cast_text(node)
    }

    fn cast_placeholder(&self, node: Node) -> Option<Placeholder> {
        self.0.cast_placeholder(node)
    }

    fn clone_element(el: &Element) -> Element {
        *el
    }

    fn clone_node(node: &Node) -> Node {
        *node
    }

    fn element_node(el: &Element) -> Node {
        *el.as_node()
    }

    fn text_node(text: &Text) -> Node {
        *text.as_node()
    }

    fn placeholder_node(marker: &Placeholder) -> Node {
        *marker.as_node()
    }
}


impl DomRenderer for Styled {
    type Property = ();
    type Listener = ();
    type ClassList = ();
    type CssStyleDeclaration = ();

    fn set_property(&mut self, _el: &Element, _key: &str, _value: &()) {}

    fn add_event_listener(&mut self, _el: &Element, _name: &str, _cb: ()) {}

    fn class_list(&self, _el: &Element) {}

    fn add_class(&mut self, _list: &(), _name: &str) {}

    fn remove_class(&mut self, _list: &(), _name: &str) {}

    fn style(&self, _el: &Element) {}

    fn set_css_property(&mut self, _style: &(), _name: &str, _value: &str) {}
}

type Child = HtmlElement<Span, (), &'static str, Styled>;

type View = HtmlElement<
    P,
    (
        tachydom::html::class::Class<&'static str, Styled>,
        tachydom::html::style::Style<&'static str, Styled>,
    ),
    Option<Child>,
    Styled,
>;

fn view(child: Option<&'static str>) -> View {
    p(
        (class("foo bar"), style("display:block")),
        child.map(|text| span((), text)),
    )
}

fn markup(view: &View) -> String {
    let mut html = String::new();
    view.to_html_with_buf(&mut html, &mut PositionState::new(Position::FirstChild));
    html
}

#[test]
fn writes_an_element_with_an_optional_child() {
    assert_eq!(
        markup(&view(Some("x"))),
        "<p class=\"foo bar\" style=\"display:block;\"><span>x</span></p>"
    );
    assert_eq!(
        markup(&view(None)),
        "<p class=\"foo bar\" style=\"display:block;\"><!--Option--></p>"
    );
}

/// The document that a browser makes of the markup, under a root.
fn parsed(rndr: &mut Styled, child: Option<&str>) -> (Element, Element, Node) {
    let root = rndr.create_element::<Main>();
    let el = rndr.create_element::<P>();
    rndr.set_attribute(&el, "class", "foo bar");
    rndr.set_attribute(&el, "style", "display:block;");
    rndr.insert_node(&root, el.as_node(), None);
    let inner = match child {
        Some(text) => {
            let child = rndr.create_element::<Span>();
            let text = rndr.create_text_node(text);
            rndr.insert_node(&child, text.as_node(), None);
            *child.as_node()
        }
        None => *rndr.create_placeholder().as_node(),
    };
    rndr.insert_node(&el, &inner, None);
    (root, el, inner)
}

#[test]
fn hydration_tells_a_present_child_from_an_absent_one_as_a_build_does() {
    for child in [Some("x"), None] {
        // hydrated from what the browser made of the markup
        let mut rndr = Styled(MockDom::new());
        let (root, el, inner) = parsed(&mut rndr, child);
        let mut cursor = Cursor::new(root);
        let mut position = PositionState::new(Position::FirstChild);
        let hydrated = view(child)
            .hydrate::<true>(&mut rndr, &mut cursor, &mut position)
            .expect("the document holds what was written");
        assert_eq!(hydrated.el, el);
        assert_eq!(hydrated.attrs.0 .1, "foo bar");
        assert_eq!(hydrated.attrs.1 .1, "display:block");

        // built from scratch
        let mut fresh = Styled(MockDom::new());
        let built = view(child).build(&mut fresh);

        // the two states are of one shape, each over its own nodes
        match (&hydrated.children, &built.children) {
            (OptionState::Present(hydrated), OptionState::Present(built)) => {
                assert_eq!(child, Some("x"));
                assert_eq!(*hydrated.el.as_node(), inner);
                assert_eq!(hydrated.children.str, built.children.str);
                assert_eq!(
                    hydrated.el.to_debug_html(&rndr.0),
                    built.el.to_debug_html(&fresh.0)
                );
            }
            (OptionState::Absent(hydrated), OptionState::Absent(_)) => {
                assert_eq!(child, None);
                assert_eq!(*hydrated.as_node(), inner);
            }
            _ => panic!("hydration and build disagree on whether the child is there"),
        }
        assert_eq!(built.attrs.0 .1, hydrated.attrs.0 .1);
        assert_eq!(built.attrs.1 .1, hydrated.attrs.1 .1);
        // but for the semicolon that closes the style in markup, the
        // documents are the same
        assert_eq!(
            hydrated.el.to_debug_html(&rndr.0).replace("display:block;", "display:block"),
            built.el.to_debug_html(&fresh.0)
        );
    }
}

#[test]
fn toggling_leaves_exactly_one_of_content_and_marker() {
    let mut rndr = Styled(MockDom::new());
    let root = rndr.create_element::<Main>();
    let mut state = view(Some("x")).build(&mut rndr);
    state.mount(&mut rndr, &root, None);
    let shown = |rndr: &Styled, el: &Element| {
        let mut kinds = Vec::new();
        let mut next = rndr.first_child(el.as_node());
        while let Some(node) = next {
            kinds.push(rndr.cast_placeholder(node).is_some());
            next = rndr.next_sibling(&node);
        }
        kinds
    };
    assert_eq!(shown(&rndr, &state.el), vec![false]);
    // Some => None
    view(None).rebuild(&mut state, &mut rndr);
    assert_eq!(shown(&rndr, &state.el), vec![true]);
    assert_eq!(
        root.to_debug_html(&rndr.0),
        "<main><p class=\"foo bar\" style=\"display:block\"><!></p></main>"
    );
    // None => Some
    view(Some("y")).rebuild(&mut state, &mut rndr);
    assert_eq!(shown(&rndr, &state.el), vec![false]);
    assert_eq!(
        root.to_debug_html(&rndr.0),
        "<main><p class=\"foo bar\" style=\"display:block\"><span>y</span></p></main>"
    );
    // and once more
    view(None).rebuild(&mut state, &mut rndr);
    assert_eq!(shown(&rndr, &state.el), vec![true]);
}
