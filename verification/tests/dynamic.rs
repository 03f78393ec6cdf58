use leptos_reactive::{create_render_effect, create_runtime, Effect, RwSignal, SignalGet, SignalSet};
use std::cell::RefCell;
use std::rc::Rc;
use tachydom::html::element::{button, main, ElementType, HtmlElement};
use tachydom::renderer::mock_dom::{Element, MockDom, Node, Placeholder, Text};
use tachydom::renderer::Renderer;
use tachydom::view::dynamic::render_effect_step;
use tachydom::view::{Mountable, Render};

/// The in-memory renderer, in a form that effects can keep hold of.
#[derive(Clone)]
struct Shared(Rc<RefCell<MockDom>>);

impl Shared {
    fn new() -> Self {
        Shared(Rc::new(RefCell::new(MockDom::new())))
    }

    fn debug_html(&self, el: &Element) -> String {
        el.to_debug_html(&self.0.borrow())
    }
}

impl Renderer for Shared {
    type Node = Node;
    type Element = Element;
    type Text = Text;
    type Placeholder = Placeholder;

    fn nodes_left(&self) -> usize {
        self.0.borrow_mut().nodes_left()
    }

    fn create_element<E: ElementType>(&mut self) -> Element {
        self.0.borrow_mut().create_element::<E>()
    }

    fn create_text_node(&mut self, text: &str) -> Text {
        self.0.borrow_mut().create_text_node(text)
    }

    fn create_placeholder(&mut self) -> Placeholder {
        self.0.borrow_mut().create_placeholder()
    }

    fn set_text(&mut self, node: &Text, text: &str) {
        self.0.borrow_mut().set_text(node, text)
    }

    fn set_attribute(&mut self, node: &Element, name: &str, value: &str) {
        self.0.borrow_mut().set_attribute(node, name, value)
    }

    fn remove_attribute(&mut self, node: &Element, name: &str) {
        self.0.borrow_mut().remove_attribute(node, name)
    }

    fn insert_node(&mut self, parent: &Element, new_child: &Node, anchor: Option<&Node>) {
        self.0.borrow_mut().insert_node(parent, new_child, anchor)
    }

    fn remove_node(&mut self, parent: &Element, child: &Node) -> Option<Node> {
        self.0.borrow_mut().remove_node(parent, child)
    }

    fn remove(&mut self, node: &Node) {
        self.0.borrow_mut().remove(node)
    }

    fn get_parent(&self, node: &Node) -> Option<Node> {
        self.0.borrow_mut().get_parent(node)
    }

    fn first_child(&self, node: &Node) -> Option<Node> {
        self.0.borrow_mut().first_child(node)
    }

    fn next_sibling(&self, node: &Node) -> Option<Node> {
        self.0.borrow_mut().next_sibling(node)
    }

    fn cast_element(&self, node: Node) -> Option<Element> {
        self.0.borrow_mut().cast_element(node)
    }

    fn cast_text(&self, node: Node) -> Option<Text> {
        self.0.borrow_mut().cast_text(node)
    }

    fn cast_placeholder(&self, node: Node) -> Option<Placeholder> {
        self.0.borrow_mut().cast_placeholder(node)
    }

    fn clone_element(el: &Element) -> Element {
        *el
    }

    fn clone_node(node: &Node) -> Node {
        *node
    }

    fn element_node(el: &Element) -> Node {
        *el.as_node()
    }

    fn text_node(text: &Text) -> Node {
        *text.as_node()
    }

    fn placeholder_node(marker: &Placeholder) -> Node {
        *marker.as_node()
    }
}


/// A function that returns a view, as a view that an effect keeps up to
/// date.
struct Dynamic<F>(F, Shared);

struct EffectState<S: 'static>(Effect<S>);

impl<F, V> Render<Shared> for Dynamic<F>
where
    F: Fn() -> V + 'static,
    V: Render<Shared>,
    V::State: 'static,
{
    type State = EffectState<V::State>;

    fn demand(&self) -> usize {
        0
    }

    fn build(self, _rndr: &mut Shared) -> Self::State {
        let Dynamic(f, rndr) = self;
        EffectState(create_render_effect(move |prev| {
            let value = f();
            render_effect_step(value, prev, &mut rndr.clone())
        }))
    }

    fn rebuild(self, state: &mut Self::State, rndr: &mut Shared) {
        *state = self.build(rndr);
    }
}

impl<M> Mountable<Shared> for EffectState<M>
where
    M: Mountable<Shared> + 'static,
{
    fn unmount(&self, rndr: &mut Shared) {
        self.0.with_value_mut(|value| {
            if let Some(value) = value {
                value.unmount(rndr)
            }
        });
    }

    fn mount(&self, rndr: &mut Shared, parent: &Element, marker: Option<&Node>) {
        self.0.with_value_mut(|value| {
            if let Some(state) = value {
                state.mount(rndr, parent, marker);
            }
        });
    }

    fn anchor_node(&self, rndr: &Shared) -> Option<Node> {
        self.0
            .with_value_mut(|value| value.as_ref().and_then(|state| state.anchor_node(rndr)))
            .flatten()
    }
}

#[test]
fn create_dynamic_element() {
    let rt = create_runtime();
    let count = RwSignal::new(0);
    let mut rndr = Shared::new();
    let app: HtmlElement<_, _, _, Shared> = button(
        (),
        Dynamic(move || count.get().to_string(), rndr.clone()),
    );
    let el = app.build(&mut rndr);
    assert_eq!(rndr.debug_html(&el.el), "<button>0</button>");
    rt.dispose();
}

#[test]
fn update_dynamic_element() {
    let rt = create_runtime();
    let count = RwSignal::new(0);
    let mut rndr = Shared::new();
    let app: HtmlElement<_, _, _, Shared> = button(
        (),
        Dynamic(move || count.get().to_string(), rndr.clone()),
    );
    let el = app.build(&mut rndr);
    assert_eq!(rndr.debug_html(&el.el), "<button>0</button>");
    count.set(1);
    assert_eq!(rndr.debug_html(&el.el), "<button>1</button>");
    rt.dispose();
}

#[test]
fn update_dynamic_element_among_siblings() {
    let rt = create_runtime();
    let count = RwSignal::new(0);
    let mut rndr = Shared::new();
    let app: HtmlElement<_, _, _, Shared> = main(
        (),
        button(
            (),
            (
                "Hello, my ",
                Dynamic(move || count.get().to_string(), rndr.clone()),
                " friends.",
            ),
        ),
    );
    let el = app.build(&mut rndr);
    assert_eq!(
        rndr.debug_html(&el.el),
        "<main><button>Hello, my 0 friends.</button></main>"
    );
    count.set(42);
    assert_eq!(
        rndr.debug_html(&el.el),
        "<main><button>Hello, my 42 friends.</button></main>"
    );
    rt.dispose();
}
