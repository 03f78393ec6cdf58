use tachydom::html::element::{Main, Span, P};
use tachydom::renderer::mock_dom::{node_eq, MockDom};
use tachydom::renderer::Renderer;

#[test]
fn html_debugging_works() {
    let mut dom = MockDom::new();
    let main = dom.create_element::<Main>();
    let p = dom.create_element::<P>();
    dom.set_attribute(&p, "id", "foo");
    let text = dom.create_text_node("Hello, world!");
    dom.insert_node(&main, p.as_node(), None);
    dom.insert_node(&p, text.as_node(), None);
    assert_eq!(
        main.to_debug_html(&dom),
        "<main><p id=\"foo\">Hello, world!</p></main>"
    );
}

#[test]
fn remove_attribute_works() {
    let mut dom = MockDom::new();
    let main = dom.create_element::<Main>();
    let p = dom.create_element::<P>();
    dom.set_attribute(&p, "id", "foo");
    let text = dom.create_text_node("Hello, world!");
    dom.insert_node(&main, p.as_node(), None);
    dom.insert_node(&p, text.as_node(), None);
    dom.remove_attribute(&p, "id");
    assert_eq!(main.to_debug_html(&dom), "<main><p>Hello, world!</p></main>");
}

#[test]
fn remove_node_works() {
    let mut dom = MockDom::new();
    let main = dom.create_element::<Main>();
    let p = dom.create_element::<P>();
    dom.set_attribute(&p, "id", "foo");
    let text = dom.create_text_node("Hello, world!");
    dom.insert_node(&main, p.as_node(), None);
    dom.insert_node(&p, text.as_node(), None);
    dom.remove_node(&main, p.as_node());
    assert_eq!(main.to_debug_html(&dom), "<main></main>");
}

#[test]
fn insert_before_works() {
    let mut dom = MockDom::new();
    let main = dom.create_element::<Main>();
    let p = dom.create_element::<P>();
    let span = dom.create_element::<Span>();
    let text = dom.create_text_node("Hello, world!");
    dom.insert_node(&main, p.as_node(), None);
    dom.insert_node(&span, text.as_node(), None);
    dom.insert_node(&main, span.as_node(), Some(p.as_node()));
    assert_eq!(
        main.to_debug_html(&dom),
        "<main><span>Hello, world!</span><p></p></main>"
    );
}

#[test]
fn insert_before_sets_parent() {
    let mut dom = MockDom::new();
    let main = dom.create_element::<Main>();
    let p = dom.create_element::<P>();
    dom.insert_node(&main, p.as_node(), None);
    let parent = dom
        .get_parent(p.as_node())
        .expect("p should have parent set");
    assert!(node_eq(&parent, main.as_node()));
}

#[test]
fn insert_before_moves_node() {
    let mut dom = MockDom::new();
    let main = dom.create_element::<Main>();
    let p = dom.create_element::<P>();
    let span = dom.create_element::<Span>();
    let text = dom.create_text_node("Hello, world!");
    dom.insert_node(&main, p.as_node(), None);
    dom.insert_node(&span, text.as_node(), None);
    dom.insert_node(&main, span.as_node(), Some(p.as_node()));
    dom.insert_node(&main, p.as_node(), Some(span.as_node()));
    assert_eq!(
        main.to_debug_html(&dom),
        "<main><p></p><span>Hello, world!</span></main>"
    );
}

#[test]
fn first_child_gets_first_child() {
    let mut dom = MockDom::new();
    let main = dom.create_element::<Main>();
    let p = dom.create_element::<P>();
    let span = dom.create_element::<Span>();
    dom.insert_node(&main, p.as_node(), None);
    dom.insert_node(&p, span.as_node(), None);
    assert_eq!(dom.first_child(main.as_node()).as_ref(), Some(p.as_node()));
    assert_eq!(
        dom.first_child(&dom.first_child(main.as_node()).unwrap())
            .as_ref(),
        Some(span.as_node())
    );
}

#[test]
fn next_sibling_gets_next_sibling() {
    let mut dom = MockDom::new();
    let main = dom.create_element::<Main>();
    let p = dom.create_element::<P>();
    let span = dom.create_element::<Span>();
    let text = dom.create_text_node("foo");
    dom.insert_node(&main, p.as_node(), None);
    dom.insert_node(&main, span.as_node(), None);
    dom.insert_node(&main, text.as_node(), None);
    assert_eq!(dom.next_sibling(p.as_node()).as_ref(), Some(span.as_node()));
    assert_eq!(
        dom.next_sibling(span.as_node()).as_ref(),
        Some(text.as_node())
    );
}
