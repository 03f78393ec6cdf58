use tachydom::html::class::class;
use tachydom::html::element::{main, p, span, Div, HtmlElement, Main, Span, P};
use tachydom::hydration::{Cursor, HydrationMismatch};
use tachydom::renderer::mock_dom::{node_eq, MockDom};
use tachydom::renderer::Renderer;
use tachydom::view::iterators::OptionState;
use tachydom::view::{Position, PositionState, Render, RenderHtml};

#[test]
fn hydrates_plain_text() {
    let mut dom = MockDom::new();
    // <main>hello</main>
    let root = dom.create_element::<Main>();
    let text = dom.create_text_node("hello");
    dom.insert_node(&root, text.as_node(), None);

    let mut cursor = Cursor::new(root);
    let mut position = PositionState::new(Position::FirstChild);
    let mut state = "hello"
        .hydrate::<true>(&mut dom, &mut cursor, &mut position)
        .expect("the document holds a text node");
    assert!(node_eq(state.node.as_node(), text.as_node()));
    assert_eq!(state.str, "hello");
    assert_eq!(position.get(), Position::NextChildAfterText);
    assert!(node_eq(&cursor.current(), text.as_node()));

    // the state is live: rebuilding writes to the node that was there
    "goodbye".rebuild(&mut state, &mut dom);
    assert_eq!(root.to_debug_html(&dom), "<main>goodbye</main>");
}

#[test]
fn hydrating_a_template_sets_the_text() {
    let mut dom = MockDom::new();
    let root = dom.create_element::<Main>();
    let text = dom.create_text_node(" ");
    dom.insert_node(&root, text.as_node(), None);

    let mut cursor = Cursor::new(root);
    let mut position = PositionState::new(Position::FirstChild);
    "hello"
        .hydrate::<false>(&mut dom, &mut cursor, &mut position)
        .expect("the document holds a text node");
    assert_eq!(root.to_debug_html(&dom), "<main>hello</main>");
}

#[test]
fn hydrates_an_element_with_a_static_attribute() {
    let mut dom = MockDom::new();
    // <div><main class="foo bar"></main></div>
    let root = dom.create_element::<Div>();
    let el = dom.create_element::<Main>();
    dom.set_attribute(&el, "class", "foo bar");
    dom.insert_node(&root, el.as_node(), None);

    let view: HtmlElement<_, _, _, MockDom> = main(class("foo bar"), ());
    let mut cursor = Cursor::new(root);
    let mut position = PositionState::new(Position::FirstChild);
    let mut state = view
        .hydrate::<true>(&mut dom, &mut cursor, &mut position)
        .expect("the document holds the element");
    assert!(node_eq(state.el.as_node(), el.as_node()));
    assert_eq!(state.attrs.1, "foo bar");
    assert_eq!(position.get(), Position::NextChild);

    let view: HtmlElement<_, _, _, MockDom> = main(class("baz"), ());
    view.rebuild(&mut state, &mut dom);
    assert_eq!(
        root.to_debug_html(&dom),
        "<div><main class=\"baz\"></main></div>"
    );
}

#[test]
fn hydrates_an_optional_child_that_is_present_or_absent() {
    // present: <main><span>b</span></main>
    let mut dom = MockDom::new();
    let root = dom.create_element::<Main>();
    let child = dom.create_element::<Span>();
    let text = dom.create_text_node("b");
    dom.insert_node(&child, text.as_node(), None);
    dom.insert_node(&root, child.as_node(), None);
    let view: Option<HtmlElement<Span, (), &str, MockDom>> = Some(span((), "b"));
    let mut cursor = Cursor::new(root);
    let mut position = PositionState::new(Position::FirstChild);
    let state = view
        .hydrate::<true>(&mut dom, &mut cursor, &mut position)
        .expect("the document holds the child");
    match &state {
        OptionState::Present(inner) => {
            assert!(node_eq(inner.el.as_node(), child.as_node()));
            assert!(node_eq(inner.children.node.as_node(), text.as_node()));
        }
        OptionState::Absent(_) => panic!("a present child was hydrated as absent"),
    }
    // the same states as a fresh build gives
    let built = Some(span((), "b")).build(&mut dom);
    assert!(matches!(built, OptionState::<HtmlElement<Span, (), &str, MockDom>, MockDom>::Present(_)));

    // absent: <main><!></main>
    let mut dom = MockDom::new();
    let root = dom.create_element::<Main>();
    let marker = dom.create_placeholder();
    dom.insert_node(&root, marker.as_node(), None);
    let view: Option<HtmlElement<Span, (), &str, MockDom>> = None;
    let mut cursor = Cursor::new(root);
    let mut position = PositionState::new(Position::FirstChild);
    let mut state = view
        .hydrate::<true>(&mut dom, &mut cursor, &mut position)
        .expect("the document holds the marker");
    match &state {
        OptionState::Absent(found) => assert!(node_eq(found.as_node(), marker.as_node())),
        OptionState::Present(_) => panic!("an absent child was hydrated as present"),
    }
    let built = None::<HtmlElement<Span, (), &str, MockDom>>.build(&mut dom);
    assert!(matches!(built, OptionState::Absent(_)));

    // and the hydrated state toggles in place
    Some(span((), "now")).rebuild(&mut state, &mut dom);
    assert_eq!(root.to_debug_html(&dom), "<main><span>now</span></main>");
}

#[test]
fn hydrates_a_tuple_of_three_mixed_children() {
    let mut dom = MockDom::new();
    // <main><p>a</p>b<span>c</span></main>
    let root = dom.create_element::<Main>();
    let first = dom.create_element::<P>();
    let a = dom.create_text_node("a");
    dom.insert_node(&first, a.as_node(), None);
    let b = dom.create_text_node("b");
    let third = dom.create_element::<Span>();
    let c = dom.create_text_node("c");
    dom.insert_node(&third, c.as_node(), None);
    dom.insert_node(&root, first.as_node(), None);
    dom.insert_node(&root, b.as_node(), None);
    dom.insert_node(&root, third.as_node(), None);

    let view: (
        HtmlElement<P, (), &str, MockDom>,
        &str,
        HtmlElement<Span, (), &str, MockDom>,
    ) = (p((), "a"), "b", span((), "c"));
    let mut cursor = Cursor::new(root);
    let mut position = PositionState::new(Position::FirstChild);
    let state = view
        .hydrate::<true>(&mut dom, &mut cursor, &mut position)
        .expect("the document holds the three children");
    assert!(node_eq(state.0.el.as_node(), first.as_node()));
    assert!(node_eq(state.0.children.node.as_node(), a.as_node()));
    assert!(node_eq(state.1.node.as_node(), b.as_node()));
    assert!(node_eq(state.2.el.as_node(), third.as_node()));
    assert!(node_eq(state.2.children.node.as_node(), c.as_node()));
    assert!(node_eq(&cursor.current(), third.as_node()));
    assert_eq!(position.get(), Position::NextChild);
}

#[test]
fn passes_over_the_marker_between_two_texts() {
    let mut dom = MockDom::new();
    // <main>a<!>b</main>
    let root = dom.create_element::<Main>();
    let a = dom.create_text_node("a");
    let between = dom.create_placeholder();
    let b = dom.create_text_node("b");
    dom.insert_node(&root, a.as_node(), None);
    dom.insert_node(&root, between.as_node(), None);
    dom.insert_node(&root, b.as_node(), None);

    let mut html = String::new();
    let view: HtmlElement<Main, (), _, MockDom> = main((), ("a", "b"));
    view.to_html_with_buf(&mut html, &mut PositionState::new(Position::FirstChild));
    assert_eq!(html, root.to_debug_html(&dom));

    let mut cursor = Cursor::new(root);
    let mut position = PositionState::new(Position::FirstChild);
    let state = ("a", "b")
        .hydrate::<true>(&mut dom, &mut cursor, &mut position)
        .expect("the document holds two texts");
    assert!(node_eq(state.0.node.as_node(), a.as_node()));
    assert!(node_eq(state.1.node.as_node(), b.as_node()));
}

#[test]
fn reports_a_mismatch() {
    let mut dom = MockDom::new();
    // <main><p></p></main> is no text
    let root = dom.create_element::<Main>();
    let child = dom.create_element::<P>();
    dom.insert_node(&root, child.as_node(), None);
    let mut cursor = Cursor::new(root);
    let mut position = PositionState::new(Position::FirstChild);
    let result = "text".hydrate::<true>(&mut dom, &mut cursor, &mut position);
    assert_eq!(result.err(), Some(HydrationMismatch));

    // an empty element holds no child at all
    let mut cursor = Cursor::new(child);
    let mut position = PositionState::new(Position::FirstChild);
    let result = None::<&str>.hydrate::<true>(&mut dom, &mut cursor, &mut position);
    assert_eq!(result.err(), Some(HydrationMismatch));
}
