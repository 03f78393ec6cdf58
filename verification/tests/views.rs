use tachydom::html::class::class;
use tachydom::html::element::{button, main, p, span, HtmlElement, Main};
use tachydom::renderer::mock_dom::MockDom;
use tachydom::renderer::Renderer;
use tachydom::view::either::Either;
use tachydom::view::{to_html, Mountable, Position, PositionState, Render, RenderHtml};

fn children_of(dom: &MockDom, parent: &tachydom::renderer::mock_dom::Element) -> usize {
    let mut count = 0;
    let mut next = dom.first_child(parent.as_node());
    while let Some(node) = next {
        count += 1;
        next = dom.next_sibling(&node);
    }
    count
}

#[test]
fn builds_text_under_an_element() {
    let mut dom = MockDom::new();
    let app: HtmlElement<_, _, _, MockDom> = button((), "0");
    let el = app.build(&mut dom);
    assert_eq!(el.el.to_debug_html(&dom), "<button>0</button>");
}

#[test]
fn builds_nested_elements_with_a_class() {
    let mut dom = MockDom::new();
    let app: HtmlElement<_, _, _, MockDom> = main(
        (),
        (p(class("foo bar"), "Hello, "), span((), "world"), "!"),
    );
    let el = app.build(&mut dom);
    assert_eq!(
        el.el.to_debug_html(&dom),
        "<main><p class=\"foo bar\">Hello, </p><span>world</span>!</main>"
    );
}

#[test]
fn rebuild_changes_only_the_text_that_differs() {
    let mut dom = MockDom::new();
    let app: HtmlElement<_, _, _, MockDom> = main((), ("Hello, my ", "0", " friends."));
    let mut el = app.build(&mut dom);
    assert_eq!(
        el.el.to_debug_html(&dom),
        "<main>Hello, my 0 friends.</main>"
    );
    let app: HtmlElement<_, _, _, MockDom> = main((), ("Hello, my ", "42", " friends."));
    app.rebuild(&mut el, &mut dom);
    assert_eq!(
        el.el.to_debug_html(&dom),
        "<main>Hello, my 42 friends.</main>"
    );
}

#[test]
fn option_toggles_between_content_and_marker() {
    let mut dom = MockDom::new();
    let root = dom.create_element::<Main>();
    let mut state = Some("shown").build(&mut dom);
    state.mount(&mut dom, &root, None);
    assert_eq!(root.to_debug_html(&dom), "<main>shown</main>");
    assert_eq!(children_of(&dom, &root), 1);

    // Some => None: exactly one marker, no content
    None::<&str>.rebuild(&mut state, &mut dom);
    assert_eq!(root.to_debug_html(&dom), "<main><!></main>");
    assert_eq!(children_of(&dom, &root), 1);

    // None => Some: exactly one content node, no marker
    Some("again").rebuild(&mut state, &mut dom);
    assert_eq!(root.to_debug_html(&dom), "<main>again</main>");
    assert_eq!(children_of(&dom, &root), 1);
}

#[test]
fn option_keeps_its_place_among_siblings() {
    let mut dom = MockDom::new();
    let app: HtmlElement<_, _, _, MockDom> = main((), ("a", Some(span((), "b")), "c"));
    let mut el = app.build(&mut dom);
    assert_eq!(el.el.to_debug_html(&dom), "<main>a<span>b</span>c</main>");
    let app: HtmlElement<_, _, _, MockDom> =
        main((), ("a", None::<HtmlElement<_, (), &str, MockDom>>, "c"));
    app.rebuild(&mut el, &mut dom);
    assert_eq!(el.el.to_debug_html(&dom), "<main>a<!>c</main>");
    let app: HtmlElement<_, _, _, MockDom> = main((), ("a", Some(span((), "d")), "c"));
    app.rebuild(&mut el, &mut dom);
    assert_eq!(el.el.to_debug_html(&dom), "<main>a<span>d</span>c</main>");
}

#[test]
fn either_swaps_in_front_of_its_marker() {
    let mut dom = MockDom::new();
    let root = dom.create_element::<Main>();
    let view: Either<&str, HtmlElement<_, (), &str, MockDom>> = Either::Left("loading");
    let mut state = view.build(&mut dom);
    state.mount(&mut dom, &root, None);
    assert_eq!(root.to_debug_html(&dom), "<main>loading<!></main>");
    let view: Either<&str, HtmlElement<_, (), &str, MockDom>> = Either::Right(p((), "done"));
    view.rebuild(&mut state, &mut dom);
    assert_eq!(root.to_debug_html(&dom), "<main><p>done</p><!></main>");
}

#[test]
fn writes_markup_with_markers() {
    let mut html = String::new();
    let app: HtmlElement<_, _, _, MockDom> = main(
        class("app"),
        ("a", "b", None::<&str>),
    );
    app.to_html_with_buf(&mut html, &mut PositionState::new(Position::FirstChild));
    assert_eq!(html, "<main class=\"app\">a<!>b<!--Option--></main>");
}

#[test]
fn writes_the_markup_of_a_whole_view() {
    let app: HtmlElement<_, _, _, MockDom> = main((), (p((), "a"), Some("b"), "c"));
    assert_eq!(to_html(&app), "<main><p>a</p>b<!>c</main>");
    let alternative: Either<&str, HtmlElement<_, (), &str, MockDom>> = Either::Right(p((), "x"));
    assert_eq!(to_html::<MockDom, _>(&alternative), "<p>x</p><!>");
    assert_eq!(to_html::<MockDom, _>(&()), "");
}
