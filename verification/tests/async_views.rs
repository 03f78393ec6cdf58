use tachydom::async_views::{resolve, FutureViewExt, Suspend};
use tachydom::html::element::Main;
use tachydom::renderer::mock_dom::MockDom;
use tachydom::renderer::Renderer;
use tachydom::view::either::Either;
use tachydom::view::Mountable;

#[test]
fn a_ready_future_never_shows_the_fallback() {
    let mut dom = MockDom::new();
    let root = dom.create_element::<Main>();
    let view: Suspend<&str, _> = std::future::ready("done").suspend().with_fallback("loading");
    let built = match view.build(&mut dom) {
        Ok(built) => built,
        Err(_) => panic!("the document has room"),
    };
    assert!(built.pending.is_none());
    assert!(matches!(built.state.state, Either::Right(_)));
    built.state.mount(&mut dom, &root, None);
    assert_eq!(root.to_debug_html(&dom), "<main>done<!></main>");
}

#[test]
fn a_pending_future_shows_the_fallback_until_it_resolves() {
    let mut dom = MockDom::new();
    let root = dom.create_element::<Main>();
    let view: Suspend<&str, std::future::Pending<&str>> =
        std::future::pending::<&str>().suspend().with_fallback("loading");
    let mut built = match view.build(&mut dom) {
        Ok(built) => built,
        Err(_) => panic!("the document has room"),
    };
    assert!(built.pending.is_some());
    assert!(matches!(built.state.state, Either::Left(_)));
    built.state.mount(&mut dom, &root, None);
    assert_eq!(root.to_debug_html(&dom), "<main>loading<!></main>");

    // the value arrives: the state goes over to it in place, once
    resolve("done", &mut built.state, &mut dom);
    assert_eq!(root.to_debug_html(&dom), "<main>done<!></main>");
    resolve("done", &mut built.state, &mut dom);
    assert_eq!(root.to_debug_html(&dom), "<main>done<!></main>");
}

#[test]
fn rebuilding_falls_back_to_the_fallback() {
    let mut dom = MockDom::new();
    let root = dom.create_element::<Main>();
    let view: Suspend<&str, _> = std::future::ready("done").suspend().with_fallback("loading");
    let mut built = match view.build(&mut dom) {
        Ok(built) => built,
        Err(_) => panic!("the document has room"),
    };
    built.state.mount(&mut dom, &root, None);
    let view: Suspend<&str, _> = std::future::ready("again").suspend().with_fallback("loading");
    let _fut = view.rebuild(&mut built.state, &mut dom);
    assert_eq!(root.to_debug_html(&dom), "<main>loading<!></main>");
}

#[test]
fn suspends_without_a_fallback() {
    let mut dom = MockDom::new();
    let root = dom.create_element::<Main>();
    let view = std::future::pending::<&str>().suspend();
    let mut built = match view.build(&mut dom) {
        Ok(built) => built,
        Err(_) => panic!("the document has room"),
    };
    built.state.mount(&mut dom, &root, None);
    assert_eq!(root.to_debug_html(&dom), "<main><!></main>");
    resolve("done", &mut built.state, &mut dom);
    assert_eq!(root.to_debug_html(&dom), "<main>done<!></main>");
}
