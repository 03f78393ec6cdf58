use tachydom::html::element::{p, HtmlElement};
use tachydom::html::islands::{Island, IslandChildren};
use tachydom::renderer::mock_dom::MockDom;
use tachydom::ssr::{StreamBuilder, StreamChunk};
use tachydom::view::{Position, PositionState, Render, RenderHtml};

#[test]
fn an_island_is_written_in_its_container() {
    let mut html = String::new();
    let island: Island<MockDom, _> = Island::new("Counter", p((), "0"));
    let mut position = PositionState::new(Position::FirstChild);
    RenderHtml::<MockDom>::to_html_with_buf(&island, &mut html, &mut position);
    assert_eq!(
        html,
        "<leptos-island data-component=\"Counter\"><p>0</p></leptos-island>"
    );
    assert_eq!(position.get(), Position::NextChild);
}

#[test]
fn island_children_are_written_in_their_container() {
    let mut html = String::new();
    let children: IslandChildren<MockDom, _> = IslandChildren::new(("a", "b"));
    RenderHtml::<MockDom>::to_html_with_buf(
        &children,
        &mut html,
        &mut PositionState::new(Position::FirstChild),
    );
    assert_eq!(html, "<leptos-children>a<!>b</leptos-children>");
}

#[test]
fn islands_build_what_is_in_them_and_island_children_build_nothing() {
    let mut dom = MockDom::new();
    let view: HtmlElement<_, _, _, MockDom> = p((), "0");
    let island: Island<MockDom, _> = Island::new("Counter", view);
    let state = island.build(&mut dom);
    assert_eq!(state.el.to_debug_html(&dom), "<p>0</p>");

    let before = dom.document().len();
    let children: IslandChildren<MockDom, _> = IslandChildren::new("static");
    children.build(&mut dom);
    assert_eq!(dom.document().len(), before);
}

#[test]
fn an_island_streams_its_tags_at_once() {
    let mut stream = StreamBuilder::new();
    let island: Island<MockDom, _> = Island::new("Counter", "0");
    RenderHtml::<MockDom>::to_html_async_with_buf::<true>(
        &island,
        &mut stream,
        &mut PositionState::new(Position::FirstChild),
    );
    assert_eq!(
        stream.take_ready(),
        "<leptos-island data-component=\"Counter\">0</leptos-island>"
    );
}

#[test]
fn a_stream_holds_back_what_follows_an_open_slot() {
    let mut stream = StreamBuilder::new();
    stream.push_sync("<main>");
    let first = stream.push_async::<false>();
    stream.push_sync("<hr>");
    let second = stream.push_async::<false>();
    stream.push_sync("</main>");
    assert_eq!((first, second), (0, 1));

    assert_eq!(stream.take_ready(), "<main>");
    assert_eq!(stream.take_ready(), "");
    // the later slot is filled first: nothing is ready yet
    assert_eq!(stream.resolve(second, "<p>2</p>"), None);
    assert_eq!(stream.take_ready(), "");
    assert_eq!(stream.resolve(first, "<p>1</p>"), None);
    assert_eq!(stream.take_ready(), "<p>1</p><hr><p>2</p></main>");
    assert!(stream.finish().is_empty());
}

#[test]
fn a_finished_stream_hands_out_its_pieces() {
    let mut stream = StreamBuilder::new();
    stream.push_sync("a");
    stream.push_sync("b");
    let slot = stream.push_async::<false>();
    stream.push_sync("c");
    let chunks = stream.finish();
    assert_eq!(chunks.len(), 3);
    assert!(matches!(&chunks[0], StreamChunk::Sync(text) if text == "ab"));
    assert!(matches!(&chunks[1], StreamChunk::Pending(id) if *id == slot));
    assert!(matches!(&chunks[2], StreamChunk::Sync(text) if text == "c"));
}

#[test]
fn a_slot_out_of_order_holds_nothing_back() {
    let mut stream = StreamBuilder::new();
    stream.push_sync("<main>");
    let slot = stream.push_async::<true>();
    stream.push_sync("</main>");
    // what follows the slot does not wait for it
    assert_eq!(stream.take_ready(), "<main></main>");
    // and what it resolves to goes out at once, once
    assert_eq!(stream.resolve(slot, "<p>late</p>"), Some("<p>late</p>".to_string()));
    assert_eq!(stream.resolve(slot, "<p>late</p>"), None);
    assert_eq!(stream.take_ready(), "");
}
