use tachydom::html::element::{Div, Main};
use tachydom::html::islands::IslandChildren;
use tachydom::hydration::{Cursor, HydrationMismatch};
use tachydom::renderer::mock_dom::{node_eq, MockDom};
use tachydom::renderer::Renderer;
use tachydom::view::iterators::OptionState;
use tachydom::view::{Position, PositionState, RenderHtml};

#[test]
fn an_absent_option_is_found_at_the_next_sibling_of_the_current_node() {
    let mut dom = MockDom::new();
    // <main><div></div><!----></main>
    let root = dom.create_element::<Main>();
    let first = dom.create_element::<Div>();
    let marker = dom.create_placeholder();
    dom.insert_node(&root, first.as_node(), None);
    dom.insert_node(&root, marker.as_node(), None);

    // the walk stands on the first child: the marker is the node after it
    let mut cursor = Cursor::new(first);
    let mut position = PositionState::new(Position::Current);
    let state = None::<&str>
        .hydrate::<true>(&mut dom, &mut cursor, &mut position)
        .expect("the marker follows the node at hand");
    match state {
        OptionState::Absent(found) => assert!(node_eq(found.as_node(), marker.as_node())),
        OptionState::Present(_) => panic!("there is no value"),
    }
    assert!(node_eq(&cursor.current(), marker.as_node()));
    assert_eq!(position.get(), Position::NextChild);
}

#[test]
fn an_absent_option_is_found_at_the_first_child_and_at_the_next_child() {
    let mut dom = MockDom::new();
    // <main><!----><!----></main>
    let root = dom.create_element::<Main>();
    let one = dom.create_placeholder();
    let two = dom.create_placeholder();
    dom.insert_node(&root, one.as_node(), None);
    dom.insert_node(&root, two.as_node(), None);

    let mut cursor = Cursor::new(root);
    let mut position = PositionState::new(Position::FirstChild);
    let state = (None::<&str>, None::<&str>)
        .hydrate::<true>(&mut dom, &mut cursor, &mut position)
        .expect("the document holds two markers");
    match state {
        (OptionState::Absent(a), OptionState::Absent(b)) => {
            assert!(node_eq(a.as_node(), one.as_node()));
            assert!(node_eq(b.as_node(), two.as_node()));
        }
        _ => panic!("there are no values"),
    }
    assert!(node_eq(&cursor.current(), two.as_node()));
}

#[test]
fn an_absent_option_with_no_node_to_move_on_to_is_a_mismatch() {
    let mut dom = MockDom::new();
    // <main><!----></main>
    let root = dom.create_element::<Main>();
    let marker = dom.create_placeholder();
    dom.insert_node(&root, marker.as_node(), None);

    // the marker itself is the node at hand: nothing follows it
    let mut cursor = Cursor::from_node(*marker.as_node());
    let mut position = PositionState::new(Position::Current);
    let result = None::<&str>.hydrate::<true>(&mut dom, &mut cursor, &mut position);
    assert!(matches!(result, Err(HydrationMismatch)));
    assert!(node_eq(&cursor.current(), marker.as_node()));
}

#[test]
fn island_children_are_passed_over_from_the_current_node_too() {
    let mut dom = MockDom::new();
    // <main><div></div><div>static</div></main>
    let root = dom.create_element::<Main>();
    let first = dom.create_element::<Div>();
    let children = dom.create_element::<Div>();
    let inside = dom.create_text_node("static");
    dom.insert_node(&children, inside.as_node(), None);
    dom.insert_node(&root, first.as_node(), None);
    dom.insert_node(&root, children.as_node(), None);

    let view: IslandChildren<MockDom, &str> = IslandChildren::new("static");
    let mut cursor = Cursor::new(first);
    let mut position = PositionState::new(Position::Current);
    view.hydrate::<true>(&mut dom, &mut cursor, &mut position)
        .expect("the container follows the node at hand");
    assert!(node_eq(&cursor.current(), children.as_node()));
    assert_eq!(position.get(), Position::NextChild);
    assert_eq!(
        root.to_debug_html(&dom),
        "<main><div></div><div>static</div></main>"
    );

    // on the first child the walk goes down
    let view: IslandChildren<MockDom, &str> = IslandChildren::new("static");
    let mut cursor = Cursor::new(children);
    let mut position = PositionState::new(Position::FirstChild);
    view.hydrate::<true>(&mut dom, &mut cursor, &mut position)
        .expect("the container holds a text");
    assert!(node_eq(&cursor.current(), inside.as_node()));
}
