use tachydom::html::attribute::Attribute;
use tachydom::html::class::{class, class_toggle_step, IntoClass};
use tachydom::html::element::ElementType;
use tachydom::html::style::{style, style_property_step, IntoStyle, StylePropertyValue};
use tachydom::renderer::{DomRenderer, Renderer};

/// A renderer without a document that records what is asked of it.
struct Recorder {
    asked: Vec<String>,
}

impl Recorder {
    fn new() -> Recorder {
        Recorder { asked: Vec::new() }
    }

    fn taken(&mut self) -> Vec<String> {
        std::mem::take(&mut self.asked)
    }
}

impl Renderer for Recorder {
    type Node = ();
    type Element = ();
    type Text = ();
    type Placeholder = ();

    fn nodes_left(&self) -> usize {
        0
    }

    fn create_element<E: ElementType>(&mut self) {}

    fn create_text_node(&mut self, _text: &str) {}

    fn create_placeholder(&mut self) {}

    fn set_text(&mut self, _node: &(), _text: &str) {}

    fn set_attribute(&mut self, _node: &(), name: &str, value: &str) {
        self.asked.push(format!("set {name}={value}"));
    }

    fn remove_attribute(&mut self, _node: &(), name: &str) {
        self.asked.push(format!("unset {name}"));
    }

    fn insert_node(&mut self, _parent: &(), _new_child: &(), _anchor: Option<&()>) {}

    fn remove_node(&mut self, _parent: &(), _child: &()) -> Option<()> {
        None
    }

    fn remove(&mut self, _node: &()) {}

    fn get_parent(&self, _node: &()) -> Option<()> {
        None
    }

    fn first_child(&self, _node: &()) -> Option<()> {
        None
    }

    fn next_sibling(&self, _node: &()) -> Option<()> {
        None
    }

    fn cast_element(&self, _node: ()) -> Option<()> {
        None
    }

    fn cast_text(&self, _node: ()) -> Option<()> {
        None
    }

    fn cast_placeholder(&self, _node: ()) -> Option<()> {
        None
    }

    fn clone_element(_el: &()) {}

    fn clone_node(_node: &()) {}

    fn element_node(_el: &()) {}

    fn text_node(_text: &()) {}

    fn placeholder_node(_marker: &()) {}
}

impl DomRenderer for Recorder {
    type Property = ();
    type Listener = ();
    type ClassList = ();
    type CssStyleDeclaration = ();

    fn set_property(&mut self, _el: &(), key: &str, _value: &()) {
        self.asked.push(format!("property {key}"));
    }

    fn add_event_listener(&mut self, _el: &(), name: &str, _cb: ()) {
        self.asked.push(format!("listen {name}"));
    }

    fn class_list(&self, _el: &()) {}

    fn add_class(&mut self, _list: &(), name: &str) {
        self.asked.push(format!("add {name}"));
    }

    fn remove_class(&mut self, _list: &(), name: &str) {
        self.asked.push(format!("remove {name}"));
    }

    fn style(&self, _el: &()) {}

    fn set_css_property(&mut self, _style: &(), name: &str, value: &str) {
        self.asked.push(format!("css {name}:{value}"));
    }
}

#[test]
fn a_class_text_is_set_once_where_it_differs() {
    let mut rndr = Recorder::new();
    let mut state = IntoClass::<Recorder>::build("foo bar", &(), &mut rndr);
    assert_eq!(rndr.taken(), vec!["set class=foo bar"]);

    IntoClass::<Recorder>::rebuild("foo bar", &mut state, &mut rndr);
    assert!(rndr.taken().is_empty());

    IntoClass::<Recorder>::rebuild("baz", &mut state, &mut rndr);
    assert_eq!(rndr.taken(), vec!["set class=baz"]);
    assert_eq!(state.1, "baz");
}

#[test]
fn a_style_text_is_set_once_where_it_differs() {
    let mut rndr = Recorder::new();
    let mut state = IntoStyle::<Recorder>::build("display: block".to_string(), &(), &mut rndr);
    assert_eq!(rndr.taken(), vec!["set style=display: block"]);

    IntoStyle::<Recorder>::rebuild("display: block".to_string(), &mut state, &mut rndr);
    assert!(rndr.taken().is_empty());

    IntoStyle::<Recorder>::rebuild("display: none".to_string(), &mut state, &mut rndr);
    assert_eq!(rndr.taken(), vec!["set style=display: none"]);
}

#[test]
fn a_listed_name_is_added_and_an_unlisted_one_removed() {
    let mut rndr = Recorder::new();
    let mut state = IntoClass::<Recorder>::build(("on", false), &(), &mut rndr);
    assert!(rndr.taken().is_empty());

    // unlisted => listed: added, once
    IntoClass::<Recorder>::rebuild(("on", true), &mut state, &mut rndr);
    assert_eq!(rndr.taken(), vec!["add on"]);
    // listed => listed: nothing
    IntoClass::<Recorder>::rebuild(("on", true), &mut state, &mut rndr);
    assert!(rndr.taken().is_empty());
    // listed => unlisted: removed, once
    IntoClass::<Recorder>::rebuild(("on", false), &mut state, &mut rndr);
    assert_eq!(rndr.taken(), vec!["remove on"]);
    // unlisted => unlisted: nothing
    IntoClass::<Recorder>::rebuild(("on", false), &mut state, &mut rndr);
    assert!(rndr.taken().is_empty());
}

#[test]
fn another_name_takes_the_old_one_off_the_list_first() {
    let mut rndr = Recorder::new();
    let mut state = IntoClass::<Recorder>::build(("old", true), &(), &mut rndr);
    assert_eq!(rndr.taken(), vec!["add old"]);

    IntoClass::<Recorder>::rebuild(("new", true), &mut state, &mut rndr);
    assert_eq!(rndr.taken(), vec!["remove old", "add new"]);

    IntoClass::<Recorder>::rebuild(("other", false), &mut state, &mut rndr);
    assert_eq!(rndr.taken(), vec!["remove new"]);

    IntoClass::<Recorder>::rebuild(("last", true), &mut state, &mut rndr);
    assert_eq!(rndr.taken(), vec!["add last"]);
    assert_eq!((state.1, state.2), ("last", true));
}

#[test]
fn a_style_property_is_set_where_name_or_value_differs() {
    let mut rndr = Recorder::new();
    let mut state = IntoStyle::<Recorder>::build(("color", "red"), &(), &mut rndr);
    assert_eq!(rndr.taken(), vec!["css color:red"]);

    IntoStyle::<Recorder>::rebuild(("color", "red"), &mut state, &mut rndr);
    assert!(rndr.taken().is_empty());

    IntoStyle::<Recorder>::rebuild(("color", "blue"), &mut state, &mut rndr);
    assert_eq!(rndr.taken(), vec!["css color:blue"]);

    IntoStyle::<Recorder>::rebuild(("margin", "blue"), &mut state, &mut rndr);
    assert_eq!(rndr.taken(), vec!["css margin:blue"]);
}

#[test]
fn attributes_in_a_row_ask_for_what_each_of_them_asks() {
    let mut rndr = Recorder::new();
    let attrs = (class::<_, Recorder>("a"), class::<_, Recorder>(("b", true)), style::<_, Recorder>(("color", "red")));
    let mut state = attrs.build(&(), &mut rndr);
    assert_eq!(rndr.taken(), vec!["set class=a", "add b", "css color:red"]);

    let attrs = (class::<_, Recorder>("a"), class::<_, Recorder>(("b", false)), style::<_, Recorder>(("color", "red")));
    attrs.rebuild(&mut state, &mut rndr);
    assert_eq!(rndr.taken(), vec!["remove b"]);
}

#[test]
fn a_property_value_is_set_where_it_differs() {
    let mut rndr = Recorder::new();
    let mut written = String::new();
    StylePropertyValue::<Recorder>::to_html(&"red", "color", &mut written);
    assert_eq!(written, "color:red;");

    let mut state = StylePropertyValue::<Recorder>::hydrate::<true>("red", "color", &(), &rndr);
    assert_eq!(state.1, "red");
    StylePropertyValue::<Recorder>::rebuild("red", "color", &mut state, &mut rndr);
    assert!(rndr.taken().is_empty());
    StylePropertyValue::<Recorder>::rebuild("blue", "color", &mut state, &mut rndr);
    assert_eq!(rndr.taken(), vec!["css color:blue"]);
    assert_eq!(state.1, "blue");

    let mut state =
        StylePropertyValue::<Recorder>::hydrate::<true>("1px".to_string(), "margin", &(), &rndr);
    StylePropertyValue::<Recorder>::rebuild("2px".to_string(), "margin", &mut state, &mut rndr);
    assert_eq!(rndr.taken(), vec!["css margin:2px"]);
}

#[test]
fn the_steps_of_an_effect_ask_only_for_what_changed() {
    let mut rndr = Recorder::new();
    // the first run always says whether the name is listed
    assert!(!class_toggle_step(&(), "on", false, None, &mut rndr));
    assert_eq!(rndr.taken(), vec!["remove on"]);
    assert!(class_toggle_step(&(), "on", true, Some(false), &mut rndr));
    assert_eq!(rndr.taken(), vec!["add on"]);
    assert!(class_toggle_step(&(), "on", true, Some(true), &mut rndr));
    assert!(rndr.taken().is_empty());

    // the first run of a style property takes over what the markup says
    let now = style_property_step(&(), "color", "red".to_string(), None, &mut rndr);
    assert_eq!(now, "red");
    assert!(rndr.taken().is_empty());
    let now = style_property_step(&(), "color", "blue".to_string(), Some(now), &mut rndr);
    assert_eq!(now, "blue");
    assert_eq!(rndr.taken(), vec!["css color:blue"]);
    style_property_step(&(), "color", "blue".to_string(), Some(now), &mut rndr);
    assert!(rndr.taken().is_empty());
}
