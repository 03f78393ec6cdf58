//! What a view shows, as a tree of plain values.
//!
//! Contracts of the rendering protocol speak of shapes: the markup of a
//! view, the number of nodes it needs, and the equality of what a state
//! shows with what a new value shows are all functions of the shape.

use super::Position;
use crate::renderer::model::{Asked, NodeId};
use crate::text::trimmed;
use vstd::prelude::*;

verus! {

/// What a value adds to the `class` attribute.
pub enum ClassShape {
    /// A plain text.
    Text(Seq<char>),
    /// A class name that is listed or not.
    Toggle(Seq<char>, bool),
}

impl ClassShape {
    /// The text written for this class: the plain text, or the name where
    /// it is listed.
    pub open spec fn text(self) -> Seq<char> {
        match self {
            ClassShape::Text(text) => text,
            ClassShape::Toggle(name, on) => if on {
                name
            } else {
                Seq::empty()
            },
        }
    }

    /// What putting this class on the element `el` asks of the class list
    /// of that element: to add the name, where it is listed.
    pub open spec fn asks(self, el: NodeId) -> Seq<Asked> {
        match self {
            ClassShape::Toggle(name, on) => if on {
                seq![Asked::AddClass(el, name)]
            } else {
                Seq::empty()
            },
            ClassShape::Text(_) => Seq::empty(),
        }
    }

    /// What going from this class to `next` asks of the class list of the
    /// element `el`. For one name it is nothing where the name stays
    /// listed or unlisted, to add it where it is listed now, and to remove
    /// it where it no longer is. For two names it is to remove the old one,
    /// where it was listed, and then to add the new one, where it is.
    pub open spec fn asks_toward(self, next: ClassShape, el: NodeId) -> Seq<Asked> {
        match (self, next) {
            (ClassShape::Toggle(was, on), ClassShape::Toggle(name, listed)) => if was == name {
                if on == listed {
                    Seq::empty()
                } else if listed {
                    seq![Asked::AddClass(el, name)]
                } else {
                    seq![Asked::RemoveClass(el, name)]
                }
            } else {
                (if on {
                    seq![Asked::RemoveClass(el, was)]
                } else {
                    Seq::empty()
                }) + next.asks(el)
            },
            _ => Seq::empty(),
        }
    }

    /// How many calls that change something putting this class on an
    /// element makes on the renderer.
    pub open spec fn calls(self) -> nat {
        match self {
            ClassShape::Text(_) => 1,
            ClassShape::Toggle(_, on) => if on {
                1
            } else {
                0
            },
        }
    }

    /// How many calls that change something going from this class to
    /// `next` makes on the renderer: one for a text that differs, and one
    /// for each thing asked of the class list.
    pub open spec fn calls_toward(self, next: ClassShape) -> nat {
        match (self, next) {
            (ClassShape::Text(was), ClassShape::Text(text)) => if was == text {
                0
            } else {
                1
            },
            (ClassShape::Toggle(was, on), ClassShape::Toggle(name, listed)) => if was == name {
                if on == listed {
                    0
                } else {
                    1
                }
            } else {
                (if on {
                    1nat
                } else {
                    0nat
                }) + (if listed {
                    1nat
                } else {
                    0nat
                })
            },
            _ => 0,
        }
    }
}

/// What a value adds to the `style` attribute.
pub enum StyleShape {
    /// A plain text.
    Text(Seq<char>),
    /// One property with its value.
    Property(Seq<char>, Seq<char>),
}

impl StyleShape {
    /// The text written for this style: the plain text, or the name, a
    /// colon and the value; then a semicolon.
    pub open spec fn text(self) -> Seq<char> {
        match self {
            StyleShape::Text(text) => text + ";"@,
            StyleShape::Property(name, value) => name + ":"@ + value + ";"@,
        }
    }

    /// What putting this style on the element `el` asks of the style
    /// declaration of that element: to set the property.
    pub open spec fn asks(self, el: NodeId) -> Seq<Asked> {
        match self {
            StyleShape::Property(name, value) => seq![Asked::CssProperty(el, name, value)],
            StyleShape::Text(_) => Seq::empty(),
        }
    }

    /// What going from this style to `next` asks of the style declaration
    /// of the element `el`: to set the property, where the name or the
    /// value differs.
    pub open spec fn asks_toward(self, next: StyleShape, el: NodeId) -> Seq<Asked> {
        match (self, next) {
            (StyleShape::Property(_, _), StyleShape::Property(_, _)) => if self == next {
                Seq::empty()
            } else {
                next.asks(el)
            },
            _ => Seq::empty(),
        }
    }

    /// How many calls that change something putting this style on an
    /// element makes on the renderer.
    pub open spec fn calls(self) -> nat {
        1
    }

    /// How many calls that change something going from this style to
    /// `next` makes on the renderer: one where the two differ.
    pub open spec fn calls_toward(self, next: StyleShape) -> nat {
        match (self, next) {
            (StyleShape::Text(_), StyleShape::Text(_)) | (
                StyleShape::Property(_, _),
                StyleShape::Property(_, _),
            ) => if self == next {
                0
            } else {
                1
            },
            _ => 0,
        }
    }
}

/// What stands in the opening tag of an element.
pub enum AttrShape {
    /// Nothing.
    Empty,
    /// A part of the `class` attribute.
    Class(ClassShape),
    /// A part of the `style` attribute.
    Style(StyleShape),
    /// One part after another.
    Pair(Box<AttrShape>, Box<AttrShape>),
}

impl AttrShape {
    /// What this shape adds to the text of the `class` attribute: a space
    /// and the text of each class part, in order.
    pub open spec fn class_text(self) -> Seq<char>
        decreases self,
    {
        match self {
            AttrShape::Class(class) => " "@ + class.text(),
            AttrShape::Pair(first, second) => first.class_text() + second.class_text(),
            _ => Seq::empty(),
        }
    }

    /// What this shape adds to the text of the `style` attribute: the text
    /// of each style part, in order.
    pub open spec fn style_text(self) -> Seq<char>
        decreases self,
    {
        match self {
            AttrShape::Style(style) => style.text(),
            AttrShape::Pair(first, second) => first.style_text() + second.style_text(),
            _ => Seq::empty(),
        }
    }

    /// How many calls that change something putting these attributes on
    /// an element makes on the renderer.
    pub open spec fn calls(self) -> nat
        decreases self,
    {
        match self {
            AttrShape::Empty => 0,
            AttrShape::Class(class) => class.calls(),
            AttrShape::Style(style) => style.calls(),
            AttrShape::Pair(first, second) => first.calls() + second.calls(),
        }
    }

    /// How many calls that change something going from these attributes
    /// to `next` makes on the renderer.
    pub open spec fn calls_toward(self, next: AttrShape) -> nat
        decreases self,
    {
        match (self, next) {
            (AttrShape::Class(was), AttrShape::Class(class)) => was.calls_toward(class),
            (AttrShape::Style(was), AttrShape::Style(style)) => was.calls_toward(style),
            (AttrShape::Pair(first, second), AttrShape::Pair(a, b)) => first.calls_toward(*a)
                + second.calls_toward(*b),
            _ => 0,
        }
    }
}

/// Markup of the `class` and `style` attributes made of the given texts:
/// each is written, trimmed, where its text is not empty.
pub open spec fn class_style_html(class: Seq<char>, style: Seq<char>) -> Seq<char> {
    (if class.len() > 0 {
        " class=\""@ + trimmed(class) + "\""@
    } else {
        Seq::empty()
    }) + (if style.len() > 0 {
        " style=\""@ + trimmed(style) + "\""@
    } else {
        Seq::empty()
    })
}

/// What a view shows.
pub enum Shape {
    /// Nothing.
    Unit,
    /// A text node.
    Text(Seq<char>),
    /// An element with what stands in its opening tag and under it.
    Element { tag: Seq<char>, attrs: AttrShape, children: Box<Shape> },
    /// An option without a value: a marker.
    Absent,
    /// An option with a value.
    Present(Box<Shape>),
    /// The first of two alternatives, followed by a marker.
    Left(Box<Shape>),
    /// The second of two alternatives, followed by a marker.
    Right(Box<Shape>),
    /// One view after another.
    Pair(Box<Shape>, Box<Shape>),
    /// An island: markup in a named container, and nothing of its own on
    /// the client.
    Island { component: Seq<char>, inner: Box<Shape> },
    /// The children handed to an island: markup in a container, and
    /// nothing at all on the client.
    IslandChildren(Box<Shape>),
}

/// The opening tag of an island for the named component.
pub open spec fn island_open(component: Seq<char>) -> Seq<char> {
    "<"@ + "leptos-island"@ + " "@ + "data-component=\""@ + component + "\">"@
}

/// The closing tag of an island.
pub open spec fn island_close() -> Seq<char> {
    "</"@ + "leptos-island"@ + ">"@
}

/// The opening tag of island children.
pub open spec fn island_children_open() -> Seq<char> {
    "<"@ + "leptos-children"@ + ">"@
}

/// The closing tag of island children.
pub open spec fn island_children_close() -> Seq<char> {
    "</"@ + "leptos-children"@ + ">"@
}

impl Shape {
    /// What is left of this shape on the client, where an island shows
    /// what is in it and the children handed to an island show nothing.
    /// This is what a state can show.
    pub open spec fn mounted(self) -> Shape
        decreases self,
    {
        match self {
            Shape::Element { tag, attrs, children } => Shape::Element {
                tag,
                attrs,
                children: Box::new(children.mounted()),
            },
            Shape::Present(inner) => Shape::Present(Box::new(inner.mounted())),
            Shape::Left(inner) => Shape::Left(Box::new(inner.mounted())),
            Shape::Right(inner) => Shape::Right(Box::new(inner.mounted())),
            Shape::Pair(first, second) => Shape::Pair(
                Box::new(first.mounted()),
                Box::new(second.mounted()),
            ),
            Shape::Island { inner, .. } => inner.mounted(),
            Shape::IslandChildren(_) => Shape::Unit,
            shape => shape,
        }
    }

    /// The number of nodes that building this shape creates.
    pub open spec fn demand(self) -> nat
        decreases self,
    {
        match self {
            Shape::Unit => 0,
            Shape::Text(_) => 1,
            Shape::Element { children, .. } => 1 + children.demand(),
            Shape::Absent => 1,
            Shape::Present(inner) => inner.demand(),
            Shape::Left(inner) => inner.demand() + 1,
            Shape::Right(inner) => inner.demand() + 1,
            Shape::Pair(first, second) => first.demand() + second.demand(),
            Shape::Island { inner, .. } => inner.demand(),
            Shape::IslandChildren(_) => 0,
        }
    }

    /// The number of texts in this shape, at every depth but within the
    /// children handed to an island, which are not walked.
    pub open spec fn texts(self) -> nat
        decreases self,
    {
        match self {
            Shape::Text(_) => 1,
            Shape::Element { children, .. } => children.texts(),
            Shape::Present(inner) => inner.texts(),
            Shape::Left(inner) => inner.texts(),
            Shape::Right(inner) => inner.texts(),
            Shape::Pair(first, second) => first.texts() + second.texts(),
            Shape::Island { inner, .. } => inner.texts(),
            _ => 0,
        }
    }

    /// The number of nodes of this shape that stand directly under its
    /// parent.
    pub open spec fn width(self) -> nat
        decreases self,
    {
        match self {
            Shape::Unit => 0,
            Shape::Text(_) => 1,
            Shape::Element { .. } => 1,
            Shape::Absent => 1,
            Shape::Present(inner) => inner.width(),
            Shape::Left(inner) => inner.width() + 1,
            Shape::Right(inner) => inner.width() + 1,
            Shape::Pair(first, second) => first.width() + second.width(),
            Shape::Island { inner, .. } => inner.width(),
            Shape::IslandChildren(_) => 0,
        }
    }

    /// How many calls that change something building this shape makes on
    /// the renderer: one for each node that is created, what the
    /// attributes of each element take, and one for each node that is put
    /// under an element.
    pub open spec fn build_calls(self) -> nat
        decreases self,
    {
        match self {
            Shape::Unit => 0,
            Shape::Text(_) => 1,
            Shape::Element { attrs, children, .. } => 1 + attrs.calls() + children.build_calls()
                + children.width(),
            Shape::Absent => 1,
            Shape::Present(inner) => inner.build_calls(),
            Shape::Left(inner) => inner.build_calls() + 1,
            Shape::Right(inner) => inner.build_calls() + 1,
            Shape::Pair(first, second) => first.build_calls() + second.build_calls(),
            Shape::Island { inner, .. } => inner.build_calls(),
            Shape::IslandChildren(_) => 0,
        }
    }

    /// The number of nodes that a rebuild creates which takes a state that
    /// shows this shape to one that shows `next`.
    ///
    /// Nothing is created where a text, a marker or an element stays.
    /// Where an option loses its value, its marker is created; where it
    /// gets one, or an alternative gives way to the other, what comes in
    /// is built anew.
    pub open spec fn growth(self, next: Shape) -> nat
        decreases self,
    {
        match (self, next) {
            (Shape::Unit, Shape::Unit) => 0,
            (Shape::Text(_), Shape::Text(_)) => 0,
            (Shape::Element { children, .. }, Shape::Element { children: inner, .. }) => children.growth(
                *inner,
            ),
            (Shape::Absent, Shape::Absent) => 0,
            (Shape::Present(_), Shape::Absent) => 1,
            (Shape::Present(shown), Shape::Present(inner)) => shown.growth(*inner),
            (Shape::Left(shown), Shape::Left(inner)) => shown.growth(*inner),
            (Shape::Right(shown), Shape::Right(inner)) => shown.growth(*inner),
            (Shape::Left(_), Shape::Right(inner)) => inner.demand(),
            (Shape::Right(_), Shape::Left(inner)) => inner.demand(),
            (Shape::Pair(first, second), Shape::Pair(a, b)) => first.growth(*a) + second.growth(
                *b,
            ),
            _ => next.demand(),
        }
    }

    /// How many calls that change something a rebuild makes which takes a
    /// state that shows this shape to one that shows `next`, where the
    /// rebuild keeps every node in its place: one for each text that
    /// differs, and what the attributes of each element take. Where an
    /// option gains or loses its value, or an alternative gives way to the
    /// other, nodes come and go, and this says nothing.
    pub open spec fn retouches(self, next: Shape) -> Option<nat>
        decreases self,
    {
        match (self, next) {
            (Shape::Unit, Shape::Unit) => Some(0),
            (Shape::Text(was), Shape::Text(text)) => Some(
                if was == text {
                    0
                } else {
                    1
                },
            ),
            (
                Shape::Element { attrs: shown, children, .. },
                Shape::Element { attrs, children: inner, .. },
            ) => match children.retouches(*inner) {
                Some(below) => Some(shown.calls_toward(attrs) + below),
                None => None,
            },
            (Shape::Absent, Shape::Absent) => Some(0),
            (Shape::Present(shown), Shape::Present(inner)) => shown.retouches(*inner),
            (Shape::Left(shown), Shape::Left(inner)) => shown.retouches(*inner),
            (Shape::Right(shown), Shape::Right(inner)) => shown.retouches(*inner),
            (Shape::Pair(first, second), Shape::Pair(a, b)) => match (
                first.retouches(*a),
                second.retouches(*b),
            ) {
                (Some(one), Some(other)) => Some(one + other),
                _ => None,
            },
            _ => None,
        }
    }

    /// The markup of this shape, written at `position`.
    ///
    /// A text that follows a text is set off by `<!>`, so that the two
    /// arrive as two nodes. An absent option is written as
    /// `<!--Option-->`, and an alternative is followed by `<!>`.
    pub open spec fn html(self, position: Position) -> Seq<char>
        decreases self,
    {
        match self {
            Shape::Unit => Seq::empty(),
            Shape::Text(text) => (if position == Position::NextChildAfterText {
                "<!>"@
            } else {
                Seq::empty()
            }) + text,
            Shape::Element { tag, attrs, children } => "<"@ + tag + class_style_html(
                attrs.class_text(),
                attrs.style_text(),
            ) + ">"@ + children.html(Position::FirstChild) + "</"@ + tag + ">"@,
            Shape::Absent => "<!--Option-->"@,
            Shape::Present(inner) => inner.html(position),
            Shape::Left(inner) => inner.html(position) + "<!>"@,
            Shape::Right(inner) => inner.html(position) + "<!>"@,
            Shape::Pair(first, second) => first.html(position) + second.html(
                first.after(position),
            ),
            Shape::Island { component, inner } => island_open(component) + inner.html(
                Position::FirstChild,
            ) + island_close(),
            Shape::IslandChildren(inner) => island_children_open() + inner.html(
                Position::FirstChild,
            ) + island_children_close(),
        }
    }

    /// The position that stands after this shape was written at
    /// `position`.
    pub open spec fn after(self, position: Position) -> Position
        decreases self,
    {
        match self {
            Shape::Unit => position,
            Shape::Text(_) => Position::NextChildAfterText,
            Shape::Element { .. } => Position::NextChild,
            Shape::Absent => Position::NextChild,
            Shape::Present(inner) => inner.after(position),
            Shape::Left(_) => Position::NextChild,
            Shape::Right(_) => Position::NextChild,
            Shape::Pair(first, second) => second.after(first.after(position)),
            Shape::Island { .. } => Position::NextChild,
            Shape::IslandChildren(_) => Position::NextChild,
        }
    }
}

impl Shape {
    /// What a shape shows on the client takes as many nodes as the shape.
    pub proof fn lemma_mounted_demand(self)
        ensures
            self.mounted().demand() == self.demand(),
        decreases self,
    {
        match self {
            Shape::Element { children, .. } => {
                children.lemma_mounted_demand();
            },
            Shape::Present(inner) => {
                inner.lemma_mounted_demand();
            },
            Shape::Left(inner) => {
                inner.lemma_mounted_demand();
            },
            Shape::Right(inner) => {
                inner.lemma_mounted_demand();
            },
            Shape::Pair(first, second) => {
                first.lemma_mounted_demand();
                second.lemma_mounted_demand();
            },
            Shape::Island { inner, .. } => {
                inner.lemma_mounted_demand();
            },
            _ => {},
        }
    }

    /// A rebuild creates no more nodes than a build of what it leads to.
    pub proof fn lemma_growth_within(self, next: Shape)
        ensures
            self.growth(next) <= next.demand(),
        decreases self,
    {
        match (self, next) {
            (Shape::Element { children, .. }, Shape::Element { children: inner, .. }) => {
                children.lemma_growth_within(*inner);
            },
            (Shape::Present(shown), Shape::Present(inner)) => {
                shown.lemma_growth_within(*inner);
            },
            (Shape::Left(shown), Shape::Left(inner)) => {
                shown.lemma_growth_within(*inner);
            },
            (Shape::Right(shown), Shape::Right(inner)) => {
                shown.lemma_growth_within(*inner);
            },
            (Shape::Pair(first, second), Shape::Pair(a, b)) => {
                first.lemma_growth_within(*a);
                second.lemma_growth_within(*b);
            },
            _ => {},
        }
    }
}

} // verus!
