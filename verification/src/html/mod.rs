//! Views of HTML: elements, their attributes, and island boundaries.

pub mod attribute;
pub mod class;
pub mod element;
pub mod islands;
pub mod style;
