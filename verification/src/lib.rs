//! Reactive rendering core: a renderer-agnostic view tree that can be built,
//! rebuilt in place, emitted as markup and hydrated from existing markup,
//! together with the async resource model that feeds it.

pub mod async_signal;
pub mod async_views;
pub mod html;
pub mod hydration;
pub mod renderer;
pub mod route_list;
pub mod serialization;
pub mod shared_context;
pub mod ssr;
pub mod text;
pub mod view;
