//! Verified core of a Bulma component layer: class names for the common
//! modifiers, the registry that binds external widgets to DOM anchors, the
//! bridge from their native callbacks to typed events, and the named close
//! bus that drives modal visibility.
pub mod accordion;
pub mod autocomplete;
pub mod binding;
pub mod breadcrumb;
pub mod bridge;
pub mod calendar;
pub mod common;
pub mod modal;
pub mod registry;

pub use common::{Alignment, Size};
