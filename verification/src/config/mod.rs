//! The configuration that a test's attribute spells out.

pub mod base;
pub mod base_emit;
pub mod item;
pub mod iterator;
pub mod set;

pub use base::Config;
pub use item::ConfigItem;
pub use iterator::{ConfigIterator, ListIterator};
pub use set::TokenSet;
