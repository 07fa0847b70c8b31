//! Symbol layout: turning features into placed symbols.
pub mod layout;
pub mod symbol_feature;
pub mod symbol_layout;
