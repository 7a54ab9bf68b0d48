//! Tool-enablement popover logic and incoming-call notification logic of an
//! editor's assistant and collaboration panels.
pub mod call;
pub mod menu;
pub mod profiles;
pub mod registry;
pub mod selector;
pub mod text;
