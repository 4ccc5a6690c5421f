//! Command templating and workspace hand-off logic for an assistant-driven
//! command-line front end.

pub mod template;
pub mod fence;
pub mod shell;
pub mod values;
pub mod workspace;
