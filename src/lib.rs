//! Named, ordered lists of shell commands: the store that holds them, the
//! stored JSON document, the placeholder substitution applied to each
//! command, and the procedure that replays a list one command at a time.
pub mod placeholder;
pub mod store;
pub mod document;
pub mod runner;
