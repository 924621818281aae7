pub mod command;
pub mod completer;
pub mod external;
pub mod flags;
pub mod registry;
