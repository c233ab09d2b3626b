//! Configuration model, KDL generation and parsing rules of the niri settings
//! editor, with their contracts.

pub mod text;
pub mod sanitise;
pub mod types;
pub mod rows;
pub mod kdl_doc;
pub mod keybinds;
pub mod overlay;
pub mod generate;
pub mod errors;
pub mod shell;
pub mod persist;
pub mod import;
pub mod pages;
pub mod ipc;
pub mod outputs;
pub mod reads_back;
pub mod save;
pub mod paths;
