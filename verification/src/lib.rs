//! Verified core of the Leaf text editor: the decisions and text handling
//! behind its tabs, file dialog, file loading and saving, settings, sign-in
//! and terminal plumbing.

pub mod text;
pub mod file_list;
pub mod sheet;
pub mod splits;
pub mod tabs;
pub mod file_content;
pub mod char_code;
pub mod oauth;
pub mod terminal;
pub mod clock;
pub mod settings;
pub mod file_dialog;
pub mod dialogs;
pub mod preview;
pub mod sheet_list;
pub mod shortcuts;
pub mod storage;
pub mod keymap;
pub mod env_file;
