pub mod row;
pub mod editorrows;
pub mod cursorcontroller;
pub mod searchindex;
pub mod editorcontents;
pub mod status;
pub mod output;
