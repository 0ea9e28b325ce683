//! A typed boundary over a firmware call interface: status classification,
//! capability lookup, file and directory nodes, console text transcoding and
//! the process-wide table cell with its fault path.

pub mod chars;
pub mod console;
pub mod dir;
pub mod file;
pub mod node;
pub mod proto;
pub mod status;
pub mod table;
