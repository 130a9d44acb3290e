//! A personal logbook: named projects holding ordered, timestamped text
//! entries, kept as one document that is loaded, changed and written back.

pub mod clock;
pub mod laws;
pub mod logbook;
pub mod model;
pub mod storage;

pub use clock::now_millis;
pub use logbook::{Logbook, LogbookError, LogbookView};
pub use model::{Log, LogView, Project};
pub use storage::{get_default_logbook_dir, logbook_path_in};
