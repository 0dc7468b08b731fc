//! Verified core of the window-directory listing parser: the checks made before a run, the
//! parsing of the exclusion file, the per-line record classification, and the state machine
//! behind the user interface.

pub mod dates;
pub mod excludepress;
pub mod exclusions;
pub mod execpress;
pub mod laws;
pub mod numtext;
pub mod paths;
pub mod progress;
pub mod reads;
pub mod records;
pub mod run;
pub mod text;
pub mod window;
pub mod zones;
