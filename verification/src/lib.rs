//! The decision-making half of a session and window picker for RMUX.

pub mod activity;
pub mod inventory;
pub mod keys;
pub mod listing;
pub mod model;
pub mod options;
pub mod picker;
pub mod picker_laws;
pub mod preview;
pub mod rmux;
pub mod run;
pub mod screen;
pub mod search;
pub mod sessions;
pub mod table;
pub mod text;
pub mod text_laws;
