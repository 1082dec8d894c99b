pub mod app;
pub mod diff;
pub mod editor;
pub mod git;
pub mod keys;
pub mod layout;
pub mod model;
pub mod text;
pub mod ui;
