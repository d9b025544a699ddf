pub mod app;
pub mod file_manager;
pub mod runner;
pub mod text;
pub mod ui;
