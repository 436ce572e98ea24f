//! What the terminal interface shows and how it reacts to keys, as plain
//! values: the application draws them with its terminal library.
pub mod action;
pub mod app;
pub mod bottom_bar;
pub mod circuit_canvas;
pub mod color;
pub mod help_popup;
pub mod message_log;
pub mod pages;
pub mod state;
pub mod stint_table;
pub mod timing_table;
pub mod title_bar;
