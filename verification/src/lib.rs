//! Verified core of a desktop calendar and to-do widget.

pub mod agenda;
pub mod app;
pub mod calendar;
pub mod config;
pub mod date;
pub mod editor;
pub mod font;
pub mod hotkey;
pub mod icon;
pub mod launch;
pub mod logger;
pub mod minute_reminder;
pub mod models;
pub mod navigation;
pub mod notify;
pub mod png;
pub mod reminder;
pub mod scalar;
pub mod settings;
pub mod storage;
pub mod text;
pub mod theme;
pub mod time_picker;
pub mod titlebar;
pub mod todo_list;
pub mod tray;
pub mod widgets;
pub mod window;
