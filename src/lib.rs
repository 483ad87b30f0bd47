pub mod app;
pub mod comments_nav;
pub mod event;
pub mod hn;
pub mod input;
pub mod layout;
pub mod panes;
pub mod text;
pub mod ui;
