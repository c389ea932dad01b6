//! What holds of the library as a whole: laws that relate several of its
//! functions, or say what a function does in terms of what is put in and what
//! comes out.

pub mod agenda;
pub mod commands;
pub mod drawing;
pub mod events;
pub mod lists;
pub mod mail;
pub mod navigation;
pub mod notices;
pub mod order;
pub mod panes;
pub mod refusals;
pub mod replies;
pub mod screen;
pub mod texts;
pub mod times;
