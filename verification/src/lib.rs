//! The logic of a terminal wallpaper picker: a directory browser that lists
//! subdirectories and image files, moves a cursor over them, walks up and down
//! the directory tree, and says which command sets a chosen image as wallpaper.
//!
//! The library does no input or output. Its caller reads directories, keys and
//! the clock, hands what it found to the functions here, and carries out the
//! [`action::Action`] they answer with.

pub mod action;
pub mod app;
pub mod dispatch;
pub mod list;
pub mod paths;
pub mod scanner;
pub mod tick;
pub mod title;
