//! An interactive search-and-pick controller for a task lookup service: a query
//! prompt with display-width aware editing, a selectable result list with
//! multi-marking, and the all-or-nothing resolution of the picked entries into
//! shareable links.

pub mod width;
pub mod prompt;
pub mod asana;
pub mod controller;
pub mod terminal;
pub mod screen;
