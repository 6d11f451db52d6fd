//! A large seven-segment terminal clock with a calendar strip: the layout,
//! glyph rendering, calendar parsing and alert logic, verified with Verus.

pub mod text;

pub mod width;
pub mod digits;
pub mod time;
pub mod alert;
pub mod layout;
pub mod events;
pub mod calendar;
pub mod json;
pub mod frame;
pub mod control;
