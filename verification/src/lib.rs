//! Logic of a presence display: an ESP32 board with a latching switch and a
//! TFT screen that shows whether a place is OPEN or CLOSED, the time since
//! the last change, and announces each change to a Telegram chat.
//!
//! The library holds everything the device decides and computes; the
//! firmware around it (`app/`) does the I/O.

pub mod calendar;
pub mod config;
pub mod controller;
pub mod display;
pub mod logic;
pub mod page_laws;
pub mod strings;
pub mod telegram;
pub mod text;
pub mod web;
