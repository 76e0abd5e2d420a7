//! Verified core of a terminal client for the BlueTodo line protocol.

pub mod args;
pub mod chars;
pub mod client;
pub mod codec;
pub mod crc;
pub mod error;
pub mod form;
pub mod layout;
pub mod line;
pub mod numbers;
pub mod params;
pub mod request;
pub mod screen;
pub mod state;
pub mod strings;
pub mod text;
