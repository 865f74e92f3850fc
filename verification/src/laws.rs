//! Laws of the library: what its operations promise, said of all inputs.
pub mod calls;
pub mod channels;
pub mod commands;
pub mod exchanges;
pub mod fields;
pub mod files;
pub mod image;
pub mod lists;
pub mod messaging;
pub mod names;
pub mod requests;
pub mod services;
pub mod settings;
pub mod shells;
pub mod streams;
pub mod texts;
pub mod transfers;
pub mod tunnels;
pub mod uploads;
pub mod values;
