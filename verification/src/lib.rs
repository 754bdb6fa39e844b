//! Turn a USB-connected Android tablet into a second monitor.

pub mod bytes;
pub mod capture;
pub mod command;
pub mod corpus;
pub mod daemon;
pub mod encoder;
pub mod number;
pub mod probe;
pub mod protocol;
pub mod stats;
pub mod table;
pub mod text;
pub mod transport;
