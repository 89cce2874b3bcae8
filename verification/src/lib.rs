//! Decision logic of a daemon that turns the reports of a keypad with a jog
//! wheel into shell commands.
//!
//! The device shows up as several HID interfaces under one vendor and product
//! identifier. This crate holds everything the daemon decides: which of the
//! listed interfaces to bind, what a raw report means, which command an event
//! triggers, and which configuration file wins. Reading the device and the
//! file system, and spawning processes, is left to the caller, who hands
//! plain values in and gets plain values back.
//!
//! - [`models`] holds the data: events, the configuration and its discovery,
//!   and the paths of the two interfaces.
//! - [`reader`] says what a report means on each interface.
//! - [`dispatcher`] says what to do about an event.
//!
//! Every function is verified against a contract over mathematical values:
//! a report is a `Seq<u8>`, a table a `Map<u8, Seq<char>>`, a stream of events
//! a `Seq<DeviceEvent>`. The proof functions state what holds of the pipeline
//! as a whole: no event is dropped, each reader's order is kept, and idle
//! reports trigger nothing.

pub mod dispatcher;
pub mod models;
pub mod reader;
