//! Firmware provisioning for a serial-attached seismometer board.
//!
//! A provisioning run finds the board on a serial transport, reads the
//! catalog of device models and firmware versions, lets the operator pick a
//! model and a version, fetches the images of that version and writes them to
//! the board's flash.
//!
//! This library holds what such a run decides; it performs no input or
//! output. A shell around it lists ports, asks the operator, makes requests
//! and drives the flasher, and hands what it got to the library.
//!
//! - [`endpoint`]: the serial transports and the choice among them
//! - [`json`], [`wire`], [`catalog`]: the catalog, from text to checked values
//! - [`fetch`], [`layout`]: the images of a version and where they lie in flash
//! - [`flash`]: the flash transaction as a state machine
//! - [`pipeline`]: the whole run as a state machine
//! - [`prompt`], [`shell`]: what the operator typed, and what the menu and the
//!   window around a run decide
//! - [`error`]: the ways in which a run can fail

pub mod catalog;
pub mod endpoint;
pub mod error;
pub mod fetch;
pub mod flash;
pub mod json;
pub mod layout;
pub mod pipeline;
pub mod prompt;
pub mod shell;
pub mod wire;
