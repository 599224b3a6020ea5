//! The logic of a system tray indicator for the moonshine streaming server.
//!
//! Moonshine has no GUI, so on a desktop host there is no way to tell at a glance whether the
//! daemon is up, whether it is answering, or whether someone is streaming. The indicator sits
//! in the tray as a crescent whose colour reflects the current state, and offers to start, stop
//! or restart the unit, to open the pairing page and to follow the log.
//!
//! Everything that the indicator computes or decides is here, with a contract; what it takes
//! to talk to the daemon, to systemd and to the desktop is in the program around it.
//!
//! - [`session`] is the event loop: what to do about everything that happens.
//! - [`probe`] reads the daemon's answer and works out what to display.
//! - [`tray`] and [`icon`] are what is displayed.
//! - [`unit`] is how to ask systemd about the unit, and how to control it.
//! - [`desktop`] is what the menu opens.
//! - [`config`] finds and reads the settings shared with the daemon.
//! - [`xml`] and [`text`] are what these are made of.

pub mod config;
pub mod desktop;
pub mod icon;
pub mod probe;
pub mod session;
pub mod text;
pub mod tray;
pub mod unit;
pub mod xml;
