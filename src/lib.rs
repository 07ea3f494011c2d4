//! Decoders for logic-analyzer trace exports and a parser for firmware
//! crash-dump register listings, with the page state of the tools that
//! drive them.

pub mod text;
pub mod hex;
pub mod trace;
pub mod logic;
pub mod hardfault;
pub mod pages;
pub mod laws;
pub mod analyze;
pub mod hci;
pub mod charset;
