//! Switches the DNS resolvers of a host's active network interfaces between
//! a fixed public set and the ones that DHCP assigns, and lists the ones in
//! use. The host's utilities are run by the caller; this library decides what
//! to run, reads what they print, and judges the result.

pub mod cli;
pub mod dns;
pub mod parse;
pub mod session;
pub mod text;
