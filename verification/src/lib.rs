//! Command-line parsing for a wrapper around `nix-shell`.
//!
//! Most arguments are forwarded to `nix-shell` untouched, but a few of them
//! have to be understood by the wrapper itself, so the whole command line is
//! parsed with the same quirks that `nix-shell` has.

pub mod args;
pub mod expand;
pub mod laws;
pub mod token;
