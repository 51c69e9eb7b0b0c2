//! Verified core of a small helper that presents a list of candidate strings
//! to the external `fzf` fuzzy-selector tool and retrieves the user's chosen
//! item(s).
//!
//! The tool itself is a separate interactive program, so spawning it and
//! piping bytes to and from it is ordinary process I/O that lives outside
//! this library. What is verified here is the whole line protocol around
//! that call:
//!
//! * joining the candidates into one newline-terminated input block, one
//!   candidate per line ([`lines::join_candidates`]);
//! * splitting the tool's output on newlines and discarding exactly the one
//!   spurious empty entry produced by the protocol's trailing newline, never
//!   an intentional empty selection ([`lines::parse_selections`]);
//! * turning the observed outcome of the run into the caller's result, with
//!   one distinguishable error for a missing tool, an I/O failure and output
//!   that is not valid text ([`invoke::interpret_run`]).

pub mod invoke;
pub mod lines;
