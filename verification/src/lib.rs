//! A small text-cipher library: a case-preserving rotate-by-13 substitution
//! over the ASCII Latin alphabet, together with the argument parsing and the
//! path-stem display helper of the command-line tool built around it.

pub mod cipher;
pub mod cli;
pub mod paths;
