//! A small interactive command shell, as a library.
//!
//! A line of input goes through these stages:
//!
//! - [`tokenizer`] classifies its characters into [`tokens`];
//! - [`parser`] reads the tokens into [`nodes`], by the rules of
//!   [`grammar`], and asks for more input while a quote or a substitution
//!   is open;
//! - [`interpreter`] resolves the nodes into commands, by the rules of
//!   [`resolve`]: it expands variables, puts the output of substitutions in
//!   their place, splits words and records redirections;
//! - [`executor`] says how each [`command`] is run: in the shell's own
//!   process or in a child, and with which exit status.
//!
//! The library reads no input, opens no file and starts no process.  What
//! it needs from outside comes in as plain values: the variables as a list
//! ([`env`]), further lines and the output of commands as texts, and what
//! the operating system reports as numbers.  [`cmd`] holds the rules of the
//! builtin commands in the same style, and [`laws`] what holds of the
//! stages taken together.

pub mod text;
pub mod env;
pub mod tokens;
pub mod tokenizer;
pub mod nodes;
pub mod grammar;
pub mod parser;
pub mod command;
pub mod resolve;
pub mod interpreter;
pub mod executor;
pub mod laws;
pub mod cmd;
pub mod utils;
