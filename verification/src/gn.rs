//! A parser for a small declarative build language in the style of GN.
//!
//! `ast` holds the syntax tree and its mathematical model. `grammar` defines
//! the language as specification functions over a sequence of characters;
//! `lexer` and `parser` hold the executable parser, proved to compute what
//! `grammar` defines. `printer` states how a tree is written down as text,
//! and `writer` does it. The other modules hold what is proved of the
//! grammar for every text: `laws` on names, `progress` on the positions that
//! the rules return, `round_trip` and `yields` on writing a tree down and
//! parsing it again.

pub mod ast;
pub mod grammar;
pub mod laws;
pub mod lexer;
pub mod parser;
pub mod printer;
pub mod progress;
pub mod round_trip;
pub mod writer;
pub mod yields;
