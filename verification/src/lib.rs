//! Lexical analysis for a small duck-typed source language that transpiles
//! into a host language.
//!
//! The lexer turns raw source text into an ordered sequence of classified,
//! position-annotated tokens.  Besides ordinary tokens (keywords, identifiers,
//! literals, operators) it supports two recursive, non-regular constructs:
//! interpolated format-string literals whose embedded `{...}` sections hold
//! arbitrary nested token sequences, and verbatim inline host-code blocks
//! captured with exact brace balancing.
//!
//! The module `grammar` gives the whole lexical grammar as a family of
//! mathematical (spec-level) functions over character sequences; every
//! executable function in `lexer` is proved to return exactly what the
//! grammar prescribes.  `model` holds the token data model and its
//! mathematical counterpart, `laws` proves general statements about the
//! grammar, and `normalize` holds the span-normalization test utility.

pub mod grammar;
pub mod laws;
pub mod lexer;
pub mod model;
pub mod normalize;
