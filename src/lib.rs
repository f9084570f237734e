//! A multi-pattern byte-string matcher: a verified layer over the
//! `aho_corasick` automaton that decodes builder options, drives searches and
//! states the leftmost-first, leftmost-longest and standard match semantics.
pub mod options;
pub mod semantics;
pub mod engine;

pub use options::{
    AhoCorasickBuilderOptions, Config, ConfigError, MatchSemantics, Representation, StartMode,
};
pub use semantics::AhoCorasickMatch;
pub use engine::{
    build_automaton, create_automaton, find, find_at, find_iter, free_automaton, is_match,
    Automaton, BuildFailure, SearchError,
};
