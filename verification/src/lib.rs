pub mod hashed_string;
pub mod lexer;
pub mod ast;
pub mod grammar;
pub mod parser;
pub mod fold;
pub mod values;
pub mod compile;
pub mod runtime;
pub mod unlocks;
pub mod upgrades;
pub mod program;
pub mod compilation;
pub mod pdcode;
pub mod scenes;
pub mod terminal;
pub mod timers;
pub mod fold_sound;
pub mod fold_program;
pub mod visitor;
