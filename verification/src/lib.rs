//! Translator from an eight-symbol tape-machine language to C source text.
//!
//! The pipeline is linear: the raw text is normalized into a stream of
//! instruction symbols and newlines, the loop delimiters are counted, the
//! symbols are turned into statements that carry the line and column of the
//! symbol they came from, and the statements are rendered inside a complete
//! translation unit.
pub mod alphabet;
pub mod position;
pub mod normalizer;
pub mod validator;
pub mod emitter;
pub mod render;
pub mod assembler;
pub mod translate;
