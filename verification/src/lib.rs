//! Caching support for the MSVC compiler driver: classification of a
//! command line, discovery of the prefix of the compiler's notes on opened
//! headers, synthesis of dependency files, and the compile step with its
//! second attempt.
//!
//! The library computes and decides; running the compiler and touching
//! the file system is left to the caller, who hands in what was observed.

pub mod arguments;
pub mod classify;
pub mod classify_laws;
pub mod codepage;
pub mod compile;
pub mod compile_laws;
pub mod depfile;
pub mod depfile_laws;
pub mod detect;
pub mod detect_laws;
pub mod order;
pub mod path;
pub mod preprocess;
pub mod text;
pub mod tokens;

pub use crate::arguments::{CompilerArguments, OutputKind, Outputs, ParsedArguments};
pub use crate::classify::{classify, parse_arguments};
pub use crate::compile::{compile, Cacheable, CompileAction, CompileError, CompileEvent, CompileState};
pub use crate::depfile::dependency_file;
pub use crate::detect::{
    detect_showincludes_prefix, detection_arguments, probe_source, probe_source_name, DetectError,
    PrefixSearch, SearchStep,
};
pub use crate::preprocess::{
    final_name_units, normpath, preprocess, preprocess_arguments, split_includes, Canonical,
    NotedIncludes, PreprocessError, Preprocessed,
};
