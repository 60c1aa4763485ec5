//! Compilation and linking core of a WAM-based logic-programming engine.
//!
//! Parsed units are turned into instruction sequences by a code generator,
//! spliced together with forward-jump patching, given addresses in the
//! machine's code segment and recorded in the predicate, operator and module
//! directories. The functions here are verified against contracts over
//! sequences and maps. Two things are taken on trust: the few calls into the
//! parser crate, which stand behind wrappers whose contracts are stated and
//! not proved, and the code generator, whose results the contracts name and
//! whose implementations promise to compute them.

pub mod names;
pub mod directory;
pub mod code;
pub mod errors;
pub mod syntax;
pub mod operators;
pub mod modules;
pub mod machine;
pub mod generator;
pub mod compile;
pub mod listing;

pub use crate::code::set_first_index;
pub use crate::compile::compile_appendix;
pub use crate::compile::compile_decl;
pub use crate::compile::compile_packet;
pub use crate::compile::compile_query;
pub use crate::compile::compile_relation;
pub use crate::listing::compile_listing;
pub use crate::listing::compile_user_module;
pub use crate::listing::use_module;
pub use crate::listing::use_qualified_module;
pub use crate::listing::ListingCompiler;
