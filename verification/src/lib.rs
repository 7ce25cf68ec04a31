//! A scope-aware JavaScript source analyzer core.
//!
//! The library walks a parsed module or script in three ordered phases
//! (pre-walk, block-pre-walk, walk), dispatching named hooks of an ordered
//! plugin collection at each traversal point, while maintaining a
//! scope/variable-binding store with shadow-aware lookup and a stacked
//! tagging mechanism, folding constant expressions, and flattening member
//! chains into dotted names.

pub mod ast;
pub mod digits;
pub mod eval;
pub mod evaluator;
pub mod parser;
pub mod parser_plugin;
pub mod scope_info;
pub mod walk;
pub mod walk_block_pre;
pub mod walk_pre;
