//! Compile-time templates: the analysis behind a template compiler that turns
//! `Text {{ value }} text` into a typed `Context` struct with a `render` method.
//!
//! - `template_ast`: parsed templates and the expressions they show;
//! - `options`: reading the template source and type aliases of a module;
//! - `ast_generator`: the variables of a template and the items generated
//!   for it;
//! - `generator`: Rust source for templates of plain variables;
//! - `types`: looking up template values by key;
//! - `utils`: camel case and capitalisation of names.

pub mod ast_generator;
pub mod generator;
pub mod options;
pub mod template_ast;
pub mod translate;
pub mod types;
pub mod utils;
