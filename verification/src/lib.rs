//! A verified core for ECMAScript compatibility transforms: helper loading,
//! statement injection, template-literal minification, private-key naming and
//! the expression rewrites of the ES2016-ES2026 passes, over a plain model of
//! the syntax tree.

pub mod helper_loader;
pub mod ast;
pub mod ast_view;
pub mod ast_clone;
pub mod ast_build;
pub mod minify;
pub mod text;
pub mod class_static_block;
pub mod regexp;
pub mod statement_injector;
pub mod context;
pub mod var_declarations;
pub mod top_level_statements;
pub mod module_imports;
pub mod es2015;
pub mod this_binding;
pub mod es2016;
pub mod es2017;
pub mod duplicate;
pub mod computed_key;
pub mod es2018;
pub mod es2019;
pub mod es2020;
pub mod es2021;
pub mod es2022;
pub mod class_properties;
pub mod jsx;
pub mod options;
pub mod es2026;
pub mod styled_components;
pub mod plugins;
pub mod compiler;
