//! Analysis of parsed TOML documents for editor integration: byte spans and
//! position mapping, a syntax tree model, folding ranges and the document
//! outline, resolution of DOM nodes into plain values, schema validation
//! plans, and the routing rules of a JSON-RPC message dispatcher.

pub mod allowed_chars;
pub mod coords;
pub mod date;
pub mod dispatch;
pub mod dom;
pub mod escape;
pub mod folding;
pub mod number;
pub mod span;
pub mod symbols;
pub mod syntax;
pub mod text;
pub mod validate;
pub mod value;
