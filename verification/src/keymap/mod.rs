//! Keys, modes, bindings, and the resolver that connects them.
pub mod conversion;
pub mod key;
pub mod map;
pub mod message;
pub mod resolver;
pub mod tree;
