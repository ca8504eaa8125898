//! Classes for Rust, as a rewriting of tokens.
//!
//! A class is declared as
//!
//! ```text
//! ClassDef   := Attribute* Visibility 'class' Ident Generics? '{' Member* '}'
//! Member     := Attribute* ('pub' | 'prot')? ('const' | 'static')* Signature Block
//! ```
//!
//! and is rewritten into four declarations: a struct with the name of the class, an impl
//! block with the methods that are not protected, a trait `__NameProtected` with the
//! protected methods, and an impl of that trait for the struct. A method that is not
//! `static` and names no receiver gets `&mut self`. A repeated modifier and a static
//! method with a receiver are errors, found by a validation pass over the parsed class.
//!
//! The library works on token trees as plain values ([`token`]). Rust's own syntax
//! (attributes, signatures, blocks and the like) is parsed by `syn` behind the functions
//! of [`syntax`]; everything else is decided, and proved, here. [`class::class`] is the
//! whole macro as a function from tokens to tokens.

// Leaves first: each module uses only modules above it.
pub mod error;
pub mod token;
pub mod syntax;
pub mod utils;
pub mod validate;
pub mod modifiers;
pub mod fields;
pub mod class;
pub mod spans;
