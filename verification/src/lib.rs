//! The types of a Python type checker.
pub mod callable;
pub mod class;
pub mod display;
pub mod laws;
pub mod laws_of_equality;
pub mod laws_of_operations;
pub mod laws_of_rendering;
pub mod literal;
pub mod module;
pub mod name;
pub mod printing;
pub mod rewriting;
pub mod small;
pub mod special_form;
pub mod stdlib;
mod structural;
pub mod tree;
pub mod tuple;
pub mod type_var;
pub mod types;
pub mod uniques;
pub mod visitor;
