//! Dense trees whose number of nodes is fixed at compile time.

pub mod btree;
pub mod structs;
pub mod tree;

pub use crate::layout::{LEAF_NODE, ROOT_NODE};
pub use crate::sized::btree::{BTree, Walker};
pub use crate::sized::structs::Array;
pub use crate::sized::tree::Tree;
