//! Rooted trees in two representations: dense, array-backed trees whose
//! parent/child relationships are index arithmetic over parallel arrays, and
//! a growable sparse tree whose nodes live in an arena and are addressed by
//! stable integer handles.

pub mod btree;
pub mod layout;
pub mod sized;
pub mod sparse;
pub mod tree;
