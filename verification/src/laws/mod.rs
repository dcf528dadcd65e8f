//! What the operations are for, stated of their arguments and results.
pub mod bar;
pub mod edits;
pub mod frames;
pub mod items;
pub mod keys;
pub mod page;
pub mod project;
pub mod session;
pub mod view;
pub mod words;
pub mod work;
