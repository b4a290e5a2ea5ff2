//! A source-to-source pass over a JavaScript/TypeScript-with-JSX syntax
//! tree: for every top-level binding that looks like a UI component it
//! inserts a `Name.displayName = "Name";` statement directly after the
//! binding's statement, unless such a label is already present.
//!
//! `ast` holds the tree model and its mathematical views; `classify`
//! decides whether a subtree produces UI; `extract` collects the
//! component candidates of one statement list; `labels` scans for
//! existing labels and synthesizes new ones; `schedule` inserts them at
//! the right offsets; `pass` drives the recursion over nested lists;
//! `laws` proves the properties the pass promises.
pub mod ast;
pub mod classify;
pub mod extract;
pub mod labels;
pub mod laws;
pub mod pass;
pub mod schedule;
