//! Sequential layout of a tree of flows, and the display list built from it.
//!
//! A layout runs its passes one after the other over the whole tree, each
//! to completion: generated content is resolved, float placement is
//! guessed, sizes are assigned, overflow is stored, and the display list is
//! built. Every pass but the first and the last looks at the damage of each
//! flow and leaves alone what is not stale. The passes are in
//! [`sequential`]; what each of them does to a single flow is in
//! [`sizing`], [`floats`], [`generated_content`] and [`display_list`].
//!
//! Contracts are stated over [`flow::FlowTree`], the tree as a value, and
//! ask that every length of the tree be in range
//! ([`flow::FlowTree::wf`]). What holds of the passes beyond their
//! contracts is proved in [`sequential`], [`ordering`] and [`speculation`].

pub mod context;
pub mod damage;
pub mod display_list;
pub mod floats;
pub mod flow;
pub mod generated_content;
pub mod ordering;
pub mod sequential;
pub mod sizing;
pub mod speculation;
pub mod units;
