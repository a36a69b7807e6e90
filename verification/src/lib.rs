//! The library of a terminal interface for a Basalto library of files: the
//! index of file metadata, directory listings, and the interface state with
//! each of its transitions, all verified with Verus.
pub mod text;
pub mod sort;
pub mod date;
pub mod paths;
pub mod index;
pub mod app;
pub mod edit;
pub mod command;
pub mod sidebar;
pub mod keys;
pub mod git;
pub mod icons;
pub mod preview;
pub mod view;
pub mod laws;
