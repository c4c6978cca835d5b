//! Verified core of Hearth, a local PHP development environment manager.

pub mod clock;
pub mod config;
pub mod fs;
pub mod guarantees;
pub mod lower;
pub mod path;
pub mod php;
pub mod scan;
pub mod service;
pub mod site;
pub mod socket;
pub mod strmap;
pub mod text;
pub mod utf8;
pub mod valet;
pub mod views;
