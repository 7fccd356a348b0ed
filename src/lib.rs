//! A registry of ownable, tradeable, breedable creatures ("chocobos").
//!
//! Every creature is listed once in a global dense array and once in the
//! dense array of its current owner; both arrays carry reverse indexes so
//! that appending and swap-removing are constant time (finding the global
//! position of an identity is a scan of the global array). Handlers validate
//! every condition before they mutate anything, so a failed call leaves the
//! registry untouched.

pub mod types;
pub mod codec;
pub mod genetics;
pub mod registry;
pub mod handlers;
pub mod laws;
