//! A bridge between declared test functions and a native host test framework:
//! it names each declared test, keeps the declarations in a registry, and turns
//! whatever a test body reports into the single pass/fail outcome the host
//! framework understands.

pub mod adapter;
pub mod bridge;
pub mod descriptor;
pub mod name;
pub mod registry;
