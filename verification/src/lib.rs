//! A memory-management toolkit core: heap allocation, object lifetime
//! tracking, and stop-the-world copying garbage collection, modelled over an
//! explicit object table so that every rule of the collector is stated and
//! machine-checked.

pub mod collection;
pub mod copyspace;
pub mod errors;
pub mod forwarding_word;
pub mod gc_works;
pub mod gencopy;
pub mod immortalspace;
pub mod largeobjectspace;
pub mod layout;
pub mod memory_manager;
pub mod mmtk;
pub mod mutator;
pub mod nogc;
pub mod options;
pub mod object_model;
pub mod page_resource;
pub mod plan;
pub mod reference_processor;
pub mod scheduler;
pub mod space;
pub mod vm;

pub use layout::Address;
pub use layout::ObjectReference;
