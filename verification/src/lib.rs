//! The verified core of the emergent test runner: line breaking, libtest output
//! parsing, the interpretation of a test run, the application's decisions,
//! incrementally updated view models, and a generation aware cache.

mod json;
pub mod libtest;
pub mod line_breaking;
pub mod test_runner;
pub mod app_model;

pub mod change_set;
pub mod indexed;
pub mod lazy_map;
pub mod presentation;
pub mod generation_cache;

pub mod color_schemes;
pub mod drawing;
pub mod measure;
pub mod scope;
pub mod skia;
pub mod window;

pub use line_breaking::text_as_lines;
pub use change_set::{ChangeSet, TailChange};
pub use indexed::{IndexedSource, IndexedTarget};
pub use lazy_map::{LazyIter, LazyMap};
pub use presentation::{Ref, Table};
pub use generation_cache::GenerationCache;
pub use measure::measure_fn;
pub use scope::ScopeFragment;
