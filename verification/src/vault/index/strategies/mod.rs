//! The indexing strategies.
pub mod any;
pub mod home;
pub mod recursive;
pub mod same_dir;

pub use any::AnyStrategy;
pub use home::HomeDirectoryStrategy;
pub use recursive::RecursiveDirectoryStrategy;
pub use same_dir::SameDirectoryStrategy;
