//! Boot images: what guest memory holds before the first instruction runs.

pub mod bootstrap;
pub mod image;
pub mod layout;
pub mod loader;
pub mod paging;
pub mod params;
pub mod tables;
