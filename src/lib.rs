//! Synchronisation engine that tags local image files with metadata fetched
//! from a remote image board, keeping a resumable index of finished paths.

pub mod error;
pub mod fetch;
pub mod ident;
pub mod index;
pub mod order;
pub mod session;
pub mod tmsu;

pub use error::GeneralError;
pub use tmsu::TmsuError;
pub use fetch::find_image_tags;
pub use ident::id_from_filepath;
pub use index::Index;
