//! Verified core of a launcher that plays a random video from one of the
//! show folders under the user's video directory.

pub mod files;
pub mod thumbnails;
pub mod weights;
pub mod shows;
pub mod launcher;
pub mod layout;
