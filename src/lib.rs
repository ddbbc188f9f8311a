//! Backend of a local image gallery: which files are images, where their
//! cached thumbnails live, how a thumbnail is cut, how a batch of thumbnail
//! work reports completion, how an image is deleted, and the set of liked
//! images.

pub mod classify;
pub mod thumbnail;
pub mod cache;
pub mod batch;
pub mod deletion;
pub mod likes;
