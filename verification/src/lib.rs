pub mod atlas_alloc;
pub mod builder;
pub mod image;
pub mod layout;
pub mod rect;
