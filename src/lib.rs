//! Listing the tags of a container image on an OCI / Docker v2 registry:
//! image references, the registry's authentication challenge, the paginated
//! tag-list exchange and the version-aware ordering of tags.

pub mod text;
pub mod image;
pub mod tag;
pub mod challenge;
pub mod fetch;
