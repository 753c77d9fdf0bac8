//! A static-site generator's core: turning markdown documents with a metadata block into
//! pages, and assembling blogs, their paginated index pages and their feed.

use vstd::prelude::*;

pub mod blog;
pub mod config;
pub mod context;
pub mod dates;
pub mod error;
pub mod feed;
pub mod laws;
pub mod markdown;
pub mod page_metadata;
pub mod parser;
pub mod text;

pub use blog::{build_index_pages, sort_by_publish_date, PaginationContext};
pub use config::{GeneretoConfig, GeneretoConfigBlog};
pub use error::GeneretoError;
pub use page_metadata::{PageMetadata, PageMetadataRaw};
pub use parser::{compile_page_phase_2, get_anchor_id_from_title};

verus! {

/// How pages marked as drafts are treated when building the site.
#[derive(Clone, Copy, Debug)]
pub enum DraftsOptions {
    /// Draft pages are written but left out of every listing.
    Build,
    /// Draft pages are treated as ordinary pages.
    Dev,
    /// Draft pages are neither written nor listed.
    Hide,
}

impl DraftsOptions {
    pub fn new(is_dev: bool) -> (r: Self)
        ensures
            is_dev ==> r is Dev,
            !is_dev ==> r is Build,
    {
        if is_dev {
            DraftsOptions::Dev
        } else {
            DraftsOptions::Build
        }
    }

    pub fn is_dev(&self) -> (r: bool)
        ensures
            r == (*self is Dev),
    {
        match self {
            DraftsOptions::Dev => true,
            _ => false,
        }
    }

    pub fn is_hide(&self) -> (r: bool)
        ensures
            r == (*self is Hide),
    {
        match self {
            DraftsOptions::Hide => true,
            _ => false,
        }
    }
}

} // verus!
