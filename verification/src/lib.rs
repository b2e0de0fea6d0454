//! Renders Cloudflare DNS records as Terraform resource-state fragments.
//!
//! The core of the crate is a pure encoder: one [`record::DomainRecord`]
//! becomes a textual resource-state fragment, and an ordered sequence of
//! records becomes a single bracketed collection fragment. Everything the
//! encoder produces is pinned down, character by character, by the
//! specification functions in [`encode`].

pub mod digits;
pub mod encode;
pub mod laws;
pub mod parse;
pub mod record;
pub mod split;
