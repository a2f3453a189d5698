//! Release lookup on a Forgejo forge: the release-information URL of a
//! project, the authorization header of its request, and the asset list
//! of the release that the forge answers with.
//!
//! The library computes on plain values. Sending the request and decoding
//! the JSON body are left to the caller, who hands the outcome back as a
//! reply.

pub mod asset;
pub mod error;
pub mod forgejo;
pub mod project;
pub mod request;
pub mod url_path;

pub use asset::{Asset, ForgejoAsset, Release, Reply};
pub use error::ForgeError;
pub use forgejo::Forgejo;
pub use request::{Header, Request};
