//! A client for an Immich photo server: it puts media into the shape that the server
//! wants, plans the upload of a Google Takeout archive, and says what the replies of
//! the server mean. It sends nothing itself: a request is a value to send, and a reply
//! is a value that was received.

pub mod album;
pub mod api;
pub mod asset;
pub mod auth;
pub mod client;
pub mod datetime;
pub mod host;
pub mod http;
pub mod multipart;
pub mod takeout;
pub mod text;
pub mod url;
pub mod utils;

pub use album::{Album, Albums};
pub use api::requests::{AssetMoveError, MovedAsset};
pub use api::upload;
pub use asset::{Asset, AssetId, AssetRemoteStatus, AssetType};
pub use client::Client;
pub use datetime::DateTime;
pub use utils::{ImmichError, ImmichResult, User};
