//! Local caching and media streaming core of a desktop imageboard client.
//!
//! - `store`: the thread/post cache, bounded by age and by size, with
//!   freshness checks and statistics; `laws` states what holds across its
//!   operations.
//! - `request` and `response`: how the loopback media server reads a request
//!   (method, file name, byte range) and what it answers.
//! - `media`: the naming rules of the media disk cache and its content types.
//! - `boards`, `api` and `posting`: the board catalogue, the remote endpoint
//!   paths and records, and the posting cooldown.
//! - `clock` and `text`: the current time, and decimal rendering.
pub mod api;
pub mod boards;
pub mod clock;
pub mod laws;
pub mod media;
pub mod posting;
pub mod request;
pub mod response;
pub mod store;
pub mod text;
