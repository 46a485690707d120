//! Client-side logic of a FreshRSS reader for a small touch display:
//! the Google Reader API requests, the handling of their responses,
//! the data model of a reading list, and the mapping of touches to pixels.

pub mod decimal;
pub mod freshrss;
pub mod screen;
pub mod serde_rss;
pub mod utf8;
