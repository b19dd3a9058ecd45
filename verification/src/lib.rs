pub mod api;
pub mod cli;
pub mod clock;
pub mod compose;
pub mod context;
pub mod defs;
pub mod draft;
pub mod error;
pub mod formatted;
pub mod ids;
pub mod inline;
pub mod json;
pub mod jsontext;
pub mod keyed;
pub mod laws;
pub mod literals;
pub mod markdown;
pub mod props;
pub mod render;
pub mod retry;
pub mod roundtrip;
pub mod space;
pub mod summary;
pub mod sync;
pub mod text;
pub mod types;
