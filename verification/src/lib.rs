//! Library core of Meme Watcher, a server that indexes a folder of media
//! files and serves them: settings and paths relative to the archive, the
//! index's bookkeeping (which files to add and which entries to drop), file
//! hashes, types, dimensions, blurhashes and thumbnails, the listing page
//! with its pagination and order, and the HTTP side of serving files with
//! byte ranges and cache validation. Each part is stated against a
//! mathematical model and proved.

pub mod config;
pub mod ffprobe;
pub mod file_info;
pub mod headers;
pub mod imaging;
pub mod media;
pub mod order;
pub mod page_data;
pub mod pagination;
pub mod paths;
pub mod range;
pub mod request;
pub mod routes;
pub mod text;
pub mod thumb;
pub mod time;
pub mod watcher;
