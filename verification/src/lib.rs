//! News-archiving bot for the Kirara Fantasia news site: the text formats,
//! page-scraping rules, download targets, retry decisions and announcement
//! bookkeeping, verified. Network and file access live outside the library.

pub mod announce;
pub mod archive;
pub mod legacy;
pub mod module;
pub mod news;
pub mod outside;
pub mod retry;
pub mod savenews;
pub mod text;
