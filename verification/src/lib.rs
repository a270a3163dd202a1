//! A Discord helper for the weekly community roundup: it spots links in a
//! channel, collects them into a list, flags duplicates, reports the recent
//! posts of link aggregators and announces new issues.
pub mod text;
pub mod pattern;
pub mod discord;
pub mod handler;
pub mod collect;
pub mod replies;
pub mod scrape;
pub mod links;
pub mod bsky;
