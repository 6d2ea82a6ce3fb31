//! Playback, discovery and library logic of a desktop music player.

pub mod album;
pub mod artist;
pub mod bridge;
pub mod cache;
pub mod candidates;
pub mod clock;
pub mod config;
pub mod detail;
pub mod discover;
pub mod discovery;
pub mod enrichment;
pub mod featured;
pub mod feed;
pub mod flac;
pub mod home;
pub mod library;
pub mod likes;
pub mod matching;
pub mod mpris;
pub mod normalize;
pub mod plans;
pub mod playlists;
pub mod presence;
pub mod queue;
pub mod recommend;
pub mod related;
pub mod scrobble;
pub mod search;
pub mod text;
pub mod together;
pub mod track;
pub mod ui;
pub mod youtube;
