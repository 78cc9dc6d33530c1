//! Transcripts and playlists of YouTube videos, read from the pages that the
//! site serves to a browser.
//!
//! The library holds everything that is decided or computed on the way from
//! what a person typed to the cues of a transcript: reading identifiers out
//! of URLs, judging responses, cutting the state out of a page, making the
//! catalog of caption tracks, choosing and translating a track, parsing the
//! caption document, and walking the pages of a playlist. It makes no
//! request itself: a caller fetches, and hands in what it got.

use vstd::prelude::*;

pub mod catalog;
pub mod cleanup;
pub mod error;
pub mod filename;
pub mod html_escape;
pub mod output;
pub mod parser;
pub mod playlist;
pub mod resolver;
pub mod session;
pub mod text;
pub mod watch_page;
pub mod xml;

pub use error::TranscriptError;
pub use parser::{TranscriptItem, TranscriptParser};
