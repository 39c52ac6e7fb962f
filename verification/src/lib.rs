//! A local music library: songs and playlists, a playback queue with a
//! cursor, and the transport controller that binds the queue to an audio sink.

pub mod api;
pub mod json;
pub mod library;
pub mod lookup;
pub mod player;
pub mod playlist;
pub mod playlists;
pub mod queue;
pub mod scan;
pub mod sink;
pub mod song;
pub mod text;
