//! Current track metadata, as the renderer consumes it.

use vstd::prelude::*;

use vstd::string::StringExecFns;

verus! {

/// Metadata of the currently playing track.
#[derive(Debug, Clone)]
pub struct TrackInfo {
    pub title: Option<String>,
    pub artist: Option<String>,
    pub album: Option<String>,
    pub playing: bool,
}

impl Default for TrackInfo {
    /// No track: every field empty, not playing.
    fn default() -> (r: TrackInfo)
        ensures
            r.title is None,
            r.artist is None,
            r.album is None,
            !r.playing,
    {
        TrackInfo { title: Option::None, artist: Option::None, album: Option::None, playing: false }
    }
}

impl TrackInfo {
    /// One line for display: `artist - title` when both are known, the one
    /// known field alone otherwise, and empty with neither.
    pub fn display_text(&self) -> (r: String)
        ensures
            match (self.title, self.artist) {
                (Some(t), Some(a)) => r@ == a@ + " - "@ + t@,
                (Some(t), None) => r@ == t@,
                (None, Some(a)) => r@ == a@,
                (None, None) => r@ == Seq::<char>::empty(),
            },
    {
        match (&self.title, &self.artist) {
            (Some(title), Some(artist)) => {
                let mut s = String::from_str(artist.as_str());
                s.append(" - ");
                s.append(title.as_str());
                s
            },
            (Some(title), _) => String::from_str(title.as_str()),
            (_, Some(artist)) => String::from_str(artist.as_str()),
            _ => String::new(),
        }
    }

    /// Whether anything is known of the track: a title or an artist.
    pub fn has_info(&self) -> (b: bool)
        ensures
            b == (self.title is Some || self.artist is Some),
    {
        self.title.is_some() || self.artist.is_some()
    }
}

} // verus!
