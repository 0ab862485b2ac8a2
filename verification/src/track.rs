//! Immutable description of one playable item.

use vstd::prelude::*;

verus! {

/// Who made a track, as far as the resolver could tell.
#[derive(Debug, Clone, PartialEq, Eq)]
pub struct Author {
    pub name: Option<String>,
    pub icon_url: Option<String>,
}

/// Metadata and source locator for one playable item. Produced by the
/// external source resolver; read-only once constructed.
#[derive(Debug, Clone, PartialEq, Eq)]
pub struct Track {
    pub title: Option<String>,
    pub author: Author,
    pub thumbnail: Option<String>,
    pub length_secs: Option<u64>,
    pub url: Option<String>,
}

/// Live progress of the playing track, reported by the transport layer.
#[derive(Debug, Clone, PartialEq, Eq)]
pub struct TrackUpdate {
    pub position_secs: u64,
}

/// Splits a duration in seconds into hours, minutes and seconds for
/// display; minutes and seconds each lie below sixty.
pub fn duration_parts(total_secs: u64) -> (r: (u64, u64, u64))
    ensures
        r.0 == total_secs / 3600,
        r.1 == (total_secs / 60) % 60,
        r.2 == total_secs % 60,
        r.1 < 60,
        r.2 < 60,
        r.0 * 3600 + r.1 * 60 + r.2 == total_secs,
{
    let seconds = total_secs;
    let minutes = seconds / 60;
    let hours = minutes / 60;
    let minutes = minutes % 60;
    let seconds = seconds % 60;
    proof {
        assert(hours == total_secs / 3600 && hours * 3600 + minutes * 60 + seconds
            == total_secs) by (nonlinear_arith)
            requires
                hours == (total_secs / 60) / 60,
                minutes == (total_secs / 60) % 60,
                seconds == total_secs % 60,
        ;
    }
    (hours, minutes, seconds)
}

} // verus!
