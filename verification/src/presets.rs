//! Fixed preset streams, each a tagged variant mapped to its attributes.

use vstd::prelude::*;

verus! {

/// A built-in stream a user can pick by name instead of pasting a locator.
#[derive(Debug, Clone, Copy, PartialEq, Eq, Structural)]
pub enum LofiSong {
    LofiGirl,
    Undertale,
    Zelda,
    AnimeOps,
    Metal,
    Djent,
}

impl LofiSong {
    /// The source locator behind each preset.
    pub open spec fn spec_url(self) -> Seq<char> {
        match self {
            LofiSong::LofiGirl => "https://www.youtube.com/watch?v=jfKfPfyJRdk"@,
            LofiSong::Undertale => "https://www.youtube.com/watch?v=A7vMrjsBMTI"@,
            LofiSong::Zelda => "https://www.youtube.com/watch?v=-z3RRwk2rdU"@,
            LofiSong::AnimeOps => "https://www.youtube.com/watch?v=GNWLILeztaI"@,
            LofiSong::Metal => "https://www.youtube.com/watch?v=83PnFc6eh-4"@,
            LofiSong::Djent => "https://www.youtube.com/watch?v=1XFtipo7v0Y"@,
        }
    }

    /// The locator to hand to the external resolver for this preset.
    pub fn url(&self) -> (r: &str)
        ensures
            r@ == self.spec_url(),
    {
        match self {
            LofiSong::LofiGirl => "https://www.youtube.com/watch?v=jfKfPfyJRdk",
            LofiSong::Undertale => "https://www.youtube.com/watch?v=A7vMrjsBMTI",
            LofiSong::Zelda => "https://www.youtube.com/watch?v=-z3RRwk2rdU",
            LofiSong::AnimeOps => "https://www.youtube.com/watch?v=GNWLILeztaI",
            LofiSong::Metal => "https://www.youtube.com/watch?v=83PnFc6eh-4",
            LofiSong::Djent => "https://www.youtube.com/watch?v=1XFtipo7v0Y",
        }
    }

    /// Whether the preset is a continuous stream rather than a finite track.
    pub open spec fn spec_is_24_7(self) -> bool {
        self is LofiGirl
    }

    pub fn is_24_7(&self) -> (r: bool)
        ensures
            r == self.spec_is_24_7(),
    {
        match self {
            LofiSong::LofiGirl => true,
            _ => false,
        }
    }
}

impl Default for LofiSong {
    /// The preset offered when the user names none.
    fn default() -> (r: Self)
        ensures
            r == LofiSong::LofiGirl,
    {
        LofiSong::LofiGirl
    }
}

} // verus!
