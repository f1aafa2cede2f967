//! Small data carried by Twitch message tags: badges, emotes and colors.

use vstd::prelude::*;

verus! {

/// One chat badge, e.g. `moderator/1`.
#[derive(Debug, Clone, PartialEq, Eq)]
pub struct Badge {
    pub name: String,
    pub version: String,
}

#[verifier::ext_equal]
pub struct BadgeV {
    pub name: Seq<char>,
    pub version: Seq<char>,
}

impl View for Badge {
    type V = BadgeV;

    open spec fn view(&self) -> BadgeV {
        BadgeV { name: self.name@, version: self.version@ }
    }
}

impl DeepView for Badge {
    type V = BadgeV;

    open spec fn deep_view(&self) -> BadgeV {
        self.view()
    }
}

/// A half-open range of character positions in the message text.
#[derive(Debug, Clone, Copy, PartialEq, Eq, Structural)]
pub struct CharRange {
    pub start: usize,
    pub end: usize,
}

/// One emote use: its id, where it stands in the message text, and the
/// text it covers.
#[derive(Debug, Clone, PartialEq, Eq)]
pub struct Emote {
    pub id: String,
    pub char_range: CharRange,
    pub code: String,
}

#[verifier::ext_equal]
pub struct EmoteV {
    pub id: Seq<char>,
    pub start: int,
    pub end: int,
    pub code: Seq<char>,
}

impl View for Emote {
    type V = EmoteV;

    open spec fn view(&self) -> EmoteV {
        EmoteV {
            id: self.id@,
            start: self.char_range.start as int,
            end: self.char_range.end as int,
            code: self.code@,
        }
    }
}

impl DeepView for Emote {
    type V = EmoteV;

    open spec fn deep_view(&self) -> EmoteV {
        self.view()
    }
}

/// An `#RRGGBB` color, with the pairs read as decimal numbers.
#[derive(Debug, Clone, Copy, PartialEq, Eq, Structural)]
pub struct RGBColor {
    pub r: u8,
    pub g: u8,
    pub b: u8,
}

} // verus!
