//! From the tags of a probed file to a track record.

use std::time::Duration;
use vstd::prelude::*;

verus! {

/// What the tag of a file says, field by field. A field the tag does not
/// carry is `None`.
#[derive(Debug, Clone, PartialEq, Eq)]
pub struct TagFields {
    pub title: Option<String>,
    pub artist: Option<String>,
    pub album: Option<String>,
    pub genre: Option<String>,
    pub track: Option<u32>,
}

/// A file that the tag reader could open and parse.
#[derive(Debug, PartialEq, Eq)]
pub struct Probed {
    /// The primary tag of the file, if it has any tag.
    pub tags: Option<TagFields>,
    /// The playing time from the audio properties.
    pub duration: Duration,
}

/// The description of one track.
#[derive(Debug, PartialEq, Eq)]
pub struct TrackInfo {
    pub title: String,
    pub artist: String,
    pub album: String,
    pub genre: String,
    pub track: u32,
    pub duration: Duration,
}

/// A track record, and whether its track number had to be made up.
#[derive(Debug, PartialEq, Eq)]
pub struct Extraction {
    pub info: TrackInfo,
    /// The tag had no track number, so `info.track` is 0.
    pub track_defaulted: bool,
}

/// Why a file gave no track record.
#[derive(Debug, Clone, PartialEq, Eq)]
pub enum ExtractionError {
    /// The file was read, and holds no tag at all.
    NoTagsFound,
    /// The tag reader failed on the file; the text is its diagnostic.
    CodecError(String),
}

/// `TagFields` with its texts as sequences of characters.
pub struct TagFieldsView {
    pub title: Option<Seq<char>>,
    pub artist: Option<Seq<char>>,
    pub album: Option<Seq<char>>,
    pub genre: Option<Seq<char>>,
    pub track: Option<u32>,
}

/// `TrackInfo` with its texts as sequences of characters.
pub struct TrackInfoView {
    pub title: Seq<char>,
    pub artist: Seq<char>,
    pub album: Seq<char>,
    pub genre: Seq<char>,
    pub track: u32,
    pub duration: Duration,
}

/// The characters of a text field that may be absent.
pub open spec fn text_view(field: Option<String>) -> Option<Seq<char>> {
    match field {
        Some(text) => Some(text@),
        None => None,
    }
}

impl View for TagFields {
    type V = TagFieldsView;

    open spec fn view(&self) -> TagFieldsView {
        TagFieldsView {
            title: text_view(self.title),
            artist: text_view(self.artist),
            album: text_view(self.album),
            genre: text_view(self.genre),
            track: self.track,
        }
    }
}

impl View for TrackInfo {
    type V = TrackInfoView;

    open spec fn view(&self) -> TrackInfoView {
        TrackInfoView {
            title: self.title@,
            artist: self.artist@,
            album: self.album@,
            genre: self.genre@,
            track: self.track,
            duration: self.duration,
        }
    }
}

/// The text of a field, empty where the tag does not carry it.
pub open spec fn text_or_empty(field: Option<Seq<char>>) -> Seq<char> {
    match field {
        Some(text) => text,
        None => Seq::empty(),
    }
}

/// The track record that a tag and a playing time make: an absent text is
/// empty and an absent track number is 0.
pub open spec fn track_of(tags: TagFieldsView, duration: Duration) -> TrackInfoView {
    TrackInfoView {
        title: text_or_empty(tags.title),
        artist: text_or_empty(tags.artist),
        album: text_or_empty(tags.album),
        genre: text_or_empty(tags.genre),
        track: match tags.track {
            Some(number) => number,
            None => 0,
        },
        duration,
    }
}

/// Whether probing ended with a tag to read: the reader did not fail, and the
/// file holds a tag.
pub open spec fn readable(probe: Result<Probed, String>) -> bool {
    probe matches Ok(probed) && probed.tags is Some
}

/// `outcome` is what extraction makes of `probe`.
///
/// A failure of the tag reader becomes `CodecError` with the reader's
/// diagnostic, a file without any tag `NoTagsFound`. Otherwise the record is
/// built from the tag, and no absent field is an error.
pub open spec fn extracts(
    probe: Result<Probed, String>,
    outcome: Result<Extraction, ExtractionError>,
) -> bool {
    match probe {
        Err(diagnostic) => outcome matches Err(ExtractionError::CodecError(text)) && text@
            == diagnostic@,
        Ok(probed) => match probed.tags {
            None => outcome matches Err(ExtractionError::NoTagsFound),
            Some(tags) => {
                &&& outcome matches Ok(extraction)
                &&& extraction.info@ == track_of(tags@, probed.duration)
                &&& extraction.track_defaulted == (tags.track is None)
            },
        },
    }
}

fn text_or_default(field: &Option<String>) -> (text: String)
    ensures
        text@ == text_or_empty(text_view(*field)),
{
    match field {
        Some(text) => text.clone(),
        None => String::new(),
    }
}

/// Turns the outcome of probing a file into a track record or a classified
/// failure.
pub fn read_metadata(probe: &Result<Probed, String>) -> (outcome: Result<
    Extraction,
    ExtractionError,
>)
    ensures
        extracts(*probe, outcome),
        outcome is Ok <==> readable(*probe),
{
    let probed = match probe {
        Ok(probed) => probed,
        Err(diagnostic) => {
            return Err(ExtractionError::CodecError(diagnostic.clone()));
        },
    };
    let tags = match &probed.tags {
        Some(tags) => tags,
        None => {
            return Err(ExtractionError::NoTagsFound);
        },
    };
    let track: u32 = match tags.track {
        Some(number) => number,
        None => 0,
    };
    Ok(
        Extraction {
            info: TrackInfo {
                title: text_or_default(&tags.title),
                artist: text_or_default(&tags.artist),
                album: text_or_default(&tags.album),
                genre: text_or_default(&tags.genre),
                track,
                duration: probed.duration,
            },
            track_defaulted: tags.track.is_none(),
        },
    )
}

} // verus!
