//! The artist records of the library and the kinds of names an artist can have.
use vstd::prelude::*;
use vstd::string::*;

use crate::db::types::datetime_stamp::DateTimeStamp;
use crate::text::str_equals;

verus! {

/// What a name is to its artist.
#[derive(Debug, Clone, Copy, PartialEq, Eq, Structural)]
pub enum NameKind {
    Legal,
    Stage,
    Alias,
}

/// The word that stands for a kind, in the database and on the command line.
pub open spec fn kind_word(kind: NameKind) -> Seq<char> {
    match kind {
        NameKind::Legal => "legal"@,
        NameKind::Stage => "stage"@,
        NameKind::Alias => "alias"@,
    }
}

/// The kind shown to a person, capitalised.
pub open spec fn kind_title(kind: NameKind) -> Seq<char> {
    match kind {
        NameKind::Legal => "Legal"@,
        NameKind::Stage => "Stage"@,
        NameKind::Alias => "Alias"@,
    }
}

/// The kind a word stands for: exactly one of the three lower-case words.
pub open spec fn kind_of_word(word: Seq<char>) -> Option<NameKind> {
    if word == "legal"@ {
        Some(NameKind::Legal)
    } else if word == "stage"@ {
        Some(NameKind::Stage)
    } else if word == "alias"@ {
        Some(NameKind::Alias)
    } else {
        None
    }
}

/// A word that names no kind.
#[derive(Debug, Clone, Copy, PartialEq, Eq, Structural)]
pub enum NameKindParseError {
    VariantNotFound,
}

impl NameKind {
    /// The kind's word: `legal`, `stage` or `alias`.
    pub fn to_string(&self) -> (r: String)
        ensures
            r@ == kind_word(*self),
    {
        match self {
            NameKind::Legal => String::from_str("legal"),
            NameKind::Stage => String::from_str("stage"),
            NameKind::Alias => String::from_str("alias"),
        }
    }

    /// The kind's title: `Legal`, `Stage` or `Alias`.
    pub fn as_title(&self) -> (r: String)
        ensures
            r@ == kind_title(*self),
    {
        match self {
            NameKind::Legal => String::from_str("Legal"),
            NameKind::Stage => String::from_str("Stage"),
            NameKind::Alias => String::from_str("Alias"),
        }
    }

    /// Reads a kind from its word; the match is exact and case-sensitive.
    pub fn from_str(s: &str) -> (r: Result<NameKind, NameKindParseError>)
        ensures
            match kind_of_word(s@) {
                Some(k) => r == Ok::<NameKind, NameKindParseError>(k),
                None => r == Err::<NameKind, NameKindParseError>(NameKindParseError::VariantNotFound),
            },
    {
        if str_equals(s, "legal") {
            Ok(NameKind::Legal)
        } else if str_equals(s, "stage") {
            Ok(NameKind::Stage)
        } else if str_equals(s, "alias") {
            Ok(NameKind::Alias)
        } else {
            Err(NameKindParseError::VariantNotFound)
        }
    }
}

/// A kind read back from its word is the kind that was written, and a word is read as a
/// kind only when it is exactly that kind's word.
pub proof fn lemma_kind_word_round_trip(kind: NameKind)
    ensures
        kind_of_word(kind_word(kind)) == Some(kind),
        forall|word: Seq<char>| #[trigger] kind_of_word(word) == Some(kind) ==> word == kind_word(kind),
{
    reveal_strlit("legal");
    reveal_strlit("stage");
    reveal_strlit("alias");
    assert("legal"@[0] != "stage"@[0]);
    assert("legal"@[0] != "alias"@[0]);
    assert("stage"@[0] != "alias"@[0]);
}

/// An artist of the library.
#[derive(Debug)]
pub struct Artist {
    pub id: i64,
    /// Row id of the artist's primary name.
    pub primary_name_id: i64,
    pub created_at: DateTimeStamp,
    pub updated_at: DateTimeStamp,
}

/// One name of an artist, as stored.
#[derive(Debug)]
pub struct ArtistName {
    pub id: i64,
    /// The artist the name belongs to.
    pub artist_id: i64,
    /// The name as it was entered.
    pub name: String,
    /// The name as it is compared.
    pub normalized_name: String,
    pub kind: Option<NameKind>,
    /// ISO 639-1 code of the name's language.
    pub locale: Option<String>,
    pub created_at: DateTimeStamp,
    pub updated_at: DateTimeStamp,
}

} // verus!
