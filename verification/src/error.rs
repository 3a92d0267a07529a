//! What can be wrong with a reply.

use vstd::prelude::*;
use vstd::string::*;

verus! {

/// A field that one of the decoders reads, named after what it holds.
#[derive(Debug, Clone, Copy, PartialEq, Eq, Structural)]
pub enum Field {
    CurrentIndex,
    Playing,
    Gain,
    Position,
    Entry,
    Id,
    Name,
    SongCount,
    Duration,
    CoverArt,
    Title,
}

impl Field {
    /// The key under which the field travels on the wire.
    pub open spec fn key(self) -> Seq<char> {
        match self {
            Field::CurrentIndex => "currentIndex"@,
            Field::Playing => "playing"@,
            Field::Gain => "gain"@,
            Field::Position => "position"@,
            Field::Entry => "entry"@,
            Field::Id => "id"@,
            Field::Name => "name"@,
            Field::SongCount => "songCount"@,
            Field::Duration => "duration"@,
            Field::CoverArt => "coverArt"@,
            Field::Title => "title"@,
        }
    }

    /// No two fields travel under the same key.
    pub proof fn lemma_keys_differ(a: Field, b: Field)
        ensures
            a.key() == b.key() <==> a == b,
    {
        reveal_strlit("currentIndex");
        reveal_strlit("playing");
        reveal_strlit("gain");
        reveal_strlit("position");
        reveal_strlit("entry");
        reveal_strlit("id");
        reveal_strlit("name");
        reveal_strlit("songCount");
        reveal_strlit("duration");
        reveal_strlit("coverArt");
        reveal_strlit("title");
        if a != b && a.key() == b.key() {
            assert(a.key().len() == b.key().len());
            assert(a.key()[0] == b.key()[0]);
            assert(a.key()[1] == b.key()[1]);
        }
    }

    /// The key under which the field travels on the wire.
    pub fn name(self) -> (name: &'static str)
        ensures
            name@ == self.key(),
    {
        match self {
            Field::CurrentIndex => "currentIndex",
            Field::Playing => "playing",
            Field::Gain => "gain",
            Field::Position => "position",
            Field::Entry => "entry",
            Field::Id => "id",
            Field::Name => "name",
            Field::SongCount => "songCount",
            Field::Duration => "duration",
            Field::CoverArt => "coverArt",
            Field::Title => "title",
        }
    }
}

/// Why a reply was rejected.
#[derive(Debug, Clone, Copy, PartialEq, Eq, Structural)]
pub enum ParseError {
    /// The text is not a JSON document.
    Syntax,
    /// A record was expected and the value is not a JSON object.
    NotAnObject,
    /// The object has no member under the field's key.
    Missing(Field),
    /// The member under the field's key does not hold what the field asks for.
    Malformed(Field),
    /// The reply does not hold the place where the list was expected.
    NoEntries,
    /// The place where the list was expected holds something else.
    NotAnArray,
}

impl ParseError {
    /// What the error says in words. A field is named by its key.
    pub open spec fn wording(self) -> Seq<char> {
        match self {
            ParseError::Syntax => "not a JSON document"@,
            ParseError::NotAnObject => "not an object"@,
            ParseError::Missing(field) => "missing field "@ + field.key(),
            ParseError::Malformed(field) => "malformed field "@ + field.key(),
            ParseError::NoEntries => "no entries found"@,
            ParseError::NotAnArray => "not an array"@,
        }
    }

    /// The error in words.
    pub fn message(&self) -> (m: String)
        ensures
            m@ == self.wording(),
    {
        match self {
            ParseError::Syntax => "not a JSON document".to_owned(),
            ParseError::NotAnObject => "not an object".to_owned(),
            ParseError::Missing(field) => "missing field ".to_owned().concat(field.name()),
            ParseError::Malformed(field) => "malformed field ".to_owned().concat(field.name()),
            ParseError::NoEntries => "no entries found".to_owned(),
            ParseError::NotAnArray => "not an array".to_owned(),
        }
    }
}

} // verus!
