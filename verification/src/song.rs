//! Songs, as far as the jukebox and the playlists speak of them.

use vstd::prelude::*;
use crate::error::{Field, ParseError};
use crate::json::Json;
use crate::record::{
    each_decoded, fault_at, fetch, first_fault_from, lemma_failure_stays, lemma_missing_field,
    record_fault, value_at, want,
};

verus! {

/// A song: the identifier by which the server knows it, and its title.
#[derive(Debug, Clone, PartialEq, Eq)]
pub struct Song {
    pub id: u64,
    pub title: String,
}

pub struct SongView {
    pub id: u64,
    pub title: Seq<char>,
}

impl View for Song {
    type V = SongView;

    open spec fn view(&self) -> SongView {
        SongView { id: self.id, title: self.title@ }
    }
}

/// The views of a list of songs, in order.
pub open spec fn song_views(songs: Seq<Song>) -> Seq<SongView> {
    songs.map_values(|s: Song| s@)
}

impl Song {
    /// The fields of a song record, in the order in which they are read.
    pub open spec fn fields() -> Seq<Field> {
        seq![Field::Id, Field::Title]
    }

    /// The song that a record describes. The identifier travels as a string
    /// of decimal digits.
    pub open spec fn decoded(record: Json) -> Result<SongView, ParseError> {
        match record_fault(record, Self::fields()) {
            Some(e) => Err(e),
            None => Ok(
                SongView {
                    id: value_at(record, Field::Id).numeric_text()->Some_0,
                    title: value_at(record, Field::Title).text()->Some_0,
                },
            ),
        }
    }

    pub open spec fn decoder() -> spec_fn(Json) -> Result<SongView, ParseError> {
        |record: Json| Self::decoded(record)
    }

    /// The songs that a list of records describes, or the error of the first
    /// record that describes none.
    pub open spec fn decoded_list(items: Seq<Json>) -> Result<Seq<SongView>, ParseError> {
        each_decoded(items, Self::decoder())
    }

    /// A record that lacks the identifier or the title is no song, and
    /// where the field before the lacking one is in order, the error names
    /// the lacking field as missing.
    pub proof fn lemma_missing_field(record: Json, k: int)
        requires
            0 <= k < Self::fields().len(),
            record.member(Self::fields()[k].key()) is None,
        ensures
            Self::decoded(record) is Err,
            record is Object && (forall|i: int|
                0 <= i < k ==> fault_at(record, #[trigger] Self::fields()[i]) is None)
                ==> Self::decoded(record) == Err::<SongView, ParseError>(
                ParseError::Missing(Self::fields()[k]),
            ),
    {
        lemma_missing_field(record, Self::fields(), k);
    }

    /// Reads a song from its record.
    pub fn from(record: &Json) -> (r: Result<Song, ParseError>)
        ensures
            match r {
                Ok(song) => Self::decoded(*record) == Ok::<SongView, ParseError>(song@),
                Err(e) => Self::decoded(*record) == Err::<SongView, ParseError>(e),
            },
    {
        proof {
            reveal_with_fuel(first_fault_from, 3);
        }
        if !record.is_object() {
            return Err(ParseError::NotAnObject);
        }
        let id = want(fetch(record, Field::Id)?.as_numeric_text(), Field::Id)?;
        let title = want(fetch(record, Field::Title)?.as_str(), Field::Title)?;
        Ok(Song { id, title: title.to_owned() })
    }

    /// Reads a list of songs, stopping at the first record that is none.
    pub fn list_from(items: &Vec<Json>) -> (r: Result<Vec<Song>, ParseError>)
        ensures
            match r {
                Ok(songs) => Self::decoded_list(items@) == Ok::<Seq<SongView>, ParseError>(
                    song_views(songs@),
                ),
                Err(e) => Self::decoded_list(items@) == Err::<Seq<SongView>, ParseError>(e),
            },
    {
        let mut songs: Vec<Song> = Vec::new();
        let mut i: usize = 0;
        assert(song_views(songs@) == Seq::<SongView>::empty());
        while i < items.len()
            invariant
                i <= items.len(),
                Self::decoded_list(items@.take(i as int)) == Ok::<Seq<SongView>, ParseError>(
                    song_views(songs@),
                ),
            decreases items.len() - i,
        {
            let ghost longer = items@.take(i + 1);
            assert(longer.drop_last() == items@.take(i as int));
            match Song::from(&items[i]) {
                Ok(song) => {
                    assert(song_views(songs@.push(song)) == song_views(songs@).push(song@));
                    songs.push(song);
                },
                Err(e) => {
                    proof {
                        lemma_failure_stays(items@, Self::decoder(), i + 1);
                    }
                    return Err(e);
                },
            }
            i += 1;
        }
        assert(items@.take(i as int) == items@);
        Ok(songs)
    }
}

} // verus!
