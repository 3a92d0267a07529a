//! Playlists kept on the server: what to ask for, and how to read the answers.

use vstd::prelude::*;
use crate::error::{Field, ParseError};
use crate::json::{keys, Json};
use crate::query::{Arg, ArgView, Query, Request, RequestView};
use crate::record::{
    each_decoded, fault_at, fetch, first_fault_from, lemma_failure_stays, lemma_missing_field,
    lemma_only_fields_count, record_fault, value_at, want,
};
use crate::song::{song_views, Song, SongView};

verus! {

/// What the server tells of a playlist, without its songs: those may change
/// from one call to the next and are asked for when they are wanted.
#[derive(Debug, Clone, PartialEq, Eq)]
pub struct Playlist {
    pub id: u64,
    pub name: String,
    pub song_count: u64,
    /// The playing time of all songs, in seconds.
    pub duration: u64,
    /// The identifier of the cover art.
    pub cover: String,
}

pub struct PlaylistView {
    pub id: u64,
    pub name: Seq<char>,
    pub song_count: u64,
    pub duration: u64,
    pub cover: Seq<char>,
}

impl View for Playlist {
    type V = PlaylistView;

    open spec fn view(&self) -> PlaylistView {
        PlaylistView {
            id: self.id,
            name: self.name@,
            song_count: self.song_count,
            duration: self.duration,
            cover: self.cover@,
        }
    }
}

/// The views of a list of playlists, in order.
pub open spec fn playlist_views(playlists: Seq<Playlist>) -> Seq<PlaylistView> {
    playlists.map_values(|p: Playlist| p@)
}

/// The request for one playlist.
pub open spec fn playlist_request(id: u64) -> RequestView {
    RequestView { endpoint: "getPlaylist"@, params: seq![("id"@, ArgView::Number(id))] }
}

/// The request for the playlists of a user, or of the caller where no user
/// is named.
pub open spec fn playlists_request(user: Option<Seq<char>>) -> RequestView {
    RequestView {
        endpoint: "getPlaylists"@,
        params: match user {
            Some(name) => seq![("username"@, ArgView::Text(name))],
            None => Seq::empty(),
        },
    }
}

/// Where a reply to the request for one playlist holds the playlist.
pub open spec fn playlist_path() -> Seq<Seq<char>> {
    seq!["subsonic-response"@, "playlist"@]
}

/// Where a reply to the request for one playlist holds its songs.
pub open spec fn entry_path() -> Seq<Seq<char>> {
    seq!["subsonic-response"@, "playlist"@, "entry"@]
}

/// Where a reply to the request for the playlists holds them.
pub open spec fn playlists_path() -> Seq<Seq<char>> {
    seq!["subsonic-response"@, "playlists"@, "playlist"@]
}

/// The list that a reply holds at a path.
pub open spec fn list_at(reply: Json, path: Seq<Seq<char>>) -> Result<Seq<Json>, ParseError> {
    match reply.at_path(path) {
        None => Err(ParseError::NoEntries),
        Some(found) => match found.items() {
            None => Err(ParseError::NotAnArray),
            Some(items) => Ok(items),
        },
    }
}

/// The songs of a playlist, as a reply to the request for it lists them.
pub open spec fn content_of(reply: Json) -> Result<Seq<SongView>, ParseError> {
    match list_at(reply, entry_path()) {
        Err(e) => Err(e),
        Ok(items) => Song::decoded_list(items),
    }
}

/// The playlist and its songs, as a reply to the request for it describes
/// them.
pub open spec fn playlist_of(reply: Json) -> Result<(PlaylistView, Seq<SongView>), ParseError> {
    match reply.at_path(playlist_path()) {
        None => Err(ParseError::NoEntries),
        Some(record) => match Playlist::decoded(record) {
            Err(e) => Err(e),
            Ok(playlist) => match content_of(reply) {
                Err(e) => Err(e),
                Ok(songs) => Ok((playlist, songs)),
            },
        },
    }
}

/// The playlists that a reply to the request for them lists.
pub open spec fn playlists_of(reply: Json) -> Result<Seq<PlaylistView>, ParseError> {
    match list_at(reply, playlists_path()) {
        Err(e) => Err(e),
        Ok(items) => Playlist::decoded_list(items),
    }
}

fn entries_at<'a>(reply: &'a Json, path: &[&str]) -> (r: Result<&'a Vec<Json>, ParseError>)
    ensures
        match r {
            Ok(items) => list_at(*reply, keys(path@)) == Ok::<Seq<Json>, ParseError>(items@),
            Err(e) => list_at(*reply, keys(path@)) == Err::<Seq<Json>, ParseError>(e),
        },
{
    match reply.at(path) {
        None => Err(ParseError::NoEntries),
        Some(found) => match found.as_array() {
            None => Err(ParseError::NotAnArray),
            Some(items) => Ok(items),
        },
    }
}

impl Playlist {
    /// The fields of a playlist record, in the order in which they are read.
    pub open spec fn fields() -> Seq<Field> {
        seq![Field::Id, Field::Name, Field::SongCount, Field::Duration, Field::CoverArt]
    }

    /// The playlist that a record describes. The identifier travels as a
    /// string of decimal digits; members that are no fields are passed over.
    pub open spec fn decoded(record: Json) -> Result<PlaylistView, ParseError> {
        match record_fault(record, Self::fields()) {
            Some(e) => Err(e),
            None => Ok(
                PlaylistView {
                    id: value_at(record, Field::Id).numeric_text()->Some_0,
                    name: value_at(record, Field::Name).text()->Some_0,
                    song_count: value_at(record, Field::SongCount).unsigned()->Some_0,
                    duration: value_at(record, Field::Duration).unsigned()->Some_0,
                    cover: value_at(record, Field::CoverArt).text()->Some_0,
                },
            ),
        }
    }

    pub open spec fn decoder() -> spec_fn(Json) -> Result<PlaylistView, ParseError> {
        |record: Json| Self::decoded(record)
    }

    /// The playlists that a list of records describes, or the error of the
    /// first record that describes none.
    pub open spec fn decoded_list(items: Seq<Json>) -> Result<Seq<PlaylistView>, ParseError> {
        each_decoded(items, Self::decoder())
    }

    /// A record that lacks one of the fields of a playlist is refused, and
    /// where every field before the lacking one is in order, the error names
    /// the lacking field as missing.
    pub proof fn lemma_missing_field(record: Json, k: int)
        requires
            0 <= k < Self::fields().len(),
            record.member(Self::fields()[k].key()) is None,
        ensures
            Self::decoded(record) is Err,
            record is Object && (forall|i: int|
                0 <= i < k ==> fault_at(record, #[trigger] Self::fields()[i]) is None)
                ==> Self::decoded(record) == Err::<PlaylistView, ParseError>(
                ParseError::Missing(Self::fields()[k]),
            ),
    {
        lemma_missing_field(record, Self::fields(), k);
    }

    /// A record whose identifier is anything but a string of decimal digits
    /// that denotes a number below 2^64 is refused, and the error names the
    /// identifier as malformed.
    pub proof fn lemma_id_must_be_numeric(record: Json)
        requires
            record.member(Field::Id.key()) matches Some(id) && id.numeric_text() is None,
        ensures
            Self::decoded(record) == Err::<PlaylistView, ParseError>(
                ParseError::Malformed(Field::Id),
            ),
    {
    }

    /// Members that are no fields of a playlist make no difference: two
    /// records that agree on the fields describe the same playlist, or fail
    /// in the same way.
    pub proof fn lemma_other_members_ignored(a: Json, b: Json)
        requires
            a is Object,
            b is Object,
            forall|i: int|
                0 <= i < Self::fields().len() ==> a.member(#[trigger] Self::fields()[i].key())
                    == b.member(Self::fields()[i].key()),
        ensures
            Self::decoded(a) == Self::decoded(b),
    {
        lemma_only_fields_count(a, b, Self::fields(), 0);
    }

    /// Reads a playlist from its record.
    pub fn from(record: &Json) -> (r: Result<Playlist, ParseError>)
        ensures
            match r {
                Ok(playlist) => Self::decoded(*record) == Ok::<PlaylistView, ParseError>(playlist@),
                Err(e) => Self::decoded(*record) == Err::<PlaylistView, ParseError>(e),
            },
    {
        proof {
            reveal_with_fuel(first_fault_from, 6);
        }
        if !record.is_object() {
            return Err(ParseError::NotAnObject);
        }
        let id = want(fetch(record, Field::Id)?.as_numeric_text(), Field::Id)?;
        let name = want(fetch(record, Field::Name)?.as_str(), Field::Name)?;
        let song_count = want(fetch(record, Field::SongCount)?.as_u64(), Field::SongCount)?;
        let duration = want(fetch(record, Field::Duration)?.as_u64(), Field::Duration)?;
        let cover = want(fetch(record, Field::CoverArt)?.as_str(), Field::CoverArt)?;
        Ok(Playlist { id, name: name.to_owned(), song_count, duration, cover: cover.to_owned() })
    }

    /// Reads a list of playlists, stopping at the first record that is none.
    pub fn list_from(items: &Vec<Json>) -> (r: Result<Vec<Playlist>, ParseError>)
        ensures
            match r {
                Ok(playlists) => Self::decoded_list(items@) == Ok::<Seq<PlaylistView>, ParseError>(
                    playlist_views(playlists@),
                ),
                Err(e) => Self::decoded_list(items@) == Err::<Seq<PlaylistView>, ParseError>(e),
            },
    {
        let mut playlists: Vec<Playlist> = Vec::new();
        let mut i: usize = 0;
        assert(playlist_views(playlists@) == Seq::<PlaylistView>::empty());
        while i < items.len()
            invariant
                i <= items.len(),
                Self::decoded_list(items@.take(i as int)) == Ok::<Seq<PlaylistView>, ParseError>(
                    playlist_views(playlists@),
                ),
            decreases items.len() - i,
        {
            let ghost longer = items@.take(i + 1);
            assert(longer.drop_last() == items@.take(i as int));
            match Playlist::from(&items[i]) {
                Ok(playlist) => {
                    assert(playlist_views(playlists@.push(playlist)) == playlist_views(
                        playlists@,
                    ).push(playlist@));
                    playlists.push(playlist);
                },
                Err(e) => {
                    proof {
                        lemma_failure_stays(items@, Self::decoder(), i + 1);
                    }
                    return Err(e);
                },
            }
            i += 1;
        }
        assert(items@.take(i as int) == items@);
        Ok(playlists)
    }

    /// The request for the songs of this playlist.
    pub fn songs(&self) -> (r: Request)
        ensures
            r@ == playlist_request(self.id),
    {
        get_playlist_content(self.id)
    }
}

/// The request for the playlists of `user`, or for the caller's own where
/// `user` is `None`.
pub fn get_playlists(user: Option<String>) -> (r: Request)
    ensures
        r@ == playlists_request(
            match user {
                Some(name) => Some(name@),
                None => None,
            },
        ),
{
    let name = match user {
        Some(name) => Some(Arg::Text(name)),
        None => None,
    };
    let r = Request::get("getPlaylists", Query::new().arg("username", name));
    assert(r@.params =~= playlists_request(
        match user {
            Some(name) => Some(name@),
            None => None,
        },
    ).params);
    r
}

/// Reads the answer to [`get_playlists`].
pub fn read_playlists(reply: &Json) -> (r: Result<Vec<Playlist>, ParseError>)
    ensures
        match r {
            Ok(playlists) => playlists_of(*reply) == Ok::<Seq<PlaylistView>, ParseError>(
                playlist_views(playlists@),
            ),
            Err(e) => playlists_of(*reply) == Err::<Seq<PlaylistView>, ParseError>(e),
        },
{
    let path = vec!["subsonic-response", "playlists", "playlist"];
    assert(keys(path@) == playlists_path());
    let items = entries_at(reply, path.as_slice())?;
    Playlist::list_from(items)
}

/// The request for the playlist with the given identifier.
pub fn get_playlist(id: u64) -> (r: Request)
    ensures
        r@ == playlist_request(id),
{
    Request::get("getPlaylist", Query::with("id", Arg::Number(id)))
}

/// Reads the answer to [`get_playlist`]: the playlist, then its songs.
pub fn read_playlist(reply: &Json) -> (r: Result<(Playlist, Vec<Song>), ParseError>)
    ensures
        match r {
            Ok((playlist, songs)) => playlist_of(*reply) == Ok::<
                (PlaylistView, Seq<SongView>),
                ParseError,
            >((playlist@, song_views(songs@))),
            Err(e) => playlist_of(*reply) == Err::<(PlaylistView, Seq<SongView>), ParseError>(e),
        },
{
    let path = vec!["subsonic-response", "playlist"];
    assert(keys(path@) == playlist_path());
    match reply.at(path.as_slice()) {
        None => Err(ParseError::NoEntries),
        Some(record) => {
            let playlist = Playlist::from(record)?;
            let songs = read_playlist_content(reply)?;
            Ok((playlist, songs))
        },
    }
}

/// The request for the songs of the playlist with the given identifier.
pub fn get_playlist_content(id: u64) -> (r: Request)
    ensures
        r@ == playlist_request(id),
{
    get_playlist(id)
}

/// Reads the songs out of the answer to [`get_playlist_content`], in their
/// order and all or none.
pub fn read_playlist_content(reply: &Json) -> (r: Result<Vec<Song>, ParseError>)
    ensures
        match r {
            Ok(songs) => content_of(*reply) == Ok::<Seq<SongView>, ParseError>(song_views(songs@)),
            Err(e) => content_of(*reply) == Err::<Seq<SongView>, ParseError>(e),
        },
{
    let path = vec!["subsonic-response", "playlist", "entry"];
    assert(keys(path@) == entry_path());
    let items = entries_at(reply, path.as_slice())?;
    Song::list_from(items)
}

} // verus!
