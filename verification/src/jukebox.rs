//! The server-side jukebox: what to ask of it, and how to read its answers.

use vstd::prelude::*;
use crate::error::{Field, ParseError};
use crate::json::Json;
use crate::query::{listed, Arg, ArgView, Query, Request, RequestView};
use crate::record::{
    fault_at, fetch, first_fault_from, lemma_each_decoded, lemma_first_fault, lemma_missing_field,
    record_fault, value_at, want,
};
use crate::song::{song_views, Song, SongView};

verus! {

/// A playback volume: a fraction held as the bits of a binary64 float. The
/// server keeps it between 0 and 1.
#[derive(Debug, Clone, Copy, PartialEq, Eq, Structural)]
pub struct Volume {
    pub bits: u64,
}

/// What the jukebox does at one moment.
#[derive(Debug, Clone, Copy, PartialEq, Eq, Structural)]
pub struct JukeboxStatus {
    /// The position of the current song in the jukebox's playlist.
    pub index: isize,
    pub playing: bool,
    pub volume: Volume,
    /// How far into the current song the playback is.
    pub position: usize,
}

/// The jukebox's playlist together with its status.
#[derive(Debug, Clone, PartialEq, Eq)]
pub struct JukeboxPlaylist {
    pub status: JukeboxStatus,
    pub songs: Vec<Song>,
}

pub struct JukeboxPlaylistView {
    pub status: JukeboxStatus,
    pub songs: Seq<SongView>,
}

impl View for JukeboxPlaylist {
    type V = JukeboxPlaylistView;

    open spec fn view(&self) -> JukeboxPlaylistView {
        JukeboxPlaylistView { status: self.status, songs: song_views(self.songs@) }
    }
}

impl JukeboxStatus {
    /// The fields of a status record, in the order in which they are read.
    pub open spec fn fields() -> Seq<Field> {
        seq![Field::CurrentIndex, Field::Playing, Field::Gain, Field::Position]
    }

    /// The status that a record's fields make up: `currentIndex` gives the
    /// index and `gain` the volume.
    pub open spec fn assembled(record: Json) -> JukeboxStatus {
        JukeboxStatus {
            index: value_at(record, Field::CurrentIndex).index_value()->Some_0,
            playing: value_at(record, Field::Playing).truth()->Some_0,
            volume: Volume { bits: value_at(record, Field::Gain).float_bits()->Some_0 },
            position: value_at(record, Field::Position).offset_value()->Some_0,
        }
    }

    /// The status that a record describes.
    pub open spec fn decoded(record: Json) -> Result<JukeboxStatus, ParseError> {
        match record_fault(record, Self::fields()) {
            Some(e) => Err(e),
            None => Ok(Self::assembled(record)),
        }
    }

    /// A record that lacks one of the fields of a status is refused, and
    /// where every field before the lacking one is in order, the error names
    /// the lacking field as missing.
    pub proof fn lemma_missing_field(record: Json, k: int)
        requires
            0 <= k < Self::fields().len(),
            record.member(Self::fields()[k].key()) is None,
        ensures
            Self::decoded(record) is Err,
            record is Object && (forall|i: int|
                0 <= i < k ==> fault_at(record, #[trigger] Self::fields()[i]) is None)
                ==> Self::decoded(record) == Err::<JukeboxStatus, ParseError>(
                ParseError::Missing(Self::fields()[k]),
            ),
    {
        lemma_missing_field(record, Self::fields(), k);
    }

    /// Reads the status that the jukebox answers a command with.
    pub fn deserialize(record: &Json) -> (r: Result<JukeboxStatus, ParseError>)
        ensures
            r == Self::decoded(*record),
    {
        proof {
            reveal_with_fuel(first_fault_from, 5);
        }
        if !record.is_object() {
            return Err(ParseError::NotAnObject);
        }
        let index = want(fetch(record, Field::CurrentIndex)?.as_isize(), Field::CurrentIndex)?;
        let playing = want(fetch(record, Field::Playing)?.as_bool(), Field::Playing)?;
        let gain = want(fetch(record, Field::Gain)?.as_float_bits(), Field::Gain)?;
        let position = want(fetch(record, Field::Position)?.as_usize(), Field::Position)?;
        Ok(JukeboxStatus { index, playing, volume: Volume { bits: gain }, position })
    }
}

impl JukeboxPlaylist {
    /// The fields of a playlist record, in the order in which they are read:
    /// those of a status, then the list of songs.
    pub open spec fn fields() -> Seq<Field> {
        seq![Field::CurrentIndex, Field::Playing, Field::Gain, Field::Position, Field::Entry]
    }

    /// The playlist that a record describes. The record is flat: the fields
    /// of the status stand beside the list of songs.
    pub open spec fn decoded(record: Json) -> Result<JukeboxPlaylistView, ParseError> {
        match record_fault(record, Self::fields()) {
            Some(e) => Err(e),
            None => match Song::decoded_list(value_at(record, Field::Entry).items()->Some_0) {
                Err(e) => Err(e),
                Ok(songs) => Ok(
                    JukeboxPlaylistView { status: JukeboxStatus::assembled(record), songs },
                ),
            },
        }
    }

    /// A record that lacks one of the fields of a status, or the list of
    /// songs, is refused, and where every field before the lacking one is in
    /// order, the error names the lacking field as missing.
    pub proof fn lemma_missing_field(record: Json, k: int)
        requires
            0 <= k < Self::fields().len(),
            record.member(Self::fields()[k].key()) is None,
        ensures
            Self::decoded(record) is Err,
            record is Object && (forall|i: int|
                0 <= i < k ==> fault_at(record, #[trigger] Self::fields()[i]) is None)
                ==> Self::decoded(record) == Err::<JukeboxPlaylistView, ParseError>(
                ParseError::Missing(Self::fields()[k]),
            ),
    {
        lemma_missing_field(record, Self::fields(), k);
    }

    /// The playlist regroups a flat record. Where a record decodes to a
    /// status and holds under `entry` a list of records that each decode to
    /// a song, it decodes to a playlist: the status is that very status, and
    /// the songs are those of the list, as many and in the same order. An
    /// empty list gives a playlist without songs.
    pub proof fn lemma_regroups(record: Json, items: Seq<Json>)
        requires
            JukeboxStatus::decoded(record) is Ok,
            record.member(Field::Entry.key()) matches Some(list) && list.items() == Some(items),
            forall|i: int| 0 <= i < items.len() ==> Song::decoded(#[trigger] items[i]) is Ok,
        ensures
            Self::decoded(record) matches Ok(playlist) && {
                &&& JukeboxStatus::decoded(record) == Ok::<JukeboxStatus, ParseError>(
                    playlist.status,
                )
                &&& playlist.songs.len() == items.len()
                &&& forall|i: int|
                    0 <= i < items.len() ==> Song::decoded(#[trigger] items[i]) == Ok::<
                        SongView,
                        ParseError,
                    >(playlist.songs[i])
            },
    {
        lemma_first_fault(record, JukeboxStatus::fields(), 0);
        lemma_first_fault(record, Self::fields(), 0);
        lemma_each_decoded(items, Song::decoder());
    }

    /// Reads the playlist that the jukebox answers `get` with.
    pub fn deserialize(record: &Json) -> (r: Result<JukeboxPlaylist, ParseError>)
        ensures
            match r {
                Ok(playlist) => Self::decoded(*record) == Ok::<JukeboxPlaylistView, ParseError>(
                    playlist@,
                ),
                Err(e) => Self::decoded(*record) == Err::<JukeboxPlaylistView, ParseError>(e),
            },
    {
        proof {
            reveal_with_fuel(first_fault_from, 6);
        }
        if !record.is_object() {
            return Err(ParseError::NotAnObject);
        }
        let index = want(fetch(record, Field::CurrentIndex)?.as_isize(), Field::CurrentIndex)?;
        let playing = want(fetch(record, Field::Playing)?.as_bool(), Field::Playing)?;
        let gain = want(fetch(record, Field::Gain)?.as_float_bits(), Field::Gain)?;
        let position = want(fetch(record, Field::Position)?.as_usize(), Field::Position)?;
        let entry = want(fetch(record, Field::Entry)?.as_array(), Field::Entry)?;
        let songs = Song::list_from(entry)?;
        Ok(
            JukeboxPlaylist {
                status: JukeboxStatus { index, playing, volume: Volume { bits: gain }, position },
                songs,
            },
        )
    }
}

/// The request that asks the jukebox for an action: the action's name, then
/// the index where there is one, then one `id` for each identifier.
pub open spec fn control(action: Seq<char>, index: Option<u64>, ids: Seq<u64>) -> RequestView {
    RequestView {
        endpoint: "jukeboxControl"@,
        params: seq![("action"@, ArgView::Text(action))] + (match index {
            Some(n) => seq![("index"@, ArgView::Number(n))],
            None => Seq::empty(),
        }) + listed("id"@, ids),
    }
}

/// A request with an index and no identifiers has two parameters: the
/// action, and the index under the key `index`.
pub proof fn lemma_control_with_index(action: Seq<char>, n: u64)
    ensures
        control(action, Some(n), Seq::empty()).params == seq![
            ("action"@, ArgView::Text(action)),
            ("index"@, ArgView::Number(n)),
        ],
{
    assert(control(action, Some(n), Seq::empty()).params =~= seq![
        ("action"@, ArgView::Text(action)),
        ("index"@, ArgView::Number(n)),
    ]);
}

/// A request with identifiers and no index carries them after the action,
/// one `id` for each, in their order and with every repetition.
pub proof fn lemma_control_with_ids(action: Seq<char>, ids: Seq<u64>)
    ensures
        control(action, None, ids).params.len() == ids.len() + 1,
        control(action, None, ids).params[0] == ("action"@, ArgView::Text(action)),
        forall|i: int|
            0 <= i < ids.len() ==> #[trigger] control(action, None, ids).params[i + 1] == (
                "id"@,
                ArgView::Number(ids[i]),
            ),
{
}

/// The identifiers of a list of songs, in order.
pub open spec fn song_ids(songs: Seq<Song>) -> Seq<u64> {
    songs.map_values(|s: Song| s.id)
}

/// A list of positions or identifiers as 64-bit numbers, in order.
pub open spec fn widened(numbers: Seq<usize>) -> Seq<u64> {
    numbers.map_values(|n: usize| n as u64)
}

/// The remote control of the jukebox. Each method gives the request that
/// asks for one action; the jukebox answers `get` with a playlist and every
/// other action with its status.
#[derive(Debug, Clone, Copy, PartialEq, Eq, Structural)]
pub struct Jukebox {}

impl Jukebox {
    pub fn start() -> Jukebox {
        Jukebox {  }
    }

    fn send_action_with(&self, action: &str, index: Option<u64>, ids: &[u64]) -> (r: Request)
        ensures
            r@ == control(action@, index, ids@),
    {
        let index_arg = match index {
            Some(n) => Some(Arg::Number(n)),
            None => None,
        };
        let args = Query::with("action", Arg::Text(action.to_owned())).arg(
            "index",
            index_arg,
        ).arg_list("id", ids);
        let r = Request::get("jukeboxControl", args);
        assert(r@.params =~= control(action@, index, ids@).params);
        r
    }

    fn send_action(&self, action: &str) -> (r: Request)
        ensures
            r@ == control(action@, None, Seq::empty()),
    {
        let none: Vec<u64> = Vec::new();
        self.send_action_with(action, None, none.as_slice())
    }

    /// Asks for the playlist and the status together.
    pub fn playlist(&self) -> (r: Request)
        ensures
            r@ == control("get"@, None, Seq::empty()),
    {
        Request::get("jukeboxControl", Query::with("action", Arg::Text("get".to_owned())))
    }

    pub fn status(&self) -> (r: Request)
        ensures
            r@ == control("status"@, None, Seq::empty()),
    {
        self.send_action("status")
    }

    pub fn play(&self) -> (r: Request)
        ensures
            r@ == control("start"@, None, Seq::empty()),
    {
        self.send_action("start")
    }

    pub fn stop(&self) -> (r: Request)
        ensures
            r@ == control("stop"@, None, Seq::empty()),
    {
        self.send_action("stop")
    }

    /// Moves the playback to the song at position `n` of the playlist,
    /// counted from zero. The position is sent as it is: a server that gets
    /// one beyond the end plays the last song.
    pub fn skip_to(&self, n: usize) -> (r: Request)
        ensures
            r@ == control("skip"@, Some(n as u64), Seq::empty()),
            r@.params == seq![
                ("action"@, ArgView::Text("skip"@)),
                ("index"@, ArgView::Number(n as u64)),
            ],
    {
        let none: Vec<u64> = Vec::new();
        let r = self.send_action_with("skip", Some(n as u64), none.as_slice());
        proof {
            lemma_control_with_index("skip"@, n as u64);
        }
        r
    }

    pub fn add(&self, song: Song) -> (r: Request)
        ensures
            r@ == control("add"@, None, seq![song.id]),
    {
        let mut ids: Vec<u64> = Vec::new();
        ids.push(song.id);
        self.send_action_with("add", None, ids.as_slice())
    }

    pub fn add_id(&self, id: usize) -> (r: Request)
        ensures
            r@ == control("add"@, None, seq![id as u64]),
    {
        let mut ids: Vec<u64> = Vec::new();
        ids.push(id as u64);
        self.send_action_with("add", None, ids.as_slice())
    }

    /// Appends the songs to the playlist, in the order given.
    pub fn add_all(&self, songs: &[Song]) -> (r: Request)
        ensures
            r@ == control("add"@, None, song_ids(songs@)),
    {
        let mut ids: Vec<u64> = Vec::new();
        let mut i: usize = 0;
        while i < songs.len()
            invariant
                i <= songs.len(),
                ids@ == song_ids(songs@.take(i as int)),
            decreases songs.len() - i,
        {
            ids.push(songs[i].id);
            i += 1;
        }
        assert(songs@.take(i as int) == songs@);
        self.send_action_with("add", None, ids.as_slice())
    }

    /// Appends the songs with the given identifiers to the playlist, in the
    /// order given and with every repetition.
    pub fn add_all_ids(&self, ids: &[usize]) -> (r: Request)
        ensures
            r@ == control("add"@, None, widened(ids@)),
            r@.params.len() == ids@.len() + 1,
            forall|i: int|
                0 <= i < ids@.len() ==> #[trigger] r@.params[i + 1] == (
                    "id"@,
                    ArgView::Number(ids@[i] as u64),
                ),
    {
        proof {
            lemma_control_with_ids("add"@, widened(ids@));
        }
        let mut wide: Vec<u64> = Vec::new();
        let mut i: usize = 0;
        while i < ids.len()
            invariant
                i <= ids.len(),
                wide@ == widened(ids@.take(i as int)),
            decreases ids.len() - i,
        {
            wide.push(ids[i] as u64);
            i += 1;
        }
        assert(ids@.take(i as int) == ids@);
        self.send_action_with("add", None, wide.as_slice())
    }

    pub fn clear(&self) -> (r: Request)
        ensures
            r@ == control("clear"@, None, Seq::empty()),
    {
        self.send_action("clear")
    }

    /// Removes the entry at the position that equals the song's identifier.
    /// The jukebox removes by position in its playlist, not by song.
    pub fn remove(&self, song: Song) -> (r: Request)
        ensures
            r@ == control("remove"@, Some(song.id), Seq::empty()),
            r@.params == seq![
                ("action"@, ArgView::Text("remove"@)),
                ("index"@, ArgView::Number(song.id)),
            ],
    {
        let none: Vec<u64> = Vec::new();
        let r = self.send_action_with("remove", Some(song.id), none.as_slice());
        proof {
            lemma_control_with_index("remove"@, song.id);
        }
        r
    }

    /// Removes the entry at position `id` of the playlist. In spite of the
    /// name the number is a position, and it is sent as `index`.
    pub fn remove_id(&self, id: usize) -> (r: Request)
        ensures
            r@ == control("remove"@, Some(id as u64), Seq::empty()),
            r@.params == seq![
                ("action"@, ArgView::Text("remove"@)),
                ("index"@, ArgView::Number(id as u64)),
            ],
    {
        let none: Vec<u64> = Vec::new();
        let r = self.send_action_with("remove", Some(id as u64), none.as_slice());
        proof {
            lemma_control_with_index("remove"@, id as u64);
        }
        r
    }

    pub fn shuffle(&self) -> (r: Request)
        ensures
            r@ == control("shuffle"@, None, Seq::empty()),
    {
        self.send_action("shuffle")
    }

    /// Sets the volume. The value is sent as it is: the server decides what
    /// to make of one outside its range.
    pub fn set_volume(&self, volume: Volume) -> (r: Request)
        ensures
            r@ == (RequestView {
                endpoint: "jukeboxControl"@,
                params: seq![
                    ("action"@, ArgView::Text("setGain"@)),
                    ("gain"@, ArgView::Float(volume.bits)),
                ],
            }),
    {
        let args = Query::with("action", Arg::Text("setGain".to_owned())).arg(
            "gain",
            Some(Arg::Float(volume.bits)),
        );
        let r = Request::get("jukeboxControl", args);
        assert(r@.params =~= seq![
            ("action"@, ArgView::Text("setGain"@)),
            ("gain"@, ArgView::Float(volume.bits)),
        ]);
        r
    }
}

} // verus!
