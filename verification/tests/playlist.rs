use sunk::error::{Field, ParseError};
use sunk::json::Json;
use sunk::playlist::{
    get_playlist, get_playlist_content, get_playlists, read_playlist, read_playlist_content, read_playlists, Playlist,
};
use sunk::query::{Arg, Param, Request};
use sunk::song::Song;

fn sleep_hits() -> Playlist {
    Playlist { id: 1, name: "Sleep Hits".to_string(), song_count: 32, duration: 8334, cover: "pl-2".to_string() }
}

fn member(key: &str, value: Json) -> (String, Json) {
    (key.to_string(), value)
}

fn text(value: &str) -> Json {
    Json::Text(value.to_string())
}

fn record_from(text: &str) -> Result<Playlist, ParseError> {
    Playlist::from(&Json::parse(text).unwrap())
}

const SLEEP_HITS: &str = "{\"id\": \"1\", \"name\": \"Sleep Hits\", \"owner\": \"user\", \"public\": false, \
    \"songCount\": 32, \"duration\": 8334, \"created\": \"2018-01-01T14:45:07.464Z\", \
    \"changed\": \"2018-01-01T14:45:07.478Z\", \"coverArt\": \"pl-2\"}";

#[test]
fn test_songs_from_playlist() {
    let raw = Json::Object(vec![
        member("id", text("1")),
        member("name", text("Sleep Hits")),
        member("owner", text("user")),
        member("public", Json::Bool(false)),
        member("songCount", Json::parse("32").unwrap()),
        member("duration", Json::parse("8334").unwrap()),
        member("created", text("2018-01-01T14:45:07.464Z")),
        member("changed", text("2018-01-01T14:45:07.478Z")),
        member("coverArt", text("pl-2")),
    ]);

    let parsed = Playlist::from(&raw).unwrap();
    assert_eq!(parsed, sleep_hits());
    let request = parsed.songs();
    assert_eq!(request, Request { endpoint: "getPlaylist", params: vec![Param { key: "id", value: Arg::Number(1) }] });
    let reply = Json::parse(
        "{\"subsonic-response\": {\"status\": \"ok\", \"playlist\": {\"id\": \"1\", \"entry\": [\
         {\"id\": \"1887\", \"title\": \"a\"}, {\"id\": \"1888\", \"title\": \"b\"}]}}}",
    )
    .unwrap();
    let songs = read_playlist_content(&reply).unwrap();
    assert_eq!(
        songs,
        vec![Song { id: 1887, title: "a".to_string() }, Song { id: 1888, title: "b".to_string() }]
    );
}

#[test]
fn playlist_is_read_from_its_record() {
    let parsed = record_from(SLEEP_HITS).unwrap();
    assert_eq!(parsed.id, 1);
    assert_eq!(parsed.name, "Sleep Hits");
    assert_eq!(parsed.song_count, 32);
    assert_eq!(parsed.duration, 8334);
    assert_eq!(parsed.cover, "pl-2");
}

#[test]
fn playlist_passes_over_other_members() {
    let bare = "{\"id\": \"1\", \"name\": \"Sleep Hits\", \"songCount\": 32, \"duration\": 8334, \"coverArt\": \"pl-2\"}";
    assert_eq!(record_from(bare), record_from(SLEEP_HITS));
    assert_eq!(record_from(bare), Ok(sleep_hits()));
}

#[test]
fn playlist_id_must_be_a_number_in_a_string() {
    let with_id = |id: &str| {
        record_from(&format!(
            "{{\"id\": {}, \"name\": \"n\", \"songCount\": 0, \"duration\": 0, \"coverArt\": \"c\"}}",
            id
        ))
    };
    assert_eq!(with_id("\"one\""), Err(ParseError::Malformed(Field::Id)));
    assert_eq!(with_id("\"\""), Err(ParseError::Malformed(Field::Id)));
    assert_eq!(with_id("\"1a\""), Err(ParseError::Malformed(Field::Id)));
    assert_eq!(with_id("\"-1\""), Err(ParseError::Malformed(Field::Id)));
    assert_eq!(with_id("\"18446744073709551616\""), Err(ParseError::Malformed(Field::Id)));
    assert_eq!(with_id("1"), Err(ParseError::Malformed(Field::Id)));
    assert_eq!(with_id("\"18446744073709551615\"").map(|p| p.id), Ok(u64::MAX));
    assert_eq!(with_id("\"007\"").map(|p| p.id), Ok(7));
}

#[test]
fn playlist_names_the_missing_field_of_its_record() {
    assert_eq!(
        record_from("{\"name\": \"n\", \"songCount\": 0, \"duration\": 0, \"coverArt\": \"c\"}"),
        Err(ParseError::Missing(Field::Id))
    );
    assert_eq!(
        record_from("{\"id\": \"1\", \"songCount\": 0, \"duration\": 0, \"coverArt\": \"c\"}"),
        Err(ParseError::Missing(Field::Name))
    );
    assert_eq!(
        record_from("{\"id\": \"1\", \"name\": \"n\", \"duration\": 0, \"coverArt\": \"c\"}"),
        Err(ParseError::Missing(Field::SongCount))
    );
    assert_eq!(
        record_from("{\"id\": \"1\", \"name\": \"n\", \"songCount\": 0, \"coverArt\": \"c\"}"),
        Err(ParseError::Missing(Field::Duration))
    );
    assert_eq!(
        record_from("{\"id\": \"1\", \"name\": \"n\", \"songCount\": 0, \"duration\": 0}"),
        Err(ParseError::Missing(Field::CoverArt))
    );
}

#[test]
fn playlist_refuses_fields_of_the_wrong_kind() {
    assert_eq!(
        record_from("{\"id\": \"1\", \"name\": 5, \"songCount\": 0, \"duration\": 0, \"coverArt\": \"c\"}"),
        Err(ParseError::Malformed(Field::Name))
    );
    assert_eq!(
        record_from("{\"id\": \"1\", \"name\": \"n\", \"songCount\": -1, \"duration\": 0, \"coverArt\": \"c\"}"),
        Err(ParseError::Malformed(Field::SongCount))
    );
    assert_eq!(
        record_from("{\"id\": \"1\", \"name\": \"n\", \"songCount\": 0, \"duration\": \"0\", \"coverArt\": \"c\"}"),
        Err(ParseError::Malformed(Field::Duration))
    );
    assert_eq!(
        record_from("{\"id\": \"1\", \"name\": \"n\", \"songCount\": 0, \"duration\": 0, \"coverArt\": null}"),
        Err(ParseError::Malformed(Field::CoverArt))
    );
}

#[test]
fn playlist_must_be_an_object() {
    assert_eq!(record_from("[\"1\", \"n\", 0, 0, \"c\"]"), Err(ParseError::NotAnObject));
    assert_eq!(record_from("\"1\""), Err(ParseError::NotAnObject));
}

#[test]
fn requests_name_their_endpoint() {
    let id = |n: u64| vec![Param { key: "id", value: Arg::Number(n) }];
    assert_eq!(get_playlist_content(7), Request { endpoint: "getPlaylist", params: id(7) });
    assert_eq!(get_playlist(u64::MAX), Request { endpoint: "getPlaylist", params: id(u64::MAX) });
    assert_eq!(sleep_hits().songs(), get_playlist_content(1));
    assert_eq!(get_playlists(None), Request { endpoint: "getPlaylists", params: vec![] });
    assert_eq!(
        get_playlists(Some("ann".to_string())),
        Request {
            endpoint: "getPlaylists",
            params: vec![Param { key: "username", value: Arg::Text("ann".to_string()) }],
        }
    );
}

#[test]
fn content_is_found_under_playlist_entry() {
    let read = |text: &str| read_playlist_content(&Json::parse(text).unwrap());
    assert_eq!(read("{\"subsonic-response\": {\"playlist\": {\"entry\": []}}}"), Ok(vec![]));
    assert_eq!(read("{\"subsonic-response\": {\"playlist\": {}}}"), Err(ParseError::NoEntries));
    assert_eq!(read("{\"subsonic-response\": {}}"), Err(ParseError::NoEntries));
    assert_eq!(read("{\"playlist\": {\"entry\": []}}"), Err(ParseError::NoEntries));
    assert_eq!(read("{\"subsonic-response\": [{\"playlist\": {\"entry\": []}}]}"), Err(ParseError::NoEntries));
    assert_eq!(read("[]"), Err(ParseError::NoEntries));
    assert_eq!(read("{\"subsonic-response\": {\"playlist\": {\"entry\": {}}}}"), Err(ParseError::NotAnArray));
    assert_eq!(read("{\"subsonic-response\": {\"playlist\": {\"entry\": null}}}"), Err(ParseError::NotAnArray));
}

#[test]
fn content_is_all_or_nothing() {
    let read = |entry: &str| {
        read_playlist_content(
            &Json::parse(&format!("{{\"subsonic-response\": {{\"playlist\": {{\"entry\": {}}}}}}}", entry)).unwrap(),
        )
    };
    assert_eq!(
        read("[{\"id\": \"2\", \"title\": \"b\"}, {\"id\": \"1\", \"title\": \"a\"}]"),
        Ok(vec![Song { id: 2, title: "b".to_string() }, Song { id: 1, title: "a".to_string() }])
    );
    assert_eq!(
        read("[{\"id\": \"2\", \"title\": \"b\"}, {\"id\": \"x\", \"title\": \"a\"}, {\"title\": \"c\"}]"),
        Err(ParseError::Malformed(Field::Id))
    );
    assert_eq!(read("[{\"id\": \"2\", \"title\": \"b\"}, 5]"), Err(ParseError::NotAnObject));
}

#[test]
fn one_playlist_comes_with_its_songs() {
    let read = |text: &str| read_playlist(&Json::parse(text).unwrap());
    let reply = format!(
        "{{\"subsonic-response\": {{\"playlist\": {}}}}}",
        SLEEP_HITS.replacen("{", "{\"entry\": [{\"id\": \"3\", \"title\": \"t\"}], ", 1)
    );
    assert_eq!(read(&reply), Ok((sleep_hits(), vec![Song { id: 3, title: "t".to_string() }])));
    assert_eq!(read("{\"subsonic-response\": {}}"), Err(ParseError::NoEntries));
    assert_eq!(read("{\"subsonic-response\": {\"playlist\": []}}"), Err(ParseError::NotAnObject));
    assert_eq!(
        read("{\"subsonic-response\": {\"playlist\": {\"entry\": []}}}"),
        Err(ParseError::Missing(Field::Id))
    );
    assert_eq!(
        read(&format!("{{\"subsonic-response\": {{\"playlist\": {}}}}}", SLEEP_HITS)),
        Err(ParseError::NoEntries)
    );
    assert_eq!(
        read(&format!(
            "{{\"subsonic-response\": {{\"playlist\": {}}}}}",
            SLEEP_HITS.replacen("{", "{\"entry\": 1, ", 1)
        )),
        Err(ParseError::NotAnArray)
    );
}

#[test]
fn playlists_are_listed_in_order() {
    let read = |text: &str| read_playlists(&Json::parse(text).unwrap());
    let other = "{\"id\": \"2\", \"name\": \"Wake\", \"songCount\": 0, \"duration\": 0, \"coverArt\": \"pl-3\"}";
    let wake = Playlist { id: 2, name: "Wake".to_string(), song_count: 0, duration: 0, cover: "pl-3".to_string() };
    assert_eq!(
        read(&format!("{{\"subsonic-response\": {{\"playlists\": {{\"playlist\": [{}, {}]}}}}}}", other, SLEEP_HITS)),
        Ok(vec![wake, sleep_hits()])
    );
    assert_eq!(read("{\"subsonic-response\": {\"playlists\": {\"playlist\": []}}}"), Ok(vec![]));
    assert_eq!(read("{\"subsonic-response\": {\"playlists\": {}}}"), Err(ParseError::NoEntries));
    assert_eq!(read("{\"subsonic-response\": {\"playlists\": {\"playlist\": {}}}}"), Err(ParseError::NotAnArray));
    assert_eq!(
        read(&format!("{{\"subsonic-response\": {{\"playlists\": {{\"playlist\": [{}, {{}}, 1]}}}}}}", other)),
        Err(ParseError::Missing(Field::Id))
    );
}
