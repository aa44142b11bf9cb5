use ms9k::json::{read_response, Json, ResponseError};
use ms9k::spotify::{
    genre_artist_id, genre_of_artist, page_starts, page_tracks, parse_short_int, playlist_from_data,
    playlist_length, playlist_name, song_from_track, song_name_of_file, split_downloaded, track_is_ready,
};
use ms9k::types::{RunOptions, Song};

const TRACK: &str = r#"{
  "name": "Song A",
  "track_number": 7,
  "artists": [{"name": "Ann", "id": "a1"}, {"name": "Bob", "id": "b1"}],
  "album": {
    "name": "Album X",
    "album_type": "album",
    "release_date": "2019-05-01",
    "artists": [{"name": "Ann", "id": "a1"}],
    "images": [{"url": "http://img/1.jpg"}, {"url": "http://img/2.jpg"}]
  }
}"#;

fn all_options() -> RunOptions {
    RunOptions {
        download_dir: String::new(),
        yt_dlp_install_type: "global".to_string(),
        ytdlp_search_type: "ytsearch".to_string(),
        image_download: true,
        image_delete: true,
        edit_id3: false,
        id3_artist: true,
        id3_year: true,
        id3_album: true,
        id3_track_number: true,
        id3_genre: true,
    }
}

fn no_options() -> RunOptions {
    RunOptions {
        download_dir: String::new(),
        yt_dlp_install_type: String::new(),
        ytdlp_search_type: String::new(),
        image_download: false,
        image_delete: false,
        edit_id3: false,
        id3_artist: false,
        id3_year: false,
        id3_album: false,
        id3_track_number: false,
        id3_genre: false,
    }
}

fn parse(text: &str) -> Json {
    read_response(200, text).unwrap()
}

#[test]
fn response_status_other_than_200_is_refused() {
    assert!(matches!(read_response(404, "{}"), Err(ResponseError::Status)));
    assert!(matches!(read_response(200, "{not json"), Err(ResponseError::NotJson)));
    assert!(matches!(read_response(200, "[1, 2]"), Ok(Json::Array(_, _))));
}

#[test]
fn song_with_every_field() {
    let track = parse(TRACK);
    let options = all_options();
    assert!(track_is_ready(&track, &options));
    let song = song_from_track(&track, &options, 42, Some("rock".to_string()));
    assert_eq!(song.video_id, 42);
    assert_eq!(song.name, "Song A");
    assert_eq!(song.year, Some(2019));
    assert_eq!(song.artist, "Ann, Bob");
    assert_eq!(song.album_artist, Some("Ann".to_string()));
    assert_eq!(song.album, Some("Album X".to_string()));
    assert_eq!(song.image_url, Some("http://img/1.jpg".to_string()));
    assert_eq!(song.track_number, Some(7));
    assert_eq!(song.genre, Some("rock".to_string()));
}

#[test]
fn song_with_no_metadata_asked() {
    let track = parse(TRACK);
    let options = no_options();
    let song = song_from_track(&track, &options, 3, Some("rock".to_string()));
    assert_eq!(song.name, "Song A");
    assert_eq!(song.artist, "");
    assert_eq!(song.album, None);
    assert_eq!(song.album_artist, None);
    assert_eq!(song.year, None);
    assert_eq!(song.image_url, None);
    assert_eq!(song.track_number, None);
    assert_eq!(song.genre, None);
}

#[test]
fn singles_are_named_single() {
    let track = parse(r#"{"name": "S", "album": {"album_type": "single"}}"#);
    let mut options = no_options();
    options.id3_album = true;
    assert!(track_is_ready(&track, &options));
    let song = song_from_track(&track, &options, 1, None);
    assert_eq!(song.album, Some("single".to_string()));
}

#[test]
fn year_reads_four_characters_with_sign() {
    let track = parse(r#"{"name": "S", "album": {"release_date": "-123-01-01"}}"#);
    let mut options = no_options();
    options.id3_year = true;
    assert!(track_is_ready(&track, &options));
    assert_eq!(song_from_track(&track, &options, 1, None).year, Some(-123));
    let bad = parse(r#"{"name": "S", "album": {"release_date": "20x9"}}"#);
    assert!(!track_is_ready(&bad, &options));
    let short = parse(r#"{"name": "S", "album": {"release_date": "201"}}"#);
    assert!(!track_is_ready(&short, &options));
}

#[test]
fn short_integers_parse_like_from_str() {
    let chars = |s: &str| s.chars().collect::<Vec<char>>();
    assert_eq!(parse_short_int(&chars("2019")), Some(2019));
    assert_eq!(parse_short_int(&chars("+201")), Some(201));
    assert_eq!(parse_short_int(&chars("-007")), Some(-7));
    assert_eq!(parse_short_int(&chars("-")), None);
    assert_eq!(parse_short_int(&chars("")), None);
    assert_eq!(parse_short_int(&chars("2 19")), None);
    assert_eq!(parse_short_int(&chars("+-1")), None);
}

#[test]
fn missing_fields_make_a_track_unready() {
    let options = all_options();
    assert!(!track_is_ready(&parse(r#"{"album": {}}"#), &no_options()));
    let no_artists = parse(
        r#"{"name": "S", "track_number": 1, "artists": [], "album": {"name": "A", "album_type": "album",
        "release_date": "2001", "artists": [{"name": "x"}], "images": [{"url": "u"}]}}"#,
    );
    assert!(!track_is_ready(&no_artists, &options));
    let bad_number = parse(
        r#"{"name": "S", "track_number": 1.5, "artists": [{"name": "x"}], "album": {"name": "A", "album_type": "album",
        "release_date": "2001", "artists": [{"name": "x"}], "images": [{"url": "u"}]}}"#,
    );
    assert!(!track_is_ready(&bad_number, &options));
}

#[test]
fn genre_comes_from_the_first_genre_or_null() {
    assert_eq!(genre_of_artist(&parse(r#"{"genres": ["pop", "rock"]}"#)), Some("pop".to_string()));
    assert_eq!(genre_of_artist(&parse(r#"{"genres": []}"#)), Some("null".to_string()));
    assert_eq!(genre_of_artist(&parse(r#"{"genres": [3]}"#)), None);
    assert_eq!(genre_artist_id(&parse(TRACK)), Some("a1".to_string()));
    assert_eq!(genre_artist_id(&parse("{}")), None);
}

#[test]
fn playlist_length_reads_the_total() {
    assert_eq!(playlist_length(&parse(r#"{"tracks": {"total": 250}}"#)), Some(250));
    assert_eq!(playlist_length(&parse(r#"{"tracks": {"total": -1}}"#)), None);
    assert_eq!(playlist_length(&parse(r#"{"tracks": {}}"#)), None);
}

#[test]
fn page_tracks_reads_each_item() {
    let page = parse(r#"{"items": [{"track": {"name": "a"}}, {"track": null}, {}]}"#);
    let tracks = page_tracks(&page);
    assert_eq!(tracks.len(), 3);
    assert!(matches!(tracks[0], Some(Json::Object(_, _))));
    assert!(matches!(tracks[1], Some(Json::Null)));
    assert!(tracks[2].is_none());
    assert_eq!(page_tracks(&parse("{}")).len(), 0);
}

#[test]
fn pages_cover_the_playlist() {
    assert_eq!(page_starts(250), vec![0, 100, 200, 300]);
    assert_eq!(page_starts(0), vec![0]);
    assert_eq!(page_starts(100), vec![0, 100]);
    let offsets = page_starts(1234);
    for k in 0..1234usize {
        assert!(offsets.iter().any(|o| *o <= k && k < *o + 100));
    }
}

fn song(id: i32, name: &str) -> Song {
    Song {
        video_id: id,
        name: name.to_string(),
        image_url: None,
        track_number: None,
        artist: String::new(),
        album: None,
        album_artist: None,
        year: None,
        genre: None,
    }
}

#[test]
fn downloaded_songs_are_set_apart() {
    let batch = vec![song(1, "a"), song(2, "b"), song(3, "c")];
    let (fetch, done) = split_downloaded(&batch, &Some(vec!["b".to_string()]));
    assert_eq!(fetch.iter().map(|s| s.video_id).collect::<Vec<_>>(), vec![1, 3]);
    assert_eq!(done, vec![2]);
    let (fetch, done) = split_downloaded(&batch, &None);
    assert_eq!(fetch.len(), 3);
    assert!(done.is_empty());
}

#[test]
fn file_names_lose_their_mp3_extension() {
    assert_eq!(song_name_of_file("Song A.mp3"), "Song A");
    assert_eq!(song_name_of_file("a.mp3b.mp3"), "ab");
    assert_eq!(song_name_of_file("cover.jpg"), "cover.jpg");
}

#[test]
fn playlist_fields_render_as_to_string() {
    let data = parse(r#"{"name": "Mix", "images": [{"url": "http://i"}]}"#);
    let p = playlist_from_data("id22".to_string(), &data);
    assert_eq!(p.name, "Mix");
    assert_eq!(p.id, "id22");
    assert_eq!(p.download_dir, "Default");
    assert_eq!(p.image_url, "http://i");
    let odd = parse(r#"{"name": 12, "images": []}"#);
    let p = playlist_from_data("x".to_string(), &odd);
    assert_eq!(p.name, "12");
    assert_eq!(p.image_url, "null");
    assert_eq!(playlist_name(&parse(r#"{"name": [1,2]}"#)), "[1,2]");
    assert_eq!(playlist_name(&parse(r#"{"name": true}"#)), "true");
}
