use ms9k::config::{default_base_dir, get_thread_count};
use ms9k::spotify::{song_name_of_file, split_downloaded};
use std::path::PathBuf;
use ms9k::downloader::{
    after_download, before_download, join_path, renamed_file_name, sanitize_file_name, split_into_chunks, ytdlp_args,
    ytdlp_install_type, ytdlp_program, Downloader, SongAction,
};
use ms9k::json::read_response;
use ms9k::tags::build_tag;
use ms9k::types::{Config, Playlist, RunOptions, Song};
use id3::TagLike;

fn playlist(id: &str) -> Playlist {
    Playlist {
        name: format!("name {}", id),
        id: id.to_string(),
        download_dir: "Default".to_string(),
        image_url: String::new(),
    }
}

fn song(id: i32, name: &str) -> Song {
    Song {
        video_id: id,
        name: name.to_string(),
        image_url: None,
        track_number: None,
        artist: "Artist".to_string(),
        album: None,
        album_artist: None,
        year: None,
        genre: None,
    }
}

#[test]
fn default_config_values() {
    let c = Config::default_for("/home/u/Desktop/music".to_string());
    assert_eq!(c.client_id, "");
    assert_eq!(c.client_secret, "");
    assert_eq!(c.thread_count, 2);
    assert!(c.playlists.is_empty());
    assert!(c.image_download && c.image_delete);
    assert!(c.id3_options.artist && c.id3_options.year && c.id3_options.album);
    assert!(c.id3_options.track_number && c.id3_options.genre);
    assert_eq!(c.download_dir, "/home/u/Desktop/music");
    assert_eq!(c.download_source, "ytsearch");
    assert_eq!(c.audio_format, "mp3");
}

#[test]
fn playlists_are_added_and_removed_by_id() {
    let mut c = Config::default_for(String::new());
    c.add_playlist(playlist("a"));
    c.add_playlist(playlist("b"));
    c.add_playlist(playlist("a"));
    assert!(c.remove_playlist("a"));
    let ids: Vec<&str> = c.playlists.iter().map(|p| p.id.as_str()).collect();
    assert_eq!(ids, vec!["b", "a"]);
    assert!(!c.remove_playlist("zzz"));
    assert_eq!(c.playlists.len(), 2);
}

#[test]
fn removing_a_fresh_playlist_undoes_adding_it() {
    let mut c = Config::default_for(String::new());
    c.add_playlist(playlist("a"));
    c.add_playlist(playlist("new"));
    assert!(c.remove_playlist("new"));
    assert_eq!(c.playlists.len(), 1);
    assert_eq!(c.playlists[0].id, "a");
}

#[test]
fn thread_count_is_shown_and_stored() {
    let mut c = Config::default_for(String::new());
    assert_eq!(get_thread_count(Some(&c)), "2");
    c.set_thread_count(16);
    assert_eq!(get_thread_count(Some(&c)), "16");
    assert_eq!(get_thread_count(None), "UNDEFINED");
    c.set_credentials("cid", "csecret");
    assert_eq!(c.client_id, "cid");
    assert_eq!(c.client_secret, "csecret");
}

#[test]
fn downloader_starts_from_the_configuration() {
    let mut c = Config::default_for("dir".to_string());
    c.thread_count = 3;
    c.id3_options.genre = false;
    let d = Downloader::new(&c, "local".to_string());
    assert_eq!(d.thread_count, 3);
    assert_eq!(d.token, "");
    assert_eq!(d.playlist.id, "");
    assert!(d.data.is_empty());
    assert_eq!(d.options.yt_dlp_install_type, "local");
    assert_eq!(d.options.ytdlp_search_type, "ytsearch");
    assert_eq!(d.options.download_dir, "");
    assert!(!d.options.edit_id3);
    assert!(!d.options.id3_genre);
    assert!(d.options.id3_artist);
}

#[test]
fn songs_are_shared_out_among_tasks() {
    let mut c = Config::default_for(String::new());
    c.thread_count = 2;
    let mut d = Downloader::new(&c, String::new());
    let songs: Vec<Song> = (0..5).map(|i| song(i, "s")).collect();
    let chunks = d.start_handler(songs);
    let sizes: Vec<usize> = chunks.iter().map(|c| c.len()).collect();
    assert_eq!(sizes, vec![2, 2, 1]);
    let ids: Vec<i32> = chunks.iter().flatten().map(|s| s.video_id).collect();
    assert_eq!(ids, vec![0, 1, 2, 3, 4]);
    assert_eq!(d.data.len(), 5);

    c.thread_count = 4;
    let mut d = Downloader::new(&c, String::new());
    let chunks = d.start_handler(vec![song(1, "a"), song(2, "b")]);
    assert_eq!(chunks.len(), 1);
    assert_eq!(chunks[0].len(), 2);

    let chunks = d.start_handler(Vec::new());
    assert!(chunks.is_empty());
    assert_eq!(d.data.len(), 2);
}

#[test]
fn chunks_follow_slice_chunks() {
    let songs: Vec<Song> = (0..7).map(|i| song(i, "s")).collect();
    let pieces = split_into_chunks(&songs, 3);
    let sizes: Vec<usize> = pieces.iter().map(|c| c.len()).collect();
    assert_eq!(sizes, vec![3, 3, 1]);
    assert!(split_into_chunks(&Vec::new(), 3).is_empty());
}

#[test]
fn stopping_forgets_token_and_playlist() {
    let c = Config::default_for(String::new());
    let mut d = Downloader::new(&c, String::new());
    d.set_token("tok".to_string());
    d.set_url("https://open.spotify.com/playlist/37i9dQZF1DXcBWIGoYBM5M");
    assert_eq!(d.playlist.id, "37i9dQZF1DXcBWIGoYBM5M");
    d.stop_handler(false);
    assert_eq!(d.token, "tok");
    d.stop_handler(true);
    assert_eq!(d.token, "");
    assert_eq!(d.playlist.id, "");
}

#[test]
fn set_playlist_keeps_the_id() {
    let c = Config::default_for(String::new());
    let mut d = Downloader::new(&c, String::new());
    d.set_url("abc");
    let data = read_response(200, r#"{"name": "Mix", "images": [{"url": "u"}]}"#).unwrap();
    d.set_playlist(&data);
    assert_eq!(d.playlist.id, "abc");
    assert_eq!(d.playlist.name, "Mix");
    assert_eq!(d.playlist.image_url, "u");
    d.set_config(&Config { thread_count: 9, ..Config::default_for(String::new()) });
    assert_eq!(d.thread_count, 9);
    d.set_install_type("global".to_string());
    assert_eq!(d.options.yt_dlp_install_type, "global");
}

#[test]
fn songs_get_random_ids_in_range() {
    let c = Config::default_for(String::new());
    let d = Downloader::new(&c, String::new());
    let track = read_response(
        200,
        r#"{"name": "T", "track_number": 2, "artists": [{"name": "A"}], "album": {"name": "B",
        "album_type": "album", "release_date": "1999-01-01", "artists": [{"name": "A"}],
        "images": [{"url": "u"}]}}"#,
    )
    .unwrap();
    for _ in 0..20 {
        let s = d.parse_song_data(&track, Some("pop".to_string()));
        assert!(0 <= s.video_id && s.video_id < 1_000_000);
        assert_eq!(s.name, "T");
        assert_eq!(s.year, Some(1999));
        assert_eq!(s.genre, Some("pop".to_string()));
    }
}

fn options(edit_id3: bool, image_delete: bool) -> RunOptions {
    RunOptions {
        download_dir: String::new(),
        yt_dlp_install_type: String::new(),
        ytdlp_search_type: String::new(),
        image_download: true,
        image_delete,
        edit_id3,
        id3_artist: true,
        id3_year: true,
        id3_album: true,
        id3_track_number: true,
        id3_genre: true,
    }
}

fn describe(actions: &[SongAction]) -> Vec<String> {
    actions
        .iter()
        .map(|a| match a {
            SongAction::Status(u) => format!("status {} {}", u.id, u.text),
            SongAction::FetchImage { url, file } => format!("fetch {} {}", url, file),
            SongAction::Download => "download".to_string(),
            SongAction::WriteTags { file } => format!("tags {}", file),
            SongAction::EmbedImage { audio, image } => format!("embed {} {}", audio, image),
            SongAction::DeleteImage { file } => format!("delete {}", file),
            SongAction::RenameImage { file, name, extension } => format!("rename {} {} {}", file, name, extension),
            SongAction::RenameAudio { file, name, extension } => format!("rename {} {} {}", file, name, extension),
        })
        .collect()
}

#[test]
fn steps_of_a_song_with_cover() {
    let mut s = song(12, "Song");
    s.image_url = Some("http://c".to_string());
    assert_eq!(
        describe(&before_download(&s)),
        vec!["status 12 Starting", "fetch http://c 12.jpg", "status 12 Downloading", "download"]
    );
    assert_eq!(
        describe(&after_download(&s, &options(true, false), true)),
        vec![
            "status 12 Editing metadata",
            "tags 12.mp3",
            "embed 12.mp3 12.jpg",
            "rename 12.jpg Song jpg",
            "status 12 Finishing up",
            "rename 12.mp3 Song mp3",
            "status 12 done!",
        ]
    );
    assert_eq!(
        describe(&after_download(&s, &options(true, true), true))[3],
        "delete 12.jpg"
    );
}

#[test]
fn steps_of_a_song_without_cover_or_tags() {
    let s = song(5, "Plain");
    assert_eq!(describe(&before_download(&s)), vec!["status 5 Starting", "status 5 Downloading", "download"]);
    assert_eq!(
        describe(&after_download(&s, &options(false, true), true)),
        vec!["status 5 Finishing up", "rename 5.mp3 Plain mp3", "status 5 done!"]
    );
}

#[test]
fn a_failed_download_is_only_reported() {
    let s = song(5, "Plain");
    assert_eq!(describe(&after_download(&s, &options(true, true), false)), vec!["status 5 THREAD CRASH!!!"]);
}

#[test]
fn ytdlp_invocation() {
    assert_eq!(ytdlp_program("local", "C:\\app"), "C:\\app\\yt-dlp.exe");
    assert_eq!(ytdlp_program("global", "C:\\app"), "yt-dlp");
    let s = song(77, "Name");
    assert_eq!(
        ytdlp_args(&s, "/music/Mix", "ytsearch"),
        vec!["ytsearch:'Name Artist'", "--extract-audio", "--audio-format", "mp3", "-P /music/Mix", "-o77"]
    );
    assert_eq!(ytdlp_args(&song(-3, "x"), "d", "s")[5], "-o-3");
    assert_eq!(ytdlp_install_type(true, false), Ok("global".to_string()));
    assert_eq!(ytdlp_install_type(false, true), Ok("local".to_string()));
    assert_eq!(ytdlp_install_type(false, false), Err(()));
}

#[test]
fn file_names_lose_forbidden_characters() {
    assert_eq!(sanitize_file_name("a<b>c/d|e?f*g"), "abcdefg");
    assert_eq!(sanitize_file_name("fine name"), "fine name");
}

#[test]
fn tag_holds_the_song_metadata() {
    let mut s = song(1, "Title");
    s.album = Some("Album".to_string());
    s.album_artist = Some("Album Artist".to_string());
    s.year = Some(7);
    s.track_number = Some(3);
    s.genre = Some("Jazz".to_string());
    let tag = build_tag(&s);
    assert_eq!(tag.title(), Some("Title"));
    assert_eq!(tag.album(), Some("Album"));
    assert_eq!(tag.artist(), Some("Artist"));
    assert_eq!(tag.album_artist(), Some("Album Artist"));
    assert_eq!(tag.get("TYER").and_then(|f| f.content().text()), Some("0007"));
    assert_eq!(tag.track(), Some(3));
    assert_eq!(tag.genre(), Some("Jazz"));
    let frames: Vec<String> = tag.frames().map(|f| f.id().to_string()).collect();
    assert_eq!(frames, vec!["TIT2", "TALB", "TPE1", "TPE2", "TYER", "TRCK", "TCON"]);
}

#[test]
fn tag_without_album_artist_has_no_artist() {
    let s = song(1, "Only");
    let tag = build_tag(&s);
    assert_eq!(tag.title(), Some("Only"));
    assert_eq!(tag.artist(), None);
    assert_eq!(tag.frames().count(), 1);
    let mut neg = song(2, "N");
    neg.year = Some(-5);
    let tag = build_tag(&neg);
    assert_eq!(tag.get("TYER").and_then(|f| f.content().text()), Some("-005"));
}

#[test]
fn default_directory_prefers_desktop_then_home() {
    let s = |x: &str| Some(x.to_string());
    assert_eq!(default_base_dir(s("desk"), s("home"), s("cwd")), s("desk"));
    assert_eq!(default_base_dir(None, s("home"), s("cwd")), s("home"));
    assert_eq!(default_base_dir(None, None, s("cwd")), s("cwd"));
    assert_eq!(default_base_dir(None, None, None), None);
}

#[test]
fn renamed_files_follow_std_path_rules() {
    for name in ["Song A", "Mr. Brightside", ".bashrc", "..x", "a.b.c", "trail.", "x:y", "é ü"] {
        for ext in ["mp3", "jpg", ""] {
            let mut p = PathBuf::from("dir/12.mp3");
            p.set_file_name(name);
            p.set_extension(ext);
            let expected = p.file_name().unwrap().to_string_lossy().into_owned();
            match renamed_file_name(name, ext) {
                Some(n) => assert_eq!(n, expected, "{} {}", name, ext),
                None => assert!((name, ext) == ("..x", "") || name == "x:y"),
            }
        }
    }
    assert_eq!(renamed_file_name("Mr. Brightside", "mp3"), Some("Mr.mp3".to_string()));
    assert_eq!(renamed_file_name("AC/DC", "mp3"), None);
    assert_eq!(renamed_file_name("..", "mp3"), None);
    assert_eq!(renamed_file_name("..x", ""), None);
    assert_eq!(renamed_file_name("..x", "mp3"), Some("..mp3".to_string()));
    assert_eq!(renamed_file_name("", "mp3"), None);
    assert_eq!(renamed_file_name("C:song", "mp3"), None);
}

#[test]
fn a_downloaded_song_is_not_queued_again() {
    let file = renamed_file_name("Song A", "mp3").unwrap();
    let names = Some(vec![song_name_of_file(&file)]);
    let batch = vec![song(1, "Song A"), song(2, "Song B")];
    let (fetch, done) = split_downloaded(&batch, &names);
    assert_eq!(fetch.len(), 1);
    assert_eq!(fetch[0].name, "Song B");
    assert_eq!(done, vec![1]);
    // a name holding a dot does not read back
    let file = renamed_file_name("Mr. Brightside", "mp3").unwrap();
    assert_eq!(song_name_of_file(&file), "Mr");
}

#[test]
fn a_downloaded_song_with_a_leading_dot_is_not_queued_again() {
    let file = renamed_file_name(".intro", "mp3").unwrap();
    assert_eq!(file, ".intro.mp3");
    let names = Some(vec![song_name_of_file(&file)]);
    let batch = vec![song(1, ".intro"), song(2, "intro")];
    let (fetch, done) = split_downloaded(&batch, &names);
    assert_eq!(fetch.len(), 1);
    assert_eq!(fetch[0].name, "intro");
    assert_eq!(done, vec![1]);
    // a name that itself begins with ".mp3" loses that beginning
    let file = renamed_file_name(".mp3x", "mp3").unwrap();
    assert_eq!(song_name_of_file(&file), "x");
}

#[test]
fn joined_paths_follow_std_path_rules() {
    for base in ["/home/u/music", "/home/u/music/", "", "/", "rel", "a//", "C:", "back\\"] {
        for name in ["My List", "", "/abs", "a/b", "..", "x\\y", "é"] {
            let expected = PathBuf::from(base).join(name).to_string_lossy().into_owned();
            assert_eq!(join_path(base, name), expected, "{:?} {:?}", base, name);
        }
    }
    assert_eq!(join_path("/home/u/music", "Road Trip"), "/home/u/music/Road Trip");
    assert_eq!(join_path("/home/u/music/", "Road Trip"), "/home/u/music/Road Trip");
    assert_eq!(join_path("", "Road Trip"), "Road Trip");
    assert_eq!(join_path("/home", "/etc"), "/etc");
    assert_eq!(join_path("music", ""), "music/");
}

#[test]
fn download_dir_and_playlist_id_are_set() {
    let config = Config::default_for("/home/u/music".to_string());
    let mut d = Downloader::new(&config, "global".to_string());
    d.set_download_dir("/home/u/music", "Road Trip");
    assert_eq!(d.options.download_dir, "/home/u/music/Road Trip");
    assert_eq!(d.options.yt_dlp_install_type, "global");
    d.set_playlist_id("37i9dQZF1DXcBWIGoYBM5M".to_string());
    assert_eq!(d.playlist.id, "37i9dQZF1DXcBWIGoYBM5M");
    assert_eq!(d.options.download_dir, "/home/u/music/Road Trip");
}
