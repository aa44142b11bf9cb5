//! The records the downloader works with: playlists, the stored
//! configuration, the options of one download run and the songs found in a
//! playlist, each with a view over character sequences.
use vstd::prelude::*;

verus! {

/// The characters of an optional string.
pub open spec fn opt_text(o: Option<String>) -> Option<Seq<char>> {
    match o {
        Some(s) => Some(s@),
        None => None,
    }
}

/// A copy of an optional string.
pub fn copy_opt(o: &Option<String>) -> (r: Option<String>)
    ensures
        opt_text(r) == opt_text(*o),
{
    match o {
        Some(s) => Some(s.clone()),
        None => None,
    }
}

/// A playlist the user keeps in the configuration.
#[derive(Debug)]
pub struct Playlist {
    pub name: String,
    pub id: String,
    pub download_dir: String,
    pub image_url: String,
}

pub struct PlaylistView {
    pub name: Seq<char>,
    pub id: Seq<char>,
    pub download_dir: Seq<char>,
    pub image_url: Seq<char>,
}

impl View for Playlist {
    type V = PlaylistView;

    open spec fn view(&self) -> PlaylistView {
        PlaylistView {
            name: self.name@,
            id: self.id@,
            download_dir: self.download_dir@,
            image_url: self.image_url@,
        }
    }
}

impl Playlist {
    /// A copy of this playlist.
    pub fn copy(&self) -> (r: Playlist)
        ensures
            r@ == self@,
    {
        Playlist {
            name: self.name.clone(),
            id: self.id.clone(),
            download_dir: self.download_dir.clone(),
            image_url: self.image_url.clone(),
        }
    }
}

/// Which ID3 fields a download writes.
#[derive(Debug, Clone, Copy, PartialEq, Eq)]
pub struct Id3Options {
    pub artist: bool,
    pub year: bool,
    pub album: bool,
    pub track_number: bool,
    pub genre: bool,
}

/// The stored configuration.
#[derive(Debug)]
pub struct Config {
    pub client_id: String,
    pub client_secret: String,
    pub thread_count: u32,
    pub playlists: Vec<Playlist>,
    pub image_download: bool,
    pub image_delete: bool,
    pub id3_options: Id3Options,
    pub download_dir: String,
    pub download_source: String,
    pub audio_format: String,
}

pub struct ConfigView {
    pub client_id: Seq<char>,
    pub client_secret: Seq<char>,
    pub thread_count: u32,
    pub playlists: Seq<PlaylistView>,
    pub image_download: bool,
    pub image_delete: bool,
    pub id3_options: Id3Options,
    pub download_dir: Seq<char>,
    pub download_source: Seq<char>,
    pub audio_format: Seq<char>,
}

impl View for Config {
    type V = ConfigView;

    open spec fn view(&self) -> ConfigView {
        ConfigView {
            client_id: self.client_id@,
            client_secret: self.client_secret@,
            thread_count: self.thread_count,
            playlists: self.playlists@.map_values(|p: Playlist| p@),
            image_download: self.image_download,
            image_delete: self.image_delete,
            id3_options: self.id3_options,
            download_dir: self.download_dir@,
            download_source: self.download_source@,
            audio_format: self.audio_format@,
        }
    }
}

/// The answer of the token endpoint.
#[derive(Debug)]
pub struct AcsessTokenResponse {
    pub access_token: String,
}

/// A progress message for one song, shown next to it in the window.
#[derive(Debug)]
pub struct GenericUpdate {
    pub id: i32,
    pub text: String,
}

/// A track found in a playlist, with the metadata the run asked for.
#[derive(Debug)]
pub struct Song {
    pub video_id: i32,
    pub name: String,
    pub image_url: Option<String>,
    pub track_number: Option<u32>,
    pub artist: String,
    pub album: Option<String>,
    pub album_artist: Option<String>,
    pub year: Option<i32>,
    pub genre: Option<String>,
}

pub struct SongView {
    pub video_id: i32,
    pub name: Seq<char>,
    pub image_url: Option<Seq<char>>,
    pub track_number: Option<u32>,
    pub artist: Seq<char>,
    pub album: Option<Seq<char>>,
    pub album_artist: Option<Seq<char>>,
    pub year: Option<i32>,
    pub genre: Option<Seq<char>>,
}

impl View for Song {
    type V = SongView;

    open spec fn view(&self) -> SongView {
        SongView {
            video_id: self.video_id,
            name: self.name@,
            image_url: opt_text(self.image_url),
            track_number: self.track_number,
            artist: self.artist@,
            album: opt_text(self.album),
            album_artist: opt_text(self.album_artist),
            year: self.year,
            genre: opt_text(self.genre),
        }
    }
}

impl Song {
    /// A copy of this song.
    pub fn copy(&self) -> (r: Song)
        ensures
            r@ == self@,
    {
        Song {
            video_id: self.video_id,
            name: self.name.clone(),
            image_url: copy_opt(&self.image_url),
            track_number: self.track_number,
            artist: self.artist.clone(),
            album: copy_opt(&self.album),
            album_artist: copy_opt(&self.album_artist),
            year: self.year,
            genre: copy_opt(&self.genre),
        }
    }
}

/// The settings of one download run.
#[derive(Debug)]
pub struct RunOptions {
    pub download_dir: String,
    pub yt_dlp_install_type: String,
    pub ytdlp_search_type: String,
    pub image_download: bool,
    pub image_delete: bool,
    pub edit_id3: bool,
    pub id3_artist: bool,
    pub id3_year: bool,
    pub id3_album: bool,
    pub id3_track_number: bool,
    pub id3_genre: bool,
}

pub struct RunOptionsView {
    pub download_dir: Seq<char>,
    pub yt_dlp_install_type: Seq<char>,
    pub ytdlp_search_type: Seq<char>,
    pub image_download: bool,
    pub image_delete: bool,
    pub edit_id3: bool,
    pub id3_artist: bool,
    pub id3_year: bool,
    pub id3_album: bool,
    pub id3_track_number: bool,
    pub id3_genre: bool,
}

impl View for RunOptions {
    type V = RunOptionsView;

    open spec fn view(&self) -> RunOptionsView {
        RunOptionsView {
            download_dir: self.download_dir@,
            yt_dlp_install_type: self.yt_dlp_install_type@,
            ytdlp_search_type: self.ytdlp_search_type@,
            image_download: self.image_download,
            image_delete: self.image_delete,
            edit_id3: self.edit_id3,
            id3_artist: self.id3_artist,
            id3_year: self.id3_year,
            id3_album: self.id3_album,
            id3_track_number: self.id3_track_number,
            id3_genre: self.id3_genre,
        }
    }
}

} // verus!
