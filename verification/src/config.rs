//! The stored configuration: its defaults, the playlists kept in it and the
//! settings the window changes.
use vstd::prelude::*;
use crate::search::{first_index, lemma_first_index_is};
use crate::text::{decimal, decimal_chars, string_from_chars};
use crate::types::{opt_text, Config, ConfigView, Id3Options, Playlist, PlaylistView};

verus! {

/// The configuration written when none exists yet, downloading into
/// `download_dir`.
pub open spec fn default_config(download_dir: Seq<char>) -> ConfigView {
    ConfigView {
        client_id: Seq::empty(),
        client_secret: Seq::empty(),
        thread_count: 2,
        playlists: Seq::empty(),
        image_download: true,
        image_delete: true,
        id3_options: Id3Options { artist: true, year: true, album: true, track_number: true, genre: true },
        download_dir: download_dir,
        download_source: "ytsearch"@,
        audio_format: "mp3"@,
    }
}

/// `c` with `p` kept after its other playlists.
pub open spec fn with_playlist(c: ConfigView, p: PlaylistView) -> ConfigView {
    ConfigView { playlists: c.playlists.push(p), ..c }
}

/// The index of the first playlist with id `id`.
pub open spec fn first_playlist_index(ps: Seq<PlaylistView>, id: Seq<char>) -> Option<int> {
    first_index(ps, |p: PlaylistView| p.id == id)
}

/// `c` without the first playlist whose id is `id` (unchanged when there is none).
pub open spec fn without_playlist(c: ConfigView, id: Seq<char>) -> ConfigView {
    match first_playlist_index(c.playlists, id) {
        Some(i) => ConfigView { playlists: c.playlists.remove(i), ..c },
        None => c,
    }
}

/// What the window shows as the thread count: the stored count in decimal,
/// or "UNDEFINED" when the configuration could not be read.
pub open spec fn thread_count_text(c: Option<ConfigView>) -> Seq<char> {
    match c {
        Some(c) => decimal(c.thread_count as nat),
        None => "UNDEFINED"@,
    }
}

/// The configuration as it stands, if there is one.
pub open spec fn config_view(c: Option<&Config>) -> Option<ConfigView> {
    match c {
        Some(c) => Some(c@),
        None => None,
    }
}

impl Config {
    /// The configuration written when none exists yet.
    pub fn default_for(download_dir: String) -> (c: Config)
        ensures
            c@ == default_config(download_dir@),
    {
        let c = Config {
            client_id: String::new(),
            client_secret: String::new(),
            thread_count: 2,
            playlists: Vec::new(),
            image_download: true,
            image_delete: true,
            id3_options: Id3Options { artist: true, year: true, album: true, track_number: true, genre: true },
            download_dir,
            download_source: "ytsearch".to_owned(),
            audio_format: "mp3".to_owned(),
        };
        assert(c@.playlists =~= Seq::<PlaylistView>::empty());
        c
    }

    /// Keeps `p` after the other playlists.
    pub fn add_playlist(&mut self, p: Playlist)
        ensures
            final(self)@ == with_playlist(old(self)@, p@),
    {
        let ghost before = self.playlists@;
        self.playlists.push(p);
        assert(self.playlists@.map_values(|q: Playlist| q@) =~= before.map_values(|q: Playlist| q@).push(p@));
    }

    /// Removes the first playlist whose id is `id`; tells whether there was one.
    pub fn remove_playlist(&mut self, id: &str) -> (removed: bool)
        ensures
            removed == (first_playlist_index(old(self)@.playlists, id@) is Some),
            final(self)@ == without_playlist(old(self)@, id@),
    {
        let ghost views = self@.playlists;
        let mut i: usize = 0;
        while i < self.playlists.len()
            invariant
                views == self@.playlists,
                self@ == old(self)@,
                i <= self.playlists.len(),
                forall|j: int| 0 <= j < i ==> (#[trigger] views[j]).id != id@,
            decreases self.playlists.len() - i,
        {
            if crate::json::str_eq(self.playlists[i].id.as_str(), id) {
                proof {
                    lemma_first_index_is(views, |p: PlaylistView| p.id == id@, i as int);
                }
                let ghost before = self.playlists@;
                self.playlists.remove(i);
                assert(self.playlists@.map_values(|q: Playlist| q@) =~= before.map_values(
                    |q: Playlist| q@,
                ).remove(i as int));
                return true;
            }
            i = i + 1;
        }
        false
    }

    /// Stores a new thread count.
    pub fn set_thread_count(&mut self, thread_count: u32)
        ensures
            final(self)@ == (ConfigView { thread_count: thread_count, ..old(self)@ }),
    {
        self.thread_count = thread_count;
    }

    /// Stores new client credentials.
    pub fn set_credentials(&mut self, client_id: &str, client_secret: &str)
        ensures
            final(self)@ == (ConfigView {
                client_id: client_id@,
                client_secret: client_secret@,
                ..old(self)@
            }),
    {
        self.client_id = client_id.to_owned();
        self.client_secret = client_secret.to_owned();
    }
}

/// The thread count the window shows (see `thread_count_text`).
pub fn get_thread_count(config: Option<&Config>) -> (s: String)
    ensures
        s@ == thread_count_text(config_view(config)),
{
    match config {
        Some(c) => string_from_chars(&decimal_chars(c.thread_count as u64)),
        None => "UNDEFINED".to_owned(),
    }
}

/// Removing a playlist by the id of one just added, when no playlist had
/// that id before, gives the configuration back.
pub proof fn lemma_remove_undoes_add(c: ConfigView, p: PlaylistView)
    requires
        first_playlist_index(c.playlists, p.id) is None,
    ensures
        without_playlist(with_playlist(c, p), p.id) == c,
{
    let ps = c.playlists.push(p);
    let n = c.playlists.len() as int;
    assert forall|j: int| 0 <= j < n implies !(|q: PlaylistView| q.id == p.id)(#[trigger] ps[j]) by {
        assert(ps[j] == c.playlists[j]);
        if ps[j].id == p.id {
            assert(c.playlists[j].id == p.id);
        }
    }
    lemma_first_index_is(ps, |q: PlaylistView| q.id == p.id, n);
    assert(ps.remove(n) =~= c.playlists);
}

/// The thread count shown after storing one is that count in decimal.
pub proof fn lemma_thread_count_shown(c: ConfigView, n: u32)
    ensures
        thread_count_text(Some(ConfigView { thread_count: n, ..c })) == decimal(n as nat),
{
}

/// The directory the default download directory goes in: the desktop,
/// else the home directory, else the current directory.
pub open spec fn default_base(
    desktop: Option<Seq<char>>,
    home: Option<Seq<char>>,
    current: Option<Seq<char>>,
) -> Option<Seq<char>> {
    if desktop is Some {
        desktop
    } else if home is Some {
        home
    } else {
        current
    }
}

/// The directory the default download directory goes in (see `default_base`).
pub fn default_base_dir(desktop: Option<String>, home: Option<String>, current: Option<String>) -> (r: Option<String>)
    ensures
        opt_text(r) == default_base(opt_text(desktop), opt_text(home), opt_text(current)),
{
    if desktop.is_some() {
        desktop
    } else if home.is_some() {
        home
    } else {
        current
    }
}

} // verus!
