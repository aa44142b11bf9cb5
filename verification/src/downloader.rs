//! The download run: its state, how found songs are shared out among the
//! download tasks, what is done for each song, and how yt-dlp is invoked.
use vstd::prelude::*;
use rand::Rng;
use crate::json::Json;
use crate::spotify::{downloaded_song_name, lemma_split_partitions, songs_to_fetch, playlist_from_data, playlist_of_data, song_from_track, song_views, strip_playlist_url, strip_url_prefix, track_ready, track_song};
use crate::text::{append_chars, chars_of, int_chars, int_text, replace_all, string_from_chars};
use crate::types::{
    opt_text, Config, ConfigView, GenericUpdate, Playlist, PlaylistView, RunOptions, RunOptionsView, Song,
    SongView,
};

verus! {

/// `Path::join` of `name` onto `base` where '/' is the one separator: a
/// name that begins with '/' replaces the base; otherwise a '/' goes between
/// them unless the base is empty or already ends with '/'.
pub open spec fn joined_path(base: Seq<char>, name: Seq<char>) -> Seq<char> {
    if name.len() > 0 && name[0] == '/' {
        name
    } else if base.len() > 0 && base.last() != '/' {
        base + seq!['/'] + name
    } else {
        base + name
    }
}

/// Joins `name` onto the path `base` (see `joined_path`).
pub fn join_path(base: &str, name: &str) -> (r: String)
    ensures
        r@ == joined_path(base@, name@),
{
    let n = chars_of(name);
    if n.len() > 0 && n[0] == '/' {
        return name.to_owned();
    }
    let mut out = chars_of(base);
    let k = out.len();
    if k > 0 && out[k - 1] != '/' {
        out.push('/');
    }
    append_chars(&mut out, &n);
    string_from_chars(&out)
}

/// The state of the download runs of one window.
pub struct Downloader {
    pub token: String,
    pub playlist: Playlist,
    pub data: Vec<Song>,
    pub thread_count: u32,
    pub options: RunOptions,
}

pub struct DownloaderView {
    pub token: Seq<char>,
    pub playlist: PlaylistView,
    pub data: Seq<SongView>,
    pub thread_count: u32,
    pub options: RunOptionsView,
}

impl View for Downloader {
    type V = DownloaderView;

    open spec fn view(&self) -> DownloaderView {
        DownloaderView {
            token: self.token@,
            playlist: self.playlist@,
            data: song_views(self.data@),
            thread_count: self.thread_count,
            options: self.options@,
        }
    }
}

/// The options of a run under a configuration, with yt-dlp found as
/// `install_type`; the download directory is set once the playlist is known.
pub open spec fn run_options_of(c: ConfigView, install_type: Seq<char>) -> RunOptionsView {
    RunOptionsView {
        download_dir: Seq::empty(),
        yt_dlp_install_type: install_type,
        ytdlp_search_type: c.download_source,
        image_download: c.image_download,
        image_delete: c.image_delete,
        edit_id3: false,
        id3_artist: c.id3_options.artist,
        id3_year: c.id3_options.year,
        id3_album: c.id3_options.album,
        id3_track_number: c.id3_options.track_number,
        id3_genre: c.id3_options.genre,
    }
}

/// A run takes each setting from the same-named setting of the stored
/// configuration: search source, cover download and deletion, and each ID3
/// option; its download directory starts empty and the tag is not yet
/// edited.
pub proof fn lemma_run_options_take_config(config: Config, install_type: Seq<char>)
    ensures
        ({
            let o = run_options_of(config@, install_type);
            &&& o.image_download == config.image_download
            &&& o.image_delete == config.image_delete
            &&& o.ytdlp_search_type == config.download_source@
            &&& o.yt_dlp_install_type == install_type
            &&& o.download_dir.len() == 0
            &&& !o.edit_id3
            &&& o.id3_artist == config.id3_options.artist
            &&& o.id3_year == config.id3_options.year
            &&& o.id3_album == config.id3_options.album
            &&& o.id3_track_number == config.id3_options.track_number
            &&& o.id3_genre == config.id3_options.genre
        }),
{
}

/// A playlist with every field empty.
pub open spec fn empty_playlist() -> PlaylistView {
    PlaylistView {
        name: Seq::empty(),
        id: Seq::empty(),
        download_dir: Seq::empty(),
        image_url: Seq::empty(),
    }
}

/// The songs a task downloads when `len` songs are shared among
/// `thread_count` tasks: all of them when there are fewer songs than tasks,
/// `len / thread_count` otherwise.
pub open spec fn chunk_size_for(len: nat, thread_count: nat) -> nat {
    if len < thread_count {
        len
    } else {
        len / thread_count
    }
}

/// `s` cut into consecutive pieces of `size` songs, the last one possibly
/// shorter (what `slice::chunks` yields).
pub open spec fn chunks_of(s: Seq<SongView>, size: nat) -> Seq<Seq<SongView>>
    decreases s.len(),
{
    if s.len() == 0 || size == 0 {
        Seq::empty()
    } else if s.len() <= size {
        seq![s]
    } else {
        seq![s.take(size as int)] + chunks_of(s.skip(size as int), size)
    }
}

/// The pieces laid end to end.
pub open spec fn concat_all(cs: Seq<Seq<SongView>>) -> Seq<SongView>
    decreases cs.len(),
{
    if cs.len() == 0 {
        Seq::empty()
    } else {
        cs[0] + concat_all(cs.drop_first())
    }
}

/// The views of the pieces.
pub open spec fn chunk_views(cs: Seq<Vec<Song>>) -> Seq<Seq<SongView>> {
    cs.map_values(|c: Vec<Song>| song_views(c@))
}

/// Sharing out loses and repeats no song and keeps their order, and every
/// piece holds between one and `size` songs.
pub proof fn lemma_chunks_share_out(s: Seq<SongView>, size: nat)
    requires
        size > 0,
    ensures
        concat_all(chunks_of(s, size)) == s,
        forall|i: int|
            0 <= i < chunks_of(s, size).len() ==> 0 < (#[trigger] chunks_of(s, size)[i]).len() <= size,
    decreases s.len(),
{
    if s.len() == 0 {
        assert(s =~= Seq::<SongView>::empty());
    } else if s.len() <= size {
        assert(seq![s].drop_first() =~= Seq::<Seq<SongView>>::empty());
        assert(concat_all(seq![s].drop_first()) == Seq::<SongView>::empty());
        assert(s + Seq::<SongView>::empty() =~= s);
        assert(chunks_of(s, size) == seq![s]);
        assert(concat_all(seq![s]) == seq![s][0] + concat_all(seq![s].drop_first()));
    } else {
        let rest = s.skip(size as int);
        lemma_chunks_share_out(rest, size);
        let cs = chunks_of(s, size);
        assert(cs.drop_first() =~= chunks_of(rest, size));
        assert(cs[0] == s.take(size as int));
        assert(concat_all(cs) == cs[0] + concat_all(cs.drop_first()));
        assert(s.take(size as int) + rest =~= s);
        assert forall|i: int| 0 <= i < cs.len() implies 0 < (#[trigger] cs[i]).len() <= size by {
            if i > 0 {
                assert(cs[i] == chunks_of(rest, size)[i - 1]);
            }
        }
    }
}

/// Piece `i` holds the songs from position `i * size` up to the next
/// multiple of `size` (or the end), and there are as many pieces as it takes
/// to cover all songs: `ceil(len / size)`.
pub proof fn lemma_chunks_are_consecutive_slices(s: Seq<SongView>, size: nat)
    requires
        size > 0,
    ensures
        chunks_of(s, size).len() == (s.len() + size - 1) / (size as int),
        forall|i: int|
            0 <= i < chunks_of(s, size).len() ==> #[trigger] chunks_of(s, size)[i] == s.subrange(
                i * size,
                if (i + 1) * size < s.len() {
                    (i + 1) * size
                } else {
                    s.len() as int
                },
            ),
    decreases s.len(),
{
    let n = s.len() as int;
    let z = size as int;
    let cs = chunks_of(s, size);
    if n == 0 {
        assert((n + z - 1) / z == 0) by (nonlinear_arith)
            requires
                n == 0,
                z > 0,
        ;
    } else if n <= z {
        assert((n + z - 1) / z == 1) by (nonlinear_arith)
            requires
                0 < n <= z,
        ;
        assert(cs[0] =~= s.subrange(0, n));
    } else {
        let rest = s.skip(z);
        lemma_chunks_are_consecutive_slices(rest, size);
        let rs = chunks_of(rest, size);
        assert(cs.drop_first() =~= rs);
        assert((n + z - 1) / z == (n - z + z - 1) / z + 1) by (nonlinear_arith)
            requires
                n > z > 0,
        ;
        assert forall|i: int| 0 <= i < cs.len() implies #[trigger] cs[i] == s.subrange(
            i * z,
            if (i + 1) * z < n {
                (i + 1) * z
            } else {
                n
            },
        ) by {
            if i == 0 {
                assert(cs[0] =~= s.subrange(0, z));
                assert((0 + 1) * z == z);
                assert(0 * z == 0);
            } else {
                let k = i - 1;
                let m = n - z;
                assert(cs[i] == rs[k]);
                lemma_piece_start_below(k, m, z);
                assert(k * z + z == i * z) by (nonlinear_arith)
                    requires
                        k == i - 1,
                ;
                assert((k + 1) * z == i * z);
                assert(i * z + z == (i + 1) * z) by (nonlinear_arith);
                let end: int = if (k + 1) * z < m {
                    (k + 1) * z
                } else {
                    m
                };
                assert(rs[k] == rest.subrange(k * z, end));
                assert(rest.subrange(k * z, end) =~= s.subrange(k * z + z, end + z));
            }
        }
    }
}

/// A piece index below the number of pieces starts inside the songs.
proof fn lemma_piece_start_below(k: int, m: int, z: int)
    requires
        0 <= k,
        z > 0,
        m > 0,
        k < (m + z - 1) / z,
    ensures
        0 <= k * z < m,
{
    let q = (m + z - 1) / z;
    assert(q * z <= m + z - 1) by (nonlinear_arith)
        requires
            q == (m + z - 1) / z,
            z > 0,
            m > 0,
    ;
    assert((k + 1) * z <= q * z) by (nonlinear_arith)
        requires
            k + 1 <= q,
            z > 0,
    ;
    assert(0 <= k * z) by (nonlinear_arith)
        requires
            0 <= k,
            z > 0,
    ;
    assert((k + 1) * z == k * z + z) by (nonlinear_arith);
}

/// Shared among `thread_count` tasks, `len` songs go out in pieces of
/// `len / thread_count` songs, or one piece of all of them when there are
/// fewer songs than tasks: never more than `thread_count + 1` pieces.
pub proof fn lemma_chunk_size_shares_fairly(len: nat, thread_count: nat)
    requires
        len > 0,
        thread_count > 0,
    ensures
        chunk_size_for(len, thread_count) >= 1,
        len < thread_count ==> chunk_size_for(len, thread_count) == len,
        len >= thread_count ==> chunk_size_for(len, thread_count) * thread_count <= len < (
        chunk_size_for(len, thread_count) + 1) * thread_count,
{
    if len >= thread_count {
        let q = len / thread_count;
        assert(q * thread_count <= len < (q + 1) * thread_count && q >= 1) by (nonlinear_arith)
            requires
                q == len / thread_count,
                len >= thread_count > 0,
        ;
    }
}

/// The songs `s[from..to]`, copied.
fn copy_range(s: &Vec<Song>, from: usize, to: usize) -> (out: Vec<Song>)
    requires
        from <= to <= s.len(),
    ensures
        song_views(out@) == song_views(s@).subrange(from as int, to as int),
{
    let mut out: Vec<Song> = Vec::new();
    let mut i: usize = from;
    while i < to
        invariant
            from <= i <= to <= s.len(),
            song_views(out@) == song_views(s@).subrange(from as int, i as int),
        decreases to - i,
    {
        let ghost before = out@;
        let c = s[i].copy();
        out.push(c);
        assert(song_views(out@) =~= song_views(before).push(s@[i as int]@));
        assert(song_views(out@) =~= song_views(s@).subrange(from as int, i + 1));
        i = i + 1;
    }
    out
}

/// `s` cut into consecutive pieces of `size` songs (see `chunks_of`).
pub fn split_into_chunks(s: &Vec<Song>, size: usize) -> (out: Vec<Vec<Song>>)
    requires
        size > 0,
    ensures
        chunk_views(out@) == chunks_of(song_views(s@), size as nat),
{
    let mut out: Vec<Vec<Song>> = Vec::new();
    let mut i: usize = 0;
    let ghost all = song_views(s@);
    assert(all.skip(0) =~= all);
    while i < s.len()
        invariant
            size > 0,
            i <= s.len(),
            all == song_views(s@),
            chunk_views(out@) + chunks_of(all.skip(i as int), size as nat) == chunks_of(all, size as nat),
        decreases s.len() - i,
    {
        let end = if s.len() - i <= size {
            s.len()
        } else {
            i + size
        };
        let piece = copy_range(s, i, end);
        let ghost before = chunk_views(out@);
        let ghost rest = all.skip(i as int);
        out.push(piece);
        assert(chunk_views(out@) =~= before.push(song_views(piece@)));
        if s.len() - i <= size {
            assert(song_views(piece@) =~= rest);
            assert(all.skip(end as int) =~= Seq::<SongView>::empty());
            assert(chunks_of(rest, size as nat) == seq![rest]);
            assert(before.push(rest) + chunks_of(all.skip(end as int), size as nat) =~= before + seq![rest]);
        } else {
            assert(song_views(piece@) =~= rest.take(size as int));
            assert(rest.skip(size as int) =~= all.skip(end as int));
            assert(before.push(rest.take(size as int)) + chunks_of(all.skip(end as int), size as nat)
                =~= before + (seq![rest.take(size as int)] + chunks_of(rest.skip(size as int), size as nat)));
        }
        i = end;
    }
    assert(all.skip(i as int) =~= Seq::<SongView>::empty());
    assert(chunk_views(out@) + Seq::<Seq<SongView>>::empty() =~= chunk_views(out@));
    out
}

/// Calls `rand::thread_rng().gen_range(0..1000000)`: a random id for a song.
/// Claimed: the id lies in `0..1000000`; which one is chance.
#[verifier::external_body]
fn random_video_id() -> (id: i32)
    ensures
        0 <= id < 1000000,
{
    rand::thread_rng().gen_range(0..1000000)
}

impl Downloader {
    /// A downloader with the thread count and options of `config`, yt-dlp
    /// found as `install_type`, and no token, playlist or songs yet.
    pub fn new(config: &Config, install_type: String) -> (d: Downloader)
        ensures
            d@ == (DownloaderView {
                token: Seq::empty(),
                playlist: empty_playlist(),
                data: Seq::empty(),
                thread_count: config.thread_count,
                options: run_options_of(config@, install_type@),
            }),
            d.options.image_download == config.image_download,
            d.options.image_delete == config.image_delete,
            d.options.ytdlp_search_type@ == config.download_source@,
            d.options.yt_dlp_install_type@ == install_type@,
            d.options.download_dir@.len() == 0,
            !d.options.edit_id3,
            d.options.id3_artist == config.id3_options.artist,
            d.options.id3_year == config.id3_options.year,
            d.options.id3_album == config.id3_options.album,
            d.options.id3_track_number == config.id3_options.track_number,
            d.options.id3_genre == config.id3_options.genre,
            d.thread_count == config.thread_count,
            d.data.len() == 0,
            d.token@.len() == 0,
    {
        let options = RunOptions {
            download_dir: String::new(),
            yt_dlp_install_type: install_type,
            ytdlp_search_type: config.download_source.clone(),
            image_download: config.image_download,
            image_delete: config.image_delete,
            edit_id3: false,
            id3_artist: config.id3_options.artist,
            id3_year: config.id3_options.year,
            id3_album: config.id3_options.album,
            id3_track_number: config.id3_options.track_number,
            id3_genre: config.id3_options.genre,
        };
        let d = Downloader {
            token: String::new(),
            playlist: Playlist {
                name: String::new(),
                id: String::new(),
                download_dir: String::new(),
                image_url: String::new(),
            },
            data: Vec::new(),
            thread_count: config.thread_count,
            options,
        };
        assert(d@.data =~= Seq::<SongView>::empty());
        d
    }

    /// Stores the access token for the next run.
    pub fn set_token(&mut self, token: String)
        ensures
            final(self)@ == (DownloaderView { token: token@, ..old(self)@ }),
    {
        self.token = token;
    }

    /// Stores the playlist id a link names: the link without its share-link start.
    pub fn set_url(&mut self, url: &str)
        ensures
            final(self)@ == (DownloaderView {
                playlist: PlaylistView { id: strip_url_prefix(url@), ..old(self)@.playlist },
                ..old(self)@
            }),
    {
        self.playlist.id = strip_playlist_url(url);
    }

    /// Takes the thread count of `config`.
    pub fn set_config(&mut self, config: &Config)
        ensures
            final(self)@ == (DownloaderView { thread_count: config.thread_count, ..old(self)@ }),
    {
        self.thread_count = config.thread_count;
    }

    /// Stores how yt-dlp was found.
    pub fn set_install_type(&mut self, install_type: String)
        ensures
            final(self)@ == (DownloaderView {
                options: RunOptionsView { yt_dlp_install_type: install_type@, ..old(self)@.options },
                ..old(self)@
            }),
    {
        self.options.yt_dlp_install_type = install_type;
    }

    /// Replaces the playlist by the one a playlist object describes, keeping its id.
    pub fn set_playlist(&mut self, data: &Json)
        ensures
            final(self)@ == (DownloaderView {
                playlist: playlist_of_data(old(self)@.playlist.id, *data),
                ..old(self)@
            }),
    {
        let id = self.playlist.id.clone();
        self.playlist = playlist_from_data(id, data);
    }

    /// Stores the id of the playlist to download.
    pub fn set_playlist_id(&mut self, id: String)
        ensures
            final(self)@ == (DownloaderView {
                playlist: PlaylistView { id: id@, ..old(self)@.playlist },
                ..old(self)@
            }),
    {
        self.playlist.id = id;
    }

    /// Downloads into the folder named `playlist_name` inside `base` (the
    /// configured download folder), joined as a path with '/' separators.
    pub fn set_download_dir(&mut self, base: &str, playlist_name: &str)
        ensures
            final(self)@ == (DownloaderView {
                options: RunOptionsView {
                    download_dir: joined_path(base@, playlist_name@),
                    ..old(self)@.options
                },
                ..old(self)@
            }),
    {
        self.options.download_dir = join_path(base, playlist_name);
    }

    /// The song a track describes under this run's options, with a fresh
    /// random id in `0..1000000` and, when genres are asked for, `genre`.
    pub fn parse_song_data(&self, track: &Json, genre: Option<String>) -> (song: Song)
        requires
            track_ready(*track, self.options),
        ensures
            0 <= song.video_id < 1000000,
            song@ == track_song(*track, self.options, song.video_id, opt_text(genre)),
    {
        let id = random_video_id();
        song_from_track(track, &self.options, id, genre)
    }

    /// Keeps the songs to download and cuts them into one piece per task;
    /// nothing changes when there are no songs.
    pub fn start_handler(&mut self, songs: Vec<Song>) -> (chunks: Vec<Vec<Song>>)
        requires
            songs.len() == 0 || old(self).thread_count > 0,
        ensures
            songs.len() == 0 ==> chunks@.len() == 0 && final(self)@ == old(self)@,
            songs.len() > 0 ==> final(self)@ == (DownloaderView {
                data: song_views(songs@),
                ..old(self)@
            }) && chunk_views(chunks@) == chunks_of(
                song_views(songs@),
                chunk_size_for(songs.len() as nat, old(self).thread_count as nat),
            ),
    {
        if songs.len() == 0 {
            return Vec::new();
        }
        self.data = songs;
        let len = self.data.len();
        let size = if len < self.thread_count as usize {
            len
        } else {
            len / (self.thread_count as usize)
        };
        assert(size > 0) by (nonlinear_arith)
            requires
                len > 0,
                size == (if len < self.thread_count as usize { len } else { len / (self.thread_count as usize) }),
                self.thread_count > 0 || len < self.thread_count as usize,
        ;
        split_into_chunks(&self.data, size)
    }

    /// After the download tasks were stopped, forgets the playlist id and the
    /// token; nothing changes when no task was ever started.
    pub fn stop_handler(&mut self, tasks_started: bool)
        ensures
            tasks_started ==> final(self)@ == (DownloaderView {
                token: Seq::empty(),
                playlist: PlaylistView { id: Seq::empty(), ..old(self)@.playlist },
                ..old(self)@
            }),
            !tasks_started ==> final(self)@ == old(self)@,
    {
        if tasks_started {
            self.playlist.id = String::new();
            self.token = String::new();
        }
    }
}

/// One step of downloading a song.
#[derive(Debug)]
pub enum SongAction {
    /// Show a progress message next to the song.
    Status(GenericUpdate),
    /// Download the cover image at `url` into `file`.
    FetchImage { url: String, file: String },
    /// Run yt-dlp for the song.
    Download,
    /// Write the song's ID3 tag into the audio `file`.
    WriteTags { file: String },
    /// Embed the `image` file into the `audio` file.
    EmbedImage { audio: String, image: String },
    /// Delete the image `file`.
    DeleteImage { file: String },
    /// Rename `file` to the file name `name` with its extension set to `extension`.
    RenameImage { file: String, name: String, extension: String },
    /// Rename `file` to the file name `name` with its extension set to `extension`.
    RenameAudio { file: String, name: String, extension: String },
}

pub enum ActionView {
    Status(i32, Seq<char>),
    FetchImage(Seq<char>, Seq<char>),
    Download,
    WriteTags(Seq<char>),
    EmbedImage(Seq<char>, Seq<char>),
    DeleteImage(Seq<char>),
    RenameImage(Seq<char>, Seq<char>, Seq<char>),
    RenameAudio(Seq<char>, Seq<char>, Seq<char>),
}

impl View for SongAction {
    type V = ActionView;

    open spec fn view(&self) -> ActionView {
        match self {
            SongAction::Status(u) => ActionView::Status(u.id, u.text@),
            SongAction::FetchImage { url, file } => ActionView::FetchImage(url@, file@),
            SongAction::Download => ActionView::Download,
            SongAction::WriteTags { file } => ActionView::WriteTags(file@),
            SongAction::EmbedImage { audio, image } => ActionView::EmbedImage(audio@, image@),
            SongAction::DeleteImage { file } => ActionView::DeleteImage(file@),
            SongAction::RenameImage { file, name, extension } => ActionView::RenameImage(
                file@,
                name@,
                extension@,
            ),
            SongAction::RenameAudio { file, name, extension } => ActionView::RenameAudio(
                file@,
                name@,
                extension@,
            ),
        }
    }
}

/// The views of a list of steps.
pub open spec fn action_views(actions: Seq<SongAction>) -> Seq<ActionView> {
    actions.map_values(|a: SongAction| a@)
}

/// The file yt-dlp writes a song's audio to: its id and ".mp3".
pub open spec fn audio_file(song: SongView) -> Seq<char> {
    int_text(song.video_id as int) + ".mp3"@
}

/// The file a song's cover image is kept in: its id and ".jpg".
pub open spec fn image_file(song: SongView) -> Seq<char> {
    int_text(song.video_id as int) + ".jpg"@
}

/// The steps before yt-dlp runs: announce the start, fetch the cover when
/// the song has one, announce the download and run it.
pub open spec fn steps_before_download(song: SongView) -> Seq<ActionView> {
    seq![ActionView::Status(song.video_id, "Starting"@)] + match song.image_url {
        Some(url) => seq![ActionView::FetchImage(url, image_file(song))],
        None => Seq::empty(),
    } + seq![ActionView::Status(song.video_id, "Downloading"@), ActionView::Download]
}

/// The steps after yt-dlp ran: a failed download is reported and nothing
/// else is done for the song; otherwise the tag is written when the run asks
/// for it (then the cover is embedded and deleted or renamed after the song),
/// and the audio file is renamed after the song.
pub open spec fn steps_after_download(song: SongView, options: RunOptionsView, downloaded: bool) -> Seq<ActionView> {
    if !downloaded {
        seq![ActionView::Status(song.video_id, "THREAD CRASH!!!"@)]
    } else {
        (if options.edit_id3 {
            seq![
                ActionView::Status(song.video_id, "Editing metadata"@),
                ActionView::WriteTags(audio_file(song)),
            ] + if song.image_url is Some {
                seq![ActionView::EmbedImage(audio_file(song), image_file(song))] + if options.image_delete {
                    seq![ActionView::DeleteImage(image_file(song))]
                } else {
                    seq![ActionView::RenameImage(image_file(song), song.name, "jpg"@)]
                }
            } else {
                Seq::empty()
            }
        } else {
            Seq::empty()
        }) + seq![
            ActionView::Status(song.video_id, "Finishing up"@),
            ActionView::RenameAudio(audio_file(song), song.name, "mp3"@),
            ActionView::Status(song.video_id, "done!"@),
        ]
    }
}

fn status(song: &Song, s: &str) -> (a: SongAction)
    ensures
        a@ == ActionView::Status(song.video_id, s@),
{
    SongAction::Status(GenericUpdate { id: song.video_id, text: s.to_owned() })
}

/// `id` followed by `ext`.
fn id_file(id: i32, ext: &str) -> (name: String)
    ensures
        name@ == int_text(id as int) + ext@,
{
    let mut c = int_chars(id as i64);
    append_chars(&mut c, &chars_of(ext));
    string_from_chars(&c)
}

/// The steps before yt-dlp runs for `song` (see `steps_before_download`).
pub fn before_download(song: &Song) -> (actions: Vec<SongAction>)
    ensures
        action_views(actions@) == steps_before_download(song@),
{
    let mut actions: Vec<SongAction> = Vec::new();
    actions.push(status(song, "Starting"));
    match &song.image_url {
        Some(url) => {
            actions.push(SongAction::FetchImage { url: url.clone(), file: id_file(song.video_id, ".jpg") });
        },
        None => {},
    }
    actions.push(status(song, "Downloading"));
    actions.push(SongAction::Download);
    assert(action_views(actions@) =~= steps_before_download(song@));
    actions
}

/// The steps after yt-dlp ran for `song` (see `steps_after_download`).
pub fn after_download(song: &Song, options: &RunOptions, downloaded: bool) -> (actions: Vec<SongAction>)
    ensures
        action_views(actions@) == steps_after_download(song@, options@, downloaded),
{
    let mut actions: Vec<SongAction> = Vec::new();
    if !downloaded {
        actions.push(status(song, "THREAD CRASH!!!"));
        assert(action_views(actions@) =~= steps_after_download(song@, options@, downloaded));
        return actions;
    }
    if options.edit_id3 {
        actions.push(status(song, "Editing metadata"));
        actions.push(SongAction::WriteTags { file: id_file(song.video_id, ".mp3") });
        if song.image_url.is_some() {
            actions.push(SongAction::EmbedImage {
                audio: id_file(song.video_id, ".mp3"),
                image: id_file(song.video_id, ".jpg"),
            });
            if options.image_delete {
                actions.push(SongAction::DeleteImage { file: id_file(song.video_id, ".jpg") });
            } else {
                actions.push(SongAction::RenameImage {
                    file: id_file(song.video_id, ".jpg"),
                    name: song.name.clone(),
                    extension: "jpg".to_owned(),
                });
            }
        }
    }
    actions.push(status(song, "Finishing up"));
    actions.push(SongAction::RenameAudio {
        file: id_file(song.video_id, ".mp3"),
        name: song.name.clone(),
        extension: "mp3".to_owned(),
    });
    actions.push(status(song, "done!"));
    assert(action_views(actions@) =~= steps_after_download(song@, options@, downloaded));
    actions
}

/// A song whose download failed is only reported: no tag is written and no
/// file is renamed, embedded or deleted for it.
pub proof fn lemma_failed_download_touches_nothing(song: SongView, options: RunOptionsView)
    ensures
        steps_after_download(song, options, false).len() == 1,
        steps_after_download(song, options, false)[0] is Status,
{
}

/// After a successful download the audio file is renamed after the song,
/// and the song ends reported as done.
pub proof fn lemma_successful_download_finishes(song: SongView, options: RunOptionsView)
    ensures
        ({
            let steps = steps_after_download(song, options, true);
            &&& steps.len() >= 3
            &&& steps[steps.len() - 2] == ActionView::RenameAudio(audio_file(song), song.name, "mp3"@)
            &&& steps.last() == ActionView::Status(song.video_id, "done!"@)
        }),
{
}

/// The program yt-dlp is run as: the copy next to the application when it
/// was found there, the one on the search path otherwise.
pub open spec fn ytdlp_program_of(install_type: Seq<char>, current_dir: Seq<char>) -> Seq<char> {
    if install_type == "local"@ {
        current_dir + "\\yt-dlp.exe"@
    } else {
        "yt-dlp"@
    }
}

/// The program yt-dlp is run as (see `ytdlp_program_of`).
pub fn ytdlp_program(install_type: &str, current_dir: &str) -> (p: String)
    ensures
        p@ == ytdlp_program_of(install_type@, current_dir@),
{
    if crate::json::str_eq(install_type, "local") {
        let mut c = chars_of(current_dir);
        append_chars(&mut c, &chars_of("\\yt-dlp.exe"));
        string_from_chars(&c)
    } else {
        "yt-dlp".to_owned()
    }
}

/// The arguments yt-dlp gets for a song: a search for its name and artist,
/// audio extraction to mp3, the target directory and the song's id as the
/// output name.
pub open spec fn ytdlp_args_of(song: SongView, dir: Seq<char>, search_type: Seq<char>) -> Seq<Seq<char>> {
    seq![
        search_type + ":'"@ + song.name + " "@ + song.artist + "'"@,
        "--extract-audio"@,
        "--audio-format"@,
        "mp3"@,
        "-P "@ + dir,
        "-o"@ + int_text(song.video_id as int),
    ]
}

/// The views of a list of strings.
pub open spec fn texts(v: Seq<String>) -> Seq<Seq<char>> {
    v.map_values(|s: String| s@)
}

/// The arguments yt-dlp gets for `song` (see `ytdlp_args_of`).
pub fn ytdlp_args(song: &Song, dir: &str, search_type: &str) -> (args: Vec<String>)
    ensures
        texts(args@) == ytdlp_args_of(song@, dir@, search_type@),
{
    let mut search = chars_of(search_type);
    append_chars(&mut search, &chars_of(":'"));
    append_chars(&mut search, &chars_of(song.name.as_str()));
    append_chars(&mut search, &chars_of(" "));
    append_chars(&mut search, &chars_of(song.artist.as_str()));
    append_chars(&mut search, &chars_of("'"));
    let mut dir_arg = chars_of("-P ");
    append_chars(&mut dir_arg, &chars_of(dir));
    let mut name_arg = chars_of("-o");
    append_chars(&mut name_arg, &int_chars(song.video_id as i64));
    let mut args: Vec<String> = Vec::new();
    args.push(string_from_chars(&search));
    args.push("--extract-audio".to_owned());
    args.push("--audio-format".to_owned());
    args.push("mp3".to_owned());
    args.push(string_from_chars(&dir_arg));
    args.push(string_from_chars(&name_arg));
    assert(texts(args@) =~= ytdlp_args_of(song@, dir@, search_type@));
    args
}

/// How yt-dlp was found: on the search path ("global"), next to the
/// application ("local"), or not at all.
pub fn ytdlp_install_type(runs_globally: bool, runs_locally: bool) -> (r: Result<String, ()>)
    ensures
        runs_globally ==> r is Ok && r->Ok_0@ == "global"@,
        !runs_globally && runs_locally ==> r is Ok && r->Ok_0@ == "local"@,
        !runs_globally && !runs_locally ==> r is Err,
{
    if runs_globally {
        Ok("global".to_owned())
    } else if runs_locally {
        Ok("local".to_owned())
    } else {
        Err(())
    }
}

/// Characters a file name must not hold.
pub open spec fn forbidden_in_file_name(c: char) -> bool {
    c == '>' || c == '<' || c == '/' || c == '|' || c == '?' || c == '*'
}

/// `name` without the characters a file name must not hold.
pub open spec fn file_name_of(name: Seq<char>) -> Seq<char>
    decreases name.len(),
{
    if name.len() == 0 {
        Seq::empty()
    } else if forbidden_in_file_name(name.last()) {
        file_name_of(name.drop_last())
    } else {
        file_name_of(name.drop_last()).push(name.last())
    }
}

/// A song name made fit to be a file name (see `file_name_of`).
pub fn sanitize_file_name(name: &str) -> (r: String)
    ensures
        r@ == file_name_of(name@),
{
    let c = chars_of(name);
    let mut out: Vec<char> = Vec::new();
    let mut i: usize = 0;
    assert(c@.take(0) =~= Seq::<char>::empty());
    while i < c.len()
        invariant
            i <= c.len(),
            out@ == file_name_of(c@.take(i as int)),
        decreases c.len() - i,
    {
        let ch = c[i];
        assert(c@.take(i + 1).drop_last() =~= c@.take(i as int));
        if !(ch == '>' || ch == '<' || ch == '/' || ch == '|' || ch == '?' || ch == '*') {
            out.push(ch);
        }
        i = i + 1;
    }
    assert(c@.take(i as int) =~= c@);
    string_from_chars(&out)
}

/// A name that `PathBuf::set_file_name` puts in place of the old file name
/// as one component of the same directory: not empty, not "." or "..",
/// without a path separator ('/' or '\\') and without a drive prefix (a
/// second character ':').
pub open spec fn plain_file_name(name: Seq<char>) -> bool {
    &&& name.len() > 0
    &&& name != seq!['.']
    &&& name != seq!['.', '.']
    &&& !name.contains('/')
    &&& !name.contains('\\')
    &&& !(name.len() >= 2 && name[1] == ':')
}

/// The index of the last '.' of `s`.
pub open spec fn last_dot(s: Seq<char>) -> Option<int>
    decreases s.len(),
{
    if s.len() == 0 {
        None
    } else if s.last() == '.' {
        Some(s.len() - 1)
    } else {
        last_dot(s.drop_last())
    }
}

/// `Path::file_stem` of a file name: the whole name when it holds no '.' or
/// its only '.' is the first character, the part before the last '.'
/// otherwise.
pub open spec fn file_stem(name: Seq<char>) -> Seq<char> {
    match last_dot(name) {
        Some(k) => if k == 0 {
            name
        } else {
            name.take(k)
        },
        None => name,
    }
}

/// The file name a downloaded file ends up with after
/// `set_file_name(name)` and `set_extension(extension)`: the stem of `name`,
/// then '.' and `extension` unless that is empty.
pub open spec fn renamed_file_name_of(name: Seq<char>, extension: Seq<char>) -> Seq<char> {
    if extension.len() == 0 {
        file_stem(name)
    } else {
        file_stem(name) + seq!['.'] + extension
    }
}

/// A rename to `name` with `extension` keeps the file in its directory
/// under one new file name: `name` is plain and the result is neither "."
/// nor "..".
pub open spec fn renames_in_place(name: Seq<char>, extension: Seq<char>) -> bool {
    &&& plain_file_name(name)
    &&& renamed_file_name_of(name, extension) != seq!['.']
    &&& renamed_file_name_of(name, extension) != seq!['.', '.']
}

/// The file name a rename to `name` with `extension` gives, when it keeps
/// the file in its directory (see `renames_in_place`); `None` otherwise, and
/// the caller builds the path with `std::path`.
#[verifier::spinoff_prover]
pub fn renamed_file_name(name: &str, extension: &str) -> (r: Option<String>)
    ensures
        renames_in_place(name@, extension@) ==> opt_text(r) == Some(
            renamed_file_name_of(name@, extension@),
        ),
        !renames_in_place(name@, extension@) ==> r is None,
{
    let c = chars_of(name);
    let n = c.len();
    let mut plain = n > 0 && !(n == 1 && c[0] == '.') && !(n == 2 && c[0] == '.' && c[1] == '.')
        && !(n >= 2 && c[1] == ':');
    assert(plain == (c@.len() > 0 && c@ != seq!['.'] && c@ != seq!['.', '.'] && !(c@.len() >= 2
        && c@[1] == ':'))) by {
        if n == 1 && c@ != seq!['.'] {
            assert(c@[0] != '.' || c@ =~= seq!['.']);
        }
        if n == 2 && c@ != seq!['.', '.'] {
            assert(c@[0] != '.' || c@[1] != '.' || c@ =~= seq!['.', '.']);
        }
        if n == 1 && c@[0] == '.' {
            assert(c@ =~= seq!['.']);
        }
        if n == 2 && c@[0] == '.' && c@[1] == '.' {
            assert(c@ =~= seq!['.', '.']);
        }
    }
    let mut i: usize = 0;
    let mut dot: Option<usize> = None;
    while i < n
        invariant
            n == c.len(),
            i <= n,
            plain ==> forall|j: int| 0 <= j < i ==> c@[j] != '/' && c@[j] != '\\',
            plain ==> (c@.len() > 0 && c@ != seq!['.'] && c@ != seq!['.', '.'] && !(c@.len() >= 2
                && c@[1] == ':')),
            !plain ==> !(c@.len() > 0 && c@ != seq!['.'] && c@ != seq!['.', '.'] && !(c@.len() >= 2
                && c@[1] == ':')) || exists|j: int| 0 <= j < i && (c@[j] == '/' || c@[j] == '\\'),
            dot == (match last_dot(c@.take(i as int)) {
                Some(k) => Some(k as usize),
                None => None::<usize>,
            }),
            forall|k: int| #![trigger last_dot(c@.take(k))] 0 <= k <= i ==> match last_dot(c@.take(k)) {
                Some(d) => 0 <= d < k,
                None => true,
            },
        decreases n - i,
    {
        assert(c@.take(i + 1).drop_last() =~= c@.take(i as int));
        if c[i] == '/' || c[i] == '\\' {
            plain = false;
        }
        if c[i] == '.' {
            dot = Some(i);
        }
        i = i + 1;
    }
    assert(c@.take(n as int) =~= c@);
    proof {
        if plain {
            assert forall|x: char| c@.contains(x) implies x != '/' && x != '\\' by {}
        } else {
            if c@.len() > 0 && c@ != seq!['.'] && c@ != seq!['.', '.'] && !(c@.len() >= 2 && c@[1] == ':') {
                let j = choose|j: int| 0 <= j < i && (c@[j] == '/' || c@[j] == '\\');
                assert(c@.contains(c@[j]));
            }
        }
    }
    if !plain {
        return None;
    }
    let mut out = match dot {
        Some(k) => {
            if k == 0 {
                c
            } else {
                let mut stem = c;
                stem.truncate(k);
                stem
            }
        },
        None => c,
    };
    let e = chars_of(extension);
    if e.len() > 0 {
        out.push('.');
        append_chars(&mut out, &e);
    }
    assert(out@ == renamed_file_name_of(name@, extension@));
    let m = out.len();
    if (m == 1 && out[0] == '.') || (m == 2 && out[0] == '.' && out[1] == '.') {
        assert(out@ =~= seq!['.'] || out@ =~= seq!['.', '.']);
        return None;
    }
    assert(out@ != seq!['.'] && out@ != seq!['.', '.']) by {
        if out@ == seq!['.'] {
            assert(m == 1 && out@[0] == '.');
        }
        if out@ == seq!['.', '.'] {
            assert(m == 2 && out@[0] == '.' && out@[1] == '.');
        }
    }
    Some(string_from_chars(&out))
}

/// `name` followed by ".mp3", for a name without '.', reads back as `name`
/// when ".mp3" is removed from it.
proof fn lemma_mp3_name_reads_back(name: Seq<char>)
    requires
        !name.contains('.'),
    ensures
        downloaded_song_name(name + ".mp3"@) == name,
    decreases name.len(),
{
    reveal_strlit(".mp3");
    let p = ".mp3"@;
    let s = name + p;
    if name.len() == 0 {
        assert(s =~= p);
        assert(s.take(4) =~= p);
        assert(s.skip(4) =~= Seq::<char>::empty());
        assert(replace_all(s.skip(4), p, Seq::empty()) == Seq::<char>::empty());
    } else {
        assert(name.contains(name[0]));
        assert(s.take(4)[0] == name[0]);
        assert(s.take(4) != p);
        let rest = name.skip(1);
        assert forall|x: char| rest.contains(x) implies x != '.' by {
            let j = choose|j: int| 0 <= j < rest.len() && rest[j] == x;
            assert(name[j + 1] == x);
            assert(name.contains(x));
        }
        lemma_mp3_name_reads_back(rest);
        assert(s.skip(1) =~= rest + p);
        assert(seq![s[0]] + rest =~= name);
    }
}

/// `name` has no '.' after its first character.
pub open spec fn no_dot_after_first(name: Seq<char>) -> bool {
    forall|j: int| 1 <= j < name.len() ==> name[j] != '.'
}

/// `name` followed by ".mp3", for a name whose only '.' is its first
/// character and which does not itself begin with ".mp3", reads back as
/// `name` when ".mp3" is removed from it.
proof fn lemma_dot_name_reads_back(name: Seq<char>)
    requires
        name.len() > 0,
        name[0] == '.',
        no_dot_after_first(name),
        !(name.len() >= 4 && name.take(4) == ".mp3"@),
    ensures
        downloaded_song_name(name + ".mp3"@) == name,
{
    reveal_strlit(".mp3");
    let p = ".mp3"@;
    let s = name + p;
    let n = name.len();
    if n >= 4 {
        assert(s.take(4) =~= name.take(4));
    } else {
        assert(s.take(4)[n as int] == '.');
        assert(p[n as int] != '.');
    }
    assert(s.take(4) != p);
    let rest = name.skip(1);
    assert forall|x: char| rest.contains(x) implies x != '.' by {
        let j = choose|j: int| 0 <= j < rest.len() && rest[j] == x;
        assert(name[j + 1] == x);
    }
    lemma_mp3_name_reads_back(rest);
    assert(s.skip(1) =~= rest + p);
    assert(seq![s[0]] + rest =~= name);
}

/// The last '.' of a name with no '.' after its first character is, if
/// there is one, that first character.
proof fn lemma_last_dot_at_most_first(name: Seq<char>)
    requires
        no_dot_after_first(name),
    ensures
        last_dot(name) is None || last_dot(name) == Some(0int),
    decreases name.len(),
{
    if name.len() > 1 {
        let rest = name.drop_last();
        assert(name.last() != '.');
        assert(no_dot_after_first(rest));
        lemma_last_dot_at_most_first(rest);
        assert(last_dot(name) == last_dot(rest));
    } else if name.len() == 1 {
        assert(last_dot(name.drop_last()) is None);
    }
}

/// The song names the files of a download directory stand for.
pub open spec fn names_of_files(files: Seq<Seq<char>>) -> Option<Seq<Seq<char>>> {
    Some(files.map_values(|f: Seq<char>| downloaded_song_name(f)))
}

/// A song downloaded earlier under a plain name with no '.' after its first
/// character (and, when it begins with '.', not beginning with ".mp3") is
/// not queued again: its audio file, renamed to the song's name with
/// extension "mp3", reads back as that name, so every song of that name is
/// set apart.
pub proof fn lemma_downloaded_song_not_queued(
    songs: Seq<SongView>,
    files: Seq<Seq<char>>,
    name: Seq<char>,
)
    requires
        plain_file_name(name),
        no_dot_after_first(name),
        !(name.len() >= 4 && name.take(4) == ".mp3"@),
        files.contains(renamed_file_name_of(name, "mp3"@)),
    ensures
        forall|i: int|
            0 <= i < songs_to_fetch(songs, names_of_files(files)).len() ==> (#[trigger] songs_to_fetch(
                songs,
                names_of_files(files),
            )[i]).name != name,
{
    reveal_strlit("mp3");
    reveal_strlit(".mp3");
    lemma_last_dot_at_most_first(name);
    assert(file_stem(name) == name);
    assert(renamed_file_name_of(name, "mp3"@) =~= name + ".mp3"@);
    if name[0] == '.' {
        lemma_dot_name_reads_back(name);
    } else {
        assert forall|x: char| name.contains(x) implies x != '.' by {
            let j = choose|j: int| 0 <= j < name.len() && name[j] == x;
            if j > 0 {
                assert(name[j] != '.');
            }
        }
        lemma_mp3_name_reads_back(name);
    }
    let names = files.map_values(|f: Seq<char>| downloaded_song_name(f));
    let j = choose|j: int| 0 <= j < files.len() && files[j] == renamed_file_name_of(name, "mp3"@);
    assert(names[j] == name);
    assert(names.contains(name));
    lemma_split_partitions(songs, Some(names));
}

} // verus!
