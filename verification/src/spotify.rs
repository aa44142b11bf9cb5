//! What the downloader reads from Spotify: playlist ids from share links,
//! songs from track objects, genres, playlist sizes and the paging of
//! playlist items, and the request and answer details of the Web API.
use vstd::prelude::*;
use crate::json::{
    as_text, as_u32, as_usize, at, display, display_of, get, is_null, item, json_len, len_of,
    member, node, null_at, str_eq, text_of, u32_of, usize_of, Json,
};
use crate::types::{opt_text, Playlist, PlaylistView, RunOptions, Song, SongView};
use crate::text::{
    append_chars, chars_of, contains_chars, has_substring, lemma_replace_all_absent, lemma_replace_all_leading,
    lemma_utf8_size_take_monotone, occurs_at, prefix_with_utf8_size,
    replace_all, replace_all_chars, string_from_chars, utf8_size,
};

verus! {

/// The start of a playlist share link.
pub open spec fn playlist_url_prefix() -> Seq<char> {
    "https://open.spotify.com/playlist/"@
}

/// The query marker a share link carries after the id.
pub open spec fn share_marker() -> Seq<char> {
    "?si="@
}

/// `url` with every occurrence of the share-link start removed.
pub open spec fn strip_url_prefix(url: Seq<char>) -> Seq<char> {
    replace_all(url, playlist_url_prefix(), Seq::empty())
}

/// The leading characters of `s` whose UTF-8 encoding takes exactly `n`
/// bytes, when byte `n` is a character boundary of `s`.
pub open spec fn utf8_cut(s: Seq<char>, n: nat) -> Option<Seq<char>> {
    if exists|k: int| 0 <= k <= s.len() && #[trigger] utf8_size(s.take(k)) == n {
        Some(s.take(choose|k: int| 0 <= k <= s.len() && #[trigger] utf8_size(s.take(k)) == n))
    } else {
        None
    }
}

/// The playlist id a link stands for: the link without its share-link
/// start, cut to its first 22 bytes when it holds a share marker, and
/// accepted only when 22 bytes long.
pub open spec fn playlist_id_of(url: Seq<char>) -> Option<Seq<char>> {
    let id = strip_url_prefix(url);
    if has_substring(id, share_marker()) {
        utf8_cut(id, 22)
    } else if utf8_size(id) == 22 {
        Some(id)
    } else {
        None
    }
}

/// Links on which reading the id does not fail: a link with a share marker
/// must be at least 22 bytes long without its start, with a character
/// boundary at byte 22.
pub open spec fn playlist_link_cuttable(url: Seq<char>) -> bool {
    has_substring(strip_url_prefix(url), share_marker()) ==> utf8_cut(
        strip_url_prefix(url),
        22,
    ) is Some
}

proof fn lemma_utf8_cut_unique(s: Seq<char>, n: nat, k: int)
    requires
        0 <= k <= s.len(),
        utf8_size(s.take(k)) == n,
    ensures
        utf8_cut(s, n) == Some(s.take(k)),
{
    let c = choose|j: int| 0 <= j <= s.len() && #[trigger] utf8_size(s.take(j)) == n;
    assert(0 <= c <= s.len() && utf8_size(s.take(c)) == n);
    if c < k {
        lemma_utf8_size_take_monotone(s, c, k);
    } else if c > k {
        lemma_utf8_size_take_monotone(s, k, c);
    }
}

/// The share-link start as characters.
fn url_prefix_chars() -> (p: Vec<char>)
    ensures
        p@ == playlist_url_prefix(),
        p.len() > 0,
{
    proof {
        reveal_strlit("https://open.spotify.com/playlist/");
    }
    chars_of("https://open.spotify.com/playlist/")
}

/// `url` without the share-link start, as characters.
fn stripped_chars(url: &str) -> (id: Vec<char>)
    ensures
        id@ == strip_url_prefix(url@),
{
    let chars = chars_of(url);
    let prefix = url_prefix_chars();
    let none: Vec<char> = Vec::new();
    replace_all_chars(&chars, &prefix, &none)
}

/// Whether `id` holds a share marker, and the number of its leading
/// characters that take exactly 22 bytes, if any.
fn share_cut(id: &Vec<char>) -> (r: (bool, Option<usize>))
    ensures
        r.0 == has_substring(id@, share_marker()),
        match r.1 {
            Some(k) => k <= id.len() && utf8_size(id@.take(k as int)) == 22 && utf8_cut(id@, 22)
                == Some(id@.take(k as int)),
            None => utf8_cut(id@, 22) is None,
        },
{
    let marker = chars_of("?si=");
    let has_marker = contains_chars(id, &marker);
    let cut = prefix_with_utf8_size(id, 22);
    proof {
        if let Some(k) = cut {
            lemma_utf8_cut_unique(id@, 22, k as int);
        }
    }
    (has_marker, cut)
}

/// `url` without the share-link start (what `set_url` keeps as the id).
pub fn strip_playlist_url(url: &str) -> (id: String)
    ensures
        id@ == strip_url_prefix(url@),
{
    string_from_chars(&stripped_chars(url))
}

/// Whether reading the id of `url` succeeds without failing (see
/// `playlist_link_cuttable`).
pub fn playlist_link_is_cuttable(url: &str) -> (b: bool)
    ensures
        b == playlist_link_cuttable(url@),
{
    let (has_marker, cut) = share_cut(&stripped_chars(url));
    !has_marker || cut.is_some()
}

/// The 22-byte playlist id of a share link or a bare id.
pub fn playlist_url_to_id(url: String) -> (r: Result<String, ()>)
    requires
        playlist_link_cuttable(url@),
    ensures
        match r {
            Ok(id) => playlist_id_of(url@) == Some(id@),
            Err(_) => playlist_id_of(url@) is None,
        },
{
    let mut id = stripped_chars(url.as_str());
    let (has_marker, cut) = share_cut(&id);
    match cut {
        Some(k) => {
            if has_marker {
                id.truncate(k);
                assert(id@ =~= strip_url_prefix(url@).take(k as int));
                Ok(string_from_chars(&id))
            } else if k == id.len() {
                assert(id@.take(k as int) =~= id@);
                Ok(string_from_chars(&id))
            } else {
                proof {
                    lemma_utf8_size_take_monotone(id@, k as int, id@.len() as int);
                    assert(id@.take(id@.len() as int) =~= id@);
                }
                Err(())
            }
        },
        None => {
            proof {
                if utf8_size(id@) == 22 {
                    assert(id@.take(id@.len() as int) =~= id@);
                    assert(utf8_size(id@.take(id@.len() as int)) == 22);
                }
            }
            Err(())
        },
    }
}

/// A playlist id read from a link is 22 bytes long and reads back as
/// itself: it is too short to hold the share-link start.
pub proof fn lemma_playlist_id_stable(url: Seq<char>, id: Seq<char>)
    requires
        playlist_id_of(url) == Some(id),
    ensures
        utf8_size(id) == 22,
        playlist_link_cuttable(id),
        playlist_id_of(id) == Some(id),
{
    reveal_strlit("https://open.spotify.com/playlist/");
    let stripped = strip_url_prefix(url);
    if has_substring(stripped, share_marker()) {
        let k = choose|k: int| 0 <= k <= stripped.len() && #[trigger] utf8_size(stripped.take(k)) == 22;
        assert(id == stripped.take(k));
    }
    assert(utf8_size(id) == 22);
    assert(id.take(id.len() as int) =~= id);
    lemma_utf8_size_take_monotone(id, 0, id.len() as int);
    assert(id.take(0) =~= Seq::<char>::empty());
    assert(id.len() <= 22);
    assert(strip_url_prefix(id) == id);
    lemma_utf8_cut_unique(id, 22, id.len() as int);
}

/// A 22-byte id holds neither the share-link start nor, beginning at or
/// before its end, any text that begins the link start.
proof fn lemma_id_holds_no_link_start(id: Seq<char>, query: Seq<char>)
    requires
        utf8_size(id) == 22,
        !has_substring(query, playlist_url_prefix()),
    ensures
        id.len() <= 22,
        !has_substring(id + "?si="@ + query, playlist_url_prefix()),
{
    reveal_strlit("https://open.spotify.com/playlist/");
    reveal_strlit("?si=");
    lemma_utf8_size_take_monotone(id, 0, id.len() as int);
    assert(id.take(0) =~= Seq::<char>::empty());
    assert(id.take(id.len() as int) =~= id);
    let p = playlist_url_prefix();
    let x = id + "?si="@ + query;
    let n = id.len() as int;
    assert forall|i: int| !occurs_at(x, p, i) by {
        if occurs_at(x, p, i) {
            let w = x.subrange(i, i + p.len());
            if i <= n {
                assert(w[n - i] == x[n]);
                assert(x[n] == '?');
            } else if i < n + 4 {
                assert(w[0] == x[i]);
            } else {
                assert(query.subrange(i - n - 4, i - n - 4 + p.len()) =~= w);
                assert(occurs_at(query, p, i - n - 4));
            }
        }
    }
}

/// How a share link reads: for every 22-byte id without "?si=", the id
/// alone and the link start followed by the id both read as the id, and so
/// does a share link that adds "?si=" and any query without the link start.
pub proof fn lemma_share_link_reads_as_id(id: Seq<char>, query: Seq<char>)
    requires
        utf8_size(id) == 22,
        !has_substring(id, "?si="@),
        !has_substring(query, "https://open.spotify.com/playlist/"@),
    ensures
        playlist_id_of(id) == Some(id),
        playlist_id_of("https://open.spotify.com/playlist/"@ + id) == Some(id),
        playlist_id_of("https://open.spotify.com/playlist/"@ + id + "?si="@ + query) == Some(id),
{
    reveal_strlit("https://open.spotify.com/playlist/");
    reveal_strlit("?si=");
    let p = playlist_url_prefix();
    let e = Seq::<char>::empty();
    lemma_id_holds_no_link_start(id, query);
    assert(!has_substring(id, p)) by {
        if has_substring(id, p) {
            let i = choose|i: int| occurs_at(id, p, i);
            assert(id.len() < p.len());
        }
    }
    lemma_replace_all_absent(id, p, e);
    assert(strip_url_prefix(id) == id);
    lemma_replace_all_leading(p, id, e);
    assert(e + id =~= id);
    assert(strip_url_prefix(p + id) == id);
    let x = id + "?si="@ + query;
    lemma_replace_all_absent(x, p, e);
    lemma_replace_all_leading(p, x, e);
    assert(e + x =~= x);
    assert(p + id + "?si="@ + query =~= p + x);
    assert(strip_url_prefix(p + x) == x);
    assert(x.subrange(id.len() as int, id.len() + 4int) =~= "?si="@);
    assert(occurs_at(x, share_marker(), id.len() as int));
    assert(x.take(id.len() as int) =~= id);
    lemma_utf8_cut_unique(x, 22, id.len() as int);
}

/// The album object of a track.
pub open spec fn album_of(track: Json) -> Json {
    member(track, "album"@)
}

/// The name of the `i`-th entry of an artist list.
pub open spec fn name_at(list: Json, i: int) -> Option<Seq<char>> {
    as_text(member(item(list, i), "name"@))
}

/// Every name the artist joining reads is a string: the first entry's, and
/// those of entries 1 up to the list's length.
pub open spec fn names_present(list: Json) -> bool {
    &&& name_at(list, 0) is Some
    &&& forall|i: int| 1 <= i < json_len(list) ==> (#[trigger] name_at(list, i)) is Some
}

/// The names of the first `n` entries (at least the first one) joined by ", ".
pub open spec fn joined_names(list: Json, n: nat) -> Seq<char>
    decreases n,
{
    if n <= 1 {
        name_at(list, 0)->0
    } else {
        joined_names(list, (n - 1) as nat) + seq![',', ' '] + name_at(list, n - 1)->0
    }
}

/// All the names of an artist list, joined by ", ".
pub open spec fn artist_names(list: Json) -> Seq<char> {
    joined_names(list, json_len(list))
}

/// The `i`-th name of an artist list with the separator that goes before
/// it (none before the first).
spec fn name_piece(list: Json, i: int) -> Seq<char> {
    (if i == 0 {
        Seq::empty()
    } else {
        ", "@
    }) + as_text(member(item(list, i), "name"@))->0
}

proof fn lemma_joined_names_flat(list: Json, k: nat)
    requires
        1 <= k,
    ensures
        joined_names(list, k) == Seq::new(k, |i: int| name_piece(list, i)).flatten(),
    decreases k,
{
    reveal_strlit(", ");
    let g = |i: int| name_piece(list, i);
    if k == 1 {
        assert(Seq::new(1, g) =~= Seq::<Seq<char>>::empty().push(g(0)));
        Seq::<Seq<char>>::empty().lemma_flatten_push(g(0));
        assert(Seq::<Seq<char>>::empty().flatten() =~= Seq::<char>::empty());
        assert(g(0) =~= name_at(list, 0)->0);
    } else {
        lemma_joined_names_flat(list, (k - 1) as nat);
        let front = Seq::new((k - 1) as nat, g);
        assert(Seq::new(k, g) =~= front.push(g(k - 1)));
        front.lemma_flatten_push(g(k - 1));
        assert(joined_names(list, k) =~= front.flatten() + g(k - 1));
    }
}

/// The names of an artist list, each after ", " but the first, laid end to
/// end: every name of the list appears, in order.
pub proof fn lemma_artist_names_lists_every_name(list: Json)
    requires
        names_present(list),
    ensures
        json_len(list) >= 1,
        artist_names(list) == Seq::new(
            json_len(list),
            |i: int|
                (if i == 0 {
                    Seq::empty()
                } else {
                    ", "@
                }) + as_text(member(item(list, i), "name"@))->0,
        ).flatten(),
{
    assert(json_len(list) >= 1);
    lemma_joined_names_flat(list, json_len(list));
    assert(Seq::new(
        json_len(list),
        |i: int|
            (if i == 0 {
                Seq::empty()
            } else {
                ", "@
            }) + as_text(member(item(list, i), "name"@))->0,
    ) =~= Seq::new(json_len(list), |i: int| name_piece(list, i)));
}

/// The release date of a track's album.
pub open spec fn release_date(track: Json) -> Option<Seq<char>> {
    as_text(member(album_of(track), "release_date"@))
}

/// The album type of a track's album ("album", "single", ...).
pub open spec fn album_type(track: Json) -> Option<Seq<char>> {
    as_text(member(album_of(track), "album_type"@))
}

/// The name of a track's album.
pub open spec fn album_name(track: Json) -> Option<Seq<char>> {
    as_text(member(album_of(track), "name"@))
}

/// The url of the first cover image of a track's album.
pub open spec fn cover_url(track: Json) -> Option<Seq<char>> {
    as_text(member(item(member(album_of(track), "images"@), 0), "url"@))
}

/// The value of a decimal digit character.
pub open spec fn digit_value(c: char) -> Option<int> {
    if '0' <= c && c <= '9' {
        Some(c as int - '0' as int)
    } else {
        None
    }
}

/// The value of a non-empty run of decimal digits.
pub open spec fn digits_value(s: Seq<char>) -> Option<int>
    decreases s.len(),
{
    if s.len() == 0 {
        None
    } else if s.len() == 1 {
        digit_value(s[0])
    } else {
        match (digits_value(s.drop_last()), digit_value(s.last())) {
            (Some(a), Some(d)) => Some(a * 10 + d),
            _ => None,
        }
    }
}

/// The integer a short text denotes as `i32::from_str` reads it: an optional
/// '+' or '-' followed by at least one digit.
pub open spec fn int_value(s: Seq<char>) -> Option<int> {
    if s.len() > 0 && s[0] == '-' {
        match digits_value(s.drop_first()) {
            Some(v) => Some(-v),
            None => None,
        }
    } else if s.len() > 0 && s[0] == '+' {
        digits_value(s.drop_first())
    } else {
        digits_value(s)
    }
}

/// The year of a track: its album's release date cut to four characters.
pub open spec fn release_year(track: Json) -> Option<int> {
    int_value(release_date(track)->0.take(4))
}

/// The track fields a run reads are there: reading a song never fails on
/// such a track.
pub open spec fn track_ready(track: Json, options: RunOptions) -> bool {
    &&& as_text(member(track, "name"@)) is Some
    &&& options.id3_year ==> release_date(track) is Some && release_date(track)->0.len() >= 4
        && release_year(track) is Some
    &&& options.id3_artist ==> names_present(member(track, "artists"@)) && names_present(
        member(album_of(track), "artists"@),
    )
    &&& options.id3_album ==> album_type(track) is Some && (album_type(track)->0 != "single"@
        ==> album_name(track) is Some)
    &&& options.image_download ==> cover_url(track) is Some
    &&& options.id3_track_number ==> as_u32(member(track, "track_number"@)) is Some
}

/// The song read from a track, for the given id and genre.
pub open spec fn track_song(
    track: Json,
    options: RunOptions,
    video_id: i32,
    genre: Option<Seq<char>>,
) -> SongView {
    SongView {
        video_id: video_id,
        name: as_text(member(track, "name"@))->0,
        image_url: if options.image_download {
            Some(cover_url(track)->0)
        } else {
            None
        },
        track_number: if options.id3_track_number {
            Some(as_u32(member(track, "track_number"@))->0)
        } else {
            None
        },
        artist: if options.id3_artist {
            artist_names(member(track, "artists"@))
        } else {
            Seq::empty()
        },
        album: if options.id3_album {
            Some(
                if album_type(track)->0 == "single"@ {
                    "single"@
                } else {
                    album_name(track)->0
                },
            )
        } else {
            None
        },
        album_artist: if options.id3_artist {
            Some(artist_names(member(album_of(track), "artists"@)))
        } else {
            None
        },
        year: if options.id3_year {
            Some(release_year(track)->0 as i32)
        } else {
            None
        },
        genre: if options.id3_genre {
            genre
        } else {
            None
        },
    }
}

/// With artists asked for, a song read from a track names every artist of
/// the track (`track["artists"]`) and every artist of its album
/// (`track["album"]["artists"]`), in list order, each after ", " but the
/// first; without, it names none.
pub proof fn lemma_song_names_all_artists(
    track: Json,
    options: RunOptions,
    video_id: i32,
    genre: Option<Seq<char>>,
)
    requires
        track_ready(track, options),
    ensures
        options.id3_artist ==> track_song(track, options, video_id, genre).artist == Seq::new(
            json_len(member(track, "artists"@)),
            |i: int|
                (if i == 0 {
                    Seq::empty()
                } else {
                    ", "@
                }) + as_text(member(item(member(track, "artists"@), i), "name"@))->0,
        ).flatten(),
        options.id3_artist ==> track_song(track, options, video_id, genre).album_artist == Some(
            Seq::new(
                json_len(member(member(track, "album"@), "artists"@)),
                |i: int|
                    (if i == 0 {
                        Seq::empty()
                    } else {
                        ", "@
                    }) + as_text(
                        member(item(member(member(track, "album"@), "artists"@), i), "name"@),
                    )->0,
            ).flatten(),
        ),
        !options.id3_artist ==> track_song(track, options, video_id, genre).artist.len() == 0
            && track_song(track, options, video_id, genre).album_artist is None,
{
    if options.id3_artist {
        lemma_artist_names_lists_every_name(member(track, "artists"@));
        lemma_artist_names_lists_every_name(member(member(track, "album"@), "artists"@));
    }
}

/// A song read from a track carries the given id, the track's name, and
/// each other field exactly when the options ask for it: the first cover's
/// url, the track number, the album title ("single" for a single), the
/// year written in the first four characters of the release date, and the
/// given genre.
pub proof fn lemma_song_fields_follow_options(
    track: Json,
    options: RunOptions,
    video_id: i32,
    genre: Option<Seq<char>>,
)
    requires
        track_ready(track, options),
    ensures
        ({
            let song = track_song(track, options, video_id, genre);
            let album = member(track, "album"@);
            &&& song.video_id == video_id
            &&& Some(song.name) == as_text(member(track, "name"@))
            &&& song.image_url == (if options.image_download {
                as_text(member(item(member(album, "images"@), 0), "url"@))
            } else {
                None
            })
            &&& song.track_number == (if options.id3_track_number {
                as_u32(member(track, "track_number"@))
            } else {
                None
            })
            &&& (options.id3_album && as_text(member(album, "album_type"@)) == Some("single"@)
                ==> song.album == Some("single"@))
            &&& (options.id3_album && as_text(member(album, "album_type"@)) != Some("single"@)
                ==> song.album == as_text(member(album, "name"@)))
            &&& (!options.id3_album ==> song.album is None)
            &&& (options.id3_year ==> song.year is Some && int_value(
                as_text(member(album, "release_date"@))->0.take(4),
            ) == Some(song.year->0 as int))
            &&& (!options.id3_year ==> song.year is None)
            &&& song.genre == (if options.id3_genre {
                genre
            } else {
                None
            })
        }),
{
    if options.id3_year {
        let date = release_date(track)->0.take(4);
        assert(date.len() <= 4);
        lemma_int_value_fits(date);
    }
}

/// A text of at most four characters denotes a number that fits an `i32`.
proof fn lemma_int_value_fits(s: Seq<char>)
    requires
        s.len() <= 4,
        int_value(s) is Some,
    ensures
        -9999 <= int_value(s)->0 <= 9999,
{
    if s.len() > 0 && (s[0] == '-' || s[0] == '+') {
        lemma_digits_bound(s.drop_first());
    } else {
        lemma_digits_bound(s);
    }
}

fn digit_of(c: char) -> (r: Option<i32>)
    ensures
        match r {
            Some(d) => digit_value(c) == Some(d as int) && 0 <= d <= 9,
            None => digit_value(c) is None,
        },
{
    if '0' <= c && c <= '9' {
        Some((c as u32 - '0' as u32) as i32)
    } else {
        None
    }
}

proof fn lemma_digits_bound(s: Seq<char>)
    requires
        digits_value(s) is Some,
    ensures
        0 <= digits_value(s)->0,
        s.len() <= 4 ==> digits_value(s)->0 <= 9999,
        s.len() <= 3 ==> digits_value(s)->0 <= 999,
        s.len() <= 2 ==> digits_value(s)->0 <= 99,
        s.len() <= 1 ==> digits_value(s)->0 <= 9,
    decreases s.len(),
{
    if s.len() > 1 {
        lemma_digits_bound(s.drop_last());
    }
}

fn digits_of(s: &Vec<char>, from: usize) -> (r: Option<i32>)
    requires
        from <= s.len(),
        s.len() - from <= 4,
    ensures
        match r {
            Some(v) => digits_value(s@.skip(from as int)) == Some(v as int) && 0 <= v <= 9999,
            None => digits_value(s@.skip(from as int)) is None,
        },
{
    if from == s.len() {
        return None;
    }
    let mut acc: i32 = 0;
    let mut i: usize = from;
    proof {
        assert(s@.skip(from as int).take(0) =~= Seq::<char>::empty());
    }
    while i < s.len()
        invariant
            from <= i <= s.len(),
            s.len() - from <= 4,
            from < s.len(),
            i == from ==> acc == 0,
            i > from ==> digits_value(s@.subrange(from as int, i as int)) == Some(acc as int),
            0 <= acc <= 9999,
        decreases s.len() - i,
    {
        match digit_of(s[i]) {
            Some(d) => {
                proof {
                    let t = s@.subrange(from as int, i + 1);
                    assert(t.drop_last() =~= s@.subrange(from as int, i as int));
                    assert(t.last() == s@[i as int]);
                    if i == from {
                        assert(t.len() == 1);
                        assert(t[0] == s@[i as int]);
                    } else {
                        lemma_digits_bound(s@.subrange(from as int, i as int));
                        lemma_digits_bound(t);
                    }
                }
                acc = acc * 10 + d;
                i = i + 1;
            },
            None => {
                proof {
                    let u = s@.skip(from as int);
                    lemma_digits_none(u, i - from);
                }
                return None;
            },
        }
    }
    assert(s@.subrange(from as int, i as int) =~= s@.skip(from as int));
    Some(acc)
}

proof fn lemma_digits_none(u: Seq<char>, j: int)
    requires
        0 <= j < u.len(),
        digit_value(u[j]) is None,
    ensures
        digits_value(u) is None,
    decreases u.len(),
{
    if u.len() > 1 {
        if j < u.len() - 1 {
            assert(u.drop_last()[j] == u[j]);
            lemma_digits_none(u.drop_last(), j);
        }
    }
}

/// `i32::from_str` on a text of at most four characters.
pub fn parse_short_int(s: &Vec<char>) -> (r: Option<i32>)
    requires
        s.len() <= 4,
    ensures
        match r {
            Some(v) => int_value(s@) == Some(v as int),
            None => int_value(s@) is None,
        },
{
    assert(s@.skip(0) =~= s@);
    if s.len() > 0 && s[0] == '-' {
        assert(s@.skip(1) =~= s@.drop_first());
        match digits_of(s, 1) {
            Some(v) => Some(-v),
            None => None,
        }
    } else if s.len() > 0 && s[0] == '+' {
        assert(s@.skip(1) =~= s@.drop_first());
        digits_of(s, 1)
    } else {
        digits_of(s, 0)
    }
}

/// Whether every name the artist joining reads is a string.
fn names_are_present(list: Option<&Json>) -> (b: bool)
    ensures
        b == names_present(node(list)),
{
    if text_of(get(at(list, 0), "name")).is_none() {
        return false;
    }
    let n = len_of(list);
    let mut i: usize = 1;
    while i < n
        invariant
            n == json_len(node(list)),
            1 <= i,
            forall|j: int| 1 <= j < i && j < n ==> (#[trigger] name_at(node(list), j)) is Some,
        decreases n - i,
    {
        if text_of(get(at(list, i), "name")).is_none() {
            assert(name_at(node(list), i as int) is None);
            return false;
        }
        i = i + 1;
    }
    true
}

/// The names of an artist list joined by ", ".
fn join_names(list: Option<&Json>) -> (s: String)
    requires
        names_present(node(list)),
    ensures
        s@ == artist_names(node(list)),
{
    let first = text_of(get(at(list, 0), "name"));
    let mut out = chars_of(first.unwrap().as_str());
    let n = len_of(list);
    let mut i: usize = 1;
    while i < n
        invariant
            n == json_len(node(list)),
            names_present(node(list)),
            1 <= i,
            i <= n || i == 1,
            out@ == joined_names(node(list), i as nat),
        decreases n - i,
    {
        let name = text_of(get(at(list, i), "name"));
        assert(name_at(node(list), i as int) is Some);
        out.push(',');
        out.push(' ');
        let name_chars = chars_of(name.unwrap().as_str());
        append_chars(&mut out, &name_chars);
        assert(out@ =~= joined_names(node(list), (i + 1) as nat));
        i = i + 1;
    }
    assert(n <= 1 ==> joined_names(node(list), n as nat) == joined_names(node(list), 1));
    string_from_chars(&out)
}

/// The first four characters of a text, when it has that many.
fn first_four(s: &String) -> (r: Vec<char>)
    requires
        s@.len() >= 4,
    ensures
        r@ == s@.take(4),
{
    let mut c = chars_of(s.as_str());
    c.truncate(4);
    c
}

/// Whether `s` is the word "single".
fn is_single(s: &String) -> (b: bool)
    ensures
        b == (s@ == "single"@),
{
    str_eq(s.as_str(), "single")
}

/// Whether reading a song from `track` with these options succeeds (see
/// `track_ready`).
pub fn track_is_ready(track: &Json, options: &RunOptions) -> (b: bool)
    ensures
        b == track_ready(*track, *options),
{
    let t = Some(track);
    let album = get(t, "album");
    if text_of(get(t, "name")).is_none() {
        return false;
    }
    if options.id3_year {
        match text_of(get(album, "release_date")) {
            Some(date) => {
                if chars_of(date.as_str()).len() < 4 {
                    return false;
                }
                if parse_short_int(&first_four(date)).is_none() {
                    return false;
                }
            },
            None => {
                return false;
            },
        }
    }
    assert(as_text(member(*track, "name"@)) is Some);
    assert(options.id3_year ==> release_date(*track) is Some && release_date(*track)->0.len() >= 4
        && release_year(*track) is Some);
    if options.id3_artist {
        if !names_are_present(get(t, "artists")) || !names_are_present(get(album, "artists")) {
            return false;
        }
    }
    assert(options.id3_artist ==> names_present(member(*track, "artists"@)) && names_present(
        member(album_of(*track), "artists"@),
    ));
    if options.id3_album {
        match text_of(get(album, "album_type")) {
            Some(kind) => {
                if !is_single(kind) && text_of(get(album, "name")).is_none() {
                    return false;
                }
            },
            None => {
                return false;
            },
        }
    }
    assert(options.id3_album ==> album_type(*track) is Some && (album_type(*track)->0 != "single"@
        ==> album_name(*track) is Some));
    if options.image_download && text_of(get(at(get(album, "images"), 0), "url")).is_none() {
        return false;
    }
    assert(options.image_download ==> cover_url(*track) is Some);
    if options.id3_track_number && u32_of(get(t, "track_number")).is_none() {
        return false;
    }
    assert(options.id3_track_number ==> as_u32(member(*track, "track_number"@)) is Some);
    true
}

/// The song a track describes, with the metadata the options ask for, the
/// given id and, when genres are asked for, the given genre.
pub fn song_from_track(track: &Json, options: &RunOptions, video_id: i32, genre: Option<String>) -> (song: Song)
    requires
        track_ready(*track, *options),
    ensures
        song@ == track_song(*track, *options, video_id, opt_text(genre)),
{
    let t = Some(track);
    let album = get(t, "album");
    let name = text_of(get(t, "name")).unwrap().clone();
    let year = if options.id3_year {
        let date = text_of(get(album, "release_date")).unwrap();
        let v = parse_short_int(&first_four(date)).unwrap();
        Some(v)
    } else {
        None
    };
    let (artist, album_artist) = if options.id3_artist {
        (join_names(get(t, "artists")), Some(join_names(get(album, "artists"))))
    } else {
        (String::new(), None)
    };
    let album_title = if options.id3_album {
        let kind = text_of(get(album, "album_type")).unwrap();
        if is_single(kind) {
            proof {
                reveal_strlit("single");
            }
            Some("single".to_owned())
        } else {
            Some(text_of(get(album, "name")).unwrap().clone())
        }
    } else {
        None
    };
    let image_url = if options.image_download {
        Some(text_of(get(at(get(album, "images"), 0), "url")).unwrap().clone())
    } else {
        None
    };
    let track_number = if options.id3_track_number {
        Some(u32_of(get(t, "track_number")).unwrap())
    } else {
        None
    };
    let genre = if options.id3_genre {
        genre
    } else {
        None
    };
    Song {
        video_id,
        name,
        image_url,
        track_number,
        artist,
        album: album_title,
        album_artist,
        year,
        genre,
    }
}

/// The id of the first artist of a track's album.
pub open spec fn album_artist_id(track: Json) -> Option<Seq<char>> {
    as_text(member(item(member(album_of(track), "artists"@), 0), "id"@))
}

/// `track["album"]["artists"][0]["id"].as_str()`: whose genres a song gets.
pub fn genre_artist_id(track: &Json) -> (r: Option<String>)
    ensures
        opt_text(r) == album_artist_id(*track),
{
    match text_of(get(at(get(get(Some(track), "album"), "artists"), 0), "id")) {
        Some(id) => Some(id.clone()),
        None => None,
    }
}

/// The genre an artist object gives: its first genre, or "null" when it has
/// none; `None` when the first genre is neither null nor a string.
pub open spec fn artist_genre(artist: Json) -> Option<Seq<char>> {
    let first = item(member(artist, "genres"@), 0);
    if is_null(first) {
        Some("null"@)
    } else {
        as_text(first)
    }
}

/// The genre of an artist object (see `artist_genre`).
pub fn genre_of_artist(artist: &Json) -> (r: Option<String>)
    ensures
        opt_text(r) == artist_genre(*artist),
{
    let first = at(get(Some(artist), "genres"), 0);
    if null_at(first) {
        proof {
            reveal_strlit("null");
        }
        Some("null".to_owned())
    } else {
        match text_of(first) {
            Some(g) => Some(g.clone()),
            None => None,
        }
    }
}

/// `data["tracks"]["total"].as_usize()`: how many tracks a playlist holds.
pub fn playlist_length(data: &Json) -> (r: Option<usize>)
    ensures
        r == as_usize(member(member(*data, "tracks"@), "total"@)),
{
    usize_of(get(get(Some(data), "tracks"), "total"))
}

/// The track objects of a page of playlist items:
/// `page["items"][i]["track"]` for each `i` below `page["items"].len()`.
pub fn page_tracks<'a>(page: &'a Json) -> (tracks: Vec<Option<&'a Json>>)
    ensures
        tracks.len() == json_len(member(*page, "items"@)),
        forall|i: int|
            0 <= i < tracks.len() ==> node(#[trigger] tracks@[i]) == member(
                item(member(*page, "items"@), i),
                "track"@,
            ),
{
    let items = get(Some(page), "items");
    let n = len_of(items);
    let mut tracks: Vec<Option<&'a Json>> = Vec::new();
    let mut i: usize = 0;
    while i < n
        invariant
            n == json_len(node(items)),
            node(items) == member(*page, "items"@),
            i <= n,
            tracks.len() == i,
            forall|j: int|
                0 <= j < i ==> node(#[trigger] tracks@[j]) == member(
                    item(member(*page, "items"@), j),
                    "track"@,
                ),
        decreases n - i,
    {
        tracks.push(get(at(items, i), "track"));
        i = i + 1;
    }
    tracks
}

/// How many pages of 100 items the collection loop asks for: offsets 0, 100,
/// ... while the offset is below the length plus 100.
pub open spec fn page_count(length: nat) -> nat {
    ((length + 99) / 100 + 1) as nat
}

/// The offsets of the pages the collection loop asks for.
pub open spec fn page_offsets(length: nat) -> Seq<nat> {
    Seq::new(page_count(length), |k: int| (k * 100) as nat)
}

proof fn lemma_page_bound(length: nat, k: nat)
    ensures
        (k * 100 < length + 100) == (k < page_count(length)),
{
    assert((k * 100 < length + 100) == (k <= (length + 99) / 100)) by (nonlinear_arith);
}

/// The offsets `get_playlist_items` reads pages at, for a playlist of
/// `length` tracks: 0, 100, ... while below `length + 100`.
pub fn page_starts(length: usize) -> (offsets: Vec<usize>)
    requires
        length + 100 <= usize::MAX,
        page_count(length as nat) * 100 <= usize::MAX,
    ensures
        offsets@.len() == page_count(length as nat),
        forall|k: int| 0 <= k < offsets@.len() ==> #[trigger] offsets@[k] == k * 100,
{
    let mut offsets: Vec<usize> = Vec::new();
    let mut offset: usize = 0;
    while offset < length + 100
        invariant
            length + 100 <= usize::MAX,
            page_count(length as nat) * 100 <= usize::MAX,
            offsets.len() <= page_count(length as nat),
            offset == offsets.len() * 100,
            forall|k: int| 0 <= k < offsets@.len() ==> #[trigger] offsets@[k] == k * 100,
        decreases page_count(length as nat) - offsets.len(),
    {
        proof {
            lemma_page_bound(length as nat, offsets.len() as nat);
        }
        offsets.push(offset);
        offset = offset + 100;
    }
    proof {
        lemma_page_bound(length as nat, offsets.len() as nat);
    }
    offsets
}

/// Paging covers the playlist: every track position below `length` lies in
/// the page of 100 items starting at one of the offsets read.
pub proof fn lemma_pages_cover(length: nat, j: nat)
    requires
        j < length,
    ensures
        exists|k: int|
            0 <= k < page_count(length) && #[trigger] page_offsets(length)[k] <= j < page_offsets(
                length,
            )[k] + 100,
{
    let k = (j / 100) as int;
    assert(k * 100 <= j < k * 100 + 100) by (nonlinear_arith)
        requires
            k == j / 100,
    ;
    lemma_page_bound(length, k as nat);
    assert(page_offsets(length)[k] == k * 100);
}

/// The names of files already in the download directory, when it was read.
pub open spec fn names_view(o: Option<Vec<String>>) -> Option<Seq<Seq<char>>> {
    match o {
        Some(v) => Some(v@.map_values(|s: String| s@)),
        None => None,
    }
}

/// A song of that name was downloaded before.
pub open spec fn already_downloaded(downloaded: Option<Seq<Seq<char>>>, name: Seq<char>) -> bool {
    match downloaded {
        Some(names) => names.contains(name),
        None => false,
    }
}

/// The songs of a page still to download, in order.
pub open spec fn songs_to_fetch(songs: Seq<SongView>, downloaded: Option<Seq<Seq<char>>>) -> Seq<SongView>
    decreases songs.len(),
{
    if songs.len() == 0 {
        Seq::empty()
    } else {
        let rest = songs_to_fetch(songs.drop_last(), downloaded);
        if already_downloaded(downloaded, songs.last().name) {
            rest
        } else {
            rest.push(songs.last())
        }
    }
}

/// The ids of the songs of a page found already downloaded, in order.
pub open spec fn songs_done(songs: Seq<SongView>, downloaded: Option<Seq<Seq<char>>>) -> Seq<i32>
    decreases songs.len(),
{
    if songs.len() == 0 {
        Seq::empty()
    } else {
        let rest = songs_done(songs.drop_last(), downloaded);
        if already_downloaded(downloaded, songs.last().name) {
            rest.push(songs.last().video_id)
        } else {
            rest
        }
    }
}

/// The views of a list of songs.
pub open spec fn song_views(songs: Seq<Song>) -> Seq<SongView> {
    songs.map_values(|s: Song| s@)
}

fn is_downloaded(downloaded: &Option<Vec<String>>, name: &String) -> (b: bool)
    ensures
        b == already_downloaded(names_view(*downloaded), name@),
{
    match downloaded {
        Some(names) => {
            let mut i: usize = 0;
            while i < names.len()
                invariant
                    names_view(*downloaded) == Some(names@.map_values(|s: String| s@)),
                    i <= names.len(),
                    forall|j: int| 0 <= j < i ==> names@[j]@ != name@,
                decreases names.len() - i,
            {
                if names[i] == *name {
                    let ghost mv = names@.map_values(|s: String| s@);
                    assert(mv[i as int] == name@);
                    assert(mv.contains(name@));
                    return true;
                }
                i = i + 1;
            }
            let ghost mv = names@.map_values(|s: String| s@);
            assert forall|j: int| 0 <= j < mv.len() implies #[trigger] mv[j] != name@ by {}
            assert(!mv.contains(name@));
            false
        },
        None => false,
    }
}

/// Splits a page of songs into those to download and the ids of those whose
/// name is among the files already downloaded.
pub fn split_downloaded(batch: &Vec<Song>, downloaded: &Option<Vec<String>>) -> (r: (
    Vec<Song>,
    Vec<i32>,
))
    ensures
        song_views(r.0@) == songs_to_fetch(song_views(batch@), names_view(*downloaded)),
        r.1@ == songs_done(song_views(batch@), names_view(*downloaded)),
{
    let mut fetch: Vec<Song> = Vec::new();
    let mut done: Vec<i32> = Vec::new();
    let mut i: usize = 0;
    let ghost d = names_view(*downloaded);
    assert(song_views(batch@).take(0) =~= Seq::<SongView>::empty());
    while i < batch.len()
        invariant
            i <= batch.len(),
            d == names_view(*downloaded),
            song_views(fetch@) == songs_to_fetch(song_views(batch@).take(i as int), d),
            done@ == songs_done(song_views(batch@).take(i as int), d),
        decreases batch.len() - i,
    {
        let song = &batch[i];
        let ghost prefix = song_views(batch@).take(i + 1);
        assert(prefix.drop_last() =~= song_views(batch@).take(i as int));
        assert(prefix.last() == song@);
        if is_downloaded(downloaded, &song.name) {
            done.push(song.video_id);
        } else {
            let ghost before = fetch@;
            fetch.push(song.copy());
            assert(song_views(fetch@) =~= song_views(before).push(song@));
        }
        i = i + 1;
    }
    assert(song_views(batch@).take(i as int) =~= song_views(batch@));
    (fetch, done)
}

/// The songs kept for download are exactly those, in order, whose name is
/// not among the names read from the download directory (all of them when
/// it could not be read), and the ids reported done are those of the
/// others, in order.
pub proof fn lemma_fetch_is_name_filter(songs: Seq<SongView>, downloaded: Option<Seq<Seq<char>>>)
    ensures
        songs_to_fetch(songs, downloaded) == songs.filter(
            |s: SongView| !(downloaded is Some && downloaded->0.contains(s.name)),
        ),
        songs_done(songs, downloaded) == songs.filter(
            |s: SongView| downloaded is Some && downloaded->0.contains(s.name),
        ).map_values(|s: SongView| s.video_id),
    decreases songs.len(),
{
    reveal(Seq::filter);
    if songs.len() > 0 {
        lemma_fetch_is_name_filter(songs.drop_last(), downloaded);
        let keep = |s: SongView| !(downloaded is Some && downloaded->0.contains(s.name));
        let gone = |s: SongView| downloaded is Some && downloaded->0.contains(s.name);
        let before = songs.drop_last().filter(gone);
        assert(before.push(songs.last()).map_values(|s: SongView| s.video_id) =~= before.map_values(
            |s: SongView| s.video_id,
        ).push(songs.last().video_id));
    }
}

/// A song whose name is not among the downloaded names is kept for
/// download, and one whose name is among them is not.
pub proof fn lemma_new_song_is_fetched(
    songs: Seq<SongView>,
    downloaded: Option<Seq<Seq<char>>>,
    i: int,
)
    requires
        0 <= i < songs.len(),
    ensures
        !(downloaded is Some && downloaded->0.contains(songs[i].name)) ==> songs_to_fetch(
            songs,
            downloaded,
        ).contains(songs[i]),
        (downloaded is Some && downloaded->0.contains(songs[i].name)) ==> songs_done(
            songs,
            downloaded,
        ).contains(songs[i].video_id),
    decreases songs.len(),
{
    let rest = songs.drop_last();
    let f = songs_to_fetch(songs, downloaded);
    let d = songs_done(songs, downloaded);
    if i < songs.len() - 1 {
        lemma_new_song_is_fetched(rest, downloaded, i);
        assert(rest[i] == songs[i]);
        let fr = songs_to_fetch(rest, downloaded);
        let dr = songs_done(rest, downloaded);
        if fr.contains(songs[i]) {
            let j = choose|j: int| 0 <= j < fr.len() && fr[j] == songs[i];
            assert(f[j] == songs[i]);
        }
        if dr.contains(songs[i].video_id) {
            let j = choose|j: int| 0 <= j < dr.len() && dr[j] == songs[i].video_id;
            assert(d[j] == songs[i].video_id);
        }
    } else {
        assert(songs[i] == songs.last());
        if !(downloaded is Some && downloaded->0.contains(songs[i].name)) {
            assert(f[f.len() - 1] == songs[i]);
        } else {
            assert(d[d.len() - 1] == songs[i].video_id);
        }
    }
}

/// Every song of a page is either kept for download or reported as done,
/// and no song kept for download was downloaded before.
pub proof fn lemma_split_partitions(songs: Seq<SongView>, downloaded: Option<Seq<Seq<char>>>)
    ensures
        songs_to_fetch(songs, downloaded).len() + songs_done(songs, downloaded).len() == songs.len(),
        forall|i: int|
            0 <= i < songs_to_fetch(songs, downloaded).len() ==> !already_downloaded(
                downloaded,
                (#[trigger] songs_to_fetch(songs, downloaded)[i]).name,
            ),
    decreases songs.len(),
{
    if songs.len() > 0 {
        lemma_split_partitions(songs.drop_last(), downloaded);
    }
}

/// `file_name` with ".mp3" removed wherever it occurs: the song name a file
/// in the download directory stands for.
pub open spec fn downloaded_song_name(file_name: Seq<char>) -> Seq<char> {
    replace_all(file_name, ".mp3"@, Seq::empty())
}

/// The song name a downloaded file stands for (see `downloaded_song_name`).
pub fn song_name_of_file(file_name: &str) -> (name: String)
    ensures
        name@ == downloaded_song_name(file_name@),
{
    proof {
        reveal_strlit(".mp3");
    }
    let ext = chars_of(".mp3");
    let none: Vec<char> = Vec::new();
    string_from_chars(&replace_all_chars(&chars_of(file_name), &ext, &none))
}

/// The form body the token endpoint is sent.
pub open spec fn token_body(client_id: Seq<char>, client_secret: Seq<char>) -> Seq<char> {
    "grant_type=client_credentials&client_id="@ + client_id + "&client_secret="@ + client_secret
}

/// The form body of a client-credentials token request.
pub fn token_request_body(client_id: &str, client_secret: &str) -> (body: String)
    ensures
        body@ == token_body(client_id@, client_secret@),
{
    let mut out = chars_of("grant_type=client_credentials&client_id=");
    append_chars(&mut out, &chars_of(client_id));
    append_chars(&mut out, &chars_of("&client_secret="));
    append_chars(&mut out, &chars_of(client_secret));
    string_from_chars(&out)
}

/// Whether the stored credentials are used: unless both are given.
pub fn uses_stored_credentials(client_id: &Option<String>, client_secret: &Option<String>) -> (b: bool)
    ensures
        b == (client_id is None || client_secret is None),
{
    client_id.is_none() || client_secret.is_none()
}

/// The answer to a link check: accepted on status 200, refused otherwise.
pub fn link_check_result(status: u16) -> (r: Result<bool, String>)
    ensures
        status == 200 ==> r == Ok::<bool, String>(true),
        status != 200 ==> r is Err && r->Err_0@ == "invalid playlist url!"@,
{
    if status == 200 {
        Ok(true)
    } else {
        Err("invalid playlist url!".to_owned())
    }
}

/// The playlist kept for a playlist object: its name and first image url as
/// `to_string` renders them, and the default download directory.
pub open spec fn playlist_of_data(id: Seq<char>, data: Json) -> PlaylistView {
    PlaylistView {
        name: display(member(data, "name"@)),
        id: id,
        download_dir: "Default"@,
        image_url: display(member(item(member(data, "images"@), 0), "url"@)),
    }
}

/// The playlist kept for a playlist object with the given id.
pub fn playlist_from_data(id: String, data: &Json) -> (p: Playlist)
    ensures
        p@ == playlist_of_data(id@, *data),
{
    let d = Some(data);
    Playlist {
        name: display_of(get(d, "name")),
        id,
        download_dir: "Default".to_owned(),
        image_url: display_of(get(at(get(d, "images"), 0), "url")),
    }
}

/// The name of a playlist object as `to_string` renders it.
pub fn playlist_name(data: &Json) -> (name: String)
    ensures
        name@ == display(member(*data, "name"@)),
{
    display_of(get(Some(data), "name"))
}

} // verus!
