//! The ID3 tag written into a downloaded song, built with the `id3` crate.
use vstd::prelude::*;
use id3::TagLike;
use id3::Tag;
use crate::text::{decimal, int_text};
use crate::types::{opt_text, Song, SongView};

verus! {

#[verifier::external_type_specification]
#[verifier::external_body]
pub struct ExTag(id3::Tag);

/// Name for the frames of an ID3 tag, in order: each frame's id and, for a
/// text frame, its text.
pub uninterp spec fn tag_frames(tag: Tag) -> Seq<(Seq<char>, Option<Seq<char>>)>;

/// Some frame of `frames` has the id `id`.
pub open spec fn has_frame(frames: Seq<(Seq<char>, Option<Seq<char>>)>, id: Seq<char>) -> bool {
    exists|k: int| 0 <= k < frames.len() && (#[trigger] frames[k]).0 == id
}

/// What `TagLike::set_text` leaves: the old frames, less possibly one frame
/// with the same id, followed by the new text frame.
pub open spec fn text_frame_set(
    old_frames: Seq<(Seq<char>, Option<Seq<char>>)>,
    new_frames: Seq<(Seq<char>, Option<Seq<char>>)>,
    id: Seq<char>,
    text: Option<Seq<char>>,
) -> bool {
    &&& new_frames.len() > 0
    &&& new_frames.last().0 == id
    &&& text is Some ==> new_frames.last().1 == text
    &&& new_frames.last().1 is Some
    &&& (new_frames.drop_last() == old_frames || exists|k: int|
        0 <= k < old_frames.len() && (#[trigger] old_frames[k]).0 == id && new_frames.drop_last()
            == old_frames.remove(k))
}

/// Calls `Tag::new`: a tag with no frames.
#[verifier::external_body]
fn new_tag() -> (tag: Tag)
    ensures
        tag_frames(tag) == Seq::<(Seq<char>, Option<Seq<char>>)>::empty(),
{
    Tag::new()
}

/// Calls `TagLike::set_title`: a TIT2 text frame replaces the first one that
/// conflicts with it.
#[verifier::external_body]
fn set_title(tag: &mut Tag, title: &str)
    ensures
        text_frame_set(tag_frames(*old(tag)), tag_frames(*final(tag)), "TIT2"@, Some(title@)),
{
    tag.set_title(title)
}

/// Calls `TagLike::set_album`: a TALB text frame replaces the first one that
/// conflicts with it.
#[verifier::external_body]
fn set_album(tag: &mut Tag, album: &str)
    ensures
        text_frame_set(tag_frames(*old(tag)), tag_frames(*final(tag)), "TALB"@, Some(album@)),
{
    tag.set_album(album)
}

/// Calls `TagLike::set_artist`: a TPE1 text frame replaces the first one
/// that conflicts with it.
#[verifier::external_body]
fn set_artist(tag: &mut Tag, artist: &str)
    ensures
        text_frame_set(tag_frames(*old(tag)), tag_frames(*final(tag)), "TPE1"@, Some(artist@)),
{
    tag.set_artist(artist)
}

/// Calls `TagLike::set_album_artist`: a TPE2 text frame replaces the first
/// one that conflicts with it.
#[verifier::external_body]
fn set_album_artist(tag: &mut Tag, album_artist: &str)
    ensures
        text_frame_set(
            tag_frames(*old(tag)),
            tag_frames(*final(tag)),
            "TPE2"@,
            Some(album_artist@),
        ),
{
    tag.set_album_artist(album_artist)
}

/// Calls `TagLike::set_genre`: a TCON text frame replaces the first one that
/// conflicts with it.
#[verifier::external_body]
fn set_genre(tag: &mut Tag, genre: &str)
    ensures
        text_frame_set(tag_frames(*old(tag)), tag_frames(*final(tag)), "TCON"@, Some(genre@)),
{
    tag.set_genre(genre)
}

/// `s` with zeros in front up to `width` characters.
pub open spec fn zero_padded(s: Seq<char>, width: nat) -> Seq<char> {
    if s.len() < width {
        Seq::new((width - s.len()) as nat, |i: int| '0') + s
    } else {
        s
    }
}

/// `format!("{year:04}")`: the year in decimal, zero-padded after the sign
/// to four characters.
pub open spec fn year_text(year: i32) -> Seq<char> {
    if year < 0 {
        seq!['-'] + zero_padded(decimal((-year) as nat), 3)
    } else {
        zero_padded(decimal(year as nat), 4)
    }
}

/// Calls `TagLike::set_year`: a TYER text frame holding
/// `format!("{year:04}")` replaces the first one that conflicts with it.
#[verifier::external_body]
fn set_year(tag: &mut Tag, year: i32)
    ensures
        text_frame_set(tag_frames(*old(tag)), tag_frames(*final(tag)), "TYER"@, Some(year_text(year))),
{
    tag.set_year(year)
}

/// Calls `TagLike::set_track`: a TRCK text frame replaces the first one
/// that conflicts with it; it holds the track number in decimal when the tag
/// had no TRCK frame (otherwise the total of the old frame may follow).
#[verifier::external_body]
fn set_track(tag: &mut Tag, track: u32)
    ensures
        text_frame_set(
            tag_frames(*old(tag)),
            tag_frames(*final(tag)),
            "TRCK"@,
            if has_frame(tag_frames(*old(tag)), "TRCK"@) {
                None
            } else {
                Some(decimal(track as nat))
            },
        ),
{
    tag.set_track(track)
}

/// The frames of the tag written for a song: its title; its album when it
/// has one; its artist and album artist when it has an album artist; its
/// year, track number and genre when it has them.
pub open spec fn song_frames(song: SongView) -> Seq<(Seq<char>, Option<Seq<char>>)> {
    let title = seq![("TIT2"@, Some(song.name))];
    let album = match song.album {
        Some(a) => seq![("TALB"@, Some(a))],
        None => Seq::empty(),
    };
    let artists = match song.album_artist {
        Some(aa) => seq![("TPE1"@, Some(song.artist)), ("TPE2"@, Some(aa))],
        None => Seq::empty(),
    };
    let year = match song.year {
        Some(y) => seq![("TYER"@, Some(year_text(y)))],
        None => Seq::empty(),
    };
    let track = match song.track_number {
        Some(t) => seq![("TRCK"@, Some(decimal(t as nat)))],
        None => Seq::empty(),
    };
    let genre = match song.genre {
        Some(g) => seq![("TCON"@, Some(g))],
        None => Seq::empty(),
    };
    title + album + artists + year + track + genre
}

proof fn lemma_fresh_frame(
    old_frames: Seq<(Seq<char>, Option<Seq<char>>)>,
    new_frames: Seq<(Seq<char>, Option<Seq<char>>)>,
    id: Seq<char>,
    text: Seq<char>,
)
    requires
        text_frame_set(old_frames, new_frames, id, Some(text)),
        forall|k: int| 0 <= k < old_frames.len() ==> (#[trigger] old_frames[k]).0 != id,
    ensures
        new_frames == old_frames.push((id, Some(text))),
{
    assert(new_frames.drop_last() == old_frames);
    assert(new_frames =~= new_frames.drop_last().push(new_frames.last()));
}

/// The ids of the frames a song's tag holds are pairwise different.
proof fn lemma_frame_ids_differ()
    ensures
        "TIT2"@ != "TALB"@,
        "TIT2"@ != "TPE1"@,
        "TIT2"@ != "TPE2"@,
        "TIT2"@ != "TYER"@,
        "TIT2"@ != "TRCK"@,
        "TIT2"@ != "TCON"@,
        "TALB"@ != "TPE1"@,
        "TALB"@ != "TPE2"@,
        "TALB"@ != "TYER"@,
        "TALB"@ != "TRCK"@,
        "TALB"@ != "TCON"@,
        "TPE1"@ != "TPE2"@,
        "TPE1"@ != "TYER"@,
        "TPE1"@ != "TRCK"@,
        "TPE1"@ != "TCON"@,
        "TPE2"@ != "TYER"@,
        "TPE2"@ != "TRCK"@,
        "TPE2"@ != "TCON"@,
        "TYER"@ != "TRCK"@,
        "TYER"@ != "TCON"@,
        "TRCK"@ != "TCON"@,
{
    reveal_strlit("TIT2");
    reveal_strlit("TALB");
    reveal_strlit("TPE1");
    reveal_strlit("TPE2");
    reveal_strlit("TYER");
    reveal_strlit("TRCK");
    reveal_strlit("TCON");
    assert("TIT2"@[1] != "TALB"@[1]);
    assert("TIT2"@[1] != "TPE1"@[1]);
    assert("TIT2"@[1] != "TPE2"@[1]);
    assert("TIT2"@[1] != "TYER"@[1]);
    assert("TIT2"@[1] != "TRCK"@[1]);
    assert("TIT2"@[1] != "TCON"@[1]);
    assert("TALB"@[1] != "TPE1"@[1]);
    assert("TALB"@[1] != "TPE2"@[1]);
    assert("TALB"@[1] != "TYER"@[1]);
    assert("TALB"@[1] != "TRCK"@[1]);
    assert("TALB"@[1] != "TCON"@[1]);
    assert("TPE1"@[3] != "TPE2"@[3]);
    assert("TPE1"@[1] != "TYER"@[1]);
    assert("TPE1"@[1] != "TRCK"@[1]);
    assert("TPE1"@[1] != "TCON"@[1]);
    assert("TPE2"@[1] != "TYER"@[1]);
    assert("TPE2"@[1] != "TRCK"@[1]);
    assert("TPE2"@[1] != "TCON"@[1]);
    assert("TYER"@[1] != "TRCK"@[1]);
    assert("TYER"@[1] != "TCON"@[1]);
    assert("TRCK"@[1] != "TCON"@[1]);
}

/// What a song's tag holds, field by field: its title always; its artist
/// (TPE1) and album artist (TPE2) whenever it has an album artist, whatever
/// its other fields; its album, year, track number and genre whenever it
/// has them; and no frame for a field it lacks.
pub proof fn lemma_song_frames_hold_fields(song: SongView)
    ensures
        song_frames(song).contains(("TIT2"@, Some(song.name))),
        song.album_artist is Some ==> song_frames(song).contains(("TPE1"@, Some(song.artist)))
            && song_frames(song).contains(("TPE2"@, song.album_artist)),
        song.album_artist is None ==> !has_frame(song_frames(song), "TPE1"@) && !has_frame(
            song_frames(song),
            "TPE2"@,
        ),
        song.album is Some ==> song_frames(song).contains(("TALB"@, song.album)),
        song.album is None ==> !has_frame(song_frames(song), "TALB"@),
        song.year is Some ==> song_frames(song).contains(("TYER"@, Some(year_text(song.year->0)))),
        song.year is None ==> !has_frame(song_frames(song), "TYER"@),
        song.track_number is Some ==> song_frames(song).contains(
            ("TRCK"@, Some(decimal(song.track_number->0 as nat))),
        ),
        song.track_number is None ==> !has_frame(song_frames(song), "TRCK"@),
        song.genre is Some ==> song_frames(song).contains(("TCON"@, song.genre)),
        song.genre is None ==> !has_frame(song_frames(song), "TCON"@),
{
    lemma_frame_ids_differ();
    let f = song_frames(song);
    let na: int = if song.album is Some { 1 } else { 0 };
    let nr: int = if song.album_artist is Some { 2 } else { 0 };
    let ny: int = if song.year is Some { 1 } else { 0 };
    let nt: int = if song.track_number is Some { 1 } else { 0 };
    assert(f[0] == ("TIT2"@, Some(song.name)));
    if song.album is Some {
        assert(f[1] == ("TALB"@, song.album));
    }
    if song.album_artist is Some {
        assert(f[1 + na] == ("TPE1"@, Some(song.artist)));
        assert(f[2 + na] == ("TPE2"@, song.album_artist));
    }
    if song.year is Some {
        assert(f[1 + na + nr] == ("TYER"@, Some(year_text(song.year->0))));
    }
    if song.track_number is Some {
        assert(f[1 + na + nr + ny] == ("TRCK"@, Some(decimal(song.track_number->0 as nat))));
    }
    if song.genre is Some {
        assert(f[1 + na + nr + ny + nt] == ("TCON"@, song.genre));
    }
}

/// The ID3 tag written for a song (see `song_frames`).
pub fn build_tag(song: &Song) -> (tag: Tag)
    ensures
        tag_frames(tag) == song_frames(song@),
        tag_frames(tag).contains(("TIT2"@, Some(song@.name))),
        song@.album_artist is Some ==> tag_frames(tag).contains(("TPE1"@, Some(song@.artist)))
            && tag_frames(tag).contains(("TPE2"@, song@.album_artist)),
        song@.album_artist is None ==> !has_frame(tag_frames(tag), "TPE1"@) && !has_frame(
            tag_frames(tag),
            "TPE2"@,
        ),
{
    proof {
        lemma_frame_ids_differ();
        lemma_song_frames_hold_fields(song@);
    }
    let ghost s = song@;
    let mut tag = new_tag();
    let ghost f0 = tag_frames(tag);
    set_title(&mut tag, song.name.as_str());
    proof {
        lemma_fresh_frame(f0, tag_frames(tag), "TIT2"@, s.name);
    }
    let ghost f1 = tag_frames(tag);
    assert(f1 =~= seq![("TIT2"@, Some(s.name))]);
    if let Some(album) = &song.album {
        let ghost before = tag_frames(tag);
        set_album(&mut tag, album.as_str());
        proof {
            lemma_fresh_frame(before, tag_frames(tag), "TALB"@, album@);
        }
    }
    let ghost f2 = tag_frames(tag);
    assert(f2 =~= seq![("TIT2"@, Some(s.name))] + match s.album {
        Some(a) => seq![("TALB"@, Some(a))],
        None => Seq::empty(),
    });
    if let Some(album_artist) = &song.album_artist {
        let ghost before = tag_frames(tag);
        set_artist(&mut tag, song.artist.as_str());
        proof {
            lemma_fresh_frame(before, tag_frames(tag), "TPE1"@, s.artist);
        }
        let ghost mid = tag_frames(tag);
        set_album_artist(&mut tag, album_artist.as_str());
        proof {
            lemma_fresh_frame(mid, tag_frames(tag), "TPE2"@, album_artist@);
        }
    }
    let ghost f3 = tag_frames(tag);
    assert(f3 =~= f2 + match s.album_artist {
        Some(aa) => seq![("TPE1"@, Some(s.artist)), ("TPE2"@, Some(aa))],
        None => Seq::empty(),
    });
    if let Some(year) = song.year {
        let ghost before = tag_frames(tag);
        set_year(&mut tag, year);
        proof {
            lemma_fresh_frame(before, tag_frames(tag), "TYER"@, year_text(year));
        }
    }
    let ghost f4 = tag_frames(tag);
    assert(f4 =~= f3 + match s.year {
        Some(y) => seq![("TYER"@, Some(year_text(y)))],
        None => Seq::empty(),
    });
    if let Some(track) = song.track_number {
        let ghost before = tag_frames(tag);
        set_track(&mut tag, track);
        proof {
            lemma_fresh_frame(before, tag_frames(tag), "TRCK"@, decimal(track as nat));
        }
    }
    let ghost f5 = tag_frames(tag);
    assert(f5 =~= f4 + match s.track_number {
        Some(t) => seq![("TRCK"@, Some(decimal(t as nat)))],
        None => Seq::empty(),
    });
    if let Some(genre) = &song.genre {
        let ghost before = tag_frames(tag);
        set_genre(&mut tag, genre.as_str());
        proof {
            lemma_fresh_frame(before, tag_frames(tag), "TCON"@, genre@);
        }
    }
    assert(tag_frames(tag) =~= song_frames(s));
    tag
}

} // verus!
