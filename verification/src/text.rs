//! Character-level text operations: substring search and replacement,
//! UTF-8 sizes and decimal rendering, all stated over `Seq<char>`.
use vstd::prelude::*;
use vstd::utf8::encode_utf8;

verus! {

/// The characters of `s`, in order.
pub fn chars_of(s: &str) -> (out: Vec<char>)
    ensures
        out@ == s@,
{
    let mut out: Vec<char> = Vec::new();
    for c in it: s.chars()
        invariant
            it.seq() == s@,
            out@ == it.seq().take(it.index() as int),
    {
        out.push(c);
    }
    out
}

/// Collects characters into a `String` (std's `FromIterator<char>` for `String`).
#[verifier::external_body]
pub(crate) fn string_from_chars(chars: &Vec<char>) -> (s: String)
    ensures
        s@ == chars@,
{
    chars.iter().collect()
}

/// `pat` occurs in `s` starting at index `i`.
pub open spec fn occurs_at(s: Seq<char>, pat: Seq<char>, i: int) -> bool {
    0 <= i && i + pat.len() <= s.len() && s.subrange(i, i + pat.len()) == pat
}

/// `pat` occurs somewhere in `s` (what `str::contains` answers).
pub open spec fn has_substring(s: Seq<char>, pat: Seq<char>) -> bool {
    exists|i: int| occurs_at(s, pat, i)
}

/// Every occurrence of the non-empty `pat` in `s`, found from left to right
/// without overlap, replaced by `rep` (what `str::replace` computes).
pub open spec fn replace_all(s: Seq<char>, pat: Seq<char>, rep: Seq<char>) -> Seq<char>
    decreases s.len(),
{
    if pat.len() == 0 || s.len() < pat.len() {
        s
    } else if s.take(pat.len() as int) == pat {
        rep + replace_all(s.skip(pat.len() as int), pat, rep)
    } else {
        seq![s[0]] + replace_all(s.skip(1), pat, rep)
    }
}

/// Replacing a pattern that does not occur leaves the text as it is.
pub proof fn lemma_replace_all_absent(s: Seq<char>, pat: Seq<char>, rep: Seq<char>)
    requires
        pat.len() > 0,
        !has_substring(s, pat),
    ensures
        replace_all(s, pat, rep) == s,
    decreases s.len(),
{
    if s.len() >= pat.len() {
        if s.take(pat.len() as int) == pat {
            assert(s.subrange(0, pat.len() as int) =~= s.take(pat.len() as int));
            assert(occurs_at(s, pat, 0));
        }
        let rest = s.skip(1);
        assert forall|i: int| !occurs_at(rest, pat, i) by {
            if occurs_at(rest, pat, i) {
                assert(s.subrange(i + 1, i + 1 + pat.len()) =~= rest.subrange(i, i + pat.len()));
                assert(occurs_at(s, pat, i + 1));
            }
        }
        lemma_replace_all_absent(rest, pat, rep);
        assert(seq![s[0]] + rest =~= s);
    }
}

/// A text that begins with the pattern loses that beginning first.
pub proof fn lemma_replace_all_leading(pat: Seq<char>, s: Seq<char>, rep: Seq<char>)
    requires
        pat.len() > 0,
    ensures
        replace_all(pat + s, pat, rep) == rep + replace_all(s, pat, rep),
{
    let t = pat + s;
    assert(t.take(pat.len() as int) =~= pat);
    assert(t.skip(pat.len() as int) =~= s);
}

/// Whether `pat` occurs in `s` at index `i`.
fn matches_at(s: &Vec<char>, pat: &Vec<char>, i: usize) -> (b: bool)
    requires
        i <= s.len(),
    ensures
        b == occurs_at(s@, pat@, i as int),
{
    if pat.len() > s.len() - i {
        return false;
    }
    let mut j: usize = 0;
    while j < pat.len()
        invariant
            i + pat.len() <= s.len(),
            j <= pat.len(),
            forall|k: int| 0 <= k < j ==> s@[i + k] == pat@[k],
        decreases pat.len() - j,
    {
        if s[i + j] != pat[j] {
            assert(s@.subrange(i as int, i + pat.len())[j as int] != pat@[j as int]);
            return false;
        }
        j = j + 1;
    }
    assert(s@.subrange(i as int, i + pat.len()) =~= pat@);
    true
}

/// `str::contains` on character vectors.
pub fn contains_chars(s: &Vec<char>, pat: &Vec<char>) -> (b: bool)
    ensures
        b == has_substring(s@, pat@),
{
    if pat.len() == 0 {
        assert(s@.subrange(0, 0) =~= pat@);
        assert(occurs_at(s@, pat@, 0));
        return true;
    }
    if pat.len() > s.len() {
        return false;
    }
    let mut i: usize = 0;
    while i <= s.len() - pat.len()
        invariant
            0 < pat.len() <= s.len(),
            i <= s.len() - pat.len() + 1,
            forall|k: int| 0 <= k < i ==> !occurs_at(s@, pat@, k),
        decreases s.len() - pat.len() + 1 - i,
    {
        if matches_at(s, pat, i) {
            return true;
        }
        i = i + 1;
    }
    assert forall|k: int| !occurs_at(s@, pat@, k) by {
        if 0 <= k && k + pat.len() <= s.len() {
            assert(k < i);
        }
    }
    false
}

proof fn lemma_replace_all_step(s: Seq<char>, pat: Seq<char>, rep: Seq<char>, i: int)
    requires
        pat.len() > 0,
        0 <= i <= s.len(),
    ensures
        i + pat.len() <= s.len() && occurs_at(s, pat, i) ==> replace_all(s.skip(i), pat, rep)
            == rep + replace_all(s.skip(i + pat.len()), pat, rep),
        i + pat.len() <= s.len() && !occurs_at(s, pat, i) ==> replace_all(s.skip(i), pat, rep)
            == seq![s[i]] + replace_all(s.skip(i + 1), pat, rep),
        i + pat.len() > s.len() ==> replace_all(s.skip(i), pat, rep) == s.skip(i),
{
    let t = s.skip(i);
    if i + pat.len() <= s.len() {
        assert(t.take(pat.len() as int) =~= s.subrange(i, i + pat.len()));
        assert(t.skip(pat.len() as int) =~= s.skip(i + pat.len()));
        assert(t.skip(1) =~= s.skip(i + 1));
    }
}

/// `str::replace` on character vectors, for a non-empty pattern.
pub fn replace_all_chars(s: &Vec<char>, pat: &Vec<char>, rep: &Vec<char>) -> (out: Vec<char>)
    requires
        pat.len() > 0,
    ensures
        out@ == replace_all(s@, pat@, rep@),
{
    let mut out: Vec<char> = Vec::new();
    let mut i: usize = 0;
    assert(s@.skip(0) =~= s@);
    while i < s.len()
        invariant
            pat.len() > 0,
            i <= s.len(),
            out@ + replace_all(s@.skip(i as int), pat@, rep@) == replace_all(s@, pat@, rep@),
        decreases s.len() - i,
    {
        proof {
            lemma_replace_all_step(s@, pat@, rep@, i as int);
        }
        if matches_at(s, pat, i) {
            let mut j: usize = 0;
            let ghost before = out@;
            while j < rep.len()
                invariant
                    j <= rep.len(),
                    out@ == before + rep@.take(j as int),
                decreases rep.len() - j,
            {
                out.push(rep[j]);
                assert(rep@.take(j + 1) =~= rep@.take(j as int).push(rep@[j as int]));
                j = j + 1;
            }
            assert(rep@.take(rep.len() as int) =~= rep@);
            assert(out@ + replace_all(s@.skip(i + pat.len()), pat@, rep@) =~= before + (rep@
                + replace_all(s@.skip(i + pat.len()), pat@, rep@)));
            i = i + pat.len();
        } else {
            let ghost before = out@;
            out.push(s[i]);
            proof {
                if i + pat.len() > s.len() {
                    assert(s@.skip(i as int) =~= seq![s@[i as int]] + s@.skip(i + 1));
                    lemma_replace_all_step(s@, pat@, rep@, i + 1);
                }
            }
            assert(out@ + replace_all(s@.skip(i + 1), pat@, rep@) =~= before + (seq![s@[i as int]]
                + replace_all(s@.skip(i + 1), pat@, rep@)));
            i = i + 1;
        }
    }
    assert(s@.skip(i as int) =~= Seq::<char>::empty());
    assert(out@ + replace_all(s@.skip(i as int), pat@, rep@) =~= out@);
    out
}

/// Number of bytes in the UTF-8 encoding of `c`.
pub open spec fn utf8_width(c: char) -> nat {
    if (c as u32) < 0x80 {
        1
    } else if (c as u32) < 0x800 {
        2
    } else if (c as u32) < 0x10000 {
        3
    } else {
        4
    }
}

/// Number of bytes in the UTF-8 encoding of `s`.
pub open spec fn utf8_size(s: Seq<char>) -> nat
    decreases s.len(),
{
    if s.len() == 0 {
        0
    } else {
        utf8_size(s.drop_last()) + utf8_width(s.last())
    }
}

proof fn lemma_utf8_size_concat(a: Seq<char>, b: Seq<char>)
    ensures
        utf8_size(a + b) == utf8_size(a) + utf8_size(b),
    decreases b.len(),
{
    if b.len() == 0 {
        assert(a + b =~= a);
    } else {
        assert((a + b).drop_last() =~= a + b.drop_last());
        lemma_utf8_size_concat(a, b.drop_last());
    }
}

/// `utf8_size` is the length of vstd's `encode_utf8`, the encoding `str::len` counts.
pub proof fn lemma_utf8_size_is_encoded_len(s: Seq<char>)
    ensures
        utf8_size(s) == encode_utf8(s).len(),
    decreases s.len(),
{
    if s.len() > 0 {
        let c = s[0];
        lemma_utf8_size_is_encoded_len(s.drop_first());
        assert(s =~= seq![c] + s.drop_first());
        lemma_utf8_size_concat(seq![c], s.drop_first());
        assert(seq![c].drop_last() =~= Seq::<char>::empty());
        assert(utf8_size(Seq::<char>::empty()) == 0);
        assert(seq![c].last() == c);
        assert(seq![c].len() == 1);
        assert(utf8_size(seq![c]) == utf8_width(c));
        vstd::utf8::char_is_scalar(c);
        assert(vstd::utf8::encode_scalar(c as u32).len() == utf8_width(c));
        assert(encode_utf8(s) == vstd::utf8::encode_scalar(s[0] as u32) + encode_utf8(s.drop_first()));
    }
}

/// The UTF-8 size grows with the prefix length.
pub proof fn lemma_utf8_size_take_step(s: Seq<char>, k: int)
    requires
        0 <= k < s.len(),
    ensures
        utf8_size(s.take(k + 1)) == utf8_size(s.take(k)) + utf8_width(s[k]),
        utf8_width(s[k]) >= 1,
{
    assert(s.take(k + 1).drop_last() =~= s.take(k));
}

/// The UTF-8 size of a prefix never exceeds that of a longer prefix.
pub proof fn lemma_utf8_size_take_monotone(s: Seq<char>, j: int, k: int)
    requires
        0 <= j <= k <= s.len(),
    ensures
        utf8_size(s.take(j)) + (k - j) <= utf8_size(s.take(k)),
    decreases k - j,
{
    if j < k {
        lemma_utf8_size_take_monotone(s, j, k - 1);
        lemma_utf8_size_take_step(s, k - 1);
    }
}

/// Number of bytes `char::len_utf8` gives for `c`.
fn char_width(c: char) -> (w: usize)
    ensures
        w == utf8_width(c),
{
    let u = c as u32;
    if u < 0x80 {
        1
    } else if u < 0x800 {
        2
    } else if u < 0x10000 {
        3
    } else {
        4
    }
}

/// The number of leading characters of `s` whose UTF-8 encoding is exactly
/// `n` bytes long, if such a prefix exists (byte `n` is then a character
/// boundary).
pub fn prefix_with_utf8_size(s: &Vec<char>, n: usize) -> (r: Option<usize>)
    ensures
        match r {
            Some(k) => k <= s.len() && utf8_size(s@.take(k as int)) == n,
            None => forall|k: int| 0 <= k <= s.len() ==> utf8_size(#[trigger] s@.take(k)) != n,
        },
{
    let mut k: usize = 0;
    let mut total: usize = 0;
    assert(s@.take(0) =~= Seq::<char>::empty());
    while k < s.len() && total < n
        invariant
            k <= s.len(),
            total <= n,
            total == utf8_size(s@.take(k as int)),
            forall|j: int| 0 <= j < k ==> utf8_size(#[trigger] s@.take(j)) < total,
        decreases s.len() - k,
    {
        proof {
            lemma_utf8_size_take_step(s@, k as int);
        }
        let w = char_width(s[k]);
        if w > n - total {
            proof {
                assert forall|j: int| 0 <= j <= s.len() implies utf8_size(#[trigger] s@.take(j)) != n by {
                    if j > k {
                        lemma_utf8_size_take_monotone(s@, k + 1, j);
                    }
                }
            }
            return None;
        }
        total = total + w;
        k = k + 1;
    }
    if total == n {
        Some(k)
    } else {
        proof {
            assert forall|j: int| 0 <= j <= s.len() implies utf8_size(#[trigger] s@.take(j)) != n by {
                if j > k {
                    lemma_utf8_size_take_monotone(s@, k as int, j);
                }
                if j == k {
                }
            }
        }
        None
    }
}

/// The decimal digit character for `d < 10`.
pub open spec fn digit_char(d: nat) -> char {
    if d == 0 { '0' } else if d == 1 { '1' } else if d == 2 { '2' } else if d == 3 { '3' }
    else if d == 4 { '4' } else if d == 5 { '5' } else if d == 6 { '6' } else if d == 7 { '7' }
    else if d == 8 { '8' } else { '9' }
}

/// The decimal rendering of `n`, without leading zeros ("0" for zero).
pub open spec fn decimal(n: nat) -> Seq<char>
    decreases n,
{
    if n < 10 {
        seq![digit_char(n)]
    } else {
        decimal(n / 10).push(digit_char(n % 10))
    }
}

/// The decimal rendering of the integer `i`, with a leading '-' when negative
/// (what `Display` prints for Rust's integer types).
pub open spec fn int_text(i: int) -> Seq<char> {
    if i < 0 {
        seq!['-'] + decimal((-i) as nat)
    } else {
        decimal(i as nat)
    }
}

fn digit(d: u64) -> (c: char)
    requires
        d < 10,
    ensures
        c == digit_char(d as nat),
{
    match d {
        0 => '0',
        1 => '1',
        2 => '2',
        3 => '3',
        4 => '4',
        5 => '5',
        6 => '6',
        7 => '7',
        8 => '8',
        _ => '9',
    }
}

/// The decimal digits of `n`.
pub fn decimal_chars(n: u64) -> (out: Vec<char>)
    ensures
        out@ == decimal(n as nat),
    decreases n,
{
    if n < 10 {
        let mut v: Vec<char> = Vec::new();
        v.push(digit(n));
        v
    } else {
        let mut v = decimal_chars(n / 10);
        v.push(digit(n % 10));
        v
    }
}

/// The decimal rendering of `n`, signed.
pub fn int_chars(n: i64) -> (out: Vec<char>)
    requires
        n > i64::MIN,
    ensures
        out@ == int_text(n as int),
{
    if n < 0 {
        let mut v: Vec<char> = Vec::new();
        v.push('-');
        let digits = decimal_chars((-n) as u64);
        let mut i: usize = 0;
        while i < digits.len()
            invariant
                i <= digits.len(),
                v@ == seq!['-'] + digits@.take(i as int),
            decreases digits.len() - i,
        {
            v.push(digits[i]);
            assert(digits@.take(i + 1) =~= digits@.take(i as int).push(digits@[i as int]));
            i = i + 1;
        }
        assert(digits@.take(i as int) =~= digits@);
        v
    } else {
        decimal_chars(n as u64)
    }
}

/// `s` followed by `t`.
pub fn append_chars(s: &mut Vec<char>, t: &Vec<char>)
    ensures
        final(s)@ == old(s)@ + t@,
{
    let mut i: usize = 0;
    let ghost start = s@;
    while i < t.len()
        invariant
            i <= t.len(),
            s@ == start + t@.take(i as int),
        decreases t.len() - i,
    {
        s.push(t[i]);
        assert(t@.take(i + 1) =~= t@.take(i as int).push(t@[i as int]));
        i = i + 1;
    }
    assert(t@.take(i as int) =~= t@);
}

} // verus!
