//! Character-sequence utilities: splitting on a separator and trimming
//! whitespace, each with a specification-level definition and a verified
//! executable counterpart.

use vstd::prelude::*;

verus! {

/// Unicode whitespace: the characters with the White_Space property, as
/// `char::is_whitespace` recognizes them.
pub open spec fn is_space(c: char) -> bool {
    c == ' ' || c == '\t' || c == '\n' || c == '\x0B' || c == '\x0C' || c == '\r'
        || c == '\u{85}' || c == '\u{A0}' || c == '\u{1680}' || c == '\u{2000}'
        || c == '\u{2001}' || c == '\u{2002}' || c == '\u{2003}' || c == '\u{2004}'
        || c == '\u{2005}' || c == '\u{2006}' || c == '\u{2007}' || c == '\u{2008}'
        || c == '\u{2009}' || c == '\u{200A}' || c == '\u{2028}' || c == '\u{2029}'
        || c == '\u{202F}' || c == '\u{205F}' || c == '\u{3000}'
}

/// Executable counterpart of [`is_space`].
pub fn space(c: char) -> (r: bool)
    ensures
        r == is_space(c),
{
    c == ' ' || c == '\t' || c == '\n' || c == '\x0B' || c == '\x0C' || c == '\r'
        || c == '\u{85}' || c == '\u{A0}' || c == '\u{1680}' || c == '\u{2000}'
        || c == '\u{2001}' || c == '\u{2002}' || c == '\u{2003}' || c == '\u{2004}'
        || c == '\u{2005}' || c == '\u{2006}' || c == '\u{2007}' || c == '\u{2008}'
        || c == '\u{2009}' || c == '\u{200A}' || c == '\u{2028}' || c == '\u{2029}'
        || c == '\u{202F}' || c == '\u{205F}' || c == '\u{3000}'
}

/// The pieces of `s` between occurrences of `sep`. There is always at least
/// one piece; a separator at either end or two adjacent separators yield an
/// empty piece, as `str::split` would.
pub open spec fn split_chars(s: Seq<char>, sep: char) -> Seq<Seq<char>>
    decreases s.len(),
{
    if s.len() == 0 {
        seq![Seq::<char>::empty()]
    } else if s[0] == sep {
        seq![Seq::<char>::empty()] + split_chars(s.skip(1), sep)
    } else {
        let rest = split_chars(s.skip(1), sep);
        seq![seq![s[0]] + rest[0]] + rest.skip(1)
    }
}

/// How `split_chars` comes apart at the first separator: if the first `i`
/// characters hold no separator, the split either is the whole string (no
/// separator at all) or starts with `s[..i]` followed by the split of what
/// comes after the separator at `i`.
pub proof fn lemma_split_chars_step(s: Seq<char>, sep: char, i: int)
    requires
        0 <= i <= s.len(),
        forall|j: int| 0 <= j < i ==> s[j] != sep,
    ensures
        i == s.len() ==> split_chars(s, sep) == seq![s],
        i < s.len() && s[i] == sep ==> split_chars(s, sep) == seq![s.take(i)] + split_chars(
            s.skip(i + 1),
            sep,
        ),
    decreases i,
{
    if i == 0 {
        if i == s.len() {
            assert(s =~= Seq::<char>::empty());
        } else if s[i] == sep {
            assert(s.take(0) =~= Seq::<char>::empty());
            assert(split_chars(s, sep) =~= seq![s.take(0)] + split_chars(s.skip(1), sep));
        }
    } else {
        let t = s.skip(1);
        assert(forall|j: int| 0 <= j < i - 1 ==> t[j] == s[j + 1]);
        lemma_split_chars_step(t, sep, i - 1);
        let rest = split_chars(t, sep);
        if i == s.len() {
            assert(rest == seq![t]);
            assert(seq![s[0]] + rest[0] =~= s);
            assert(rest.skip(1) =~= Seq::<Seq<char>>::empty());
            assert(split_chars(s, sep) =~= seq![s]);
        } else if s[i] == sep {
            assert(t[i - 1] == sep);
            assert(rest == seq![t.take(i - 1)] + split_chars(t.skip(i), sep));
            assert(rest[0] == t.take(i - 1));
            assert(seq![s[0]] + rest[0] =~= s.take(i));
            assert(t.skip(i) =~= s.skip(i + 1));
            assert(rest.skip(1) =~= split_chars(s.skip(i + 1), sep));
            assert(split_chars(s, sep) =~= seq![s.take(i)] + split_chars(s.skip(i + 1), sep));
        }
    }
}

/// `s` without its leading whitespace.
pub open spec fn trim_start_chars(s: Seq<char>) -> Seq<char>
    decreases s.len(),
{
    if s.len() > 0 && is_space(s[0]) {
        trim_start_chars(s.skip(1))
    } else {
        s
    }
}

/// `s` without its trailing whitespace.
pub open spec fn trim_end_chars(s: Seq<char>) -> Seq<char>
    decreases s.len(),
{
    if s.len() > 0 && is_space(s.last()) {
        trim_end_chars(s.drop_last())
    } else {
        s
    }
}

/// `s` without leading and trailing whitespace.
pub open spec fn trim_chars(s: Seq<char>) -> Seq<char> {
    trim_end_chars(trim_start_chars(s))
}

/// If the first `k` characters are whitespace and the character at `k` (when
/// there is one) is not, trimming from the start drops exactly those `k`.
pub proof fn lemma_trim_start_chars(s: Seq<char>, k: int)
    requires
        0 <= k <= s.len(),
        forall|j: int| 0 <= j < k ==> is_space(s[j]),
        k == s.len() || !is_space(s[k]),
    ensures
        trim_start_chars(s) == s.skip(k),
    decreases k,
{
    if k == 0 {
        assert(s.skip(0) =~= s);
    } else {
        let t = s.skip(1);
        assert(forall|j: int| 0 <= j < k - 1 ==> t[j] == s[j + 1]);
        lemma_trim_start_chars(t, k - 1);
        assert(t.skip(k - 1) =~= s.skip(k));
    }
}

/// If the last characters from `m` on are whitespace and the character just
/// before `m` (when there is one) is not, trimming from the end keeps exactly
/// the first `m`.
pub proof fn lemma_trim_end_chars(s: Seq<char>, m: int)
    requires
        0 <= m <= s.len(),
        forall|j: int| m <= j < s.len() ==> is_space(s[j]),
        m == 0 || !is_space(s[m - 1]),
    ensures
        trim_end_chars(s) == s.take(m),
    decreases s.len() - m,
{
    if m == s.len() {
        assert(s.take(m) =~= s);
    } else {
        let t = s.drop_last();
        assert(is_space(s.last()));
        lemma_trim_end_chars(t, m);
        assert(t.take(m) =~= s.take(m));
    }
}

/// The index of the first non-whitespace character of `s` (its length when
/// all of `s` is whitespace): trimming from the start keeps `s[w..]`.
pub fn leading_spaces(s: &str) -> (w: usize)
    ensures
        w <= s@.len(),
        trim_start_chars(s@) == s@.skip(w as int),
        forall|j: int| 0 <= j < w ==> is_space(s@[j]),
        w < s@.len() ==> !is_space(s@[w as int]),
{
    let len = s.unicode_len();
    let mut w: usize = 0;
    while w < len && space(s.get_char(w))
        invariant
            len == s@.len(),
            w <= len,
            forall|j: int| 0 <= j < w ==> is_space(s@[j]),
        decreases len - w,
    {
        w = w + 1;
    }
    proof {
        lemma_trim_start_chars(s@, w as int);
    }
    w
}

/// Split `s` on the separator character, as [`split_chars`] describes.
pub fn split_string(s: &str, sep: char) -> (pieces: Vec<String>)
    ensures
        pieces.deep_view() == split_chars(s@, sep),
{
    let len = s.unicode_len();
    let mut pieces: Vec<String> = Vec::new();
    let mut start: usize = 0;
    let mut i: usize = 0;
    proof {
        assert(pieces.deep_view() =~= Seq::<Seq<char>>::empty());
        assert(s@.skip(0) =~= s@);
        assert(pieces.deep_view() + split_chars(s@, sep) =~= split_chars(s@, sep));
    }
    while i < len
        invariant
            len == s@.len(),
            start <= i <= len,
            forall|j: int| start <= j < i ==> s@[j] != sep,
            split_chars(s@, sep) == pieces.deep_view() + split_chars(s@.skip(start as int), sep),
        decreases len - i,
    {
        if s.get_char(i) == sep {
            let piece = s.substring_char(start, i).to_owned();
            proof {
                let tail = s@.skip(start as int);
                assert(forall|j: int| 0 <= j < i - start ==> tail[j] == s@[j + start]);
                lemma_split_chars_step(tail, sep, i - start);
                assert(tail.take(i - start) =~= s@.subrange(start as int, i as int));
                assert(tail.skip(i - start + 1) =~= s@.skip(i + 1));
                assert((pieces.deep_view() + seq![piece@]) + split_chars(s@.skip(i + 1), sep)
                    =~= pieces.deep_view() + split_chars(tail, sep));
            }
            let ghost old_pieces = pieces.deep_view();
            pieces.push(piece);
            proof {
                assert(pieces.deep_view() =~= old_pieces + seq![piece@]);
            }
            start = i + 1;
        }
        i = i + 1;
    }
    let piece = s.substring_char(start, len).to_owned();
    proof {
        let tail = s@.skip(start as int);
        assert(forall|j: int| 0 <= j < tail.len() ==> tail[j] == s@[j + start]);
        lemma_split_chars_step(tail, sep, tail.len() as int);
        assert(tail =~= s@.subrange(start as int, len as int));
    }
    let ghost old_pieces = pieces.deep_view();
    pieces.push(piece);
    proof {
        assert(pieces.deep_view() =~= old_pieces + seq![piece@]);
        assert(pieces.deep_view() =~= split_chars(s@, sep));
    }
    pieces
}

} // verus!
