//! Extraction of dependency references from a source file's content.
//!
//! The content is split into lines; a line declares a dependency when its
//! leading (non-whitespace) text begins with the literal marker `#include`.
//! The reference is what remains after stripping that marker, trimming
//! surrounding whitespace, and removing one layer of surrounding double
//! quotes. Angle-bracket references are passed through with their brackets
//! intact.

use vstd::prelude::*;
use vstd::seq_lib::*;
use crate::text::is_space;
use crate::text::leading_spaces;
use crate::text::lemma_trim_end_chars;
use crate::text::lemma_trim_start_chars;
use crate::text::space;
use crate::text::trim_start_chars;
use crate::text::split_chars;
use crate::text::split_string;
use crate::text::trim_chars;

verus! {

/// Whether `t` begins with the eight characters of the literal marker
/// `#include`.
pub open spec fn begins_with_marker(t: Seq<char>) -> bool {
    t.len() >= 8 && t[0] == '#' && t[1] == 'i' && t[2] == 'n' && t[3] == 'c' && t[4] == 'l'
        && t[5] == 'u' && t[6] == 'd' && t[7] == 'e'
}

/// Whether a line's leading (non-whitespace) text begins with the literal
/// marker `#include`: whitespace before the marker is allowed.
pub open spec fn is_include_line(l: Seq<char>) -> bool {
    begins_with_marker(trim_start_chars(l))
}

/// One layer of surrounding double quotes removed: a leading `"` (if any) and
/// a trailing `"` (if any), each at most once.
pub open spec fn unquote_once(t: Seq<char>) -> Seq<char> {
    let u = if t.len() > 0 && t[0] == '"' {
        t.skip(1)
    } else {
        t
    };
    if u.len() > 0 && u.last() == '"' {
        u.drop_last()
    } else {
        u
    }
}

/// The dependency reference declared by an `#include` line: the text after
/// the leading whitespace and the marker, whitespace-trimmed, with one
/// layer of quotes removed.
pub open spec fn ref_of_line(l: Seq<char>) -> Seq<char> {
    unquote_once(trim_chars(trim_start_chars(l).skip(8)))
}

/// The `#include` lines among `lines`, in order, duplicates kept.
pub open spec fn include_lines(lines: Seq<Seq<char>>) -> Seq<Seq<char>> {
    lines.filter(|l: Seq<char>| is_include_line(l))
}

/// The references declared by `lines`, in line order, duplicates kept.
pub open spec fn refs_of_lines(lines: Seq<Seq<char>>) -> Seq<Seq<char>> {
    include_lines(lines).map_values(|l: Seq<char>| ref_of_line(l))
}

/// Every dependency reference declared in `content`, in line order,
/// duplicates kept.
pub open spec fn extract_refs(content: Seq<char>) -> Seq<Seq<char>> {
    refs_of_lines(split_chars(content, '\n'))
}

/// There are exactly as many extracted references as `#include` lines.
pub proof fn lemma_reference_count(content: Seq<char>)
    ensures
        extract_refs(content).len() == include_lines(split_chars(content, '\n')).len(),
{
}

/// The extracted references preserve the original order and duplicates:
/// the `k`-th extracted reference is the one the `k`-th `#include` line
/// declares.
pub proof fn lemma_reference_order(content: Seq<char>, k: int)
    requires
        0 <= k < extract_refs(content).len(),
    ensures
        extract_refs(content)[k] == ref_of_line(include_lines(split_chars(content, '\n'))[k]),
{
}

/// How the reference list grows line by line: a trailing `#include` line
/// contributes its reference at the end; any other trailing line contributes
/// nothing.
pub proof fn lemma_refs_of_lines_push(lines: Seq<Seq<char>>, l: Seq<char>)
    ensures
        refs_of_lines(lines.push(l)) == if is_include_line(l) {
            refs_of_lines(lines).push(ref_of_line(l))
        } else {
            refs_of_lines(lines)
        },
{
    broadcast use Seq::lemma_filter_push, Seq::lemma_push_map_commute;

    if is_include_line(l) {
        assert(refs_of_lines(lines.push(l)) =~= refs_of_lines(lines).push(ref_of_line(l)));
    } else {
        assert(refs_of_lines(lines.push(l)) =~= refs_of_lines(lines));
    }
}

/// Executable counterpart of [`is_include_line`].
pub fn is_include(line: &str) -> (r: bool)
    ensures
        r == is_include_line(line@),
{
    let len = line.unicode_len();
    let w = leading_spaces(line);
    if len - w < 8 {
        return false;
    }
    let r = line.get_char(w) == '#' && line.get_char(w + 1) == 'i' && line.get_char(w + 2) == 'n'
        && line.get_char(w + 3) == 'c' && line.get_char(w + 4) == 'l' && line.get_char(w + 5)
        == 'u' && line.get_char(w + 6) == 'd' && line.get_char(w + 7) == 'e';
    proof {
        let t = trim_start_chars(line@);
        assert(forall|j: int| 0 <= j < 8 ==> t[j] == line@[j + w]);
    }
    r
}

/// The reference declared by an `#include` line, as [`ref_of_line`] says.
pub fn reference_of(line: &str) -> (r: String)
    requires
        is_include_line(line@),
    ensures
        r@ == ref_of_line(line@),
{
    let len = line.unicode_len();
    let w = leading_spaces(line);
    proof {
        assert(trim_start_chars(line@).len() >= 8);
        assert(w + 8 <= len);
    }
    let mut a: usize = w + 8;
    let mut b: usize = len;
    while a < len && space(line.get_char(a))
        invariant
            len == line@.len(),
            w + 8 <= a <= len,
            forall|j: int| w + 8 <= j < a ==> is_space(line@[j]),
        decreases len - a,
    {
        a = a + 1;
    }
    proof {
        let t = line@.skip(w + 8 as int);
        assert(trim_start_chars(line@).skip(8) =~= t);
        assert(forall|j: int| 0 <= j < a - (w + 8) ==> t[j] == line@[j + (w + 8)]);
        lemma_trim_start_chars(t, a - (w + 8));
        assert(t.skip(a - (w + 8)) =~= line@.skip(a as int));
    }
    while b > a && space(line.get_char(b - 1))
        invariant
            len == line@.len(),
            a <= b <= len,
            forall|j: int| b <= j < len ==> is_space(line@[j]),
        decreases b,
    {
        b = b - 1;
    }
    proof {
        let u = line@.skip(a as int);
        assert(forall|j: int| 0 <= j < u.len() ==> u[j] == line@[j + a]);
        lemma_trim_end_chars(u, b - a);
        assert(u.take(b - a) =~= line@.subrange(a as int, b as int));
        assert(trim_chars(trim_start_chars(line@).skip(8)) == line@.subrange(a as int, b as int));
    }
    let ghost t0 = line@.subrange(a as int, b as int);
    if a < b && line.get_char(a) == '"' {
        a = a + 1;
        proof {
            assert(t0.skip(1) =~= line@.subrange(a as int, b as int));
        }
    }
    let ghost u0 = line@.subrange(a as int, b as int);
    proof {
        assert(u0 == if t0.len() > 0 && t0[0] == '"' {
            t0.skip(1)
        } else {
            t0
        });
    }
    if b > a && line.get_char(b - 1) == '"' {
        b = b - 1;
        proof {
            assert(u0.drop_last() =~= line@.subrange(a as int, b as int));
        }
    }
    proof {
        assert(unquote_once(t0) == line@.subrange(a as int, b as int));
    }
    line.substring_char(a, b).to_owned()
}

/// Every dependency reference declared in `content`, as [`extract_refs`]
/// says: one per `#include` line, in order, duplicates kept.
pub fn extract_dependencies(content: &str) -> (refs: Vec<String>)
    ensures
        refs.deep_view() == extract_refs(content@),
{
    let lines = split_string(content, '\n');
    let ghost lseq = lines.deep_view();
    let mut refs: Vec<String> = Vec::new();
    proof {
        assert(lseq.take(0) =~= Seq::<Seq<char>>::empty());
        assert(refs.deep_view() =~= refs_of_lines(lseq.take(0)));
    }
    let n = lines.len();
    for i in 0..n
        invariant
            n == lines@.len(),
            lseq == lines.deep_view(),
            lseq == split_chars(content@, '\n'),
            refs.deep_view() == refs_of_lines(lseq.take(i as int)),
    {
        let line = &lines[i];
        proof {
            assert(lseq[i as int] == line@);
            assert(lseq.take(i + 1) =~= lseq.take(i as int).push(line@));
            lemma_refs_of_lines_push(lseq.take(i as int), line@);
        }
        if is_include(line.as_str()) {
            let r = reference_of(line.as_str());
            let ghost old_refs = refs.deep_view();
            refs.push(r);
            proof {
                assert(refs.deep_view() =~= old_refs.push(r@));
            }
        }
    }
    proof {
        assert(lseq.take(n as int) =~= lseq);
    }
    refs
}

} // verus!
