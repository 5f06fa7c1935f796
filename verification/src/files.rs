//! Text files and their contents: which files qualify, and how raw file
//! contents become the list of sendable lines.
//!
//! A file qualifies by its extension, compared case-insensitively. Its
//! contents are split at line feeds, each line is trimmed of surrounding
//! whitespace, and empty lines are dropped; a file with no line left is
//! discarded. The reading of directories and file bytes is platform work the
//! binary performs; everything from the characters onward is verified here.

use vstd::multiset::Multiset;
use vstd::prelude::*;

use crate::text::{char_is_whitespace, is_white, lower_of, lowercase};

verus! {

/// A discovered text file: its display name, its path as text, and its
/// non-empty trimmed lines.
#[derive(Clone, Debug)]
pub struct TextFile {
    /// The file name, as displayed and matched (e.g. `messages.txt`).
    pub name: String,
    /// The full path to the file, as text.
    pub path: String,
    /// The non-empty lines of the file, each trimmed.
    pub lines: Vec<String>,
}

/// ASCII-case-insensitive equality of two characters: equal outright, or
/// equal up to the ASCII upper/lower distance.
pub open spec fn chars_eq_ci(a: char, b: char) -> bool {
    ||| a == b
    ||| (65 <= a as u32 <= 90 && b as u32 == a as u32 + 32)
    ||| (65 <= b as u32 <= 90 && a as u32 == b as u32 + 32)
}

/// ASCII-case-insensitive equality of two character sequences.
pub open spec fn seq_eq_ci(a: Seq<char>, b: Seq<char>) -> bool {
    a.len() == b.len() && forall|i: int| 0 <= i < a.len() ==> chars_eq_ci(a[i], b[i])
}

/// The position of the last `.` in a name, or -1 when it has none.
pub open spec fn last_dot(s: Seq<char>) -> int
    decreases s.len(),
{
    if s.len() == 0 {
        -1
    } else if s.last() == '.' {
        s.len() - 1
    } else {
        last_dot(s.drop_last())
    }
}

/// The extension of a file name: what follows the last `.`, provided the
/// dot is neither absent nor the leading character of a hidden file's name.
pub open spec fn extension_of(name: Seq<char>) -> Option<Seq<char>> {
    let i = last_dot(name);
    if i <= 0 {
        None
    } else {
        Some(name.subrange(i + 1, name.len() as int))
    }
}

/// Whether a file name carries one of the supported extensions,
/// compared ASCII-case-insensitively: `txt` or `md`.
pub open spec fn spec_is_supported(name: Seq<char>) -> bool {
    match extension_of(name) {
        Some(e) => seq_eq_ci(e, "txt"@) || seq_eq_ci(e, "md"@),
        None => false,
    }
}

proof fn lemma_last_dot_at(s: Seq<char>, i: int)
    requires
        0 <= i < s.len(),
        s[i] == '.',
        forall|j: int| i < j < s.len() ==> s[j] != '.',
    ensures
        last_dot(s) == i,
    decreases s.len(),
{
    if i < s.len() - 1 {
        assert(s.drop_last()[i] == s[i]);
        lemma_last_dot_at(s.drop_last(), i);
    }
}

proof fn lemma_last_dot_none(s: Seq<char>)
    requires
        forall|j: int| 0 <= j < s.len() ==> s[j] != '.',
    ensures
        last_dot(s) == -1,
    decreases s.len(),
{
    if s.len() > 0 {
        lemma_last_dot_none(s.drop_last());
    }
}

/// ASCII-case-insensitive equality of two strings, character by character.
fn str_eq_ci(a: &str, b: &str) -> (r: bool)
    ensures
        r == seq_eq_ci(a@, b@),
{
    let na = a.unicode_len();
    let nb = b.unicode_len();
    if na != nb {
        return false;
    }
    for i in 0..na
        invariant
            na == a@.len(),
            na == b@.len(),
            forall|j: int| 0 <= j < i ==> chars_eq_ci(a@[j], b@[j]),
    {
        let ca = a.get_char(i) as u32;
        let cb = b.get_char(i) as u32;
        let eq = ca == cb || (65 <= ca && ca <= 90 && cb == ca + 32) || (65 <= cb && cb <= 90
            && ca == cb + 32);
        if !eq {
            return false;
        }
    }
    true
}

/// Whether a file name carries a supported extension (`txt` or `md`, in any
/// letter case). The name is a bare file name, not a path.
pub fn is_supported_extension(name: &str) -> (r: bool)
    ensures
        r == spec_is_supported(name@),
{
    let n = name.unicode_len();
    let mut i = n;
    while i > 0
        invariant
            i <= n,
            n == name@.len(),
            forall|j: int| i <= j < n ==> name@[j] != '.',
        decreases i,
    {
        i = i - 1;
        if name.get_char(i) == '.' {
            proof {
                lemma_last_dot_at(name@, i as int);
            }
            if i == 0 {
                return false;
            }
            let ext = name.substring_char(i + 1, n);
            return str_eq_ci(ext, "txt") || str_eq_ci(ext, "md");
        }
    }
    proof {
        lemma_last_dot_none(name@);
    }
    false
}

/// A sequence with its leading whitespace removed.
pub open spec fn trim_front(s: Seq<char>) -> Seq<char>
    decreases s.len(),
{
    if s.len() > 0 && is_white(s[0]) {
        trim_front(s.drop_first())
    } else {
        s
    }
}

/// A sequence with its trailing whitespace removed.
pub open spec fn trim_back(s: Seq<char>) -> Seq<char>
    decreases s.len(),
{
    if s.len() > 0 && is_white(s.last()) {
        trim_back(s.drop_last())
    } else {
        s
    }
}

/// A sequence with both leading and trailing whitespace removed.
pub open spec fn trim_spec(s: Seq<char>) -> Seq<char> {
    trim_back(trim_front(s))
}

/// The string with surrounding whitespace removed.
pub fn trim(s: &str) -> (r: &str)
    ensures
        r@ == trim_spec(s@),
{
    let n = s.unicode_len();
    let mut a: usize = 0;
    proof {
        assert(s@.skip(0) =~= s@);
    }
    while a < n && char_is_whitespace(s.get_char(a))
        invariant
            a <= n,
            n == s@.len(),
            trim_front(s@) == trim_front(s@.skip(a as int)),
        decreases n - a,
    {
        proof {
            let t = s@.skip(a as int);
            assert(t[0] == s@[a as int]);
            assert(t.drop_first() =~= s@.skip(a as int + 1));
        }
        a = a + 1;
    }
    proof {
        let t = s@.skip(a as int);
        if a < n {
            assert(t[0] == s@[a as int]);
            assert(trim_front(t) == t);
        } else {
            assert(t =~= Seq::<char>::empty());
        }
        assert(trim_front(s@) =~= s@.subrange(a as int, n as int));
    }
    let mut b: usize = n;
    while b > a && char_is_whitespace(s.get_char(b - 1))
        invariant
            a <= b <= n,
            n == s@.len(),
            trim_back(s@.subrange(a as int, n as int)) == trim_back(
                s@.subrange(a as int, b as int),
            ),
        decreases b,
    {
        proof {
            let t = s@.subrange(a as int, b as int);
            assert(t.last() == s@[b as int - 1]);
            assert(t.drop_last() =~= s@.subrange(a as int, b as int - 1));
        }
        b = b - 1;
    }
    proof {
        let t = s@.subrange(a as int, b as int);
        if b > a {
            assert(t.last() == s@[b as int - 1]);
            assert(trim_back(t) == t);
        } else {
            assert(t =~= Seq::<char>::empty());
        }
    }
    s.substring_char(a, b)
}

/// The position of the first line feed in a sequence, or its length when it
/// has none.
pub open spec fn idx_of_newline(s: Seq<char>) -> int
    decreases s.len(),
{
    if s.len() == 0 {
        0
    } else if s[0] == '\n' {
        0
    } else {
        1 + idx_of_newline(s.drop_first())
    }
}

proof fn lemma_idx_of_newline_bounds(s: Seq<char>)
    ensures
        0 <= idx_of_newline(s) <= s.len(),
    decreases s.len(),
{
    if s.len() > 0 && s[0] != '\n' {
        lemma_idx_of_newline_bounds(s.drop_first());
    }
}

proof fn lemma_idx_of_newline_at(s: Seq<char>, i: int)
    requires
        0 <= i <= s.len(),
        forall|j: int| 0 <= j < i ==> s[j] != '\n',
        i < s.len() ==> s[i] == '\n',
    ensures
        idx_of_newline(s) == i,
    decreases i,
{
    if i == 0 {
    } else {
        assert(s[0] != '\n');
        assert forall|j: int| 0 <= j < i - 1 implies s.drop_first()[j] != '\n' by {
            assert(s.drop_first()[j] == s[j + 1]);
        }
        lemma_idx_of_newline_at(s.drop_first(), i - 1);
    }
}

/// The cleaned lines of raw file contents: split at line feeds, each piece
/// trimmed of surrounding whitespace, empty pieces dropped.
pub open spec fn clean_lines(s: Seq<char>) -> Seq<Seq<char>>
    decreases s.len() via clean_lines_decreases
{
    if s.len() == 0 {
        Seq::empty()
    } else {
        let i = idx_of_newline(s);
        let line = trim_spec(s.subrange(0, i));
        let rest = if i == s.len() {
            Seq::<Seq<char>>::empty()
        } else {
            clean_lines(s.subrange(i + 1, s.len() as int))
        };
        if line.len() > 0 {
            seq![line] + rest
        } else {
            rest
        }
    }
}

#[via_fn]
proof fn clean_lines_decreases(s: Seq<char>) {
    lemma_idx_of_newline_bounds(s);
}

/// Parse raw file contents into the list of sendable lines: split at line
/// feeds, trim each line, keep only the non-empty ones, in order.
pub fn parse_lines(contents: &str) -> (r: Vec<String>)
    ensures
        r.deep_view() == clean_lines(contents@),
{
    let n = contents.unicode_len();
    let mut out: Vec<String> = Vec::new();
    let mut p: usize = 0;
    proof {
        assert(contents@.skip(0) =~= contents@);
        assert(out.deep_view() =~= Seq::<Seq<char>>::empty());
    }
    while p < n
        invariant
            p <= n,
            n == contents@.len(),
            out.deep_view() + clean_lines(contents@.skip(p as int)) == clean_lines(contents@),
        decreases n - p,
    {
        let ghost pre_dv = out.deep_view();
        let ghost tail = contents@.skip(p as int);
        let mut q: usize = p;
        while q < n && contents.get_char(q) != '\n'
            invariant
                p <= q <= n,
                n == contents@.len(),
                forall|j: int| p <= j < q ==> contents@[j] != '\n',
            decreases n - q,
        {
            q = q + 1;
        }
        proof {
            assert forall|j: int| 0 <= j < q - p implies tail[j] != '\n' by {
                assert(tail[j] == contents@[p + j]);
            }
            if q < n {
                assert(tail[q - p as int] == contents@[q as int]);
            }
            lemma_idx_of_newline_at(tail, q - p as int);
            assert(tail.subrange(0, q - p as int) =~= contents@.subrange(p as int, q as int));
        }
        let seg = contents.substring_char(p, q);
        let t = trim(seg);
        if t.unicode_len() > 0 {
            out.push(String::from_str(t));
            proof {
                assert(out.deep_view() =~= pre_dv.push(t@));
            }
        }
        proof {
            let i = q - p as int;
            if q == n {
                assert(clean_lines(tail) == if trim_spec(tail.subrange(0, i)).len() > 0 {
                    seq![trim_spec(tail.subrange(0, i))] + Seq::<Seq<char>>::empty()
                } else {
                    Seq::<Seq<char>>::empty()
                });
                assert(contents@.skip(n as int) =~= Seq::<char>::empty());
                if trim_spec(tail.subrange(0, i)).len() > 0 {
                    assert(seq![t@] + Seq::<Seq<char>>::empty() =~= seq![t@]);
                    assert(pre_dv.push(t@) =~= pre_dv + seq![t@]);
                    assert((pre_dv + seq![t@]) + Seq::<Seq<char>>::empty() =~= pre_dv + seq![t@]);
                }
            } else {
                assert(tail.subrange(i + 1, tail.len() as int) =~= contents@.skip(q + 1));
                let rest = clean_lines(contents@.skip(q + 1));
                if trim_spec(tail.subrange(0, i)).len() > 0 {
                    assert(clean_lines(tail) == seq![t@] + rest);
                    assert(pre_dv.push(t@) =~= pre_dv + seq![t@]);
                    assert((pre_dv + seq![t@]) + rest =~= pre_dv + (seq![t@] + rest));
                } else {
                    assert(clean_lines(tail) == rest);
                }
            }
        }
        if q == n {
            p = n;
        } else {
            p = q + 1;
        }
    }
    proof {
        assert(contents@.skip(n as int) =~= Seq::<char>::empty());
        assert(out.deep_view() + Seq::<Seq<char>>::empty() =~= out.deep_view());
    }
    out
}

/// Lexicographic code-point order on character sequences: the order file
/// names are listed in, after case folding.
pub open spec fn seq_le(a: Seq<char>, b: Seq<char>) -> bool
    decreases a.len(),
{
    if a.len() == 0 {
        true
    } else if b.len() == 0 {
        false
    } else if (a[0] as u32) < (b[0] as u32) {
        true
    } else if (a[0] as u32) > (b[0] as u32) {
        false
    } else {
        seq_le(a.drop_first(), b.drop_first())
    }
}

proof fn lemma_seq_le_total(a: Seq<char>, b: Seq<char>)
    ensures
        seq_le(a, b) || seq_le(b, a),
    decreases a.len(),
{
    if a.len() > 0 && b.len() > 0 && (a[0] as u32) == (b[0] as u32) {
        lemma_seq_le_total(a.drop_first(), b.drop_first());
    }
}

proof fn lemma_seq_le_trans(a: Seq<char>, b: Seq<char>, c: Seq<char>)
    requires
        seq_le(a, b),
        seq_le(b, c),
    ensures
        seq_le(a, c),
    decreases a.len(),
{
    if a.len() > 0 && b.len() > 0 && c.len() > 0 && (a[0] as u32) == (b[0] as u32) && (b[0]
        as u32) == (c[0] as u32) {
        lemma_seq_le_trans(a.drop_first(), b.drop_first(), c.drop_first());
    }
}

/// Scanning both sequences past a common prefix leaves the order unchanged.
proof fn lemma_seq_le_skip(a: Seq<char>, b: Seq<char>, i: int)
    requires
        0 <= i <= a.len(),
        i <= b.len(),
        forall|j: int| 0 <= j < i ==> (a[j] as u32) == (b[j] as u32),
    ensures
        seq_le(a, b) == seq_le(a.skip(i), b.skip(i)),
    decreases i,
{
    if i > 0 {
        assert((a[0] as u32) == (b[0] as u32));
        assert(a.drop_first().skip(i - 1) =~= a.skip(i));
        assert(b.drop_first().skip(i - 1) =~= b.skip(i));
        assert forall|j: int| 0 <= j < i - 1 implies (a.drop_first()[j] as u32) == (
        b.drop_first()[j] as u32) by {
            assert((a[j + 1] as u32) == (b[j + 1] as u32));
        }
        lemma_seq_le_skip(a.drop_first(), b.drop_first(), i - 1);
    } else {
        assert(a.skip(0) =~= a);
        assert(b.skip(0) =~= b);
    }
}

/// Whether one string orders at or before another, by code point.
fn str_le(a: &str, b: &str) -> (r: bool)
    ensures
        r == seq_le(a@, b@),
{
    let na = a.unicode_len();
    let nb = b.unicode_len();
    let mut i: usize = 0;
    while i < na && i < nb
        invariant
            i <= na,
            i <= nb,
            na == a@.len(),
            nb == b@.len(),
            forall|j: int| 0 <= j < i ==> (a@[j] as u32) == (b@[j] as u32),
        decreases na - i,
    {
        let ca = a.get_char(i) as u32;
        let cb = b.get_char(i) as u32;
        if ca != cb {
            proof {
                lemma_seq_le_skip(a@, b@, i as int);
                assert(a@.skip(i as int)[0] == a@[i as int]);
                assert(b@.skip(i as int)[0] == b@[i as int]);
            }
            return ca < cb;
        }
        i = i + 1;
    }
    proof {
        lemma_seq_le_skip(a@, b@, i as int);
        if i == na {
            assert(a@.skip(i as int) =~= Seq::<char>::empty());
        } else {
            assert(b@.skip(i as int) =~= Seq::<char>::empty());
            assert(a@.skip(i as int).len() > 0);
        }
    }
    na <= nb
}

/// Whether one file orders at or before another: by name, case-folded.
pub open spec fn file_le(a: TextFile, b: TextFile) -> bool {
    seq_le(lower_of(a.name@), lower_of(b.name@))
}

/// A file list in alphabetical order of folded names.
pub open spec fn sorted_by_name(s: Seq<TextFile>) -> bool {
    forall|i: int, j: int| 0 <= i < j < s.len() ==> file_le(#[trigger] s[i], #[trigger] s[j])
}

/// Insert one file into an already-sorted list, keeping it sorted.
fn insert_sorted(sorted: &mut Vec<TextFile>, f: TextFile)
    requires
        sorted_by_name(old(sorted)@),
    ensures
        sorted_by_name(final(sorted)@),
        final(sorted)@.to_multiset() == old(sorted)@.to_multiset().insert(f),
{
    let folded = lowercase(f.name.as_str());
    let n = sorted.len();
    let mut j: usize = 0;
    loop
        invariant
            j <= n,
            n == sorted@.len(),
            sorted@ == old(sorted)@,
            folded@ == lower_of(f.name@),
            forall|k: int| 0 <= k < j ==> file_le(#[trigger] sorted@[k], f),
        ensures
            j <= n,
            sorted@ == old(sorted)@,
            forall|k: int| 0 <= k < j ==> file_le(#[trigger] sorted@[k], f),
            j < n ==> !seq_le(lower_of(sorted@[j as int].name@), lower_of(f.name@)),
        decreases n - j,
    {
        if j >= n {
            break ;
        }
        let other = lowercase(sorted[j].name.as_str());
        if !str_le(other.as_str(), folded.as_str()) {
            break ;
        }
        j = j + 1;
    }
    let ghost pre = sorted@;
    let ghost jj = j as int;
    proof {
        if jj < pre.len() {
            lemma_seq_le_total(lower_of(pre[jj].name@), lower_of(f.name@));
            assert(file_le(f, pre[jj]));
        }
    }
    sorted.insert(j, f);
    proof {
        broadcast use vstd::seq_lib::to_multiset_insert;

        let now = sorted@;
        assert(now == pre.insert(jj, f));
        assert forall|i1: int, j1: int| 0 <= i1 < j1 < now.len() implies file_le(
            #[trigger] now[i1],
            #[trigger] now[j1],
        ) by {
            if j1 < jj {
                assert(now[i1] == pre[i1] && now[j1] == pre[j1]);
            } else if j1 == jj {
                assert(now[i1] == pre[i1]);
                assert(file_le(pre[i1], f));
            } else if i1 < jj {
                assert(now[i1] == pre[i1] && now[j1] == pre[j1 - 1]);
                if j1 - 1 == jj {
                    assert(file_le(f, pre[jj]));
                    assert(file_le(pre[i1], f));
                    lemma_seq_le_trans(
                        lower_of(pre[i1].name@),
                        lower_of(f.name@),
                        lower_of(pre[jj].name@),
                    );
                } else {
                    assert(file_le(pre[i1], pre[j1 - 1]));
                }
            } else if i1 == jj {
                assert(now[i1] == f && now[j1] == pre[j1 - 1]);
                assert(file_le(f, pre[jj]));
                if j1 - 1 > jj {
                    assert(file_le(pre[jj], pre[j1 - 1]));
                    lemma_seq_le_trans(
                        lower_of(f.name@),
                        lower_of(pre[jj].name@),
                        lower_of(pre[j1 - 1].name@),
                    );
                }
            } else {
                assert(now[i1] == pre[i1 - 1] && now[j1] == pre[j1 - 1]);
            }
        }
    }
}

/// Sort a list of files alphabetically by folded name, for consistent
/// ordering in the browser: the result is ordered and holds exactly the
/// same files.
pub fn sort_files(files: Vec<TextFile>) -> (r: Vec<TextFile>)
    ensures
        sorted_by_name(r@),
        r@.to_multiset() == files@.to_multiset(),
{
    let ghost all = files@;
    let mut rest = files;
    let mut sorted: Vec<TextFile> = Vec::new();
    proof {
        broadcast use vstd::seq_lib::group_to_multiset_ensures;

        assert(sorted@.to_multiset() =~= Multiset::<TextFile>::empty());
        assert(sorted@.to_multiset().add(rest@.to_multiset()) =~= all.to_multiset());
    }
    while rest.len() > 0
        invariant
            sorted_by_name(sorted@),
            sorted@.to_multiset().add(rest@.to_multiset()) == all.to_multiset(),
        decreases rest@.len(),
    {
        let ghost rest_pre = rest@;
        let ghost sorted_pre = sorted@;
        let f = rest.pop().unwrap();
        insert_sorted(&mut sorted, f);
        proof {
            broadcast use vstd::seq_lib::group_to_multiset_ensures;

            assert(rest_pre.drop_last().push(f) =~= rest_pre);
            assert(rest_pre.to_multiset() =~= rest@.to_multiset().insert(f));
            assert(sorted@.to_multiset().add(rest@.to_multiset()) =~= sorted_pre.to_multiset().add(
                rest_pre.to_multiset(),
            ));
        }
    }
    proof {
        broadcast use vstd::seq_lib::group_to_multiset_ensures;

        assert(rest@.to_multiset().len() == 0);
        assert(sorted@.to_multiset().add(rest@.to_multiset()) =~= sorted@.to_multiset());
    }
    sorted
}

impl TextFile {
    /// Build a text file from its name, its path and its raw contents.
    /// Returns nothing when no non-empty line remains after cleaning: such a
    /// file is discarded.
    pub fn from_contents(name: String, path: String, contents: &str) -> (r: Option<TextFile>)
        ensures
            match r {
                Some(f) => clean_lines(contents@).len() > 0 && f.name@ == name@ && f.path@
                    == path@ && f.lines.deep_view() == clean_lines(contents@),
                None => clean_lines(contents@).len() == 0,
            },
    {
        let lines = parse_lines(contents);
        if lines.len() == 0 {
            None
        } else {
            Some(TextFile { name, path, lines })
        }
    }

    /// The number of sendable lines in this file.
    pub fn line_count(&self) -> (r: usize)
        ensures
            r == self.lines@.len(),
    {
        self.lines.len()
    }
}

} // verus!
