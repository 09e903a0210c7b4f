//! The playlist file format: line-oriented text in which blank lines and
//! `#`-comments (the `#EXTM3U` header, `#EXTINF` directives) are ignored and
//! every other line, trimmed of surrounding whitespace, is one track locator.
//! A playlist is accepted only under a file name with the `m3u` extension.

use vstd::prelude::*;

verus! {

/// The whitespace stripped from both ends of a playlist line.
pub open spec fn is_ws(c: char) -> bool {
    c == ' ' || c == '\t' || c == '\r'
}

/// `s` without its leading whitespace.
pub open spec fn trim_front(s: Seq<char>) -> Seq<char>
    decreases s.len(),
{
    if s.len() > 0 && is_ws(s[0]) {
        trim_front(s.drop_first())
    } else {
        s
    }
}

/// `s` without its trailing whitespace.
pub open spec fn trim_back(s: Seq<char>) -> Seq<char>
    decreases s.len(),
{
    if s.len() > 0 && is_ws(s.last()) {
        trim_back(s.drop_last())
    } else {
        s
    }
}

/// `s` without whitespace at either end.
pub open spec fn trimmed(s: Seq<char>) -> Seq<char> {
    trim_back(trim_front(s))
}

/// A trimmed line becomes a queue entry iff it is non-empty and is not a
/// comment.
pub open spec fn keeps_line(line: Seq<char>) -> bool {
    line.len() > 0 && line[0] != '#'
}

/// The position of the first newline in `s` at or after `from`, or the
/// length of `s` when there is none.
pub open spec fn find_newline(s: Seq<char>, from: int) -> int
    decreases s.len() - from,
{
    if from >= s.len() {
        s.len() as int
    } else if s[from] == '\n' {
        from
    } else {
        find_newline(s, from + 1)
    }
}

pub proof fn lemma_find_newline_bounds(s: Seq<char>, from: int)
    requires
        from <= s.len(),
    ensures
        from <= find_newline(s, from) <= s.len(),
        forall|j: int| from <= j < find_newline(s, from) ==> s[j] != '\n',
        find_newline(s, from) < s.len() ==> s[find_newline(s, from)] == '\n',
    decreases s.len() - from,
{
    if from >= s.len() {
    } else if s[from] == '\n' {
    } else {
        lemma_find_newline_bounds(s, from + 1);
    }
}

/// `find_newline` is pinned down by a newline-free stretch ending at a
/// newline or at the end of the text.
pub proof fn lemma_find_newline_is(s: Seq<char>, from: int, i: int)
    requires
        from <= i <= s.len(),
        forall|j: int| from <= j < i ==> s[j] != '\n',
        i < s.len() ==> s[i] == '\n',
    ensures
        find_newline(s, from) == i,
    decreases i - from,
{
    if from < i {
        assert(s[from] != '\n');
        lemma_find_newline_is(s, from + 1, i);
    }
}

/// The entries of the playlist text from position `from` on: the text is cut
/// at newlines, each piece is trimmed, and the kept lines are listed in
/// order.
pub open spec fn entries_from(s: Seq<char>, from: int) -> Seq<Seq<char>>
    decreases s.len() - from,
        via entries_from_dec
{
    if from >= s.len() {
        Seq::empty()
    } else {
        let nl = find_newline(s, from);
        let line = trimmed(s.subrange(from, nl));
        let rest = if nl >= s.len() {
            Seq::<Seq<char>>::empty()
        } else {
            entries_from(s, nl + 1)
        };
        if keeps_line(line) {
            seq![line] + rest
        } else {
            rest
        }
    }
}

#[via_fn]
proof fn entries_from_dec(s: Seq<char>, from: int) {
    if from < s.len() {
        lemma_find_newline_bounds(s, from);
    }
}

/// Every entry a playlist text yields, in order.
pub open spec fn playlist_entries(s: Seq<char>) -> Seq<Seq<char>> {
    entries_from(s, 0)
}

/// The character sequences behind a sequence of strings.
pub open spec fn views_of(items: Seq<String>) -> Seq<Seq<char>> {
    items.map_values(|s: String| s@)
}

/// A path names a playlist iff the file name part ends in `.m3u` with a
/// non-empty stem: at least four characters `.m3u` at the end, preceded by
/// one more character that is not the directory separator.
pub open spec fn is_m3u_path(s: Seq<char>) -> bool {
    &&& s.len() >= 5
    &&& s[s.len() - 4] == '.'
    &&& s[s.len() - 3] == 'm'
    &&& s[s.len() - 2] == '3'
    &&& s[s.len() - 1] == 'u'
    &&& s[s.len() - 5] != '/'
}

/// Checks whether `path` names a playlist file.
pub fn is_m3u_file(path: &str) -> (r: bool)
    ensures
        r == is_m3u_path(path@),
{
    let n = path.unicode_len();
    if n < 5 {
        return false;
    }
    path.get_char(n - 4) == '.' && path.get_char(n - 3) == 'm' && path.get_char(n - 2) == '3'
        && path.get_char(n - 1) == 'u' && path.get_char(n - 5) != '/'
}

fn is_ws_char(c: char) -> (b: bool)
    ensures
        b == is_ws(c),
{
    c == ' ' || c == '\t' || c == '\r'
}

/// Trimming, expressed through the indices an end-to-end scan stops at.
proof fn lemma_trim_front_is(s: Seq<char>, k: int)
    requires
        0 <= k <= s.len(),
        forall|j: int| 0 <= j < k ==> is_ws(s[j]),
        k < s.len() ==> !is_ws(s[k]),
    ensures
        trim_front(s) == s.subrange(k, s.len() as int),
    decreases k,
{
    if k == 0 {
        assert(trim_front(s) =~= s.subrange(0, s.len() as int));
    } else {
        assert(is_ws(s[0]));
        let t = s.drop_first();
        assert(forall|j: int| 0 <= j < k - 1 ==> is_ws(t[j]));
        lemma_trim_front_is(t, k - 1);
        assert(t.subrange(k - 1, t.len() as int) =~= s.subrange(k, s.len() as int));
    }
}

proof fn lemma_trim_back_is(s: Seq<char>, k: int)
    requires
        0 <= k <= s.len(),
        forall|j: int| k <= j < s.len() ==> is_ws(s[j]),
        k > 0 ==> !is_ws(s[k - 1]),
    ensures
        trim_back(s) == s.subrange(0, k),
    decreases s.len(),
{
    if k == s.len() {
        assert(trim_back(s) =~= s.subrange(0, k));
    } else {
        assert(is_ws(s.last()));
        let t = s.drop_last();
        assert(forall|j: int| k <= j < t.len() ==> is_ws(t[j]));
        lemma_trim_back_is(t, k);
        assert(t.subrange(0, k) =~= s.subrange(0, k));
    }
}

proof fn lemma_trimmed_is(s: Seq<char>, lo: int, hi: int)
    requires
        0 <= lo <= hi <= s.len(),
        forall|j: int| 0 <= j < lo ==> is_ws(s[j]),
        forall|j: int| hi <= j < s.len() ==> is_ws(s[j]),
        lo == s.len() || !is_ws(s[lo]),
        hi == lo || !is_ws(s[hi - 1]),
    ensures
        trimmed(s) == s.subrange(lo, hi),
{
    if lo < hi {
        lemma_trim_front_is(s, lo);
    } else {
        // everything is whitespace: lo == hi and lo == s.len() or !is_ws(s[lo]);
        // with j == lo in the second stretch the latter is impossible
        assert(lo == s.len());
        lemma_trim_front_is(s, lo);
    }
    let tf = s.subrange(lo, s.len() as int);
    assert(forall|j: int| hi - lo <= j < tf.len() ==> is_ws(tf[j]));
    lemma_trim_back_is(tf, hi - lo);
    assert(tf.subrange(0, hi - lo) =~= s.subrange(lo, hi));
}

/// Unrolls `entries_from` across one line that ends at `nl` (a newline, or
/// the end of the text).
proof fn lemma_entries_from_line(s: Seq<char>, from: int, nl: int)
    requires
        0 <= from <= nl <= s.len(),
        forall|j: int| from <= j < nl ==> s[j] != '\n',
        nl < s.len() ==> s[nl] == '\n',
    ensures
        ({
            let line = trimmed(s.subrange(from, nl));
            let rest = if nl >= s.len() {
                Seq::<Seq<char>>::empty()
            } else {
                entries_from(s, nl + 1)
            };
            entries_from(s, from) == if keeps_line(line) {
                seq![line] + rest
            } else {
                rest
            }
        }),
{
    if from >= s.len() {
        assert(from == s.len() && nl == s.len());
        assert(s.subrange(from, nl) =~= Seq::<char>::empty());
        assert(trimmed(Seq::<char>::empty()) =~= Seq::<char>::empty());
    } else {
        lemma_find_newline_is(s, from, nl);
    }
}

/// Appends to `items` the entry that the line `text[start..end]` yields,
/// if it yields one.
fn push_line(items: &mut Vec<String>, text: &str, start: usize, end: usize)
    requires
        start <= end <= text@.len(),
    ensures
        ({
            let line = trimmed(text@.subrange(start as int, end as int));
            if keeps_line(line) {
                views_of(final(items)@) == views_of(old(items)@).push(line)
            } else {
                final(items)@ == old(items)@
            }
        }),
{
    let ghost line0 = text@.subrange(start as int, end as int);
    let mut lo = start;
    loop
        invariant_except_break
            start <= lo <= end,
            end <= text@.len(),
            forall|j: int| start <= j < lo ==> is_ws(text@[j]),
        ensures
            start <= lo <= end <= text@.len(),
            forall|j: int| start <= j < lo ==> is_ws(text@[j]),
            lo == end || !is_ws(text@[lo as int]),
        decreases end - lo,
    {
        if lo == end {
            break;
        }
        if !is_ws_char(text.get_char(lo)) {
            break;
        }
        lo += 1;
    }
    let mut hi = end;
    loop
        invariant_except_break
            lo <= hi <= end <= text@.len(),
            lo == end || !is_ws(text@[lo as int]),
            forall|j: int| hi <= j < end ==> is_ws(text@[j]),
        ensures
            lo <= hi <= end,
            forall|j: int| hi <= j < end ==> is_ws(text@[j]),
            hi == lo || !is_ws(text@[hi - 1]),
        decreases hi,
    {
        if hi == lo {
            break;
        }
        if !is_ws_char(text.get_char(hi - 1)) {
            break;
        }
        hi -= 1;
    }
    proof {
        assert(forall|j: int| 0 <= j < lo - start ==> is_ws(line0[j]));
        assert(forall|j: int| hi - start <= j < line0.len() ==> is_ws(line0[j]));
        lemma_trimmed_is(line0, lo - start, hi - start);
        assert(trimmed(line0) =~= text@.subrange(lo as int, hi as int));
    }
    if lo == hi {
        // the line is empty once trimmed
        return;
    }
    if text.get_char(lo) == '#' {
        // a comment line
        return;
    }
    let entry = text.substring_char(lo, hi).to_owned();
    items.push(entry);
    proof {
        assert(views_of(items@) =~= views_of(old(items)@).push(trimmed(line0)));
    }
}

/// Splits a playlist text into its entries: each line is trimmed of
/// whitespace, and blank lines and comments are dropped.
pub fn parse_playlist(text: &str) -> (items: Vec<String>)
    ensures
        views_of(items@) == playlist_entries(text@),
{
    let n = text.unicode_len();
    let mut items: Vec<String> = Vec::new();
    let mut i: usize = 0;
    let mut start: usize = 0;
    while i < n
        invariant
            start <= i <= n,
            n == text@.len(),
            start == 0 || text@[start as int - 1] == '\n',
            forall|j: int| start <= j < i ==> text@[j] != '\n',
            playlist_entries(text@) == views_of(items@) + entries_from(text@, start as int),
        decreases n - i,
    {
        if text.get_char(i) == '\n' {
            proof {
                lemma_entries_from_line(text@, start as int, i as int);
            }
            let ghost items0 = items@;
            push_line(&mut items, text, start, i);
            proof {
                let line = trimmed(text@.subrange(start as int, i as int));
                if keeps_line(line) {
                    assert(views_of(items@) + entries_from(text@, i + 1) =~= views_of(items0)
                        + entries_from(text@, start as int));
                } else {
                    assert(views_of(items@) + entries_from(text@, i + 1) =~= views_of(items0)
                        + entries_from(text@, start as int));
                }
            }
            start = i + 1;
        }
        i += 1;
    }
    proof {
        lemma_entries_from_line(text@, start as int, n as int);
    }
    let ghost items1 = items@;
    push_line(&mut items, text, start, n);
    proof {
        let line = trimmed(text@.subrange(start as int, n as int));
        if keeps_line(line) {
            assert(views_of(items@) =~= views_of(items1).push(line));
            assert(views_of(items@) =~= views_of(items1) + entries_from(text@, start as int));
        } else {
            assert(views_of(items@) =~= views_of(items1) + entries_from(text@, start as int));
        }
    }
    items
}

} // verus!
