//! Verified text utilities for the diagnostic-output parsers: splitting raw
//! tool output into lines, splitting a line into whitespace-separated
//! columns, locating the last `:` of an address, and searching a column for
//! the `LISTEN` marker.
//!
//! Each executable function is proved equal to a recursive specification
//! over `Seq<char>`; the parsers' contracts are stated over these
//! specifications.

use vstd::prelude::*;
use vstd::string::StrSliceExecFns;
use vstd::string::StringExecFns;

verus! {

/// The whitespace characters a diagnostic line is split on (the ASCII
/// whitespace set).
pub open spec fn is_space(c: char) -> bool {
    c == ' ' || c == '\t' || c == '\n' || c == '\r' || c == '\u{b}' || c == '\u{c}'
}

/// Executable test matching [`is_space`].
fn is_space_char(c: char) -> (r: bool)
    ensures
        r == is_space(c),
{
    c == ' ' || c == '\t' || c == '\n' || c == '\r' || c == '\u{b}' || c == '\u{c}'
}

/// Index of the first `'\n'` of `s`, or `s.len()` when `s` has none.
pub open spec fn line_break(s: Seq<char>) -> int
    decreases s.len(),
{
    if s.len() == 0 {
        0
    } else if s[0] == '\n' {
        0
    } else {
        1 + line_break(s.drop_first())
    }
}

/// `line_break` is a position in `s`: in range, not preceded by `'\n'`, and
/// itself `'\n'` unless it is the end.
pub proof fn lemma_line_break_bounds(s: Seq<char>)
    ensures
        0 <= line_break(s) <= s.len(),
        line_break(s) < s.len() ==> s[line_break(s)] == '\n',
        forall|m: int| 0 <= m < line_break(s) ==> s[m] != '\n',
    decreases s.len(),
{
    if s.len() == 0 || s[0] == '\n' {
    } else {
        lemma_line_break_bounds(s.drop_first());
        assert forall|m: int| 0 <= m < line_break(s) implies s[m] != '\n' by {
            if m > 0 {
                assert(s.drop_first()[m - 1] != '\n');
            }
        }
    }
}

/// The first position at or after which `s` holds `'\n'` is `line_break(s)`.
proof fn lemma_line_break_at(s: Seq<char>, k: int)
    requires
        0 <= k <= s.len(),
        forall|m: int| 0 <= m < k ==> s[m] != '\n',
        k == s.len() || s[k] == '\n',
    ensures
        line_break(s) == k,
    decreases k,
{
    if s.len() == 0 {
    } else if s[0] == '\n' {
    } else {
        assert forall|m: int| 0 <= m < k - 1 implies s.drop_first()[m] != '\n' by {
            assert(s[m + 1] != '\n');
        }
        lemma_line_break_at(s.drop_first(), k - 1);
    }
}

/// A line as the `lines` iteration hands it out: when the line ended in
/// `"\r\n"`, the `'\r'` is stripped.
pub open spec fn strip_cr(s: Seq<char>) -> Seq<char> {
    if s.len() > 0 && s.last() == '\r' {
        s.drop_last()
    } else {
        s
    }
}

/// The lines of `s`: split at each `'\n'`, a trailing `'\r'` stripped from
/// every line that ended at a `'\n'`, and no final empty line when `s` ends
/// with `'\n'`.
pub open spec fn spec_lines(s: Seq<char>) -> Seq<Seq<char>>
    decreases s.len(),
    via spec_lines_decreases
{
    if s.len() == 0 {
        Seq::empty()
    } else {
        let k = line_break(s);
        if k == s.len() {
            seq![s]
        } else {
            seq![strip_cr(s.take(k))] + spec_lines(s.skip(k + 1))
        }
    }
}

#[via_fn]
proof fn spec_lines_decreases(s: Seq<char>) {
    lemma_line_break_bounds(s);
}

/// Splits `s` into its lines, as [`spec_lines`] states.
pub fn split_lines(s: &str) -> (lines: Vec<String>)
    ensures
        lines.deep_view() == spec_lines(s@),
{
    let n = s.unicode_len();
    let mut lines: Vec<String> = Vec::new();
    let mut i: usize = 0;
    proof {
        assert(s@.skip(0) =~= s@);
        assert(lines.deep_view() + spec_lines(s@.skip(0)) =~= spec_lines(s@));
    }
    while i < n
        invariant
            n == s@.len(),
            i <= n,
            spec_lines(s@) =~= lines.deep_view() + spec_lines(s@.skip(i as int)),
        decreases n - i,
    {
        // scan to the end of the current line
        let mut j: usize = i;
        while j < n && s.get_char(j) != '\n'
            invariant
                n == s@.len(),
                i <= j <= n,
                forall|m: int| i <= m < j ==> s@[m] != '\n',
            decreases n - j,
        {
            j += 1;
        }
        proof {
            let rest = s@.skip(i as int);
            assert forall|m: int| 0 <= m < j - i implies rest[m] != '\n' by {
                assert(rest[m] == s@[m + i]);
            }
            if j < n {
                assert(rest[j - i] == s@[j as int]);
            }
            lemma_line_break_at(rest, j - i);
        }
        if j < n {
            // the line ends at a '\n': strip one trailing '\r'
            let end = if j > i && s.get_char(j - 1) == '\r' {
                j - 1
            } else {
                j
            };
            let line = s.substring_char(i, end);
            lines.push(line.to_owned());
            proof {
                let rest = s@.skip(i as int);
                assert(rest.take(j - i) =~= s@.subrange(i as int, j as int));
                assert(strip_cr(rest.take(j - i)) =~= s@.subrange(i as int, end as int));
                assert(rest.skip(j - i + 1) =~= s@.skip(j + 1));
                assert(spec_lines(rest) == seq![strip_cr(rest.take(j - i))] + spec_lines(
                    rest.skip(j - i + 1),
                ));
                assert(lines.deep_view() =~= lines.deep_view().drop_last().push(
                    s@.subrange(i as int, end as int),
                ));
                assert(lines.deep_view() + spec_lines(s@.skip(j + 1)) =~= lines
                    .deep_view()
                    .drop_last() + spec_lines(rest));
            }
            i = j + 1;
        } else {
            // the final line runs to the end of `s` and keeps any '\r'
            let line = s.substring_char(i, n);
            lines.push(line.to_owned());
            proof {
                let rest = s@.skip(i as int);
                assert(rest =~= s@.subrange(i as int, n as int));
                assert(spec_lines(rest) == seq![rest]);
                assert(lines.deep_view() =~= lines.deep_view().drop_last() + seq![rest]);
                assert(s@.skip(n as int) =~= Seq::<char>::empty());
                assert(lines.deep_view() + spec_lines(s@.skip(n as int)) =~= lines.deep_view());
            }
            i = n;
        }
    }
    proof {
        assert(s@.skip(n as int) =~= Seq::<char>::empty());
        assert(lines.deep_view() + spec_lines(s@.skip(i as int)) =~= lines.deep_view());
    }
    lines
}

/// Length of the maximal non-whitespace prefix of `s`.
pub open spec fn word_len(s: Seq<char>) -> int
    decreases s.len(),
{
    if s.len() == 0 || is_space(s[0]) {
        0
    } else {
        1 + word_len(s.drop_first())
    }
}

/// `word_len` stays within `s`.
pub proof fn lemma_word_len_bounds(s: Seq<char>)
    ensures
        0 <= word_len(s) <= s.len(),
    decreases s.len(),
{
    if s.len() == 0 || is_space(s[0]) {
    } else {
        lemma_word_len_bounds(s.drop_first());
    }
}

/// The position of the first whitespace (or the end) is `word_len(s)`.
proof fn lemma_word_len_at(s: Seq<char>, k: int)
    requires
        0 <= k <= s.len(),
        forall|m: int| 0 <= m < k ==> !is_space(s[m]),
        k == s.len() || is_space(s[k]),
    ensures
        word_len(s) == k,
    decreases k,
{
    if s.len() == 0 || is_space(s[0]) {
    } else {
        assert forall|m: int| 0 <= m < k - 1 implies !is_space(s.drop_first()[m]) by {
            assert(!is_space(s[m + 1]));
        }
        lemma_word_len_at(s.drop_first(), k - 1);
    }
}

/// The whitespace-separated words of `s`, in order.
pub open spec fn spec_words(s: Seq<char>) -> Seq<Seq<char>>
    decreases s.len(),
    via spec_words_decreases
{
    if s.len() == 0 {
        Seq::empty()
    } else if is_space(s[0]) {
        spec_words(s.drop_first())
    } else {
        seq![s.take(word_len(s))] + spec_words(s.skip(word_len(s)))
    }
}

#[via_fn]
proof fn spec_words_decreases(s: Seq<char>) {
    if s.len() > 0 && !is_space(s[0]) {
        lemma_word_len_bounds(s.drop_first());
    }
}

/// Every word is nonempty.
pub proof fn lemma_words_nonempty(s: Seq<char>)
    ensures
        forall|i: int| 0 <= i < spec_words(s).len() ==> spec_words(s)[i].len() >= 1,
    decreases s.len(),
{
    if s.len() == 0 {
    } else if is_space(s[0]) {
        lemma_words_nonempty(s.drop_first());
        assert(spec_words(s) == spec_words(s.drop_first()));
    } else {
        lemma_word_len_bounds(s);
        lemma_word_len_bounds(s.drop_first());
        lemma_words_nonempty(s.skip(word_len(s)));
        assert forall|i: int| 0 <= i < spec_words(s).len() implies spec_words(s)[i].len() >= 1 by {
            if i == 0 {
                assert(spec_words(s)[0] == s.take(word_len(s)));
            } else {
                assert(spec_words(s)[i] == spec_words(s.skip(word_len(s)))[i - 1]);
            }
        }
    }
}

/// Splits `s` into its whitespace-separated words, as [`spec_words`] states.
pub fn split_words(s: &str) -> (words: Vec<String>)
    ensures
        words.deep_view() == spec_words(s@),
{
    let n = s.unicode_len();
    let mut words: Vec<String> = Vec::new();
    let mut i: usize = 0;
    proof {
        assert(s@.skip(0) =~= s@);
        assert(words.deep_view() + spec_words(s@.skip(0)) =~= spec_words(s@));
    }
    while i < n
        invariant
            n == s@.len(),
            i <= n,
            spec_words(s@) =~= words.deep_view() + spec_words(s@.skip(i as int)),
        decreases n - i,
    {
        if is_space_char(s.get_char(i)) {
            proof {
                let rest = s@.skip(i as int);
                assert(rest[0] == s@[i as int]);
                assert(rest.drop_first() =~= s@.skip(i + 1));
            }
            i += 1;
        } else {
            // scan to the end of the current word
            let mut j: usize = i + 1;
            while j < n && !is_space_char(s.get_char(j))
                invariant
                    n == s@.len(),
                    i < j <= n,
                    forall|m: int| i <= m < j ==> !is_space(s@[m]),
                decreases n - j,
            {
                j += 1;
            }
            proof {
                let rest = s@.skip(i as int);
                assert forall|m: int| 0 <= m < j - i implies !is_space(rest[m]) by {
                    assert(rest[m] == s@[m + i]);
                }
                if j < n {
                    assert(rest[j - i] == s@[j as int]);
                }
                lemma_word_len_at(rest, j - i);
                assert(rest.take(j - i) =~= s@.subrange(i as int, j as int));
                assert(rest.skip(j - i) =~= s@.skip(j as int));
                assert(spec_words(rest) == seq![s@.subrange(i as int, j as int)] + spec_words(
                    s@.skip(j as int),
                ));
            }
            let w = s.substring_char(i, j);
            words.push(w.to_owned());
            proof {
                assert(words.deep_view() =~= words.deep_view().drop_last().push(
                    s@.subrange(i as int, j as int),
                ));
                assert(words.deep_view() + spec_words(s@.skip(j as int)) =~= words
                    .deep_view()
                    .drop_last() + spec_words(s@.skip(i as int)));
            }
            i = j;
        }
    }
    proof {
        assert(s@.skip(n as int) =~= Seq::<char>::empty());
        assert(words.deep_view() + spec_words(s@.skip(i as int)) =~= words.deep_view());
    }
    words
}

/// Index of the last `':'` of `s`, or `-1` when `s` has none.
pub open spec fn last_colon(s: Seq<char>) -> int
    decreases s.len(),
{
    if s.len() == 0 {
        -1
    } else if s.last() == ':' {
        s.len() - 1
    } else {
        last_colon(s.drop_last())
    }
}

/// Whether `s` holds a `':'` at all.
pub open spec fn has_colon(s: Seq<char>) -> bool {
    last_colon(s) >= 0
}

/// What follows the last `':'` of `s`.
pub open spec fn after_last_colon(s: Seq<char>) -> Seq<char> {
    s.subrange(last_colon(s) + 1, s.len() as int)
}

/// A position bears out `last_colon` when it holds `':'` with none after it,
/// or is `-1` with no `':'` anywhere.
proof fn lemma_last_colon_at(s: Seq<char>, k: int)
    requires
        -1 <= k < s.len(),
        k >= 0 ==> s[k] == ':',
        forall|m: int| k < m < s.len() ==> s[m] != ':',
    ensures
        last_colon(s) == k,
    decreases s.len(),
{
    if s.len() == 0 {
    } else if s.last() == ':' {
        assert(k == s.len() - 1);
    } else {
        assert(k < s.len() - 1);
        assert forall|m: int| k < m < s.len() - 1 implies s.drop_last()[m] != ':' by {
            assert(s[m] != ':');
        }
        lemma_last_colon_at(s.drop_last(), k);
    }
}

/// The substring after the last `':'` of `s`, or `None` when `s` has no
/// `':'`.
pub fn port_after_colon(s: &str) -> (r: Option<String>)
    ensures
        r is Some <==> has_colon(s@),
        r matches Some(p) ==> p@ == after_last_colon(s@),
{
    let n = s.unicode_len();
    let mut j: usize = n;
    while j > 0 && s.get_char(j - 1) != ':'
        invariant
            n == s@.len(),
            j <= n,
            forall|m: int| j <= m < n ==> s@[m] != ':',
        decreases j,
    {
        j -= 1;
    }
    if j == 0 {
        proof {
            lemma_last_colon_at(s@, -1);
        }
        None
    } else {
        proof {
            lemma_last_colon_at(s@, j - 1);
        }
        let p = s.substring_char(j, n);
        proof {
            assert(p@ =~= after_last_colon(s@));
        }
        Some(p.to_owned())
    }
}

/// `w` holds the marker `LISTEN` starting at position `i`.
pub open spec fn listen_at(w: Seq<char>, i: int) -> bool {
    &&& 0 <= i
    &&& i + 6 <= w.len()
    &&& w[i] == 'L'
    &&& w[i + 1] == 'I'
    &&& w[i + 2] == 'S'
    &&& w[i + 3] == 'T'
    &&& w[i + 4] == 'E'
    &&& w[i + 5] == 'N'
}

/// `w` holds the marker `LISTEN` somewhere.
pub open spec fn has_listen(w: Seq<char>) -> bool {
    exists|i: int| listen_at(w, i)
}

/// Whether `s` holds the substring `LISTEN`.
pub fn contains_listen(s: &str) -> (r: bool)
    ensures
        r == has_listen(s@),
{
    let n = s.unicode_len();
    if n < 6 {
        proof {
            assert forall|m: int| !listen_at(s@, m) by {}
        }
        return false;
    }
    let mut i: usize = 0;
    while i <= n - 6
        invariant
            n == s@.len(),
            n >= 6,
            i <= n - 5,
            forall|m: int| 0 <= m < i ==> !listen_at(s@, m),
        decreases n - i,
    {
        if s.get_char(i) == 'L' && s.get_char(i + 1) == 'I' && s.get_char(i + 2) == 'S'
            && s.get_char(i + 3) == 'T' && s.get_char(i + 4) == 'E' && s.get_char(i + 5) == 'N' {
            proof {
                assert(listen_at(s@, i as int));
            }
            return true;
        }
        i += 1;
    }
    proof {
        assert forall|m: int| !listen_at(s@, m) by {
            if 0 <= m < i {
            } else if m >= i {
                assert(m + 6 > n);
            }
        }
    }
    false
}

} // verus!
