//! The line structure of a text, as the rope that holds the document sees
//! it, and small text helpers.
use vstd::prelude::*;

verus! {

/// A character that ends a line on its own: LF, VT, FF, NEL, LS and PS.
pub open spec fn is_line_break_char(c: char) -> bool {
    c == '\n' || c == '\u{b}' || c == '\u{c}' || c == '\u{85}' || c == '\u{2028}' || c
        == '\u{2029}'
}

/// A line break ends right after position `i` of `t`: the character there
/// breaks the line by itself, or it is a CR that is not the first half of
/// a CRLF pair.
pub open spec fn ends_break(t: Seq<char>, i: int) -> bool {
    &&& 0 <= i < t.len()
    &&& (is_line_break_char(t[i]) || (t[i] == '\r' && !(i + 1 < t.len() && t[i + 1] == '\n')))
}

/// The positions, in increasing order, of the last characters of the line
/// breaks among the first `k` characters of `t`.
pub open spec fn breaks_before(t: Seq<char>, k: int) -> Seq<int>
    decreases k,
{
    if k <= 0 {
        Seq::empty()
    } else if ends_break(t, k - 1) {
        breaks_before(t, k - 1).push(k - 1)
    } else {
        breaks_before(t, k - 1)
    }
}

/// All line breaks of `t`.
pub open spec fn all_breaks(t: Seq<char>) -> Seq<int> {
    breaks_before(t, t.len() as int)
}

/// The number of lines of `t`: one more than its line breaks.
pub open spec fn line_count(t: Seq<char>) -> nat {
    all_breaks(t).len() + 1
}

/// The index of the first character of line `l`; for `l` one past the last
/// line (or beyond), the length of the text.
pub open spec fn line_start(t: Seq<char>, l: int) -> int {
    if l <= 0 {
        0
    } else if l <= all_breaks(t).len() {
        all_breaks(t)[l - 1] + 1
    } else {
        t.len() as int
    }
}

/// The line on which the character at index `c` stands: the number of line
/// breaks before it.
pub open spec fn line_of_char(t: Seq<char>, c: int) -> int {
    breaks_before(t, c).len() as int
}

/// The characters of line `l`, its line break included.
pub open spec fn line_text(t: Seq<char>, l: int) -> Seq<char> {
    t.subrange(line_start(t, l), line_start(t, l + 1))
}

/// `s` without its trailing LF characters.
pub open spec fn trim_newlines(s: Seq<char>) -> Seq<char>
    decreases s.len(),
{
    if s.len() > 0 && s.last() == '\n' {
        trim_newlines(s.drop_last())
    } else {
        s
    }
}

/// The number of characters of line `l` once its trailing LFs are dropped.
pub open spec fn line_len(t: Seq<char>, l: int) -> int {
    trim_newlines(line_text(t, l)).len() as int
}

/// The breaks before `k` lie in `[0, k)`, in increasing order, and those
/// before a smaller bound form a prefix.
pub proof fn lemma_breaks_before(t: Seq<char>, k: int)
    requires
        0 <= k,
    ensures
        breaks_before(t, k).len() <= k,
        forall|i: int| 0 <= i < breaks_before(t, k).len() ==> 0 <= #[trigger] breaks_before(t, k)[i] < k,
        forall|i: int, j: int|
            0 <= i < j < breaks_before(t, k).len() ==> breaks_before(t, k)[i] < breaks_before(
                t,
                k,
            )[j],
        forall|i: int|
            0 <= i < breaks_before(t, k).len() ==> ends_break(t, #[trigger] breaks_before(t, k)[i]),
    decreases k,
{
    if k > 0 {
        lemma_breaks_before(t, k - 1);
    }
}

/// The breaks before `k1` are a prefix of those before a later `k2`.
pub proof fn lemma_breaks_prefix(t: Seq<char>, k1: int, k2: int)
    requires
        0 <= k1 <= k2,
    ensures
        breaks_before(t, k1).len() <= breaks_before(t, k2).len(),
        forall|i: int|
            0 <= i < breaks_before(t, k1).len() ==> #[trigger] breaks_before(t, k1)[i]
                == breaks_before(t, k2)[i],
    decreases k2 - k1,
{
    if k1 < k2 {
        lemma_breaks_prefix(t, k1, k2 - 1);
    }
}

/// Line starts lie within the text, and never decrease.
pub proof fn lemma_line_start_bounds(t: Seq<char>, l: int)
    ensures
        0 <= line_start(t, l) <= t.len(),
        line_start(t, l) <= line_start(t, l + 1),
        line_count(t) <= t.len() + 1,
{
    lemma_breaks_before(t, t.len() as int);
}

/// A line's length without its trailing LFs lies between zero and the
/// length of the text.
pub proof fn lemma_line_len_bounds(t: Seq<char>, l: int)
    ensures
        0 <= line_len(t, l) <= t.len(),
{
    lemma_line_start_bounds(t, l);
    lemma_line_start_bounds(t, l + 1);
    lemma_trim_newlines(line_text(t, l));
}

/// A character stands no earlier than the start of its own line.
pub proof fn lemma_line_of_char(t: Seq<char>, c: int)
    requires
        0 <= c <= t.len(),
    ensures
        0 <= line_of_char(t, c) < line_count(t),
        line_start(t, line_of_char(t, c)) <= c,
{
    lemma_breaks_before(t, c);
    lemma_breaks_prefix(t, c, t.len() as int);
    let k = line_of_char(t, c);
    if k > 0 {
        assert(breaks_before(t, c)[k - 1] < c);
    }
}

/// The breaks of the first `k2` characters that are not among the first
/// `k1` lie at or after `k1`.
pub proof fn lemma_breaks_beyond(t: Seq<char>, k1: int, k2: int)
    requires
        0 <= k1 <= k2,
    ensures
        forall|j: int|
            breaks_before(t, k1).len() <= j < breaks_before(t, k2).len() ==> #[trigger] breaks_before(
                t,
                k2,
            )[j] >= k1,
    decreases k2 - k1,
{
    if k1 < k2 {
        lemma_breaks_beyond(t, k1, k2 - 1);
        lemma_breaks_prefix(t, k1, k2 - 1);
    }
}

/// Every line break of the text is listed among its breaks, at the index
/// that counts the breaks before it.
pub proof fn lemma_break_listed(t: Seq<char>, p: int)
    requires
        ends_break(t, p),
    ensures
        line_of_char(t, p) < all_breaks(t).len(),
        all_breaks(t)[line_of_char(t, p)] == p,
{
    assert(breaks_before(t, p + 1) == breaks_before(t, p).push(p));
    assert(breaks_before(t, p + 1)[line_of_char(t, p)] == p);
    lemma_breaks_prefix(t, p + 1, t.len() as int);
}

/// Dropping trailing LFs never reaches into a first part that has none.
pub proof fn lemma_trim_keeps_prefix(u: Seq<char>, k: int)
    requires
        0 <= k <= u.len(),
        forall|p: int| 0 <= p < k ==> u[p] != '\n',
    ensures
        trim_newlines(u).len() >= k,
    decreases u.len(),
{
    if u.len() > 0 && u.last() == '\n' {
        assert(u.len() - 1 >= k);
        lemma_trim_keeps_prefix(u.drop_last(), k);
    }
}

/// A character index lies within its own line: its column there is at most
/// the line's length without its trailing LF.
pub proof fn lemma_index_in_line(t: Seq<char>, c: int)
    requires
        0 <= c <= t.len(),
    ensures
        c - line_start(t, line_of_char(t, c)) <= line_len(t, line_of_char(t, c)),
{
    let l = line_of_char(t, c);
    let ab = all_breaks(t);
    lemma_line_of_char(t, c);
    lemma_breaks_before(t, t.len() as int);
    lemma_breaks_prefix(t, c, t.len() as int);
    lemma_breaks_beyond(t, c, t.len() as int);
    lemma_line_start_bounds(t, l);
    let s = line_start(t, l);
    let e = line_start(t, l + 1);
    if l < ab.len() {
        assert(ab[l] >= c);
    }
    assert(c <= e);
    let u = line_text(t, l);
    assert forall|p: int| 0 <= p < c - s implies u[p] != '\n' by {
        let q = s + p;
        if t[q] == '\n' {
            assert(ends_break(t, q));
            lemma_break_listed(t, q);
            let j = line_of_char(t, q);
            if j < l {
                assert(ab[j] <= ab[l - 1]);
            } else {
                assert(ab[j] >= c);
            }
        }
    }
    lemma_trim_keeps_prefix(u, c - s);
}

/// Two texts that agree on their first `k + 1` characters have the same
/// breaks among the first `k`: whether a character ends a break depends at
/// most on the character after it.
proof fn lemma_breaks_agree_cr(t1: Seq<char>, t2: Seq<char>, k: int)
    requires
        0 <= k < t1.len(),
        k < t2.len(),
        forall|i: int| 0 <= i <= k ==> t1[i] == t2[i],
    ensures
        breaks_before(t1, k) == breaks_before(t2, k),
    decreases k,
{
    if k > 0 {
        assert(ends_break(t1, k - 1) == ends_break(t2, k - 1));
        lemma_breaks_agree_cr(t1, t2, k - 1);
    }
}

/// Deleting the character at a position within a line (at most at its end,
/// and not past the text) keeps that position within that line: the line
/// still exists and is still at least that long.
pub proof fn lemma_delete_keeps_position(t: Seq<char>, l: int, col: int)
    requires
        0 <= l < line_count(t),
        0 <= col <= line_len(t, l),
        line_start(t, l) + col < t.len(),
    ensures
        ({
            let c = line_start(t, l) + col;
            let t2 = t.take(c) + t.skip(c + 1);
            l < line_count(t2) && col <= line_len(t2, l)
        }),
{
    let s = line_start(t, l);
    let c = s + col;
    let t2 = t.take(c) + t.skip(c + 1);
    let ab = all_breaks(t);
    let ab2 = all_breaks(t2);
    lemma_breaks_before(t, t.len() as int);
    lemma_breaks_before(t2, t2.len() as int);
    lemma_line_start_bounds(t, l);
    lemma_line_start_bounds(t, l + 1);
    lemma_line_start_bounds(t2, l);
    if l == 0 && col == 0 {
        return;
    }
    assert(c >= 1);
    assert forall|i: int| 0 <= i <= c - 1 implies t[i] == t2[i] by {}
    lemma_breaks_agree_cr(t, t2, c - 1);
    lemma_breaks_before(t, c - 1);
    lemma_breaks_prefix(t, c - 1, t.len() as int);
    lemma_breaks_prefix(t2, c - 1, t2.len() as int);
    lemma_breaks_beyond(t, c - 1, t.len() as int);
    lemma_breaks_beyond(t2, c - 1, t2.len() as int);
    let b1 = breaks_before(t, c - 1);
    let n1 = b1.len() as int;
    // The text of line `l` in `t` runs up to its break (or the end).
    let u = line_text(t, l);
    lemma_trim_newlines(u);
    if col >= 1 {
        // Line `l` starts after the first `l` breaks, all before `c - 1`.
        if l >= 1 {
            assert(ab[l - 1] == s - 1);
            assert(l - 1 < n1);
        }
        // Line `l`'s own break is not before `c - 1`.
        if l < ab.len() {
            assert(ab[l] >= c - 1);
            if l < n1 {
                assert(b1[l] == ab[l]);
            }
        }
        assert(n1 == l);
        if l >= 1 {
            assert(ab2[l - 1] == b1[l - 1]);
        }
        assert(line_start(t2, l) == s);
        // No LF among the `col` characters of line `l` before `c`.
        assert forall|p: int| 0 <= p < col implies #[trigger] t[s + p] != '\n' by {
            let q = s + p;
            if t[q] == '\n' {
                assert(ends_break(t, q));
                lemma_break_listed(t, q);
                let j = line_of_char(t, q);
                if q == c - 1 {
                    assert(breaks_before(t, c) == b1.push(c - 1));
                    lemma_breaks_prefix(t, c, t.len() as int);
                    assert(ab[l] == c - 1);
                    assert(u.last() == '\n');
                    assert(trim_newlines(u) == trim_newlines(u.drop_last()));
                    lemma_trim_newlines(u.drop_last());
                } else if j < l {
                    assert(ab[j] <= ab[l - 1]);
                } else {
                    assert(ab[j] >= c - 1);
                }
            }
        }
        let e2 = line_start(t2, l + 1);
        if l < ab2.len() {
            assert(ab2[l] >= c - 1);
        }
        assert(e2 >= c);
        let u2 = line_text(t2, l);
        assert forall|p: int| 0 <= p < col implies u2[p] != '\n' by {
            assert(u2[p] == t[s + p]);
        }
        lemma_trim_keeps_prefix(u2, col);
    } else {
        // The cursor is at the start of line `l >= 1`, just after a break.
        assert(ab[l - 1] == c - 1);
        if l >= 2 {
            assert(ab[l - 2] < c - 1);
            assert(l - 2 < n1);
        }
        assert(n1 <= l - 1) by {
            if n1 > l - 1 {
                assert(b1[l - 1] == ab[l - 1]);
            }
        }
        assert(ends_break(t, c - 1));
        if t[c - 1] != '\r' {
            assert(ends_break(t2, c - 1));
            lemma_break_listed(t2, c - 1);
        } else if c < t2.len() && t2[c] == '\n' {
            assert(ends_break(t2, c));
            lemma_break_listed(t2, c);
            lemma_breaks_prefix(t2, c - 1, c);
        } else {
            assert(ends_break(t2, c - 1));
            lemma_break_listed(t2, c - 1);
        }
    }
}

/// Inserting a character other than LF at a position within a line, before
/// its break, makes that line one longer past the position, unless the
/// position splits a CRLF pair (which would break the line there).
pub proof fn lemma_insert_keeps_position(t: Seq<char>, l: int, col: int, ch: char)
    requires
        0 <= l < line_count(t),
        0 <= col <= line_len(t, l),
        line_of_char(t, line_start(t, l) + col) == l,
        ch != '\n',
        !({
            let c = line_start(t, l) + col;
            1 <= c < t.len() && t[c - 1] == '\r' && t[c] == '\n'
        }),
    ensures
        ({
            let c = line_start(t, l) + col;
            let t1 = t.insert(c, ch);
            l < line_count(t1) && col + 1 <= line_len(t1, l)
        }),
{
    let s = line_start(t, l);
    let c = s + col;
    let ab = all_breaks(t);
    lemma_breaks_before(t, t.len() as int);
    lemma_line_start_bounds(t, l);
    lemma_line_start_bounds(t, l + 1);
    let u = line_text(t, l);
    lemma_trim_newlines(u);
    assert(c <= t.len());
    let t1 = t.insert(c, ch);
    let ab1 = all_breaks(t1);
    lemma_breaks_before(t1, t1.len() as int);
    lemma_line_start_bounds(t1, l);
    lemma_line_start_bounds(t1, l + 1);
    lemma_breaks_before(t, c);
    lemma_breaks_prefix(t, c, t.len() as int);
    assert(breaks_before(t, c).len() == l);
    if c >= 1 {
        assert forall|i: int| 0 <= i <= c - 1 implies t[i] == t1[i] by {}
        lemma_breaks_agree_cr(t, t1, c - 1);
        lemma_breaks_before(t, c - 1);
        lemma_breaks_prefix(t, c - 1, c);
        lemma_breaks_prefix(t1, c - 1, t1.len() as int);
    }
    if col == 0 {
        if l >= 1 {
            assert(ab[l - 1] == c - 1);
            assert(ends_break(t, c - 1));
            assert(breaks_before(t, c) == breaks_before(t, c - 1).push(c - 1));
            assert(ends_break(t1, c - 1));
            lemma_break_listed(t1, c - 1);
            assert(ab1[l - 1] == c - 1);
        }
        assert(line_start(t1, l) == c);
    } else {
        // The character before the position is no break in either text.
        assert(!ends_break(t, c - 1)) by {
            if ends_break(t, c - 1) {
                assert(breaks_before(t, c) == breaks_before(t, c - 1).push(c - 1));
                if l >= 1 {
                    assert(breaks_before(t, c)[l - 1] == ab[l - 1]);
                }
            }
        }
        assert(breaks_before(t, c) == breaks_before(t, c - 1));
        assert(!ends_break(t1, c - 1));
        assert(breaks_before(t1, c) == breaks_before(t1, c - 1));
        if l >= 1 {
            assert(ab1[l - 1] == breaks_before(t1, c - 1)[l - 1]);
        }
        assert(line_start(t1, l) == s);
        // No LF among the `col` characters of line `l` before the position.
        assert forall|p: int| 0 <= p < col implies #[trigger] t[s + p] != '\n' by {
            let q = s + p;
            if t[q] == '\n' {
                assert(ends_break(t, q));
                lemma_break_listed(t, q);
                let j = line_of_char(t, q);
                lemma_breaks_beyond(t, c, t.len() as int);
                if j < l {
                    assert(ab[j] <= ab[l - 1]);
                } else {
                    assert(ab[j] >= c);
                }
            }
        }
    }
    // Line `l` of the new text runs at least one past the position.
    lemma_breaks_beyond(t1, c, t1.len() as int);
    lemma_breaks_prefix(t1, c, t1.len() as int);
    if l < ab1.len() {
        assert(ab1[l] >= c);
    }
    let u1 = line_text(t1, l);
    assert(line_start(t1, l + 1) >= c + 1);
    assert forall|p: int| 0 <= p < col + 1 implies u1[p] != '\n' by {
        if p < col {
            assert(u1[p] == t[s + p]);
        } else {
            assert(u1[p] == ch);
        }
    }
    lemma_trim_keeps_prefix(u1, col + 1);
}

/// Inserting an LF at a position within a line adds a line after it,
/// except where the position starts the last line just after a CR (the LF
/// then joins that CR into one CRLF break).
pub proof fn lemma_newline_adds_line(t: Seq<char>, l: int, col: int)
    requires
        0 <= l < line_count(t),
        0 <= col <= line_len(t, l),
        !(col == 0 && l >= 1 && t[line_start(t, l) - 1] == '\r' && l + 1 == line_count(t)),
    ensures
        l + 1 < line_count(t.insert(line_start(t, l) + col, '\n')),
{
    let s = line_start(t, l);
    let c = s + col;
    let ab = all_breaks(t);
    lemma_breaks_before(t, t.len() as int);
    lemma_line_start_bounds(t, l);
    lemma_line_start_bounds(t, l + 1);
    lemma_trim_newlines(line_text(t, l));
    assert(c <= t.len());
    let t1 = t.insert(c, '\n');
    let ab1 = all_breaks(t1);
    lemma_breaks_before(t1, t1.len() as int);
    // At least `l` breaks of `t` come before the position.
    lemma_breaks_prefix(t, c, t.len() as int);
    lemma_breaks_beyond(t, c, t.len() as int);
    if l >= 1 {
        assert(ab[l - 1] < c);
    }
    assert(breaks_before(t, c).len() >= l);
    // The inserted LF is a break of the new text.
    assert(ends_break(t1, c));
    lemma_break_listed(t1, c);
    if c == 0 {
        assert(l == 0);
    } else {
        assert forall|i: int| 0 <= i <= c - 1 implies t[i] == t1[i] by {}
        lemma_breaks_agree_cr(t, t1, c - 1);
        lemma_breaks_before(t, c - 1);
        lemma_breaks_prefix(t1, c - 1, c);
        let n0 = breaks_before(t, c - 1).len();
        if ends_break(t, c - 1) && t[c - 1] == '\r' && n0 < l {
            // The CR ending line `l - 1` joins the LF: the break that ends
            // line `l` in the old text is still there, one place on.
            assert(breaks_before(t, c) == breaks_before(t, c - 1).push(c - 1));
            assert(n0 == l - 1);
            assert(breaks_before(t, c)[l - 1] == c - 1);
            assert(ab[l - 1] == c - 1);
            assert(col == 0);
            assert(l < ab.len());
            let q = ab[l];
            assert(q >= c);
            assert(ends_break(t, q));
            assert(t1[q + 1] == t[q]);
            assert(ends_break(t1, q + 1));
            lemma_break_listed(t1, q + 1);
            lemma_breaks_prefix(t1, c + 1, q + 1);
            assert(breaks_before(t1, c + 1) == breaks_before(t1, c).push(c));
        }
    }
}

/// Inserting a character at a position of line `l` (on that line, before
/// its break) leaves the start of line `l` where it was, unless an LF is
/// inserted at the very start of a line that follows a CR (joining the two
/// into one CRLF break).
pub proof fn lemma_insert_keeps_line_start(t: Seq<char>, l: int, col: int, ch: char)
    requires
        0 <= l,
        0 <= col,
        line_start(t, l) + col <= t.len(),
        line_of_char(t, line_start(t, l) + col) == l,
        !(ch == '\n' && col == 0 && line_start(t, l) + col >= 1 && t[line_start(t, l) + col - 1]
            == '\r'),
    ensures
        ({
            let c = line_start(t, l) + col;
            let t1 = t.insert(c, ch);
            &&& line_start(t1, l) == line_start(t, l)
            &&& l <= all_breaks(t1).len()
        }),
{
    let s = line_start(t, l);
    let c = s + col;
    let t1 = t.insert(c, ch);
    let ab = all_breaks(t);
    let ab1 = all_breaks(t1);
    lemma_breaks_before(t, t.len() as int);
    lemma_breaks_before(t1, t1.len() as int);
    lemma_line_start_bounds(t, l);
    lemma_breaks_before(t, c);
    lemma_breaks_prefix(t, c, t.len() as int);
    if l == 0 {
        return;
    }
    assert(l <= ab.len());
    assert(ab[l - 1] == s - 1);
    assert(c >= 1);
    assert forall|i: int| 0 <= i <= c - 1 implies t[i] == t1[i] by {}
    lemma_breaks_agree_cr(t, t1, c - 1);
    lemma_breaks_before(t, c - 1);
    lemma_breaks_prefix(t, c - 1, c);
    lemma_breaks_prefix(t1, c - 1, t1.len() as int);
    if col == 0 {
        // The break ending line `l - 1` is just before the position, and it
        // stays a break.
        assert(breaks_before(t, c)[l - 1] == c - 1);
        assert(ends_break(t, c - 1));
        assert(breaks_before(t, c) == breaks_before(t, c - 1).push(c - 1));
        assert(ends_break(t1, c - 1));
        lemma_break_listed(t1, c - 1);
        assert(ab1[l - 1] == c - 1);
    } else {
        assert(!ends_break(t, c - 1)) by {
            if ends_break(t, c - 1) {
                assert(breaks_before(t, c) == breaks_before(t, c - 1).push(c - 1));
                assert(breaks_before(t, c)[l - 1] == ab[l - 1]);
            }
        }
        assert(breaks_before(t, c) == breaks_before(t, c - 1));
        assert(ab1[l - 1] == breaks_before(t1, c - 1)[l - 1]);
    }
}

/// Every line of `t` ends with an LF: it holds no CR and no other
/// character that breaks a line.
pub open spec fn only_lf_breaks(t: Seq<char>) -> bool {
    forall|i: int|
        0 <= i < t.len() && (is_line_break_char(#[trigger] t[i]) || t[i] == '\r') ==> t[i] == '\n'
}

/// In a text whose lines all end with an LF, a column no further right than
/// a line's length (without its LF) lies on that line: before the next
/// line starts, or anywhere up to the end on the last line.
pub proof fn lemma_column_on_line(t: Seq<char>, l: int, col: int)
    requires
        only_lf_breaks(t),
        0 <= l < line_count(t),
        0 <= col <= line_len(t, l),
    ensures
        line_start(t, l) + col < line_start(t, l + 1) || (l + 1 == line_count(t) && line_start(
            t,
            l,
        ) + col <= t.len()),
{
    let ab = all_breaks(t);
    let s = line_start(t, l);
    lemma_breaks_before(t, t.len() as int);
    lemma_line_start_bounds(t, l);
    lemma_line_start_bounds(t, l + 1);
    let u = line_text(t, l);
    lemma_trim_newlines(u);
    if l < ab.len() {
        let b = ab[l];
        assert(ends_break(t, b));
        assert(t[b] == '\n');
        if l >= 1 {
            assert(ab[l - 1] < b);
        }
        assert(line_start(t, l + 1) == b + 1);
        assert(u.len() == b + 1 - s);
        assert(u.last() == t[b]);
        lemma_trim_newlines(u.drop_last());
        assert(trim_newlines(u) == trim_newlines(u.drop_last()));
    }
}

/// Trimming only drops characters from the end.
pub proof fn lemma_trim_newlines(s: Seq<char>)
    ensures
        trim_newlines(s).len() <= s.len(),
        trim_newlines(s) == s.take(trim_newlines(s).len() as int),
    decreases s.len(),
{
    if s.len() > 0 && s.last() == '\n' {
        lemma_trim_newlines(s.drop_last());
        assert(s.drop_last().take(trim_newlines(s).len() as int) == s.take(
            trim_newlines(s).len() as int,
        ));
    } else {
        assert(s.take(s.len() as int) == s);
    }
}

/// The number of characters of `s` left once its trailing LFs are dropped.
pub fn trimmed_len(s: &str) -> (n: usize)
    ensures
        n == trim_newlines(s@).len(),
{
    let mut n = s.unicode_len();
    proof {
        assert(s@.take(n as int) == s@);
    }
    while n > 0 && s.get_char(n - 1) == '\n'
        invariant
            n <= s@.len(),
            trim_newlines(s@.take(n as int)) == trim_newlines(s@),
        decreases n,
    {
        proof {
            assert(s@.take(n as int).drop_last() == s@.take(n - 1));
        }
        n = n - 1;
    }
    proof {
        lemma_trim_newlines(s@.take(n as int));
    }
    n
}

/// The characters of `s`, in order.
pub fn chars_of(s: &str) -> (r: Vec<char>)
    ensures
        r@ == s@,
{
    broadcast use vstd::string::group_string_axioms;
    let mut r: Vec<char> = Vec::new();
    for c in it: s.chars()
        invariant
            r@ == it.seq().take(it.index() as int),
    {
        r.push(c);
    }
    r
}

/// The lines of `t[start..]` as std's `str::lines` yields them: split at
/// each LF, a CR just before that LF dropped, and no empty line after a
/// final LF.
pub open spec fn lines_from(t: Seq<char>, start: int) -> Seq<Seq<char>>
    decreases t.len() - start,
{
    if start >= t.len() || start < 0 {
        Seq::empty()
    } else {
        let e = next_lf(t, start);
        if e < t.len() {
            proof {
                lemma_next_lf(t, start);
            }
            let seg = t.subrange(start, e);
            let seg2 = if seg.len() > 0 && seg.last() == '\r' {
                seg.drop_last()
            } else {
                seg
            };
            seq![seg2] + lines_from(t, e + 1)
        } else {
            seq![t.subrange(start, t.len() as int)]
        }
    }
}

/// The index of the first LF at or after `from`, or the length.
pub open spec fn next_lf(t: Seq<char>, from: int) -> int
    decreases t.len() - from,
{
    if from >= t.len() || from < 0 {
        t.len() as int
    } else if t[from] == '\n' {
        from
    } else {
        next_lf(t, from + 1)
    }
}

/// The lines of `t` as std's `str::lines` yields them.
pub open spec fn std_lines(t: Seq<char>) -> Seq<Seq<char>> {
    lines_from(t, 0)
}

/// The first LF at or after `from` is found, with none before it.
pub proof fn lemma_next_lf(t: Seq<char>, from: int)
    requires
        0 <= from <= t.len(),
    ensures
        from <= next_lf(t, from) <= t.len(),
        next_lf(t, from) < t.len() ==> t[next_lf(t, from)] == '\n',
        forall|i: int| from <= i < next_lf(t, from) ==> t[i] != '\n',
    decreases t.len() - from,
{
    if from < t.len() && t[from] != '\n' {
        lemma_next_lf(t, from + 1);
    }
}

/// The lines of `text` as std's `str::lines` yields them.
pub fn split_lines(text: &str) -> (r: Vec<String>)
    ensures
        r@.map_values(|l: String| l@) == std_lines(text@),
{
    let chars = chars_of(text);
    let n = chars.len();
    let mut r: Vec<String> = Vec::new();
    let mut start: usize = 0;
    while start < n
        invariant
            chars@ == text@,
            n == chars.len(),
            start <= n,
            r@.map_values(|l: String| l@) + lines_from(text@, start as int) == std_lines(text@),
        decreases n - start,
    {
        let ghost before = r@.map_values(|l: String| l@);
        let mut e = start;
        while e < n && chars[e] != '\n'
            invariant
                chars@ == text@,
                n == chars.len(),
                start <= e <= n,
                next_lf(text@, e as int) == next_lf(text@, start as int),
            decreases n - e,
        {
            e = e + 1;
        }
        proof {
            lemma_next_lf(text@, start as int);
        }
        let mut seg_end = e;
        if e < n && seg_end > start && chars[seg_end - 1] == '\r' {
            seg_end = seg_end - 1;
        }
        let line = String::from_str(text.substring_char(start, seg_end));
        r.push(line);
        proof {
            let seg = text@.subrange(start as int, e as int);
            if e < n && e > start && chars@[e - 1] == '\r' {
                assert(seg.drop_last() =~= text@.subrange(start as int, seg_end as int));
            } else {
                assert(seg =~= text@.subrange(start as int, seg_end as int));
            }
            assert(r@.map_values(|l: String| l@) =~= before.push(line@));
        }
        if e < n {
            start = e + 1;
        } else {
            proof {
                assert(lines_from(text@, n as int) =~= Seq::<Seq<char>>::empty());
            }
            start = n;
        }
        proof {
            assert(r@.map_values(|l: String| l@) + lines_from(text@, start as int) =~= std_lines(
                text@,
            ));
        }
    }
    proof {
        assert(lines_from(text@, start as int) =~= Seq::<Seq<char>>::empty());
        assert(r@.map_values(|l: String| l@) =~= std_lines(text@));
    }
    r
}

/// The file name of a path as `std::path::Path::file_name` finds it: its
/// last component, or none when the path ends in `..` or has no components
/// past a root.  It follows the path rules of the platform the crate is
/// built for and depends on the path alone.
pub uninterp spec fn file_name_of(path: Seq<char>) -> Option<Seq<char>>;

/// `Path::file_name` on `path`, made a `String` (`to_string_lossy` changes
/// nothing in a name taken from a UTF-8 path): the result is named
/// `file_name_of`.
#[verifier::external_body]
pub(crate) fn path_file_name(path: &str) -> (r: Option<String>)
    ensures
        r.deep_view() == file_name_of(path@),
{
    std::path::Path::new(path).file_name().map(|n| n.to_string_lossy().to_string())
}

/// The lowercase form of a string as std's `str::to_lowercase` computes it
/// (Unicode's lowercase mapping).
pub uninterp spec fn lowercase(s: Seq<char>) -> Seq<char>;

/// `str::to_lowercase`: the result is named `lowercase`; it depends on the
/// string alone.
#[verifier::external_body]
pub(crate) fn to_lowercase(s: &str) -> (r: String)
    ensures
        r@ == lowercase(s@),
{
    s.to_lowercase()
}

/// Returns whether `s` begins with `prefix`.
pub fn starts_with(s: &str, prefix: &str) -> (r: bool)
    ensures
        r == prefix@.is_prefix_of(s@),
{
    let n = prefix.unicode_len();
    let m = s.unicode_len();
    if n > m {
        return false;
    }
    let mut i: usize = 0;
    while i < n
        invariant
            n == prefix@.len(),
            m == s@.len(),
            n <= m,
            i <= n,
            forall|j: int| 0 <= j < i ==> prefix@[j] == s@[j],
        decreases n - i,
    {
        if prefix.get_char(i) != s.get_char(i) {
            return false;
        }
        i = i + 1;
    }
    true
}

} // verus!
