use vstd::prelude::*;
use vstd::std_specs::hash::DefaultHasherAdditionalSpecFns;
use vstd::string::StringSliceAdditionalSpecFns;

use ropey::Rope;
use std::collections::hash_map::DefaultHasher;
use std::hash::Hasher;

use crate::text::{
    all_breaks, breaks_before, lemma_breaks_before, lemma_breaks_beyond, lemma_breaks_prefix, lemma_line_of_char,
    lemma_column_on_line, lemma_line_start_bounds, line_count, line_len, line_of_char, line_start,
    line_text, only_lf_breaks,
};

verus! {

#[verifier::external_type_specification]
#[verifier::external_body]
pub struct ExRope(Rope);

/// The characters that a rope holds, in order.
pub uninterp spec fn rope_text(r: Rope) -> Seq<char>;

/// The 64-bit hash of a string: what a fresh std `DefaultHasher` gives
/// once fed the string's UTF-8 bytes and then the byte 0xFF (as std hashes
/// a `str`).
pub open spec fn text_hash(s: Seq<char>) -> u64 {
    DefaultHasher::spec_finish(seq![vstd::utf8::encode_utf8(s), seq![0xffu8]])
}

/// `Rope::new`: an empty rope.
#[verifier::external_body]
fn rope_new() -> (r: Rope)
    ensures
        rope_text(r) == Seq::<char>::empty(),
{
    Rope::new()
}

/// `Rope::from_str`: a rope holding exactly the characters of `text`.
#[verifier::external_body]
fn rope_from_str(text: &str) -> (r: Rope)
    ensures
        rope_text(r) == text@,
{
    Rope::from_str(text)
}

/// `Rope::insert_char`: `ch` is inserted before the character at
/// `char_idx`; it panics past the end, which `requires` rules out.  A rope
/// counts its characters in a `usize`.
#[verifier::external_body]
fn rope_insert_char(r: &mut Rope, char_idx: usize, ch: char)
    requires
        char_idx <= rope_text(*old(r)).len(),
    ensures
        rope_text(*final(r)) == rope_text(*old(r)).insert(char_idx as int, ch),
        rope_text(*final(r)).len() <= usize::MAX,
{
    r.insert_char(char_idx, ch)
}

/// `Rope::insert`: `text` is inserted before the character at `char_idx`;
/// it panics past the end, which `requires` rules out.  A rope counts its
/// characters in a `usize`.
#[verifier::external_body]
fn rope_insert(r: &mut Rope, char_idx: usize, text: &str)
    requires
        char_idx <= rope_text(*old(r)).len(),
    ensures
        rope_text(*final(r)) == rope_text(*old(r)).take(char_idx as int) + text@ + rope_text(
            *old(r),
        ).skip(char_idx as int),
        rope_text(*final(r)).len() <= usize::MAX,
{
    r.insert(char_idx, text)
}

/// `Rope::remove` on `start..end`: the characters in that range are
/// dropped; it panics on a reversed range or one past the end, which
/// `requires` rules out.
#[verifier::external_body]
fn rope_remove(r: &mut Rope, start: usize, end: usize)
    requires
        start <= end <= rope_text(*old(r)).len(),
    ensures
        rope_text(*final(r)) == rope_text(*old(r)).take(start as int) + rope_text(*old(r)).skip(
            end as int,
        ),
{
    r.remove(start..end)
}

/// `Rope`'s `to_string`: a string of the rope's characters.
#[verifier::external_body]
fn rope_to_string(r: &Rope) -> (s: String)
    ensures
        s@ == rope_text(*r),
{
    r.to_string()
}

/// `Rope::len_chars`: the number of characters.
#[verifier::external_body]
fn rope_len_chars(r: &Rope) -> (n: usize)
    ensures
        n == rope_text(*r).len(),
{
    r.len_chars()
}

/// `Rope::len_lines`: one more than the number of line breaks (LF, CRLF,
/// lone CR, VT, FF, NEL, LS, PS, as ropey's default features recognise).
#[verifier::external_body]
fn rope_len_lines(r: &Rope) -> (n: usize)
    ensures
        n == line_count(rope_text(*r)),
{
    r.len_lines()
}

/// `Rope::line` followed by `to_string`: the characters of line `line_idx`,
/// its line break included; it panics past the last line, which `requires`
/// rules out.
#[verifier::external_body]
fn rope_line_string(r: &Rope, line_idx: usize) -> (s: String)
    requires
        line_idx < line_count(rope_text(*r)),
    ensures
        s@ == line_text(rope_text(*r), line_idx as int),
{
    r.line(line_idx).to_string()
}

/// `Rope::line_to_char`: the index of the first character of a line, or the
/// length of the text for one past the last line; it panics beyond that,
/// which `requires` rules out.
#[verifier::external_body]
fn rope_line_to_char(r: &Rope, line_idx: usize) -> (c: usize)
    requires
        line_idx <= line_count(rope_text(*r)),
    ensures
        c == line_start(rope_text(*r), line_idx as int),
{
    r.line_to_char(line_idx)
}

/// `Rope::char_to_line`: the number of line breaks before the character; it
/// panics past one beyond the end, which `requires` rules out.
#[verifier::external_body]
fn rope_char_to_line(r: &Rope, char_idx: usize) -> (l: usize)
    requires
        char_idx <= rope_text(*r).len(),
    ensures
        l == line_of_char(rope_text(*r), char_idx as int),
{
    r.char_to_line(char_idx)
}

/// The hash of a string: a fresh hasher fed the string's bytes and the
/// byte 0xFF, finished.
fn hash_text(text: &str) -> (h: u64)
    ensures
        h == text_hash(text@),
{
    let mut hasher = DefaultHasher::new();
    hasher.write(text.as_bytes());
    let end: [u8; 1] = [0xff];
    hasher.write(&end);
    let h = hasher.finish();
    proof {
        assert(end@ =~= seq![0xffu8]);
        assert(Seq::<Seq<u8>>::empty().push(text.spec_bytes()).push(end@) =~= seq![
            vstd::utf8::encode_utf8(text@),
            seq![0xffu8],
        ]);
    }
    h
}

/// Whether a buffer holding `text` counts as unsaved, given the hash of the
/// text it last saved or loaded (`None` when it was made from a template and
/// not saved since, so that it stays unsaved).
pub open spec fn dirty_for(saved: Option<u64>, text: Seq<char>) -> bool {
    match saved {
        Some(h) => text_hash(text) != h,
        None => true,
    }
}

/// Rope-based text buffer that tracks dirty state and file path.
pub struct Buffer {
    rope: Rope,
    file_path: Option<String>,
    is_dirty: bool,
    saved_hash: Option<u64>,
}

impl View for Buffer {
    type V = Seq<char>;

    /// The document's characters.
    closed spec fn view(&self) -> Seq<char> {
        rope_text(self.rope)
    }
}

impl Buffer {
    /// The path the buffer is associated with, if any.
    pub closed spec fn spec_path(&self) -> Option<Seq<char>> {
        match self.file_path {
            Some(p) => Some(p@),
            None => None,
        }
    }

    /// Whether the buffer counts as holding unsaved changes.
    pub closed spec fn spec_dirty(&self) -> bool {
        self.is_dirty
    }

    /// The hash of the text as it was when last saved or loaded; `None` for
    /// a buffer made from a template and not saved since.
    pub closed spec fn spec_saved(&self) -> Option<u64> {
        self.saved_hash
    }

    /// Create an empty buffer.
    pub fn new() -> (b: Self)
        ensures
            b@ == Seq::<char>::empty(),
            b.spec_path() is None,
            !b.spec_dirty(),
            b.spec_saved() == Some(text_hash(Seq::empty())),
    {
        let rope = rope_new();
        let text = rope_to_string(&rope);
        let hash = hash_text(text.as_str());
        Buffer { rope, file_path: None, is_dirty: false, saved_hash: Some(hash) }
    }

    /// A buffer for the file at `path` whose contents were read as `text`.
    pub fn from_file_contents(path: String, text: &str) -> (b: Self)
        ensures
            b@ == text@,
            b.spec_path() == Some(path@),
            !b.spec_dirty(),
            b.spec_saved() == Some(text_hash(text@)),
    {
        let rope = rope_from_str(text);
        let s = rope_to_string(&rope);
        let hash = hash_text(s.as_str());
        Buffer { rope, file_path: Some(path), is_dirty: false, saved_hash: Some(hash) }
    }

    /// Initialise a buffer from a template string; its content counts as
    /// unsaved.
    pub fn from_template(template: String) -> (b: Self)
        ensures
            b@ == template@,
            b.spec_path() is None,
            b.spec_dirty(),
            b.spec_saved() is None,
    {
        let rope = rope_from_str(template.as_str());
        Buffer { rope, file_path: None, is_dirty: true, saved_hash: None }
    }

    /// Insert a single character at the given rope character index.
    pub fn insert_char(&mut self, char_idx: usize, ch: char)
        requires
            char_idx <= old(self)@.len(),
        ensures
            final(self)@ == old(self)@.insert(char_idx as int, ch),
            final(self)@.len() <= usize::MAX,
            final(self).spec_path() == old(self).spec_path(),
            final(self).spec_saved() == old(self).spec_saved(),
            final(self).spec_dirty() == (dirty_for(old(self).spec_saved(), final(self)@)),
    {
        rope_insert_char(&mut self.rope, char_idx, ch);
        self.mark_dirty();
    }

    /// Insert a string at the given rope character index.
    pub fn insert_text(&mut self, char_idx: usize, text: &str)
        requires
            char_idx <= old(self)@.len(),
        ensures
            final(self)@ == old(self)@.take(char_idx as int) + text@ + old(self)@.skip(
                char_idx as int,
            ),
            final(self).spec_path() == old(self).spec_path(),
            final(self).spec_saved() == old(self).spec_saved(),
            final(self).spec_dirty() == (dirty_for(old(self).spec_saved(), final(self)@)),
    {
        rope_insert(&mut self.rope, char_idx, text);
        self.mark_dirty();
    }

    /// Delete characters in `[start, end)` (rope character indices).
    pub fn delete_range(&mut self, start: usize, end: usize)
        requires
            start <= end <= old(self)@.len(),
        ensures
            final(self)@ == old(self)@.take(start as int) + old(self)@.skip(end as int),
            final(self).spec_path() == old(self).spec_path(),
            final(self).spec_saved() == old(self).spec_saved(),
            final(self).spec_dirty() == (dirty_for(old(self).spec_saved(), final(self)@)),
    {
        rope_remove(&mut self.rope, start, end);
        self.mark_dirty();
    }

    /// Return the full document as a `String`.
    pub fn get_text(&self) -> (s: String)
        ensures
            s@ == self@,
    {
        rope_to_string(&self.rope)
    }

    /// Replace the entire document with `text`.
    pub fn set_text(&mut self, text: String)
        ensures
            final(self)@ == text@,
            final(self).spec_path() == old(self).spec_path(),
            final(self).spec_saved() == old(self).spec_saved(),
            final(self).spec_dirty() == (dirty_for(old(self).spec_saved(), text@)),
    {
        self.rope = rope_from_str(text.as_str());
        self.mark_dirty();
    }

    /// Record that the current text has just been written to the file: the
    /// buffer is clean and its saved hash is that of the current text.
    pub fn mark_saved(&mut self)
        ensures
            final(self)@ == old(self)@,
            final(self).spec_path() == old(self).spec_path(),
            final(self).spec_saved() == Some(text_hash(old(self)@)),
            !final(self).spec_dirty(),
    {
        let s = rope_to_string(&self.rope);
        self.saved_hash = Some(hash_text(s.as_str()));
        self.is_dirty = false;
    }

    /// Set (or update) the associated file path without saving.
    pub fn set_path(&mut self, path: String)
        ensures
            final(self)@ == old(self)@,
            final(self).spec_path() == Some(path@),
            final(self).spec_saved() == old(self).spec_saved(),
            final(self).spec_dirty() == old(self).spec_dirty(),
    {
        self.file_path = Some(path);
    }

    /// Return the associated file path, if any.
    pub fn file_path(&self) -> (p: Option<&str>)
        ensures
            match p {
                Some(s) => self.spec_path() == Some(s@),
                None => self.spec_path() is None,
            },
    {
        match &self.file_path {
            Some(p) => Some(p.as_str()),
            None => None,
        }
    }

    /// Return `true` if the buffer has unsaved changes.
    pub fn is_dirty(&self) -> (r: bool)
        ensures
            r == self.spec_dirty(),
    {
        self.is_dirty
    }

    /// Return the number of lines in the rope.
    pub fn len_lines(&self) -> (n: usize)
        ensures
            n == line_count(self@),
    {
        rope_len_lines(&self.rope)
    }

    /// Return the length of the buffer in characters.
    pub fn len_chars(&self) -> (n: usize)
        ensures
            n == self@.len(),
    {
        rope_len_chars(&self.rope)
    }

    /// Return the text of the given logical line, its line break included.
    pub fn line(&self, line_idx: usize) -> (s: String)
        requires
            line_idx < line_count(self@),
        ensures
            s@ == line_text(self@, line_idx as int),
    {
        rope_line_string(&self.rope, line_idx)
    }

    /// Convert a `(line, col)` pair to a rope character index.
    pub fn line_col_to_char(&self, line: usize, col: usize) -> (c: usize)
        requires
            line <= line_count(self@),
            line_start(self@, line as int) + col <= usize::MAX,
        ensures
            c == line_start(self@, line as int) + col,
    {
        let line_start = rope_line_to_char(&self.rope, line);
        line_start + col
    }

    /// Convert a rope character index to a `(line, col)` pair.
    pub fn char_to_line_col(&self, char_idx: usize) -> (r: (usize, usize))
        requires
            char_idx <= self@.len(),
        ensures
            r.0 == line_of_char(self@, char_idx as int),
            r.1 == char_idx - line_start(self@, r.0 as int),
            r.0 < line_count(self@),
    {
        let line = rope_char_to_line(&self.rope, char_idx);
        proof {
            lemma_line_of_char(self@, char_idx as int);
        }
        let line_start = rope_line_to_char(&self.rope, line);
        let col = char_idx - line_start;
        (line, col)
    }

    /// Called on every application tick; periodic work is driven by the
    /// recovery manager, so there is nothing to do here.
    pub fn tick(&self) {
    }

    fn mark_dirty(&mut self)
        ensures
            final(self)@ == old(self)@,
            final(self).spec_path() == old(self).spec_path(),
            final(self).spec_saved() == old(self).spec_saved(),
            final(self).spec_dirty() == (dirty_for(old(self).spec_saved(), old(self)@)),
    {
        let s = rope_to_string(&self.rope);
        let current = hash_text(s.as_str());
        self.is_dirty = match self.saved_hash {
            Some(h) => current != h,
            None => true,
        };
    }
}

impl Default for Buffer {
    fn default() -> (b: Self)
        ensures
            b@ == Seq::<char>::empty(),
            b.spec_path() is None,
            !b.spec_dirty(),
    {
        Buffer::new()
    }
}

/// A buffer whose text equals the text it last saved (or loaded) is clean
/// after any edit: its dirty flag after an edit is whether the new text's
/// hash differs from the saved hash, and equal texts hash alike.
pub proof fn law_back_to_saved_text_is_clean(saved: Seq<char>, now: Seq<char>)
    requires
        now == saved,
    ensures
        !dirty_for(Some(text_hash(saved)), now),
{
}

/// A buffer made from a template counts as unsaved after any edit until it
/// is saved, whatever text it holds (the template's text included).
pub proof fn law_template_stays_unsaved(now: Seq<char>)
    ensures
        dirty_for(None, now),
{
}

/// Converting a character index to a `(line, column)` pair and back gives
/// the index again (`char_to_line_col` then `line_col_to_char`).
pub proof fn law_char_to_line_col_round_trip(t: Seq<char>, c: int)
    requires
        0 <= c <= t.len(),
    ensures
        line_of_char(t, c) < line_count(t),
        line_start(t, line_of_char(t, c)) + (c - line_start(t, line_of_char(t, c))) == c,
{
    lemma_line_of_char(t, c);
}

/// Converting a `(line, column)` pair to a character index and back gives
/// the pair again (`line_col_to_char` then `char_to_line_col`) when the
/// index lies on that line: before the next line starts, or anywhere up to
/// the end on the last line.
pub proof fn law_line_col_to_char_round_trip(t: Seq<char>, l: int, col: int)
    requires
        0 <= l < line_count(t),
        0 <= col,
        line_start(t, l) + col < line_start(t, l + 1) || (l + 1 == line_count(t) && line_start(t, l)
            + col <= t.len()),
    ensures
        line_of_char(t, line_start(t, l) + col) == l,
        (line_start(t, l) + col) - line_start(t, line_of_char(t, line_start(t, l) + col)) == col,
{
    let s = line_start(t, l);
    let x = s + col;
    let ab = all_breaks(t);
    lemma_breaks_before(t, t.len() as int);
    lemma_line_start_bounds(t, l);
    lemma_line_start_bounds(t, l + 1);
    lemma_breaks_prefix(t, x, t.len() as int);
    lemma_breaks_beyond(t, x, t.len() as int);
    lemma_breaks_before(t, x);
    if l >= 1 {
        assert(ab[l - 1] < x);
    }
    if breaks_before(t, x).len() > l {
        assert(breaks_before(t, x)[l] == ab[l]);
    }
}

/// In a text whose lines all end with an LF, `char_to_line_col` undoes
/// `line_col_to_char` for every line of the text and every column up to
/// that line's length (without its LF).
pub proof fn law_char_to_line_col_undoes_line_col_to_char(t: Seq<char>, l: int, col: int)
    requires
        only_lf_breaks(t),
        0 <= l < line_count(t),
        0 <= col <= line_len(t, l),
    ensures
        line_of_char(t, line_start(t, l) + col) == l,
        (line_start(t, l) + col) - line_start(t, line_of_char(t, line_start(t, l) + col)) == col,
{
    lemma_column_on_line(t, l, col);
    law_line_col_to_char_round_trip(t, l, col);
}

/// Inserting a string at an index and then deleting as many characters from
/// that index gives back the text (`insert_text` then `delete_range`).
pub proof fn law_insert_then_delete_restores(t: Seq<char>, idx: int, s: Seq<char>)
    requires
        0 <= idx <= t.len(),
    ensures
        ({
            let u = t.take(idx) + s + t.skip(idx);
            &&& idx + s.len() <= u.len()
            &&& u.take(idx) + u.skip(idx + s.len()) == t
        }),
{
    let u = t.take(idx) + s + t.skip(idx);
    assert(u.take(idx) + u.skip(idx + s.len()) =~= t);
}

/// Inserting a character at an index and then deleting the character at
/// that index gives back the text (`insert_char` then `delete_range`).
pub proof fn law_insert_char_then_delete_restores(t: Seq<char>, idx: int, ch: char)
    requires
        0 <= idx <= t.len(),
    ensures
        ({
            let u = t.insert(idx, ch);
            u.take(idx) + u.skip(idx + 1) == t
        }),
{
    let u = t.insert(idx, ch);
    assert(u.take(idx) + u.skip(idx + 1) =~= t);
}

} // verus!
