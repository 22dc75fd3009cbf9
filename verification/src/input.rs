//! Single-line text editor used by sidebar and dialog fields.
use vstd::prelude::*;
use vstd::utf8::{encode_scalar, encode_utf8};
use vstd::string::{StrSliceExecFns, StringSliceAdditionalSpecFns};

verus! {

/// `String::insert`: inserts `ch` at byte position `idx`, which must lie on a
/// character boundary (it panics otherwise). Stated over characters: when the first
/// `k` characters take `idx` bytes, `ch` lands between character `k - 1` and `k`.
pub assume_specification[ String::insert ](string: &mut String, idx: usize, ch: char)
    requires
        exists|k: int|
            0 <= k <= old(string)@.len() && #[trigger] encode_utf8(old(string)@.take(k)).len()
                == idx,
    ensures
        forall|k: int|
            0 <= k <= old(string)@.len() && #[trigger] encode_utf8(old(string)@.take(k)).len()
                == idx ==> final(string)@ == old(string)@.take(k).push(ch) + old(string)@.skip(k),
;

/// `String::remove`: removes and returns the character at byte position `idx`, which
/// must lie on a character boundary before the end (it panics otherwise). Stated over
/// characters: when the first `k` characters take `idx` bytes, character `k` goes.
pub assume_specification[ String::remove ](string: &mut String, idx: usize) -> (ch: char)
    requires
        exists|k: int|
            0 <= k < old(string)@.len() && #[trigger] encode_utf8(old(string)@.take(k)).len()
                == idx,
    ensures
        forall|k: int|
            0 <= k < old(string)@.len() && #[trigger] encode_utf8(old(string)@.take(k)).len()
                == idx ==> final(string)@ == old(string)@.remove(k) && ch == old(string)@[k],
;

/// The UTF-8 encoding of a concatenation is the concatenation of the encodings.
pub proof fn lemma_encode_utf8_concat(a: Seq<char>, b: Seq<char>)
    ensures
        encode_utf8(a + b) == encode_utf8(a) + encode_utf8(b),
    decreases a.len(),
{
    if a.len() == 0 {
        assert(a + b =~= b);
        assert(encode_utf8(a) =~= Seq::<u8>::empty());
        assert(Seq::<u8>::empty() + encode_utf8(b) =~= encode_utf8(b));
    } else {
        lemma_encode_utf8_concat(a.drop_first(), b);
        assert((a + b).drop_first() =~= a.drop_first() + b);
        assert((a + b)[0] == a[0]);
        assert(encode_scalar(a[0] as u32) + (encode_utf8(a.drop_first()) + encode_utf8(b))
            =~= (encode_scalar(a[0] as u32) + encode_utf8(a.drop_first())) + encode_utf8(b));
    }
}

/// Number of UTF-8 bytes of `c` (`char::len_utf8`).
fn utf8_width(c: char) -> (w: usize)
    ensures
        w == encode_scalar(c as u32).len(),
{
    proof {
        vstd::utf8::char_is_scalar(c);
    }
    let v = c as u32;
    if v <= 0x7F {
        1
    } else if v <= 0x7FF {
        2
    } else if v <= 0xFFFF {
        3
    } else {
        4
    }
}

/// Byte offset of character `k` of `s`: the length of the encoding of the first
/// `k` characters (all of `s` when `k` is past the end).
pub open spec fn byte_offset(s: Seq<char>, k: int) -> int {
    if k < s.len() {
        encode_utf8(s.take(k)).len() as int
    } else {
        encode_utf8(s).len() as int
    }
}

/// Map a character index to a byte offset in `s`, or `s.len()` past the end.
fn char_to_byte_index(s: &str, char_idx: usize) -> (res: usize)
    ensures
        res == byte_offset(s@, char_idx as int),
{
    let total = s.as_bytes().len();
    let mut count: usize = 0;
    let mut k: usize = 0;
    for c in it: s.chars()
        invariant
            it.seq() == s@,
            k == it.index(),
            k <= s@.len(),
            k <= char_idx,
            count == encode_utf8(s@.take(k as int)).len(),
            encode_utf8(s@).len() == total,
    {
        if k == char_idx {
            return count;
        }
        proof {
            let t = s@.take(k as int);
            lemma_encode_utf8_concat(t, seq![c]);
            assert(s@.take(k + 1) =~= t + seq![c]);
            assert(seq![c].drop_first() =~= Seq::<char>::empty());
            assert(encode_utf8(Seq::<char>::empty()) =~= Seq::<u8>::empty());
            assert(encode_utf8(seq![c]) =~= encode_scalar(c as u32));
            lemma_encode_utf8_concat(s@.take(k + 1), s@.skip(k + 1));
            assert(s@.take(k + 1) + s@.skip(k + 1) =~= s@);
        }
        count += utf8_width(c);
        k += 1;
    }
    total
}

/// Editable UTF-8 string with a logical (character) cursor position.
#[derive(Debug, Clone)]
pub struct TextInput {
    pub value: String,
    pub cursor: usize,
}

/// Text and cursor after typing `c` at cursor `cur` (a cursor past the end types at the end).
pub open spec fn insert_spec(v: Seq<char>, cur: int, c: char) -> (Seq<char>, int) {
    let p = if cur < v.len() {
        cur
    } else {
        v.len() as int
    };
    (v.take(p).push(c) + v.skip(p), cur + 1)
}

/// Text and cursor after backspace: the character before the cursor goes, if any.
pub open spec fn backspace_spec(v: Seq<char>, cur: int) -> (Seq<char>, int) {
    if cur == 0 {
        (v, cur)
    } else if cur - 1 < v.len() {
        (v.remove(cur - 1), cur - 1)
    } else {
        (v, cur - 1)
    }
}

/// Text and cursor after delete: the character under the cursor goes, if any.
pub open spec fn delete_spec(v: Seq<char>, cur: int) -> (Seq<char>, int) {
    if cur >= v.len() {
        (v, cur)
    } else {
        (v.remove(cur), cur)
    }
}

impl TextInput {
    /// The text and cursor as mathematical values.
    pub open spec fn state(&self) -> (Seq<char>, int) {
        (self.value@, self.cursor as int)
    }

    /// Create an input with the cursor at the end of `value`.
    pub fn new(value: &str) -> (res: Self)
        ensures
            res.value@ == value@,
            res.cursor == value@.len(),
    {
        let value = value.to_owned();
        let cursor = value.as_str().unicode_len();
        Self { value, cursor }
    }

    /// Borrow the current text.
    pub fn as_str(&self) -> (res: &str)
        ensures
            res@ == self.value@,
    {
        self.value.as_str()
    }

    /// Number of Unicode scalar values in the buffer.
    pub fn char_len(&self) -> (res: usize)
        ensures
            res == self.value@.len(),
    {
        self.value.as_str().unicode_len()
    }

    /// Typing can advance the cursor: it lies within the text, or below `usize::MAX`.
    pub open spec fn can_insert(&self) -> bool {
        self.cursor <= self.value@.len() || self.cursor < usize::MAX
    }

    /// Insert `c` before the cursor and advance the cursor by one character.
    pub fn insert(&mut self, c: char)
        requires
            old(self).can_insert(),
        ensures
            final(self).state() == insert_spec(old(self).value@, old(self).cursor as int, c),
    {
        let idx = char_to_byte_index(self.value.as_str(), self.cursor);
        let ghost v = self.value@;
        let ghost p: int = if self.cursor < v.len() {
            self.cursor as int
        } else {
            v.len() as int
        };
        assert(encode_utf8(v.take(p)).len() == idx) by {
            assert(v.take(v.len() as int) =~= v);
        }
        self.value.insert(idx, c);
        if self.cursor == usize::MAX {
            // Here the cursor lay within the text, which now holds one character more
            // than the cursor counts; a text's length in characters fits in a usize.
            let n = self.value.as_str().unicode_len();
            assert(n == self.cursor + 1);
        }
        self.cursor += 1;
    }

    /// Delete the character immediately before the cursor; no-op at the start.
    pub fn backspace(&mut self)
        ensures
            final(self).state() == backspace_spec(old(self).value@, old(self).cursor as int),
    {
        if self.cursor == 0 {
            return;
        }
        self.cursor -= 1;
        let start = char_to_byte_index(self.value.as_str(), self.cursor);
        let end = char_to_byte_index(self.value.as_str(), self.cursor + 1);
        if self.cursor < self.char_len() {
            self.value.remove(start);
        } else {
            assert(start == end);
        }
    }

    /// Delete the character at the cursor without moving it; no-op at the end.
    pub fn delete(&mut self)
        ensures
            final(self).state() == delete_spec(old(self).value@, old(self).cursor as int),
    {
        if self.cursor >= self.char_len() {
            return;
        }
        let start = char_to_byte_index(self.value.as_str(), self.cursor);
        self.value.remove(start);
    }

    /// Move the cursor one character left, stopping at the start.
    pub fn cursor_left(&mut self)
        ensures
            final(self).value@ == old(self).value@,
            final(self).cursor == if old(self).cursor > 0 {
                old(self).cursor - 1
            } else {
                0
            },
    {
        self.cursor = self.cursor.saturating_sub(1);
    }

    /// Move the cursor one character right, stopping at the end.
    pub fn cursor_right(&mut self)
        ensures
            final(self).value@ == old(self).value@,
            final(self).cursor == if old(self).cursor < old(self).value@.len() {
                old(self).cursor + 1
            } else {
                old(self).cursor as int
            },
    {
        if self.cursor < self.char_len() {
            self.cursor += 1;
        }
    }

    /// Move the cursor to the beginning of the string.
    pub fn cursor_home(&mut self)
        ensures
            final(self).value@ == old(self).value@,
            final(self).cursor == 0,
    {
        self.cursor = 0;
    }

    /// Move the cursor to the end of the string.
    pub fn cursor_end(&mut self)
        ensures
            final(self).value@ == old(self).value@,
            final(self).cursor == old(self).value@.len(),
    {
        self.cursor = self.char_len();
    }
}

/// Typing a character and then pressing backspace gives back the text and cursor
/// (for a cursor within the text, where typing is always possible: see `can_insert`).
pub proof fn lemma_backspace_undoes_insert(v: Seq<char>, cur: int, c: char)
    requires
        0 <= cur <= v.len(),
    ensures
        backspace_spec(insert_spec(v, cur, c).0, insert_spec(v, cur, c).1) == (v, cur),
{
    let w = insert_spec(v, cur, c).0;
    assert(w.remove(cur) =~= v);
}

/// Typing a character, moving left and pressing delete gives back the text (for a
/// cursor within the text).
pub proof fn lemma_delete_after_left_undoes_insert(v: Seq<char>, cur: int, c: char)
    requires
        0 <= cur <= v.len(),
    ensures
        delete_spec(insert_spec(v, cur, c).0, cur) == (v, cur),
{
    let w = insert_spec(v, cur, c).0;
    assert(w.remove(cur) =~= v);
}

/// Editing keeps a cursor that lies within the text within the text.
pub proof fn lemma_editing_keeps_cursor_in_text(v: Seq<char>, cur: int, c: char)
    requires
        0 <= cur <= v.len(),
    ensures
        insert_spec(v, cur, c).1 <= insert_spec(v, cur, c).0.len(),
        0 <= backspace_spec(v, cur).1 <= backspace_spec(v, cur).0.len(),
        0 <= delete_spec(v, cur).1 <= delete_spec(v, cur).0.len(),
{
}

} // verus!
