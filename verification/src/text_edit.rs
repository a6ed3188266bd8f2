//! A one-line text buffer with a caret, shared by every text field.

use vstd::prelude::*;
use crate::text::{chars_of, is_space, is_space_char, string_from_chars};

verus! {

/// Where the caret lands moving left over whitespace.
pub open spec fn back_over_spaces(t: Seq<char>, c: int) -> int
    decreases c,
{
    if 0 < c <= t.len() && is_space(t[c - 1]) { back_over_spaces(t, c - 1) } else { c }
}

/// Where the caret lands moving left over a word.
pub open spec fn back_over_word(t: Seq<char>, c: int) -> int
    decreases c,
{
    if 0 < c <= t.len() && !is_space(t[c - 1]) { back_over_word(t, c - 1) } else { c }
}

/// Where the caret lands moving right over whitespace.
pub open spec fn fwd_over_spaces(t: Seq<char>, c: int) -> int
    decreases t.len() - c,
{
    if 0 <= c < t.len() && is_space(t[c]) { fwd_over_spaces(t, c + 1) } else { c }
}

/// Where the caret lands moving right over a word.
pub open spec fn fwd_over_word(t: Seq<char>, c: int) -> int
    decreases t.len() - c,
{
    if 0 <= c < t.len() && !is_space(t[c]) { fwd_over_word(t, c + 1) } else { c }
}

/// The start of the word before the caret.
pub open spec fn word_left(t: Seq<char>, c: int) -> int {
    back_over_word(t, back_over_spaces(t, c))
}

/// The end of the word after the caret.
pub open spec fn word_right(t: Seq<char>, c: int) -> int {
    fwd_over_word(t, fwd_over_spaces(t, c))
}

/// `c + delta` held to `0..=len`.
pub open spec fn clamp_caret(c: int, delta: int, len: int) -> int {
    if c + delta < 0 { 0 } else if c + delta > len { len } else { c + delta }
}

/// A line of text and a caret inside it, as a char index.
#[derive(Debug, PartialEq, Eq)]
pub struct TextEdit {
    chars: Vec<char>,
    caret: usize,
}

impl View for TextEdit {
    type V = (Seq<char>, int);

    closed spec fn view(&self) -> (Seq<char>, int) {
        (self.chars@, self.caret as int)
    }
}

impl Clone for TextEdit {
    fn clone(&self) -> (r: Self)
        ensures
            r@ == self@,
    {
        proof { use_type_invariant(self); }
        TextEdit { chars: self.chars.clone(), caret: self.caret }
    }
}

impl TextEdit {
    /// The caret never leaves the text.
    #[verifier::type_invariant]
    closed spec fn wf(self) -> bool {
        self.caret <= self.chars.len()
    }

    /// The caret's place, for callers that reason about it.
    pub fn valid(&self)
        ensures
            0 <= self@.1 <= self@.0.len(),
    {
        proof { use_type_invariant(self); }
    }

    /// An empty buffer.
    pub fn new() -> (r: TextEdit)
        ensures
            r@ == (Seq::<char>::empty(), 0int),
    {
        TextEdit { chars: Vec::new(), caret: 0 }
    }

    /// A buffer holding `text`, with the caret at its end.
    pub fn from_chars(text: Vec<char>) -> (r: TextEdit)
        ensures
            r@ == (text@, text@.len() as int),
    {
        let caret = text.len();
        TextEdit { chars: text, caret }
    }

    /// The text.
    pub fn text(&self) -> (r: String)
        ensures
            r@ == self@.0,
    {
        string_from_chars(&self.chars)
    }

    /// The text, as characters.
    pub fn chars(&self) -> (r: &Vec<char>)
        ensures
            r@ == self@.0,
    {
        &self.chars
    }

    /// The caret, as a char index.
    pub fn caret(&self) -> (r: usize)
        ensures
            r == self@.1,
            r <= self@.0.len(),
    {
        proof { use_type_invariant(self); }
        self.caret
    }

    /// How many characters the text has.
    pub fn len(&self) -> (r: usize)
        ensures
            r == self@.0.len(),
    {
        self.chars.len()
    }

    /// Whether the text is empty.
    pub fn is_empty(&self) -> (r: bool)
        ensures
            r == (self@.0.len() == 0),
    {
        self.chars.len() == 0
    }

    /// Inserts a character at the caret and steps past it.
    pub fn insert(&mut self, ch: char)
        ensures
            final(self)@.0 == old(self)@.0.take(old(self)@.1).push(ch) + old(self)@.0.skip(old(self)@.1),
            final(self)@.1 == old(self)@.1 + 1,
    {
        proof { use_type_invariant(&*self); }
        let at = self.caret;
        let mut chars = self.chars.clone();
        let ghost before = chars@;
        chars.insert(at, ch);
        assert(chars@ =~= before.take(at as int).push(ch) + before.skip(at as int));
        let n = chars.len();
        assert(at < n);
        *self = TextEdit { chars, caret: at + 1 };
    }

    /// Deletes the character before the caret, if there is one.
    pub fn delete_back(&mut self)
        ensures
            old(self)@.1 == 0 ==> final(self)@ == old(self)@,
            old(self)@.1 > 0 ==> final(self)@.0 == old(self)@.0.take(old(self)@.1 - 1) + old(self)@.0.skip(old(self)@.1)
                && final(self)@.1 == old(self)@.1 - 1,
    {
        proof { use_type_invariant(&*self); }
        if self.caret == 0 {
            return;
        }
        let at = self.caret - 1;
        let mut chars = self.chars.clone();
        let ghost before = chars@;
        chars.remove(at);
        assert(chars@ =~= before.take(at as int) + before.skip(at + 1));
        *self = TextEdit { chars, caret: at };
    }

    /// Moves the caret by `delta` characters, held to the text.
    pub fn move_caret(&mut self, delta: i64)
        ensures
            final(self)@.0 == old(self)@.0,
            final(self)@.1 == clamp_caret(old(self)@.1, delta as int, old(self)@.0.len() as int),
    {
        proof { use_type_invariant(&*self); }
        let len = self.chars.len();
        let c = self.caret;
        let next: usize = if delta < 0 {
            if (c as i128) + (delta as i128) < 0 { 0 } else { ((c as i128) + (delta as i128)) as usize }
        } else {
            if (c as i128) + (delta as i128) > len as i128 { len } else { ((c as i128) + (delta as i128)) as usize }
        };
        self.caret = next;
    }

    /// Puts the caret before the first character.
    pub fn jump_start(&mut self)
        ensures
            final(self)@ == (old(self)@.0, 0int),
    {
        self.caret = 0;
    }

    /// Puts the caret after the last character.
    pub fn jump_end(&mut self)
        ensures
            final(self)@ == (old(self)@.0, old(self)@.0.len() as int),
    {
        self.caret = self.chars.len();
    }

    /// Empties the text.
    pub fn clear(&mut self)
        ensures
            final(self)@ == (Seq::<char>::empty(), 0int),
    {
        *self = TextEdit { chars: Vec::new(), caret: 0 };
    }

    /// Puts the caret at `at`, or at the end when the text is shorter.
    pub fn set_caret(&mut self, at: usize)
        ensures
            final(self)@.0 == old(self)@.0,
            final(self)@.1 == if at <= old(self)@.0.len() { at as int } else { old(self)@.0.len() as int },
    {
        let len = self.chars.len();
        self.caret = if at <= len { at } else { len };
    }

    /// Replaces the text, keeping the caret where it was when it still fits.
    pub fn set_chars(&mut self, text: Vec<char>)
        ensures
            final(self)@.0 == text@,
            final(self)@.1 == if old(self)@.1 <= text@.len() { old(self)@.1 } else { text@.len() as int },
    {
        let len = text.len();
        let c = if self.caret <= len { self.caret } else { len };
        *self = TextEdit { chars: text, caret: c };
    }

    /// Replaces the text and puts the caret at its end.
    pub fn set_chars_at_end(&mut self, text: Vec<char>)
        ensures
            final(self)@ == (text@, text@.len() as int),
    {
        let c = text.len();
        *self = TextEdit { chars: text, caret: c };
    }

    /// Replaces the text, keeping the caret where it was when it still fits.
    pub fn set_text(&mut self, text: &str)
        ensures
            final(self)@.0 == text@,
            final(self)@.1 == if old(self)@.1 <= text@.len() { old(self)@.1 } else { text@.len() as int },
    {
        self.set_chars(chars_of(text));
    }

    /// Replaces the text and puts the caret at its end.
    pub fn set_text_at_end(&mut self, text: &str)
        ensures
            final(self)@ == (text@, text@.len() as int),
    {
        self.set_chars_at_end(chars_of(text));
    }

    /// Moves the caret a word left (negative) or right.
    pub fn move_word(&mut self, delta: i64)
        ensures
            final(self)@.0 == old(self)@.0,
            delta < 0 ==> final(self)@.1 == word_left(old(self)@.0, old(self)@.1),
            delta > 0 ==> final(self)@.1 == word_right(old(self)@.0, old(self)@.1),
            delta == 0 ==> final(self)@.1 == old(self)@.1,
    {
        proof { use_type_invariant(&*self); }
        let ghost t = self.chars@;
        let ghost c0 = self.caret as int;
        let mut c = self.caret;
        if delta < 0 {
            while c > 0 && is_space_char(self.chars[c - 1])
                invariant
                    c <= self.chars.len(),
                    t == self.chars@,
                    back_over_spaces(t, c0) == back_over_spaces(t, c as int),
                decreases c,
            {
                c -= 1;
            }
            let ghost mid = c as int;
            while c > 0 && !is_space_char(self.chars[c - 1])
                invariant
                    c <= self.chars.len(),
                    t == self.chars@,
                    back_over_spaces(t, c0) == mid,
                    back_over_word(t, mid) == back_over_word(t, c as int),
                decreases c,
            {
                c -= 1;
            }
        } else if delta > 0 {
            let len = self.chars.len();
            while c < len && is_space_char(self.chars[c])
                invariant
                    c <= len == self.chars.len(),
                    t == self.chars@,
                    fwd_over_spaces(t, c0) == fwd_over_spaces(t, c as int),
                decreases len - c,
            {
                c += 1;
            }
            let ghost mid = c as int;
            while c < len && !is_space_char(self.chars[c])
                invariant
                    c <= len == self.chars.len(),
                    t == self.chars@,
                    fwd_over_spaces(t, c0) == mid,
                    fwd_over_word(t, mid) == fwd_over_word(t, c as int),
                decreases len - c,
            {
                c += 1;
            }
        }
        self.caret = c;
    }
}

/// One of the edits every text field reads.
#[derive(Clone, Copy, Debug, PartialEq, Eq, Structural)]
pub enum TextOp {
    Insert(char),
    DeleteBack,
    MoveCaret(i64),
    MoveWord(i64),
    JumpStart,
    JumpEnd,
}

/// A text and caret after an edit.
pub open spec fn text_after(t: (Seq<char>, int), op: TextOp) -> (Seq<char>, int) {
    match op {
        TextOp::Insert(ch) => (t.0.take(t.1).push(ch) + t.0.skip(t.1), t.1 + 1),
        TextOp::DeleteBack => if t.1 == 0 { t } else { (t.0.take(t.1 - 1) + t.0.skip(t.1), t.1 - 1) },
        TextOp::MoveCaret(d) => (t.0, clamp_caret(t.1, d as int, t.0.len() as int)),
        TextOp::MoveWord(d) => (t.0, if d < 0 { word_left(t.0, t.1) } else if d > 0 { word_right(t.0, t.1) } else { t.1 }),
        TextOp::JumpStart => (t.0, 0),
        TextOp::JumpEnd => (t.0, t.0.len() as int),
    }
}

impl TextEdit {
    /// Carries out one edit.
    pub fn apply(&mut self, op: TextOp)
        ensures
            final(self)@ == text_after(old(self)@, op),
    {
        match op {
            TextOp::Insert(ch) => self.insert(ch),
            TextOp::DeleteBack => self.delete_back(),
            TextOp::MoveCaret(d) => self.move_caret(d),
            TextOp::MoveWord(d) => self.move_word(d),
            TextOp::JumpStart => self.jump_start(),
            TextOp::JumpEnd => self.jump_end(),
        }
    }
}

/// Typing a character and deleting it again leaves the text and caret as
/// they were.
pub proof fn lemma_insert_then_delete(t: (Seq<char>, int), ch: char)
    requires
        0 <= t.1 <= t.0.len(),
    ensures
        text_after(text_after(t, TextOp::Insert(ch)), TextOp::DeleteBack) == t,
{
    let once = text_after(t, TextOp::Insert(ch));
    assert(once.0.take(once.1 - 1) == t.0.take(t.1));
    assert(once.0.skip(once.1) == t.0.skip(t.1));
    assert(t.0.take(t.1) + t.0.skip(t.1) == t.0);
}

} // verus!
