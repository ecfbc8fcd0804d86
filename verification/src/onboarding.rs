//! The first-run dialog that asks for the CTF workspace directory: a text
//! field with a cursor. As in a Rust `String`, the cursor is a byte offset
//! into the UTF-8 text; it sits on character boundaries and moves, types
//! and deletes by whole characters.
use vstd::prelude::*;
use vstd::string::*;
use vstd::utf8::{char_is_scalar, encode_scalar, encode_utf8};

use crate::text::{chars_of, is_white_space, lemma_trimmed_empty_iff_blank, string_from_chars, trim, trimmed};

verus! {

/// The UTF-8 bytes of a character sequence.
pub open spec fn utf8(s: Seq<char>) -> Seq<u8> {
    encode_utf8(s)
}

/// The number of bytes of a character's UTF-8 encoding.
pub open spec fn char_len(c: char) -> int {
    utf8(seq![c]).len() as int
}

/// The byte offset at which character `k` of `chars` starts.
pub open spec fn byte_offset(chars: Seq<char>, k: int) -> int {
    utf8(chars.take(k)).len() as int
}

/// The number of whole characters of `chars` whose encodings fit in the
/// first `p` bytes.
pub open spec fn chars_within(chars: Seq<char>, p: int) -> int
    decreases chars.len(),
{
    if chars.len() > 0 && char_len(chars[0]) <= p {
        1 + chars_within(chars.drop_first(), p - char_len(chars[0]))
    } else {
        0
    }
}

proof fn lemma_utf8_concat(a: Seq<char>, b: Seq<char>)
    ensures
        utf8(a + b) == utf8(a) + utf8(b),
    decreases a.len(),
{
    if a.len() == 0 {
        assert(a + b =~= b);
        assert(utf8(a) =~= Seq::<u8>::empty());
        assert(utf8(a) + utf8(b) =~= utf8(b));
    } else {
        assert((a + b).drop_first() =~= a.drop_first() + b);
        assert((a + b)[0] == a[0]);
        lemma_utf8_concat(a.drop_first(), b);
        assert(utf8(a + b) =~= encode_scalar(a[0] as u32) + (utf8(a.drop_first()) + utf8(b)));
    }
}

proof fn lemma_char_len_bounds(c: char)
    ensures
        1 <= char_len(c) <= 4,
        char_len(c) == encode_scalar(c as u32).len(),
{
    char_is_scalar(c);
    assert(seq![c].drop_first() =~= Seq::<char>::empty());
    assert(utf8(seq![c]) =~= encode_scalar(c as u32) + utf8(Seq::<char>::empty()));
    assert(utf8(Seq::<char>::empty()) =~= Seq::<u8>::empty());
}

proof fn lemma_offset_step(chars: Seq<char>, k: int)
    requires
        0 <= k < chars.len(),
    ensures
        byte_offset(chars, k + 1) == byte_offset(chars, k) + char_len(chars[k]),
{
    assert(chars.take(k + 1) =~= chars.take(k) + seq![chars[k]]);
    lemma_utf8_concat(chars.take(k), seq![chars[k]]);
}

proof fn lemma_offset_front(chars: Seq<char>, j: int)
    requires
        0 < j <= chars.len(),
    ensures
        byte_offset(chars, j) == char_len(chars[0]) + byte_offset(chars.drop_first(), j - 1),
{
    assert(chars.take(j) =~= seq![chars[0]] + chars.drop_first().take(j - 1));
    lemma_utf8_concat(seq![chars[0]], chars.drop_first().take(j - 1));
}

proof fn lemma_offset_within_text(chars: Seq<char>, k: int)
    requires
        0 <= k <= chars.len(),
    ensures
        0 <= byte_offset(chars, k) <= utf8(chars).len(),
        byte_offset(chars, chars.len() as int) == utf8(chars).len(),
{
    assert(chars =~= chars.take(k) + chars.skip(k));
    lemma_utf8_concat(chars.take(k), chars.skip(k));
    assert(chars.take(chars.len() as int) =~= chars);
}

/// Counting the whole characters within a character's start offset gives
/// back that character's position.
proof fn lemma_within_offset(chars: Seq<char>, j: int)
    requires
        0 <= j <= chars.len(),
    ensures
        chars_within(chars, byte_offset(chars, j)) == j,
    decreases chars.len(),
{
    if j == 0 {
        assert(chars.take(0) =~= Seq::<char>::empty());
        assert(utf8(Seq::<char>::empty()) =~= Seq::<u8>::empty());
        if chars.len() > 0 {
            lemma_char_len_bounds(chars[0]);
        }
    } else {
        lemma_offset_front(chars, j);
        lemma_offset_within_text(chars.drop_first(), j - 1);
        lemma_within_offset(chars.drop_first(), j - 1);
    }
}

/// The whole characters within `p` bytes end at or before `p`, and the
/// next character does not fit.
proof fn lemma_within_bounds(chars: Seq<char>, p: int)
    requires
        p >= 0,
    ensures
        0 <= chars_within(chars, p) <= chars.len(),
        byte_offset(chars, chars_within(chars, p)) <= p,
        chars_within(chars, p) < chars.len() ==> p < byte_offset(chars, chars_within(chars, p) + 1),
    decreases chars.len(),
{
    let k = chars_within(chars, p);
    if chars.len() > 0 && char_len(chars[0]) <= p {
        let rest = chars.drop_first();
        let q = p - char_len(chars[0]);
        lemma_within_bounds(rest, q);
        lemma_offset_front(chars, k);
        if k < chars.len() {
            lemma_offset_front(chars, k + 1);
        }
    } else {
        assert(chars.take(0) =~= Seq::<char>::empty());
        assert(utf8(Seq::<char>::empty()) =~= Seq::<u8>::empty());
        if chars.len() > 0 {
            lemma_offset_front(chars, 1);
            assert(chars.drop_first().take(0) =~= Seq::<char>::empty());
        }
    }
}

fn char_utf8_len(c: char) -> (r: usize)
    ensures
        r == char_len(c),
        1 <= r <= 4,
{
    proof {
        lemma_char_len_bounds(c);
        char_is_scalar(c);
    }
    let u = c as u32;
    if u <= 0x7F {
        1
    } else if u <= 0x7FF {
        2
    } else if u <= 0xFFFF {
        3
    } else {
        4
    }
}

/// The whole characters of `chars` within the first `p` bytes, and the
/// byte offset where they end.
fn scan(chars: &Vec<char>, p: usize) -> (r: (usize, usize))
    ensures
        r.0 == chars_within(chars@, p as int),
        r.1 == byte_offset(chars@, r.0 as int),
        r.1 <= p,
        r.0 <= chars.len(),
{
    let mut k: usize = 0;
    let mut off: usize = 0;
    proof {
        assert(chars@.skip(0) =~= chars@);
        assert(chars@.take(0) =~= Seq::<char>::empty());
        assert(utf8(Seq::<char>::empty()) =~= Seq::<u8>::empty());
        if chars.len() == 0 {
            assert(chars@.skip(0) =~= Seq::<char>::empty());
        }
    }
    while k < chars.len()
        invariant
            k <= chars.len(),
            off == byte_offset(chars@, k as int),
            off <= p,
            chars_within(chars@, p as int) == k + chars_within(chars@.skip(k as int), p - off),
            k == chars.len() ==> chars@.skip(k as int) =~= Seq::<char>::empty(),
        ensures
            k <= chars.len(),
            off == byte_offset(chars@, k as int),
            off <= p,
            chars_within(chars@, p as int) == k,
        decreases chars.len() - k,
    {
        let cl = char_utf8_len(chars[k]);
        let rest = Ghost(chars@.skip(k as int));
        assert(rest@[0] == chars@[k as int]);
        if cl > p - off {
            proof {
                return_within(chars, k, off, p, rest);
            }
            break;
        }
        proof {
            lemma_offset_step(chars@, k as int);
            assert(rest@.drop_first() =~= chars@.skip(k + 1));
        }
        off = off + cl;
        k = k + 1;
        proof {
            if k == chars.len() {
                assert(chars@.skip(k as int) =~= Seq::<char>::empty());
            }
        }
    }
    (k, off)
}

proof fn return_within(chars: &Vec<char>, k: usize, off: usize, p: usize, rest: Ghost<Seq<char>>)
    requires
        k < chars.len(),
        rest@ == chars@.skip(k as int),
        char_len(chars@[k as int]) > p - off,
    ensures
        chars_within(rest@, p - off) == 0,
{
    assert(rest@[0] == chars@[k as int]);
}

/// State of the onboarding dialog.
#[derive(Debug)]
pub struct OnboardingState {
    /// The directory path typed so far.
    pub input_buffer: String,
    /// Cursor position, a byte offset into `input_buffer`.
    pub cursor_position: usize,
    /// Validation error to show, if any.
    pub error_message: Option<String>,
    /// Whether the path is being validated.
    pub validating: bool,
}

impl OnboardingState {
    /// The bytes of the input.
    pub open spec fn bytes(&self) -> Seq<u8> {
        utf8(self.input_buffer@)
    }

    /// The position (in characters) of the character the cursor is at or
    /// inside: the number of whole characters before the cursor.
    pub open spec fn cursor_char(&self) -> int {
        chars_within(self.input_buffer@, self.cursor_position as int)
    }

    /// The cursor is on a character boundary (the start of a character, or
    /// the end of the text).
    pub open spec fn wf(&self) -> bool {
        byte_offset(self.input_buffer@, self.cursor_char()) == self.cursor_position
    }

    /// `next` is this dialog after typing `c`: `c` is put before the
    /// character at the cursor, the cursor moves past it, and the error is
    /// cleared.
    pub open spec fn inserted(self, c: char, next: OnboardingState) -> bool {
        let k = self.cursor_char();
        &&& next.input_buffer@ == self.input_buffer@.take(k) + seq![c] + self.input_buffer@.skip(k)
        &&& next.cursor_position == self.cursor_position + char_len(c)
        &&& next.error_message is None
        &&& next.validating == self.validating
    }

    /// `next` is this dialog after a backspace: at the start nothing
    /// changes; otherwise the character before the cursor is removed, the
    /// cursor moves back to where it started, and the error is cleared.
    pub open spec fn deleted(self, next: OnboardingState) -> bool {
        if self.cursor_position == 0 {
            next == self
        } else {
            let k = self.cursor_char();
            &&& next.input_buffer@ == self.input_buffer@.take(k - 1) + self.input_buffer@.skip(k)
            &&& next.cursor_position == byte_offset(self.input_buffer@, k - 1)
            &&& next.error_message is None
            &&& next.validating == self.validating
        }
    }

    /// This dialog with the cursor at `p`.
    pub open spec fn with_cursor(self, p: int) -> OnboardingState {
        OnboardingState { cursor_position: p as usize, ..self }
    }

    /// This dialog after moving the cursor left: to the start of the
    /// character before it (at the start, nowhere).
    pub open spec fn after_left(self) -> OnboardingState {
        if self.cursor_position > 0 {
            self.with_cursor(
                byte_offset(
                    self.input_buffer@,
                    chars_within(self.input_buffer@, self.cursor_position - 1),
                ),
            )
        } else {
            self
        }
    }

    /// This dialog after moving the cursor right: past the character it is
    /// at (at the end, nowhere).
    pub open spec fn after_right(self) -> OnboardingState {
        let k = self.cursor_char();
        if k < self.input_buffer@.len() {
            self.with_cursor(byte_offset(self.input_buffer@, k + 1))
        } else {
            self
        }
    }

    /// This dialog showing an error, no longer validating.
    pub open spec fn with_error(self, message: String) -> OnboardingState {
        OnboardingState { error_message: Some(message), validating: false, ..self }
    }

    /// This dialog validating, with no error.
    pub open spec fn validation_started(self) -> OnboardingState {
        OnboardingState { error_message: None, validating: true, ..self }
    }

    /// A fresh dialog holding the default path "~/ctf", cursor at its end.
    pub fn new() -> (r: OnboardingState)
        ensures
            r.input_buffer@ == "~/ctf"@,
            r.cursor_position == r.bytes().len() as usize,
            r.error_message is None,
            !r.validating,
    {
        let default_path = String::from_str("~/ctf");
        let cursor_pos = default_path.as_str().len();
        OnboardingState {
            input_buffer: default_path,
            cursor_position: cursor_pos,
            error_message: None,
            validating: false,
        }
    }

    /// Whether the cursor is on a character boundary.
    pub fn cursor_at_char(&self) -> (r: bool)
        ensures
            r == self.wf(),
    {
        let chars = chars_of(self.input_buffer.as_str());
        let (_k, off) = scan(&chars, self.cursor_position);
        off == self.cursor_position
    }

    /// Inserts a character at the cursor, moves the cursor past it and
    /// clears the error.
    pub fn insert_char(&mut self, c: char)
        requires
            old(self).wf(),
            old(self).cursor_position + char_len(c) <= usize::MAX,
        ensures
            old(self).inserted(c, *final(self)),
    {
        let mut chars = chars_of(self.input_buffer.as_str());
        let (k, _off) = scan(&chars, self.cursor_position);
        let ghost before = chars@;
        chars.insert(k, c);
        assert(chars@ =~= before.take(k as int) + seq![c] + before.skip(k as int));
        self.input_buffer = string_from_chars(&chars);
        self.cursor_position = self.cursor_position + char_utf8_len(c);
        self.error_message = None;
    }

    /// Backspace: removes the character before the cursor, moves the cursor
    /// back to where that character started and clears the error; does
    /// nothing at the start of the input.
    pub fn delete_char(&mut self)
        requires
            old(self).wf(),
        ensures
            old(self).deleted(*final(self)),
    {
        if self.cursor_position > 0 {
            let mut chars = chars_of(self.input_buffer.as_str());
            let (k, off) = scan(&chars, self.cursor_position);
            let ghost before = chars@;
            proof {
                if k == 0 {
                    assert(before.take(0) =~= Seq::<char>::empty());
                    assert(utf8(Seq::<char>::empty()) =~= Seq::<u8>::empty());
                }
                lemma_offset_step(before, k - 1);
            }
            let cl = char_utf8_len(chars[k - 1]);
            chars.remove(k - 1);
            assert(chars@ =~= before.take(k - 1) + before.skip(k as int));
            self.input_buffer = string_from_chars(&chars);
            self.cursor_position = self.cursor_position - cl;
            self.error_message = None;
        }
    }

    /// Moves the cursor to the start of the character before it, unless it
    /// is at the start.
    pub fn move_cursor_left(&mut self)
        ensures
            *final(self) == old(self).after_left(),
    {
        if self.cursor_position > 0 {
            let chars = chars_of(self.input_buffer.as_str());
            let (_k, off) = scan(&chars, self.cursor_position - 1);
            self.cursor_position = off;
        }
    }

    /// Moves the cursor past the character it is at, unless it is at the
    /// end.
    pub fn move_cursor_right(&mut self)
        ensures
            *final(self) == old(self).after_right(),
    {
        let chars = chars_of(self.input_buffer.as_str());
        let (k, off) = scan(&chars, self.cursor_position);
        if k < chars.len() {
            let total = self.input_buffer.as_str().as_bytes().len();
            proof {
                lemma_offset_step(chars@, k as int);
                lemma_offset_within_text(chars@, k + 1);
            }
            self.cursor_position = off + char_utf8_len(chars[k]);
            assert(total == self.bytes().len());
        }
    }

    /// Moves the cursor to the start.
    pub fn move_cursor_home(&mut self)
        ensures
            *final(self) == old(self).with_cursor(0),
    {
        self.cursor_position = 0;
    }

    /// Moves the cursor to the end.
    pub fn move_cursor_end(&mut self)
        ensures
            *final(self) == old(self).with_cursor(old(self).bytes().len() as usize as int),
    {
        self.cursor_position = self.input_buffer.as_str().len();
    }

    /// The text typed so far.
    pub fn get_input(&self) -> (r: &str)
        ensures
            r@ == self.input_buffer@,
    {
        self.input_buffer.as_str()
    }

    /// Shows an error and ends validation.
    pub fn set_error(&mut self, message: String)
        ensures
            *final(self) == old(self).with_error(message),
    {
        self.error_message = Some(message);
        self.validating = false;
    }

    /// Starts validation and clears the error.
    pub fn start_validation(&mut self)
        ensures
            *final(self) == old(self).validation_started(),
    {
        self.validating = true;
        self.error_message = None;
    }

    /// How the input field shows: while validating, the text followed by
    /// "  [Validating...]"; otherwise the text with '|' put at the cursor.
    pub fn input_display(&self) -> (r: String)
        requires
            !self.validating ==> self.wf(),
        ensures
            self.validating ==> r@ == self.input_buffer@ + "  [Validating...]"@,
            !self.validating ==> r@ == self.input_buffer@.take(self.cursor_char()) + seq!['|']
                + self.input_buffer@.skip(self.cursor_char()),
    {
        if self.validating {
            let mut r = self.input_buffer.clone();
            r.append("  [Validating...]");
            r
        } else {
            let mut chars = chars_of(self.input_buffer.as_str());
            let (k, _off) = scan(&chars, self.cursor_position);
            let ghost before = chars@;
            chars.insert(k, '|');
            assert(chars@ =~= before.take(k as int) + seq!['|'] + before.skip(k as int));
            string_from_chars(&chars)
        }
    }

    /// True when the input holds nothing but whitespace.
    pub fn is_empty(&self) -> (r: bool)
        ensures
            r == (trimmed(self.input_buffer@).len() == 0),
            r == forall|i: int|
                0 <= i < self.input_buffer@.len() ==> is_white_space(
                    #[trigger] self.input_buffer@[i],
                ),
    {
        proof {
            lemma_trimmed_empty_iff_blank(self.input_buffer@);
        }
        trim(self.input_buffer.as_str()).as_str().is_empty()
    }
}

impl Default for OnboardingState {
    fn default() -> (r: OnboardingState)
        ensures
            r.input_buffer@ == "~/ctf"@,
            r.cursor_position == r.bytes().len() as usize,
            r.error_message is None,
            !r.validating,
    {
        OnboardingState::new()
    }
}

/// Every edit keeps the cursor on a character boundary: typing or deleting
/// a character, and each cursor move, map such a dialog to such a dialog
/// (the end of the text counts when its length is a usize, as every
/// `String`'s is).
pub proof fn lemma_edits_keep_cursor_in_input(before: OnboardingState, after: OnboardingState, c: char)
    requires
        before.wf(),
    ensures
        before.inserted(c, after) ==> after.wf(),
        before.deleted(after) ==> after.wf(),
        after == before.after_left() ==> after.wf(),
        after == before.after_right() && before.bytes().len() <= usize::MAX ==> after.wf(),
        after == before.with_cursor(0) ==> after.wf(),
        after == before.with_cursor(before.bytes().len() as usize as int) && before.bytes().len()
            <= usize::MAX ==> after.wf(),
{
    let t = before.input_buffer@;
    let k = before.cursor_char();
    lemma_within_bounds(t, before.cursor_position as int);
    if before.inserted(c, after) {
        let u = after.input_buffer@;
        assert(u.take(k) =~= t.take(k));
        assert(u[k] == c);
        lemma_offset_step(u, k);
        lemma_within_offset(u, k + 1);
    }
    if before.deleted(after) && before.cursor_position > 0 {
        let u = after.input_buffer@;
        if k == 0 {
            assert(t.take(0) =~= Seq::<char>::empty());
            assert(utf8(Seq::<char>::empty()) =~= Seq::<u8>::empty());
        }
        assert(u.take(k - 1) =~= t.take(k - 1));
        lemma_within_offset(u, k - 1);
    }
    if after == before.after_left() && before.cursor_position > 0 {
        let j = chars_within(t, before.cursor_position - 1);
        lemma_within_bounds(t, before.cursor_position - 1);
        lemma_within_offset(t, j);
        assert(after.cursor_position == byte_offset(t, j));
        assert(after.input_buffer@ == t);
        assert(after.cursor_char() == j);
    }
    if after == before.after_right() && k < t.len() && before.bytes().len() <= usize::MAX {
        lemma_offset_within_text(t, k + 1);
        lemma_within_offset(t, k + 1);
        assert(after.cursor_position == byte_offset(t, k + 1));
        assert(after.cursor_char() == k + 1);
    }
    if after == before.with_cursor(0) {
        lemma_within_offset(t, 0);
        assert(t.take(0) =~= Seq::<char>::empty());
        assert(utf8(Seq::<char>::empty()) =~= Seq::<u8>::empty());
    }
    if after == before.with_cursor(before.bytes().len() as usize as int) && before.bytes().len()
        <= usize::MAX {
        lemma_offset_within_text(t, t.len() as int);
        lemma_within_offset(t, t.len() as int);
    }
}

/// Typing a character and then pressing backspace gives back the text and
/// the cursor that were there before, with no error shown and validation
/// as it was.
pub proof fn lemma_delete_undoes_insert(
    before: OnboardingState,
    mid: OnboardingState,
    after: OnboardingState,
    c: char,
)
    requires
        before.wf(),
        before.inserted(c, mid),
    ensures
        mid.wf(),
        mid.deleted(after) ==> after.input_buffer@ == before.input_buffer@
            && after.cursor_position == before.cursor_position && after.error_message is None
            && after.validating == before.validating,
{
    lemma_edits_keep_cursor_in_input(before, mid, c);
    let t = before.input_buffer@;
    let u = mid.input_buffer@;
    let k = before.cursor_char();
    lemma_within_bounds(t, before.cursor_position as int);
    assert(u.take(k) =~= t.take(k));
    assert(u[k] == c);
    lemma_offset_step(u, k);
    lemma_within_offset(u, k + 1);
    lemma_char_len_bounds(c);
    if mid.deleted(after) {
        assert(after.input_buffer@ =~= t);
    }
}

} // verus!
