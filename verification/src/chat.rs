//! Chat state: conversation history, the input line being edited, and the
//! assistant reply being streamed.

use vstd::prelude::*;
use vstd::utf8::{decode_first_scalar, encode_utf8, is_char_boundary, length_of_first_scalar};

use crate::pipeline::{ChatMessage, messages_view};

verus! {

broadcast use {vstd::string::group_string_axioms, vstd::utf8::encode_utf8_valid_utf8};

/// Statistics of the last reply. The rate is an `f64` kept as its bit pattern.
pub struct ChatStats {
    pub tokens_generated: u32,
    pub elapsed_ms: u64,
    pub tokens_per_sec_bits: u64,
}

pub struct ChatState {
    pub history: Vec<ChatMessage>,
    pub input: String,
    /// Byte offset of the cursor in `input`.
    pub cursor_pos: usize,
    /// Currently streaming assistant response
    pub streaming_buf: String,
    pub is_streaming: bool,
    pub system_prompt: String,
    pub scroll_offset: usize,
    pub stats: Option<ChatStats>,
}

/// The UTF-8 bytes of a text.
pub open spec fn utf8(s: Seq<char>) -> Seq<u8> {
    encode_utf8(s)
}

/// std's `char::len_utf8`: the number of bytes of the character's UTF-8 encoding.
#[verifier::external_body]
fn char_len_utf8(c: char) -> (n: usize)
    ensures
        n == utf8(seq![c]).len(),
{
    c.len_utf8()
}

/// std's `String::insert`: the UTF-8 encoding of `c` goes in at byte `idx`.
/// It panics unless `idx` is a character boundary, which `requires` demands.
#[verifier::external_body]
fn string_insert(s: &mut String, idx: usize, c: char)
    requires
        is_char_boundary(utf8(old(s)@), idx as int),
    ensures
        utf8(final(s)@) == utf8(old(s)@).take(idx as int) + utf8(seq![c]) + utf8(old(s)@).skip(idx as int),
{
    s.insert(idx, c)
}

/// std's `String::remove`: takes out the character whose encoding starts at
/// byte `idx` and returns it. It panics unless `idx` is a character boundary
/// below the length, which `requires` demands.
#[verifier::external_body]
fn string_remove(s: &mut String, idx: usize) -> (c: char)
    requires
        idx < utf8(old(s)@).len(),
        is_char_boundary(utf8(old(s)@), idx as int),
    ensures
        utf8(final(s)@) == utf8(old(s)@).take(idx as int)
            + utf8(old(s)@).skip(idx + length_of_first_scalar(utf8(old(s)@).skip(idx as int))),
        c == decode_first_scalar(utf8(old(s)@).skip(idx as int)) as char,
{
    s.remove(idx)
}

/// The nearest character boundary before byte `i`.
pub open spec fn prev_boundary(b: Seq<u8>, i: int) -> int
    decreases i,
{
    if i <= 1 || is_char_boundary(b, i - 1) {
        i - 1
    } else {
        prev_boundary(b, i - 1)
    }
}

pub open spec fn history_view(h: Seq<ChatMessage>) -> Seq<(Seq<char>, Seq<char>)> {
    messages_view(h)
}

/// `b` is `a` after typing `c` at the cursor.
pub open spec fn typed(a: ChatState, b: ChatState, c: char) -> bool {
    &&& utf8(b.input@) == utf8(a.input@).take(a.cursor_pos as int) + utf8(seq![c]) + utf8(a.input@).skip(a.cursor_pos as int)
    &&& b.cursor_pos == a.cursor_pos + utf8(seq![c]).len()
    &&& b.history == a.history
    &&& b.streaming_buf == a.streaming_buf
    &&& b.is_streaming == a.is_streaming
    &&& b.system_prompt == a.system_prompt
    &&& b.scroll_offset == a.scroll_offset
    &&& b.stats == a.stats
}

/// `b` is `a` after a backspace: the character before the cursor is gone.
pub open spec fn backspaced(a: ChatState, b: ChatState) -> bool {
    &&& a.cursor_pos == 0 ==> b.input == a.input && b.cursor_pos == 0
    &&& a.cursor_pos > 0 ==> {
        let bytes = utf8(a.input@);
        let p = prev_boundary(bytes, a.cursor_pos as int);
        &&& b.cursor_pos == p
        &&& utf8(b.input@) == bytes.take(p) + bytes.skip(p + length_of_first_scalar(bytes.skip(p)))
    }
    &&& b.history == a.history
    &&& b.streaming_buf == a.streaming_buf
    &&& b.is_streaming == a.is_streaming
    &&& b.system_prompt == a.system_prompt
    &&& b.scroll_offset == a.scroll_offset
    &&& b.stats == a.stats
}

/// `b` is `a` with the conversation cleared; the input line is kept.
pub open spec fn cleared(a: ChatState, b: ChatState) -> bool {
    &&& b.history@.len() == 0
    &&& b.streaming_buf@ == Seq::<char>::empty()
    &&& !b.is_streaming
    &&& b.scroll_offset == 0
    &&& b.stats is None
    &&& b.input == a.input
    &&& b.cursor_pos == a.cursor_pos
    &&& b.system_prompt == a.system_prompt
}

/// `b` is `a` scrolled by one line (up when `up`, else down).
pub open spec fn scrolled(a: ChatState, b: ChatState, up: bool) -> bool {
    &&& b.scroll_offset == if up {
        if a.scroll_offset > 0 { (a.scroll_offset - 1) as usize } else { 0 }
    } else {
        (a.scroll_offset + 1) as usize
    }
    &&& b.history == a.history
    &&& b.input == a.input
    &&& b.cursor_pos == a.cursor_pos
    &&& b.streaming_buf == a.streaming_buf
    &&& b.is_streaming == a.is_streaming
    &&& b.system_prompt == a.system_prompt
    &&& b.stats == a.stats
}

/// `b` is `a` after sending the input line: it joined the history as the
/// user's message, the line is empty, and a reply is being streamed.
pub open spec fn submitted(a: ChatState, b: ChatState) -> bool {
    &&& history_view(b.history@) == history_view(a.history@).push(("user"@, a.input@))
    &&& b.input@ == Seq::<char>::empty()
    &&& b.cursor_pos == 0
    &&& b.streaming_buf@ == Seq::<char>::empty()
    &&& b.is_streaming
    &&& b.stats is None
    &&& b.system_prompt == a.system_prompt
    &&& b.scroll_offset == a.scroll_offset
}

/// The conversation as sent to the model: the system prompt, then the history.
pub open spec fn inference_messages(c: ChatState) -> Seq<(Seq<char>, Seq<char>)> {
    seq![("system"@, c.system_prompt@)] + history_view(c.history@)
}

impl ChatState {
    pub fn new(system_prompt: String) -> (r: ChatState)
        ensures
            r.history@.len() == 0,
            r.input@ == Seq::<char>::empty(),
            r.cursor_pos == 0,
            r.streaming_buf@ == Seq::<char>::empty(),
            !r.is_streaming,
            r.system_prompt == system_prompt,
            r.scroll_offset == 0,
            r.stats is None,
    {
        ChatState {
            history: Vec::new(),
            input: String::new(),
            cursor_pos: 0,
            streaming_buf: String::new(),
            is_streaming: false,
            system_prompt,
            scroll_offset: 0,
            stats: None,
        }
    }

    /// Inserts `c` at the cursor and moves the cursor past it.
    pub fn push_char(&mut self, c: char)
        requires
            is_char_boundary(utf8(old(self).input@), old(self).cursor_pos as int),
            old(self).cursor_pos + utf8(seq![c]).len() <= usize::MAX,
        ensures
            typed(*old(self), *final(self), c),
            is_char_boundary(utf8(final(self).input@), final(self).cursor_pos as int),
    {
        string_insert(&mut self.input, self.cursor_pos, c);
        self.cursor_pos = self.cursor_pos + char_len_utf8(c);
        proof {
            lemma_typed_bytes(*old(self), *self, c);
        }
    }

    /// Deletes the character before the cursor.
    pub fn backspace(&mut self)
        requires
            old(self).cursor_pos <= utf8(old(self).input@).len(),
        ensures
            backspaced(*old(self), *final(self)),
            is_char_boundary(utf8(old(self).input@), old(self).cursor_pos as int)
                ==> is_char_boundary(utf8(final(self).input@), final(self).cursor_pos as int),
    {
        if self.cursor_pos > 0 {
            let ghost b = utf8(self.input@);
            let ghost start = self.cursor_pos as int;
            let mut pos = self.cursor_pos - 1;
            proof {
                vstd::utf8::is_char_boundary_start_end_of_seq(b);
            }
            while !self.input.is_char_boundary(pos)
                invariant
                    b == utf8(self.input@),
                    0 <= pos < start,
                    start <= b.len(),
                    is_char_boundary(b, 0),
                    prev_boundary(b, start) == prev_boundary(b, pos + 1),
                decreases pos,
            {
                pos = pos - 1;
            }
            assert(prev_boundary(b, pos + 1) == pos);
            string_remove(&mut self.input, pos);
            self.cursor_pos = pos;
        }
        proof {
            if is_char_boundary(utf8(old(self).input@), old(self).cursor_pos as int) {
                lemma_backspaced_boundary(*old(self), *self);
            }
        }
    }

    /// Hands over the input line and empties it.
    pub fn take_input(&mut self) -> (r: String)
        ensures
            r == old(self).input,
            final(self).input@ == Seq::<char>::empty(),
            final(self).cursor_pos == 0,
            final(self).history == old(self).history,
            final(self).streaming_buf == old(self).streaming_buf,
            final(self).is_streaming == old(self).is_streaming,
            final(self).system_prompt == old(self).system_prompt,
            final(self).scroll_offset == old(self).scroll_offset,
            final(self).stats == old(self).stats,
    {
        self.cursor_pos = 0;
        let mut taken = String::new();
        std::mem::swap(&mut taken, &mut self.input);
        taken
    }

    /// Records the user's message and starts streaming a reply.
    pub fn start_streaming(&mut self, user_msg: String)
        ensures
            history_view(final(self).history@) == history_view(old(self).history@).push(("user"@, user_msg@)),
            final(self).streaming_buf@ == Seq::<char>::empty(),
            final(self).is_streaming,
            final(self).stats is None,
            final(self).input == old(self).input,
            final(self).cursor_pos == old(self).cursor_pos,
            final(self).system_prompt == old(self).system_prompt,
            final(self).scroll_offset == old(self).scroll_offset,
    {
        let ghost um = user_msg@;
        self.history.push(ChatMessage { role: String::from_str("user"), content: user_msg });
        assert(history_view(self.history@) =~= history_view(old(self).history@).push(("user"@, um)));
        self.streaming_buf = String::new();
        self.is_streaming = true;
        self.stats = None;
    }

    pub fn append_stream_token(&mut self, token: &str)
        ensures
            final(self).streaming_buf@ == old(self).streaming_buf@ + token@,
            final(self).history == old(self).history,
            final(self).input == old(self).input,
            final(self).cursor_pos == old(self).cursor_pos,
            final(self).is_streaming == old(self).is_streaming,
            final(self).system_prompt == old(self).system_prompt,
            final(self).scroll_offset == old(self).scroll_offset,
            final(self).stats == old(self).stats,
    {
        self.streaming_buf.append(token);
    }

    /// Ends streaming: a non-empty reply joins the history as the assistant's.
    pub fn finish_streaming(&mut self, stats: ChatStats)
        ensures
            history_view(final(self).history@) == if old(self).streaming_buf@.len() > 0 {
                history_view(old(self).history@).push(("assistant"@, old(self).streaming_buf@))
            } else {
                history_view(old(self).history@)
            },
            final(self).streaming_buf@ == Seq::<char>::empty(),
            !final(self).is_streaming,
            final(self).stats == Some(stats),
            final(self).input == old(self).input,
            final(self).cursor_pos == old(self).cursor_pos,
            final(self).system_prompt == old(self).system_prompt,
            final(self).scroll_offset == old(self).scroll_offset,
    {
        let mut response = String::new();
        std::mem::swap(&mut response, &mut self.streaming_buf);
        let ghost resp = response@;
        if !response.as_str().is_empty() {
            self.history.push(ChatMessage { role: String::from_str("assistant"), content: response });
            assert(history_view(self.history@) =~= history_view(old(self).history@).push(("assistant"@, resp)));
        }
        self.is_streaming = false;
        self.stats = Some(stats);
    }

    pub fn clear_history(&mut self)
        ensures
            cleared(*old(self), *final(self)),
    {
        self.history.clear();
        self.streaming_buf = String::new();
        self.is_streaming = false;
        self.scroll_offset = 0;
        self.stats = None;
    }

    /// The conversation to send to the model: the system prompt, then the history.
    pub fn messages_for_inference(&self) -> (r: Vec<ChatMessage>)
        ensures
            history_view(r@) == inference_messages(*self),
    {
        let mut msgs: Vec<ChatMessage> = Vec::new();
        msgs.push(ChatMessage { role: String::from_str("system"), content: self.system_prompt.clone() });
        let ghost first = seq![("system"@, self.system_prompt@)];
        let ghost h = history_view(self.history@);
        assert(history_view(msgs@) =~= first + h.take(0));
        let mut i: usize = 0;
        while i < self.history.len()
            invariant
                i <= self.history@.len(),
                h == history_view(self.history@),
                history_view(msgs@) == first + h.take(i as int),
            decreases self.history@.len() - i,
        {
            let m = self.history[i].clone();
            assert(m == self.history@[i as int]);
            let ghost before = msgs@;
            msgs.push(m);
            assert(history_view(msgs@) =~= history_view(before).push(h[i as int]));
            assert(h.take(i + 1) =~= h.take(i as int).push(h[i as int]));
            assert(history_view(msgs@) =~= first + h.take(i + 1));
            i = i + 1;
        }
        assert(h.take(self.history@.len() as int) =~= h);
        msgs
    }

    pub fn scroll_up(&mut self)
        ensures
            scrolled(*old(self), *final(self), true),
    {
        self.scroll_offset = self.scroll_offset.saturating_sub(1);
    }

    pub fn scroll_down(&mut self)
        requires
            old(self).scroll_offset < usize::MAX,
        ensures
            scrolled(*old(self), *final(self), false),
    {
        self.scroll_offset = self.scroll_offset + 1;
    }
}

impl ChatState {
    /// Sends the input line: it joins the history as the user's message and
    /// streaming of the reply begins. Returns the conversation for the model.
    pub fn submit(&mut self) -> (r: Vec<ChatMessage>)
        ensures
            submitted(*old(self), *final(self)),
            history_view(r@) == inference_messages(*final(self)),
    {
        let taken = self.take_input();
        self.start_streaming(taken);
        self.messages_for_inference()
    }
}

} // verus!

verus! {

/// The UTF-8 bytes of one character: one leading byte, then only
/// continuation bytes.
proof fn lemma_char_bytes(c: char)
    ensures
        1 <= utf8(seq![c]).len() <= 4,
        vstd::utf8::length_of_first_scalar(utf8(seq![c])) == utf8(seq![c]).len(),
        !vstd::utf8::is_continuation_byte(utf8(seq![c])[0]),
        forall|k: int| 1 <= k < utf8(seq![c]).len() ==> vstd::utf8::is_continuation_byte(#[trigger] utf8(seq![c])[k]),
{
    let s = seq![c];
    vstd::utf8::encode_utf8_first_scalar(s);
    assert(s.drop_first() =~= Seq::<char>::empty());
    assert(encode_utf8(s.drop_first()) =~= Seq::<u8>::empty());
    assert(encode_utf8(s) =~= vstd::utf8::encode_scalar(c as u32));
}

/// The first scalar of a sequence is measured by its first bytes alone.
proof fn lemma_first_scalar_len_prefix(e: Seq<u8>, rest: Seq<u8>)
    requires
        e.len() >= 1,
    ensures
        length_of_first_scalar(e + rest) == length_of_first_scalar(e),
{
    assert((e + rest)[0] == e[0]);
}

/// A position inside valid UTF-8 is a character boundary exactly when it is
/// the end or its byte is not a continuation byte.
proof fn lemma_boundary_by_byte(b: Seq<u8>, i: int)
    requires
        vstd::utf8::valid_utf8(b),
        0 <= i <= b.len(),
    ensures
        is_char_boundary(b, i) <==> (i == b.len() || !vstd::utf8::is_continuation_byte(b[i])),
{
    vstd::utf8::is_char_boundary_start_end_of_seq(b);
    if i < b.len() {
        vstd::utf8::is_char_boundary_iff_not_is_continuation_byte(b, i);
    }
}

proof fn lemma_boundary_in_range(b: Seq<u8>, i: int)
    requires
        vstd::utf8::valid_utf8(b),
        is_char_boundary(b, i),
    ensures
        0 <= i <= b.len(),
{
}

/// Stepping back from the end of a character's bytes lands on its start.
proof fn lemma_prev_boundary_over(b: Seq<u8>, p: int, w: int)
    requires
        vstd::utf8::valid_utf8(b),
        0 <= p,
        1 <= w,
        p + w <= b.len(),
        is_char_boundary(b, p),
        forall|k: int| 1 <= k < w ==> !is_char_boundary(b, #[trigger] (p + k)),
    ensures
        prev_boundary(b, p + w) == p,
    decreases w,
{
    if w > 1 {
        assert(!is_char_boundary(b, p + (w - 1)));
        lemma_prev_boundary_over(b, p, w - 1);
    }
}

/// After typing `c` at a character boundary the bytes are the old ones with
/// the character's bytes inserted, the cursor lands on a boundary right
/// after them, and the boundary before the cursor is where typing began.
proof fn lemma_typed_bytes(a: ChatState, b: ChatState, c: char)
    requires
        is_char_boundary(utf8(a.input@), a.cursor_pos as int),
        typed(a, b, c),
    ensures
        is_char_boundary(utf8(b.input@), b.cursor_pos as int),
        prev_boundary(utf8(b.input@), b.cursor_pos as int) == a.cursor_pos,
        utf8(b.input@).take(a.cursor_pos as int) == utf8(a.input@).take(a.cursor_pos as int),
        utf8(b.input@).skip(a.cursor_pos as int) == utf8(seq![c]) + utf8(a.input@).skip(a.cursor_pos as int),
        b.cursor_pos > 0,
{
    let ab = utf8(a.input@);
    let bb = utf8(b.input@);
    let e = utf8(seq![c]);
    let p = a.cursor_pos as int;
    let w = e.len() as int;
    lemma_char_bytes(c);
    lemma_boundary_in_range(ab, p);
    assert(bb == ab.take(p) + e + ab.skip(p));
    assert forall|k: int| 0 <= k < w implies #[trigger] bb[p + k] == e[k] by {}
    assert(bb.take(p) =~= ab.take(p));
    assert(bb.skip(p) =~= e + ab.skip(p));
    lemma_boundary_by_byte(bb, p);
    assert forall|k: int| 1 <= k < w implies !is_char_boundary(bb, #[trigger] (p + k)) by {
        lemma_boundary_by_byte(bb, p + k);
        assert(bb[p + k] == e[k]);
    }
    lemma_prev_boundary_over(bb, p, w);
    lemma_boundary_by_byte(bb, p + w);
    lemma_boundary_by_byte(ab, p);
    if p + w < bb.len() {
        assert(bb[p + w] == ab[p]);
    }
}

/// After a backspace from a character boundary the cursor is on a boundary
/// of the new text.
proof fn lemma_backspaced_boundary(a: ChatState, b: ChatState)
    requires
        is_char_boundary(utf8(a.input@), a.cursor_pos as int),
        backspaced(a, b),
    ensures
        is_char_boundary(utf8(b.input@), b.cursor_pos as int),
{
    let ab = utf8(a.input@);
    if a.cursor_pos > 0 {
        let p = prev_boundary(ab, a.cursor_pos as int);
        lemma_prev_boundary_is_boundary(ab, a.cursor_pos as int);
        lemma_boundary_in_range(ab, a.cursor_pos as int);
        let tail = ab.skip(p);
        assert(tail =~= ab.subrange(p, ab.len() as int));
        vstd::utf8::valid_utf8_split(ab, p);
        let l = length_of_first_scalar(tail);
        let nb = ab.take(p) + ab.skip(p + l);
        assert(utf8(b.input@) == nb);
        assert(nb.take(p) =~= ab.take(p));
        // the rest of the text after the removed character is valid UTF-8,
        // so it starts at a boundary of the new text
        assert(vstd::utf8::pop_first_scalar(tail) =~= ab.skip(p + l));
        assert(vstd::utf8::valid_utf8(ab.skip(p + l)));
        lemma_boundary_by_byte(utf8(b.input@), p);
        if p < nb.len() {
            assert(nb[p] == ab.skip(p + l)[0]);
            assert(vstd::utf8::valid_first_scalar(ab.skip(p + l)));
        }
    }
}

proof fn lemma_prev_boundary_is_boundary(b: Seq<u8>, i: int)
    requires
        vstd::utf8::valid_utf8(b),
        1 <= i <= b.len(),
    ensures
        is_char_boundary(b, prev_boundary(b, i)),
        0 <= prev_boundary(b, i) < i,
    decreases i,
{
    vstd::utf8::is_char_boundary_start_end_of_seq(b);
    if !(i <= 1 || is_char_boundary(b, i - 1)) {
        lemma_prev_boundary_is_boundary(b, i - 1);
    }
}

/// Backspace undoes typing: typing a character at the cursor (on a
/// character boundary) and then pressing backspace gives back the same input
/// line with the cursor where it was; the rest of the chat is untouched.
pub proof fn law_backspace_undoes_typing(a: ChatState, b: ChatState, c: char, d: ChatState)
    requires
        is_char_boundary(utf8(a.input@), a.cursor_pos as int),
        typed(a, b, c),
        backspaced(b, d),
    ensures
        d.input@ == a.input@,
        d.cursor_pos == a.cursor_pos,
        d.history == a.history,
        d.streaming_buf == a.streaming_buf,
        d.is_streaming == a.is_streaming,
        d.system_prompt == a.system_prompt,
        d.scroll_offset == a.scroll_offset,
        d.stats == a.stats,
{
    let ab = utf8(a.input@);
    let bb = utf8(b.input@);
    let e = utf8(seq![c]);
    let p = a.cursor_pos as int;
    lemma_typed_bytes(a, b, c);
    lemma_char_bytes(c);
    lemma_first_scalar_len_prefix(e, ab.skip(p));
    assert(bb.skip(p + e.len()) =~= ab.skip(p)) by {
        assert(bb.skip(p + e.len()) =~= bb.skip(p).skip(e.len() as int));
        assert((e + ab.skip(p)).skip(e.len() as int) =~= ab.skip(p));
    }
    assert(utf8(d.input@) =~= ab.take(p) + ab.skip(p));
    assert(ab.take(p) + ab.skip(p) =~= ab);
    vstd::utf8::encode_utf8_decode_utf8(d.input@);
    vstd::utf8::encode_utf8_decode_utf8(a.input@);
}

/// The cursor always sits on a character boundary of the input line:
/// typing and backspace both keep it there.
pub proof fn law_cursor_stays_on_boundary(a: ChatState, b: ChatState, c: char)
    requires
        is_char_boundary(utf8(a.input@), a.cursor_pos as int),
    ensures
        typed(a, b, c) ==> is_char_boundary(utf8(b.input@), b.cursor_pos as int),
        backspaced(a, b) ==> is_char_boundary(utf8(b.input@), b.cursor_pos as int),
{
    if typed(a, b, c) {
        lemma_typed_bytes(a, b, c);
    }
    if backspaced(a, b) {
        lemma_backspaced_boundary(a, b);
    }
}

} // verus!

verus! {

/// Scrolling down one line and then up one line shows the same view again;
/// nothing else in the chat changes.
pub proof fn law_scroll_round_trip(a: ChatState, b: ChatState, c: ChatState)
    requires
        a.scroll_offset < usize::MAX,
        scrolled(a, b, false),
        scrolled(b, c, true),
    ensures
        c.scroll_offset == a.scroll_offset,
        c.history == a.history,
        c.input == a.input,
        c.cursor_pos == a.cursor_pos,
        c.streaming_buf == a.streaming_buf,
        c.is_streaming == a.is_streaming,
        c.system_prompt == a.system_prompt,
        c.stats == a.stats,
{
}

} // verus!
