//! The text of the chat screen's transcript: who speaks, the lines of each
//! message, the statistics line, and the reply being streamed with its
//! blinking cursor. Styling and drawing are the caller's part.

use vstd::prelude::*;

use crate::chat::ChatState;
use crate::text::{chars_of, find_char, first_index_of, lemma_first_index_of, string_of, strip_cr, strip_cr_chars, text_lines};

verus! {

broadcast use vstd::string::group_string_axioms;

/// What a transcript line shows, for styling.
#[derive(Clone, Copy, Debug, PartialEq, Eq, Structural)]
pub enum LineKind {
    /// `  You:` or `  Markus:`.
    Speaker,
    /// A line of a message, indented by two spaces.
    Body,
    /// The statistics of the last reply (the caller formats them).
    Stats,
    /// An empty line after a message.
    Blank,
    /// The streaming cursor, `▋` or a space as it blinks.
    Cursor,
}

pub struct TranscriptLine {
    pub kind: LineKind,
    pub text: String,
}

pub open spec fn line_view(l: TranscriptLine) -> (LineKind, Seq<char>) {
    (l.kind, l.text@)
}

pub open spec fn lines_view(ls: Seq<TranscriptLine>) -> Seq<(LineKind, Seq<char>)> {
    Seq::new(ls.len(), |i: int| line_view(ls[i]))
}

/// The body lines of a text: each of its lines indented by two spaces.
pub open spec fn body_lines(text: Seq<char>) -> Seq<(LineKind, Seq<char>)> {
    text_lines(text).map_values(|l: Seq<char>| (LineKind::Body, "  "@ + l))
}

/// The lines of one history message: a user's or the assistant's turn (the
/// assistant's followed by the statistics line when there are statistics);
/// messages of other roles are not shown.
pub open spec fn message_lines(role: Seq<char>, content: Seq<char>, has_stats: bool) -> Seq<(LineKind, Seq<char>)> {
    if role == "user"@ {
        seq![(LineKind::Speaker, "  You:"@)] + body_lines(content) + seq![(LineKind::Blank, Seq::<char>::empty())]
    } else if role == "assistant"@ {
        seq![(LineKind::Speaker, "  Markus:"@)] + body_lines(content)
            + (if has_stats { seq![(LineKind::Stats, Seq::<char>::empty())] } else { Seq::empty() })
            + seq![(LineKind::Blank, Seq::<char>::empty())]
    } else {
        Seq::empty()
    }
}

pub open spec fn history_lines(h: Seq<(Seq<char>, Seq<char>)>, has_stats: bool) -> Seq<(LineKind, Seq<char>)>
    decreases h.len(),
{
    if h.len() == 0 {
        Seq::empty()
    } else {
        history_lines(h.drop_last(), has_stats) + message_lines(h.last().0, h.last().1, has_stats)
    }
}

/// The blinking cursor: shown for four ticks out of eight.
pub open spec fn cursor_glyph(tick: u64) -> Seq<char> {
    if tick % 8 < 4 { "▋"@ } else { " "@ }
}

/// The whole transcript at animation step `tick`: the history, then, while a
/// reply is streaming and has text, that text and the cursor.
pub open spec fn transcript(c: ChatState, tick: u64) -> Seq<(LineKind, Seq<char>)> {
    history_lines(crate::chat::history_view(c.history@), c.stats is Some)
        + if c.is_streaming && c.streaming_buf@.len() > 0 {
            seq![(LineKind::Speaker, "  Markus:"@)] + body_lines(c.streaming_buf@) + seq![(LineKind::Cursor, cursor_glyph(tick))]
        } else {
            Seq::empty()
        }
}

proof fn lemma_text_lines_len(s: Seq<char>)
    ensures
        text_lines(s).len() <= s.len(),
    decreases s.len(),
{
    if s.len() > 0 {
        lemma_first_index_of(s, '\n');
        if let Some(k) = first_index_of(s, '\n') {
            lemma_text_lines_len(s.skip(k + 1));
        }
    }
}

fn push_line(out: &mut Vec<TranscriptLine>, kind: LineKind, text: String)
    ensures
        lines_view(final(out)@) == lines_view(old(out)@).push((kind, text@)),
{
    let ghost t = text@;
    out.push(TranscriptLine { kind, text });
    assert(lines_view(out@) =~= lines_view(old(out)@).push((kind, t)));
}

fn indented(line: &[char]) -> (r: String)
    ensures
        r@ == "  "@ + line@,
{
    let mut s = String::from_str("  ");
    s.append(string_of(line).as_str());
    s
}

/// Appends the body lines of `text`.
fn push_body(out: &mut Vec<TranscriptLine>, text: &str)
    ensures
        lines_view(final(out)@) == lines_view(old(out)@) + body_lines(text@),
{
    let chars = chars_of(text);
    let ghost all = text_lines(text@);
    let ghost f = |l: Seq<char>| (LineKind::Body, "  "@ + l);
    let ghost start = lines_view(out@);
    let mut done: usize = 0;
    let mut pos: usize = 0;
    assert(chars@.skip(0) =~= chars@);
    proof {
        lemma_text_lines_len(text@);
    }
    assert(all.take(0).map_values(f) =~= Seq::<(LineKind, Seq<char>)>::empty());
    while pos < chars.len()
        invariant
            pos <= chars@.len(),
            chars@ == text@,
            all == text_lines(text@),
            all.len() <= chars@.len(),
            f == (|l: Seq<char>| (LineKind::Body, "  "@ + l)),
            done <= all.len(),
            all.skip(done as int) == text_lines(chars@.skip(pos as int)),
            lines_view(out@) == start + all.take(done as int).map_values(f),
        decreases chars@.len() - pos,
    {
        let rest = &chars[pos..chars.len()];
        let ghost rs = chars@.skip(pos as int);
        assert(rest@ =~= rs);
        let ghost n = done as int;
        proof {
            lemma_first_index_of(rs, '\n');
        }
        let nl = find_char(rest, '\n');
        let ghost before = lines_view(out@);
        match nl {
            Some(k) => {
                let line = strip_cr_chars(&rest[0..k]);
                assert(rest@.subrange(0, k as int) =~= rs.take(k as int));
                assert(rs.skip(k + 1) =~= chars@.skip(pos + k + 1));
                let ghost tl = text_lines(rs.skip(k + 1));
                assert(text_lines(rs) == seq![strip_cr(rs.take(k as int))] + tl);
                assert(all.skip(n).len() >= 1);
                assert(all[n] == line@) by {
                    assert(all[n] == all.skip(n)[0]);
                }
                assert(all.skip(n + 1) == tl) by {
                    assert(all.skip(n + 1) =~= all.skip(n).skip(1));
                    assert((seq![line@] + tl).skip(1) =~= tl);
                }
                push_line(out, LineKind::Body, indented(line));
                assert(all.take(n + 1).map_values(f) =~= all.take(n).map_values(f).push(f(all[n])));
                done = done + 1;
                pos = pos + k + 1;
            },
            None => {
                assert(text_lines(rs) == seq![rs]);
                assert(all.skip(n).len() >= 1);
                assert(all[n] == rest@) by {
                    assert(all[n] == all.skip(n)[0]);
                }
                assert(all.skip(n + 1) =~= all.skip(n).skip(1));
                push_line(out, LineKind::Body, indented(rest));
                assert(all.take(n + 1).map_values(f) =~= all.take(n).map_values(f).push(f(all[n])));
                done = done + 1;
                pos = chars.len();
                assert(chars@.skip(pos as int) =~= Seq::<char>::empty());
            },
        }
    }
    assert(chars@.skip(pos as int) =~= Seq::<char>::empty());
    assert(all.skip(done as int).len() == 0);
    assert(all.take(done as int) =~= all);
    assert(body_lines(text@) =~= all.map_values(f));
}

/// The text of the chat transcript, line by line, as the chat screen shows
/// it at animation step `tick`.
pub fn chat_transcript(chat: &ChatState, tick: u64) -> (r: Vec<TranscriptLine>)
    ensures
        lines_view(r@) == transcript(*chat, tick),
{
    let ghost h = crate::chat::history_view(chat.history@);
    let has_stats = chat.stats.is_some();
    let mut out: Vec<TranscriptLine> = Vec::new();
    let mut i: usize = 0;
    assert(h.take(0) =~= Seq::<(Seq<char>, Seq<char>)>::empty());
    assert(lines_view(out@) =~= Seq::<(LineKind, Seq<char>)>::empty());
    while i < chat.history.len()
        invariant
            i <= chat.history@.len(),
            h == crate::chat::history_view(chat.history@),
            has_stats == (chat.stats is Some),
            lines_view(out@) == history_lines(h.take(i as int), has_stats),
        decreases chat.history@.len() - i,
    {
        let msg = &chat.history[i];
        let ghost before = lines_view(out@);
        assert(h[i as int] == (msg.role@, msg.content@));
        let role = chars_of(msg.role.as_str());
        if crate::text::chars_equal(role.as_slice(), chars_of("user").as_slice()) {
            push_line(&mut out, LineKind::Speaker, String::from_str("  You:"));
            push_body(&mut out, msg.content.as_str());
            push_line(&mut out, LineKind::Blank, String::new());
        } else if crate::text::chars_equal(role.as_slice(), chars_of("assistant").as_slice()) {
            push_line(&mut out, LineKind::Speaker, String::from_str("  Markus:"));
            push_body(&mut out, msg.content.as_str());
            if has_stats {
                push_line(&mut out, LineKind::Stats, String::new());
            }
            push_line(&mut out, LineKind::Blank, String::new());
        }
        assert(h.take(i + 1).drop_last() =~= h.take(i as int));
        assert(lines_view(out@) =~= before + message_lines(msg.role@, msg.content@, has_stats));
        i = i + 1;
    }
    assert(h.take(chat.history@.len() as int) =~= h);
    let ghost hist = lines_view(out@);
    if chat.is_streaming && !chat.streaming_buf.as_str().is_empty() {
        push_line(&mut out, LineKind::Speaker, String::from_str("  Markus:"));
        push_body(&mut out, chat.streaming_buf.as_str());
        let blink = if tick % 8 < 4 { String::from_str("▋") } else { String::from_str(" ") };
        push_line(&mut out, LineKind::Cursor, blink);
        assert(lines_view(out@) =~= hist + (seq![(LineKind::Speaker, "  Markus:"@)] + body_lines(chat.streaming_buf@)
            + seq![(LineKind::Cursor, cursor_glyph(tick))]));
    } else {
        assert(lines_view(out@) =~= hist + Seq::<(LineKind, Seq<char>)>::empty());
    }
    out
}

} // verus!
