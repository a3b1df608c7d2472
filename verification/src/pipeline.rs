//! Chat messages, the events a generation run emits, the chat prompt, and
//! the decisions of the generation loop.

use vstd::prelude::*;

use crate::error::MarkusError;
use crate::tokenizer::{MarkusTokenizer, token_text};

verus! {

broadcast use vstd::string::group_string_axioms;

/// Chat message for conversation history.
pub struct ChatMessage {
    pub role: String,
    pub content: String,
}

impl Clone for ChatMessage {
    fn clone(&self) -> (r: ChatMessage)
        ensures
            r == *self,
    {
        ChatMessage { role: self.role.clone(), content: self.content.clone() }
    }
}

/// Events emitted by the generation pipeline.
pub enum TokenEvent {
    /// A new token fragment was generated
    Token(String),
    /// Generation is complete — includes total stats
    Done { tokens_generated: u32, elapsed_ms: u64 },
    /// An error occurred
    Error(String),
}

pub open spec fn messages_view(m: Seq<ChatMessage>) -> Seq<(Seq<char>, Seq<char>)> {
    Seq::new(m.len(), |i: int| (m[i].role@, m[i].content@))
}

/// One message in ChatML: `<|im_start|>{role}\n{content}<|im_end|>\n`.
pub open spec fn chatml_turn(role: Seq<char>, content: Seq<char>) -> Seq<char> {
    "<|im_start|>"@ + role + "\n"@ + content + "<|im_end|>\n"@
}

pub open spec fn chatml_turns(m: Seq<(Seq<char>, Seq<char>)>) -> Seq<char>
    decreases m.len(),
{
    if m.len() == 0 {
        Seq::empty()
    } else {
        chatml_turns(m.drop_last()) + chatml_turn(m.last().0, m.last().1)
    }
}

/// The prompt for a conversation: every message in ChatML, then the opening
/// of the assistant's turn.
pub open spec fn chat_prompt(m: Seq<(Seq<char>, Seq<char>)>) -> Seq<char> {
    chatml_turns(m) + "<|im_start|>assistant\n"@
}

/// Formats a chat history into a ChatML prompt string.
pub fn format_chat_prompt(messages: &[ChatMessage]) -> (r: String)
    ensures
        r@ == chat_prompt(messages_view(messages@)),
{
    let ghost mv = messages_view(messages@);
    let mut out = String::new();
    let mut i: usize = 0;
    assert(mv.take(0) =~= Seq::<(Seq<char>, Seq<char>)>::empty());
    while i < messages.len()
        invariant
            i <= messages@.len(),
            mv == messages_view(messages@),
            out@ == chatml_turns(mv.take(i as int)),
        decreases messages@.len() - i,
    {
        let msg = &messages[i];
        out.append("<|im_start|>");
        out.append(msg.role.as_str());
        out.append("\n");
        out.append(msg.content.as_str());
        out.append("<|im_end|>\n");
        assert(mv.take(i + 1).drop_last() =~= mv.take(i as int));
        assert(out@ =~= chatml_turns(mv.take(i + 1)));
        i = i + 1;
    }
    out.append("<|im_start|>assistant\n");
    assert(mv.take(messages@.len() as int) =~= mv);
    out
}


/// How many tokens a run may generate: the requested number, or (when the
/// request is negative, meaning unlimited) the rest of the context window.
pub open spec fn step_budget(max_tokens: i32, ctx_size: u32, prompt_len: nat) -> int {
    if max_tokens < 0 { ctx_size - prompt_len } else { max_tokens as int }
}

/// The text a sampled token contributes to the stream, if any: its decoded
/// text when the id is valid and the text is not empty.
pub open spec fn emitted_text(vocab: Seq<Seq<char>>, token: u32) -> Option<Seq<char>> {
    if token < vocab.len() && token_text(vocab[token as int]).len() > 0 {
        Some(token_text(vocab[token as int]))
    } else {
        None
    }
}

/// The decisions of one generation run: how many steps it may take, what
/// the model is fed at each step, what text each sampled token yields, and
/// when it stops. The model's forward pass and the sampling happen outside.
pub struct GenerationState {
    all_tokens: Vec<u32>,
    generated: u32,
    max_steps: usize,
    step: usize,
    finished: bool,
    closed: bool,
}

/// One call on a run: a sampled token accepted, a failure reported, or the
/// end reported.
pub enum RunStep {
    Accepted(u32),
    Failed,
    Finished,
}

/// `b` is `a` after one call `s`, which sent the events `evs`; `eos` is the
/// tokenizer's end-of-sequence id. Tokens are accepted only while the run is
/// not done; a failure or the end sends one final event and closes the run.
pub open spec fn run_step(a: GenerationState, b: GenerationState, s: RunStep, eos: Option<u32>, evs: Seq<TokenEvent>) -> bool {
    &&& !a.is_closed()
    &&& b.step_limit() == a.step_limit()
    &&& match s {
        RunStep::Accepted(tok) => {
            &&& !a.hit_eos()
            &&& a.steps_taken() < a.step_limit()
            &&& !b.is_closed()
            &&& b.tokens() == a.tokens().push(tok)
            &&& b.steps_taken() == a.steps_taken() + 1
            &&& b.spec_generated() == a.spec_generated() + 1
            &&& b.hit_eos() == (eos == Some(tok))
            &&& evs.len() <= 1
            &&& forall|i: int| 0 <= i < evs.len() ==> (#[trigger] evs[i] matches TokenEvent::Token(t) && t@.len() > 0)
        },
        RunStep::Failed => {
            &&& b.is_closed()
            &&& b.tokens() == a.tokens()
            &&& b.spec_generated() == a.spec_generated()
            &&& evs.len() == 1
            &&& evs[0] is Error
        },
        RunStep::Finished => {
            &&& (a.hit_eos() || a.steps_taken() >= a.step_limit())
            &&& b.is_closed()
            &&& b.tokens() == a.tokens()
            &&& b.spec_generated() == a.spec_generated()
            &&& evs.len() == 1
            &&& evs[0] matches TokenEvent::Done { tokens_generated, .. } && tokens_generated == a.spec_generated()
        },
    }
}

impl GenerationState {
    pub closed spec fn tokens(&self) -> Seq<u32> {
        self.all_tokens@
    }

    pub closed spec fn spec_generated(&self) -> u32 {
        self.generated
    }

    pub closed spec fn steps_taken(&self) -> nat {
        self.step as nat
    }

    pub closed spec fn step_limit(&self) -> nat {
        self.max_steps as nat
    }

    pub closed spec fn hit_eos(&self) -> bool {
        self.finished
    }

    /// Whether the run has sent its final event.
    pub closed spec fn is_closed(&self) -> bool {
        self.closed
    }

    /// A run over the prompt's tokens. With a negative `max_tokens` the run may
    /// fill the context window; a prompt longer than the window is not allowed then.
    pub fn new(prompt_tokens: Vec<u32>, max_tokens: i32, ctx_size: u32) -> (r: GenerationState)
        requires
            max_tokens < 0 ==> prompt_tokens@.len() <= ctx_size,
        ensures
            r.tokens() == prompt_tokens@,
            r.spec_generated() == 0,
            r.steps_taken() == 0,
            r.step_limit() == step_budget(max_tokens, ctx_size, prompt_tokens@.len()),
            !r.hit_eos(),
            !r.is_closed(),
    {
        let max_steps: usize = if max_tokens < 0 {
            ctx_size as usize - prompt_tokens.len()
        } else {
            max_tokens as usize
        };
        GenerationState { all_tokens: prompt_tokens, generated: 0, max_steps, step: 0, finished: false, closed: false }
    }

    /// Whether the run is over: the step budget is spent or the model produced EOS.
    pub fn is_done(&self) -> (r: bool)
        ensures
            r == (self.hit_eos() || self.steps_taken() >= self.step_limit()),
    {
        self.finished || self.step >= self.max_steps
    }

    /// What the model is fed next: the whole prompt at the first step, then
    /// only the last sampled token.
    pub fn next_input(&self) -> (r: Vec<u32>)
        requires
            self.steps_taken() == 0 || self.tokens().len() > 0,
        ensures
            self.steps_taken() == 0 ==> r@ == self.tokens(),
            self.steps_taken() > 0 ==> r@ == seq![self.tokens().last()],
    {
        if self.step == 0 {
            let mut v: Vec<u32> = Vec::new();
            let mut i: usize = 0;
            while i < self.all_tokens.len()
                invariant
                    i <= self.all_tokens@.len(),
                    v@ == self.all_tokens@.take(i as int),
                decreases self.all_tokens@.len() - i,
            {
                v.push(self.all_tokens[i]);
                assert(v@ =~= self.all_tokens@.take(i + 1));
                i = i + 1;
            }
            assert(self.all_tokens@.take(self.all_tokens@.len() as int) =~= self.all_tokens@);
            v
        } else {
            let mut v: Vec<u32> = Vec::new();
            v.push(self.all_tokens[self.all_tokens.len() - 1]);
            assert(v@ =~= seq![self.tokens().last()]);
            v
        }
    }

    /// Records a sampled token while the run is not done: it joins the
    /// context, counts as generated, and ends the run when it is the
    /// tokenizer's EOS. Returns the text to stream for it, if any.
    pub fn accept(&mut self, token: u32, tokenizer: &MarkusTokenizer) -> (r: Option<String>)
        requires
            !old(self).is_closed(),
            !old(self).hit_eos(),
            old(self).steps_taken() < old(self).step_limit(),
            old(self).spec_generated() < u32::MAX,
        ensures
            run_step(*old(self), *final(self), RunStep::Accepted(token), tokenizer.spec_eos_id(), match r {
                Some(t) => seq![TokenEvent::Token(t)],
                None => Seq::<TokenEvent>::empty(),
            }),
            final(self).tokens() == old(self).tokens().push(token),
            final(self).spec_generated() == old(self).spec_generated() + 1,
            final(self).steps_taken() == old(self).steps_taken() + 1,
            final(self).step_limit() == old(self).step_limit(),
            final(self).hit_eos() == (tokenizer.spec_eos_id() == Some(token)),
            match emitted_text(tokenizer.vocab(), token) {
                Some(t) => r matches Some(s) && s@ == t,
                None => r is None,
            },
    {
        self.all_tokens.push(token);
        let text = match tokenizer.decode_token(token) {
            Ok(t) => if t.as_str().is_empty() { None } else { Some(t) },
            Err(_) => None,
        };
        self.generated = self.generated + 1;
        if tokenizer.is_eos(token) {
            self.finished = true;
        }
        self.step = self.step + 1;
        text
    }

    /// Reports a failure of the model or the sampler: the run's final event.
    pub fn fail(&mut self, message: String) -> (e: TokenEvent)
        requires
            !old(self).is_closed(),
        ensures
            e matches TokenEvent::Error(m) && m == message,
            run_step(*old(self), *final(self), RunStep::Failed, None, seq![e]),
            final(self).tokens() == old(self).tokens(),
            final(self).spec_generated() == old(self).spec_generated(),
    {
        self.closed = true;
        TokenEvent::Error(message)
    }

    /// Reports the end of a finished run, with how long it took: the run's
    /// final event, carrying the number of tokens generated.
    pub fn finish(&mut self, elapsed_ms: u64) -> (e: TokenEvent)
        requires
            !old(self).is_closed(),
            old(self).hit_eos() || old(self).steps_taken() >= old(self).step_limit(),
        ensures
            e == (TokenEvent::Done { tokens_generated: old(self).spec_generated(), elapsed_ms }),
            run_step(*old(self), *final(self), RunStep::Finished, None, seq![e]),
            final(self).tokens() == old(self).tokens(),
    {
        self.closed = true;
        TokenEvent::Done { tokens_generated: self.generated, elapsed_ms }
    }

    /// The prompt and every token sampled so far.
    pub fn context(&self) -> (r: &Vec<u32>)
        ensures
            r@ == self.tokens(),
    {
        &self.all_tokens
    }

    /// The number of tokens generated so far.
    pub fn generated(&self) -> (r: u32)
        ensures
            r == self.spec_generated(),
    {
        self.generated
    }
}

/// What a non-streaming completion has gathered from the event stream.
pub struct CompletionCollector {
    pub content: String,
    pub total_tokens: u32,
}

impl CompletionCollector {
    pub fn new() -> (r: CompletionCollector)
        ensures
            r.content@ == Seq::<char>::empty(),
            r.total_tokens == 0,
    {
        CompletionCollector { content: String::new(), total_tokens: 0 }
    }

    /// Takes in one event: token text is appended, the final count is kept,
    /// and an error is handed back for the caller to answer with.
    pub fn on_event(&mut self, event: TokenEvent) -> (r: Option<String>)
        ensures
            match event {
                TokenEvent::Token(t) => r is None && final(self).content@ == old(self).content@ + t@
                    && final(self).total_tokens == old(self).total_tokens,
                TokenEvent::Done { tokens_generated, elapsed_ms: _ } => r is None
                    && final(self).content@ == old(self).content@ && final(self).total_tokens == tokens_generated,
                TokenEvent::Error(e) => r == Some(e) && final(self).content@ == old(self).content@
                    && final(self).total_tokens == old(self).total_tokens,
            },
    {
        match event {
            TokenEvent::Token(t) => {
                self.content.append(t.as_str());
                None
            },
            TokenEvent::Done { tokens_generated, elapsed_ms: _ } => {
                self.total_tokens = tokens_generated;
                None
            },
            TokenEvent::Error(e) => Some(e),
        }
    }
}

/// What one streamed chunk carries for an event: its text and, at the end,
/// why the stream finished.
pub struct StreamDelta {
    pub content: Option<String>,
    pub finish_reason: Option<String>,
}

impl StreamDelta {
    pub fn from_event(event: &TokenEvent) -> (r: StreamDelta)
        ensures
            match event {
                TokenEvent::Token(t) => {
                    &&& r.content matches Some(c) && c@ == t@
                    &&& r.finish_reason is None
                },
                TokenEvent::Done { .. } => {
                    &&& r.content is None
                    &&& r.finish_reason matches Some(f) && f@ == "stop"@
                },
                TokenEvent::Error(e) => {
                    &&& r.content matches Some(c) && c@ == "[ERROR: "@ + e@ + "]"@
                    &&& r.finish_reason matches Some(f) && f@ == "error"@
                },
            },
    {
        match event {
            TokenEvent::Token(t) => StreamDelta { content: Some(t.clone()), finish_reason: None },
            TokenEvent::Done { .. } => StreamDelta { content: None, finish_reason: Some(String::from_str("stop")) },
            TokenEvent::Error(e) => {
                let mut c = String::from_str("[ERROR: ");
                c.append(e.as_str());
                c.append("]");
                StreamDelta { content: Some(c), finish_reason: Some(String::from_str("error")) }
            },
        }
    }
}

} // verus!

verus! {

/// The number of calls of a run that accepted a token, when only the last
/// call can be another kind.
pub open spec fn accepted_count(steps: Seq<RunStep>) -> int {
    if steps.len() > 0 && !(steps.last() is Accepted) { steps.len() - 1 } else { steps.len() as int }
}

/// The tokens accepted by the first `m` calls.
pub open spec fn accepted_ids(steps: Seq<RunStep>, m: int) -> Seq<u32> {
    Seq::new(m as nat, |k: int| steps[k]->Accepted_0)
}

proof fn lemma_run_prefix(
    states: Seq<GenerationState>,
    steps: Seq<RunStep>,
    evs: Seq<Seq<TokenEvent>>,
    eos: Option<u32>,
    m: int,
)
    requires
        states.len() == steps.len() + 1,
        evs.len() == steps.len(),
        states[0].steps_taken() == 0,
        states[0].spec_generated() == 0,
        !states[0].hit_eos(),
        !states[0].is_closed(),
        forall|k: int| 0 <= k < steps.len() ==> run_step(states[k], states[k + 1], #[trigger] steps[k], eos, evs[k]),
        0 <= m <= steps.len(),
        forall|k: int| 0 <= k < m ==> #[trigger] steps[k] is Accepted,
    ensures
        states[m].steps_taken() == m,
        states[m].spec_generated() == m,
        !states[m].is_closed(),
        states[m].step_limit() == states[0].step_limit(),
        m <= states[0].step_limit(),
        states[m].tokens() == states[0].tokens() + accepted_ids(steps, m),
        forall|k: int| 0 <= k < m - 1 ==> eos != Some(#[trigger] steps[k]->Accepted_0),
        m == 0 ==> !states[m].hit_eos(),
        m > 0 ==> states[m].hit_eos() == (eos == Some(steps[m - 1]->Accepted_0)),
    decreases m,
{
    if m > 0 {
        lemma_run_prefix(states, steps, evs, eos, m - 1);
        assert(steps[m - 1] is Accepted);
        assert(run_step(states[m - 1], states[m], steps[m - 1], eos, evs[m - 1]));
        assert(accepted_ids(steps, m) =~= accepted_ids(steps, m - 1).push(steps[m - 1]->Accepted_0));
        assert(states[0].tokens() + accepted_ids(steps, m) =~= (states[0].tokens() + accepted_ids(steps, m - 1)).push(
            steps[m - 1]->Accepted_0,
        ));
    }
}

/// The calls on a generation run, from a fresh run: every call but the last
/// accepts a sampled token and streams at most one non-empty text; a failure
/// or the end is reported once, by the last call (an error, or `Done` with
/// the number of tokens accepted), and nothing follows it. At most the step
/// limit of tokens is accepted, the count of generated tokens is that
/// number, they join the context in order, and only the last of them can be
/// the end-of-sequence id.
pub proof fn law_run_events(states: Seq<GenerationState>, steps: Seq<RunStep>, evs: Seq<Seq<TokenEvent>>, eos: Option<u32>)
    requires
        states.len() == steps.len() + 1,
        evs.len() == steps.len(),
        states[0].steps_taken() == 0,
        states[0].spec_generated() == 0,
        !states[0].hit_eos(),
        !states[0].is_closed(),
        forall|k: int| 0 <= k < steps.len() ==> run_step(states[k], states[k + 1], #[trigger] steps[k], eos, evs[k]),
    ensures
        forall|k: int| 0 <= k < steps.len() - 1 ==> #[trigger] steps[k] is Accepted,
        forall|k: int, i: int| 0 <= k < steps.len() && #[trigger] steps[k] is Accepted && 0 <= i < evs[k].len()
            ==> (#[trigger] evs[k][i] matches TokenEvent::Token(t) && t@.len() > 0),
        steps.len() > 0 && !(steps.last() is Accepted) ==> {
            &&& evs.last().len() == 1
            &&& (evs.last()[0] is Error || (evs.last()[0] matches TokenEvent::Done { tokens_generated, .. }
                && tokens_generated == steps.len() - 1))
        },
        states.last().is_closed() <==> (steps.len() > 0 && !(steps.last() is Accepted)),
        accepted_count(steps) <= states[0].step_limit(),
        states.last().spec_generated() == accepted_count(steps),
        states.last().tokens() == states[0].tokens() + accepted_ids(steps, accepted_count(steps)),
        forall|k: int| 0 <= k < accepted_count(steps) - 1 ==> eos != Some(#[trigger] steps[k]->Accepted_0),
{
    let n = steps.len() as int;
    assert forall|k: int| 0 <= k < n - 1 implies #[trigger] steps[k] is Accepted by {
        assert(run_step(states[k], states[k + 1], steps[k], eos, evs[k]));
        assert(run_step(states[k + 1], states[k + 2], steps[k + 1], eos, evs[k + 1]));
    }
    if n == 0 {
        lemma_run_prefix(states, steps, evs, eos, 0);
    } else if steps.last() is Accepted {
        lemma_run_prefix(states, steps, evs, eos, n);
    } else {
        lemma_run_prefix(states, steps, evs, eos, n - 1);
        assert(run_step(states[n - 1], states[n], steps[n - 1], eos, evs[n - 1]));
    }
}

} // verus!
