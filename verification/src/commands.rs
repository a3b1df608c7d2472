//! The decisions of the command-line front end: which scanned model an
//! argument names, what a line typed in the interactive chat does, which
//! `config` action was asked for, whether a removal was confirmed, and the
//! download progress shown.

use vstd::prelude::*;

use crate::pipeline::{messages_view, ChatMessage};
use crate::text::{
    chars_equal, chars_of, contains_chars, contains_piece, lower_text, parse_usize, spec_parse_usize, string_of,
    to_lowercase, trim, trim_chars,
};

verus! {

broadcast use vstd::string::group_string_axioms;

pub open spec fn names_view(names: Seq<String>) -> Seq<Seq<char>> {
    names.map_values(|s: String| s@)
}

/// The name contains the fragment, ignoring case.
pub open spec fn name_matches(name: Seq<char>, fragment: Seq<char>) -> bool {
    contains_piece(lower_text(name), lower_text(fragment))
}

/// The first name at or after `i` that contains the fragment, ignoring case.
pub open spec fn first_match_from(names: Seq<Seq<char>>, fragment: Seq<char>, i: int) -> Option<int>
    decreases names.len() - i,
{
    if i < 0 || i >= names.len() {
        None
    } else if name_matches(names[i], fragment) {
        Some(i)
    } else {
        first_match_from(names, fragment, i + 1)
    }
}

/// The model a command-line argument names among the scanned models (when it
/// is not the path of an existing file): a number `n` is the `n`-th model
/// (0 and 1 both the first) when there is one; otherwise the first model
/// whose name contains the argument, ignoring case.
pub open spec fn named_model(names: Seq<Seq<char>>, arg: Seq<char>) -> Option<int> {
    match spec_parse_usize(arg) {
        Some(n) if (if n > 0 { n - 1 } else { 0 }) < names.len() => Some(if n > 0 { n - 1 } else { 0 }),
        _ => first_match_from(names, arg, 0),
    }
}

/// The position of the model that `arg` names among the scanned model names.
pub fn find_model(arg: &str, names: &[String]) -> (r: Option<usize>)
    ensures
        match named_model(names_view(names@), arg@) {
            Some(i) => r == Some(i as usize),
            None => r is None,
        },
{
    let ghost nv = names_view(names@);
    let a = chars_of(arg);
    match parse_usize(a.as_slice()) {
        Some(n) => {
            let idx = n.saturating_sub(1);
            if idx < names.len() {
                return Some(idx);
            }
        },
        None => {},
    }
    assert(named_model(nv, arg@) == first_match_from(nv, arg@, 0));
    let lower_arg = to_lowercase(arg);
    let frag = chars_of(lower_arg.as_str());
    let mut i: usize = 0;
    while i < names.len()
        invariant
            i <= names@.len(),
            nv == names_view(names@),
            frag@ == lower_text(arg@),
            named_model(nv, arg@) == first_match_from(nv, arg@, i as int),
        decreases names@.len() - i,
    {
        let lower = to_lowercase(names[i].as_str());
        let name = chars_of(lower.as_str());
        if contains_chars(name.as_slice(), frag.as_slice()) {
            return Some(i);
        }
        i = i + 1;
    }
    None
}

/// Why a number typed at the model picker was refused.
#[derive(Clone, Copy, Debug, PartialEq, Eq, Structural)]
pub enum PickFault {
    /// The trimmed line is not a number.
    InvalidNumber,
    /// No model has that number.
    OutOfRange,
}

/// The model picked by typing its number (counted from 1; 0 picks the first)
/// at a list of `count` models.
pub fn pick_listed_model(line: &str, count: usize) -> (r: Result<usize, PickFault>)
    ensures
        match spec_parse_usize(trim(line@)) {
            None => r == Err::<usize, PickFault>(PickFault::InvalidNumber),
            Some(n) => {
                let idx = if n > 0 { n - 1 } else { 0 };
                if idx < count { r == Ok::<usize, PickFault>(idx as usize) } else { r == Err::<usize, PickFault>(PickFault::OutOfRange) }
            },
        },
{
    let t = trim_chars(chars_of(line).as_slice());
    match parse_usize(t.as_slice()) {
        None => Err(PickFault::InvalidNumber),
        Some(n) => {
            let idx = n.saturating_sub(1);
            if idx < count { Ok(idx) } else { Err(PickFault::OutOfRange) }
        },
    }
}

/// The answer to a yes/no question is yes: the trimmed line is `y` or `Y`.
pub fn confirmed(line: &str) -> (r: bool)
    ensures
        r == (trim(line@) == "y"@ || trim(line@) == "Y"@),
{
    let t = trim_chars(chars_of(line).as_slice());
    chars_equal(t.as_slice(), chars_of("y").as_slice()) || chars_equal(t.as_slice(), chars_of("Y").as_slice())
}

/// What `config` does with its action argument.
#[derive(Clone, Copy, Debug, PartialEq, Eq, Structural)]
pub enum ConfigAction {
    /// `show` or `get`: print the configuration.
    Show,
    /// `edit`: open the configuration file in an editor.
    Edit,
    /// `reset`: write the defaults back.
    Reset,
    /// Anything else.
    Unknown,
}

pub open spec fn config_action(a: Seq<char>) -> ConfigAction {
    if a == "show"@ || a == "get"@ {
        ConfigAction::Show
    } else if a == "edit"@ {
        ConfigAction::Edit
    } else if a == "reset"@ {
        ConfigAction::Reset
    } else {
        ConfigAction::Unknown
    }
}

impl ConfigAction {
    pub fn parse(action: &str) -> (r: ConfigAction)
        ensures
            r == config_action(action@),
    {
        let a = chars_of(action);
        if chars_equal(a.as_slice(), chars_of("show").as_slice()) || chars_equal(a.as_slice(), chars_of("get").as_slice()) {
            ConfigAction::Show
        } else if chars_equal(a.as_slice(), chars_of("edit").as_slice()) {
            ConfigAction::Edit
        } else if chars_equal(a.as_slice(), chars_of("reset").as_slice()) {
            ConfigAction::Reset
        } else {
            ConfigAction::Unknown
        }
    }
}

/// The percentage a download shows: whole percent of the total, 0 while the
/// total is unknown (0). The product `downloaded * 100` must fit in 64 bits.
pub fn download_percent(downloaded: u64, total: u64) -> (r: u64)
    requires
        total > 0 ==> downloaded * 100 <= u64::MAX,
    ensures
        r == if total > 0 { ((downloaded * 100) as int / total as int) as u64 } else { 0 },
{
    if total > 0 { downloaded * 100 / total } else { 0 }
}

} // verus!

verus! {

/// What a line typed in the interactive chat asks for.
pub enum ChatTurn {
    /// An empty line: ask again.
    Skip,
    /// `exit`, `quit`, `/exit` or `/quit`: leave the chat.
    Quit,
    /// `/clear`: the history was cleared.
    Cleared,
    /// `/info`: show the model and the number of completed turns.
    Info { turns: usize },
    /// A message: the conversation to send to the model, system prompt first.
    Ask(Vec<ChatMessage>),
}

pub open spec fn is_quit_command(t: Seq<char>) -> bool {
    t == "exit"@ || t == "quit"@ || t == "/exit"@ || t == "/quit"@
}

/// A terminal chat session: the conversation so far and the system prompt
/// that opens every request.
pub struct ChatSession {
    history: Vec<ChatMessage>,
    system_prompt: String,
}

/// `b` is session `a` after the typed `line`, which answered `r`: blank
/// lines are skipped, the quit words leave, `/clear` empties the
/// conversation, `/info` reports the number of completed turns, and any
/// other line (trimmed) joins the conversation as the user's message, which
/// is then sent with the system prompt first.
pub open spec fn handled_line(a: ChatSession, b: ChatSession, line: Seq<char>, r: ChatTurn) -> bool {
    let t = trim(line);
    &&& b.spec_system_prompt() == a.spec_system_prompt()
    &&& if t.len() == 0 {
        r is Skip && b.spec_history() == a.spec_history()
    } else if is_quit_command(t) {
        r is Quit && b.spec_history() == a.spec_history()
    } else if t == "/clear"@ {
        r is Cleared && b.spec_history().len() == 0
    } else if t == "/info"@ {
        r == ChatTurn::Info { turns: (a.spec_history().len() / 2) as usize } && b.spec_history() == a.spec_history()
    } else {
        &&& b.spec_history() == a.spec_history().push(("user"@, t))
        &&& r matches ChatTurn::Ask(m) && messages_view(m@) == b.request()
    }
}

/// `b` is session `a` after the model's `reply`: a non-empty reply joins the
/// conversation as the assistant's turn.
pub open spec fn handled_reply(a: ChatSession, b: ChatSession, reply: Seq<char>) -> bool {
    &&& b.spec_system_prompt() == a.spec_system_prompt()
    &&& reply.len() > 0 ==> b.spec_history() == a.spec_history().push(("assistant"@, reply))
    &&& reply.len() == 0 ==> b.spec_history() == a.spec_history()
}

impl ChatSession {
    pub closed spec fn spec_history(&self) -> Seq<(Seq<char>, Seq<char>)> {
        messages_view(self.history@)
    }

    pub closed spec fn spec_system_prompt(&self) -> Seq<char> {
        self.system_prompt@
    }

    /// The conversation as sent to the model.
    pub open spec fn request(&self) -> Seq<(Seq<char>, Seq<char>)> {
        seq![("system"@, self.spec_system_prompt())] + self.spec_history()
    }

    pub fn new(system_prompt: String) -> (r: ChatSession)
        ensures
            r.spec_history() == Seq::<(Seq<char>, Seq<char>)>::empty(),
            r.spec_system_prompt() == system_prompt@,
    {
        let r = ChatSession { history: Vec::new(), system_prompt };
        assert(r.spec_history() =~= Seq::<(Seq<char>, Seq<char>)>::empty());
        r
    }

    fn request_messages(&self) -> (r: Vec<ChatMessage>)
        ensures
            messages_view(r@) == self.request(),
    {
        let mut out: Vec<ChatMessage> = Vec::new();
        out.push(ChatMessage { role: String::from_str("system"), content: self.system_prompt.clone() });
        let mut i: usize = 0;
        while i < self.history.len()
            invariant
                i <= self.history@.len(),
                messages_view(out@) == seq![("system"@, self.system_prompt@)] + messages_view(self.history@).take(i as int),
            decreases self.history@.len() - i,
        {
            let m = self.history[i].clone();
            assert(m == self.history@[i as int]);
            let ghost prev = out@;
            out.push(m);
            assert(messages_view(out@) =~= messages_view(prev).push((m.role@, m.content@)));
            assert(messages_view(self.history@).take(i + 1) =~= messages_view(self.history@).take(i as int).push((m.role@, m.content@)));
            assert(messages_view(out@) =~= seq![("system"@, self.system_prompt@)] + messages_view(self.history@).take(i + 1));
            i = i + 1;
        }
        assert(messages_view(self.history@).take(i as int) =~= messages_view(self.history@));
        out
    }

    /// Handles one typed line (its surrounding white space ignored).
    pub fn on_line(&mut self, line: &str) -> (r: ChatTurn)
        ensures
            handled_line(*old(self), *final(self), line@, r),
    {
        let t = trim_chars(chars_of(line).as_slice());
        let ts = t.as_slice();
        if ts.len() == 0 {
            return ChatTurn::Skip;
        }
        if chars_equal(ts, chars_of("exit").as_slice()) || chars_equal(ts, chars_of("quit").as_slice())
            || chars_equal(ts, chars_of("/exit").as_slice()) || chars_equal(ts, chars_of("/quit").as_slice()) {
            return ChatTurn::Quit;
        }
        if chars_equal(ts, chars_of("/clear").as_slice()) {
            self.history = Vec::new();
            assert(self.spec_history().len() == 0);
            return ChatTurn::Cleared;
        }
        if chars_equal(ts, chars_of("/info").as_slice()) {
            return ChatTurn::Info { turns: self.history.len() / 2 };
        }
        let msg = ChatMessage { role: String::from_str("user"), content: string_of(ts) };
        self.history.push(msg);
        assert(self.spec_history() =~= old(self).spec_history().push(("user"@, trim(line@))));
        ChatTurn::Ask(self.request_messages())
    }

    /// Records the model's reply; an empty reply leaves no turn.
    pub fn on_reply(&mut self, reply: String)
        ensures
            handled_reply(*old(self), *final(self), reply@),
    {
        if reply.as_str().is_empty() {
            return;
        }
        let ghost r = reply@;
        self.history.push(ChatMessage { role: String::from_str("assistant"), content: reply });
        assert(self.spec_history() =~= old(self).spec_history().push(("assistant"@, r)));
    }
}

} // verus!

verus! {

/// A model's number in the list selects it: typing `n` (as `list` prints
/// it, counting from 1) names the `n`-th scanned model.
pub proof fn law_number_selects_listed_model(names: Seq<Seq<char>>, n: u64)
    requires
        1 <= n <= names.len(),
        n <= usize::MAX,
    ensures
        named_model(names, crate::text::decimal(n as nat)) == Some(n - 1),
{
    crate::text::law_parse_reads_decimal(n);
}

} // verus!

verus! {

/// What a terminal chat session takes in: a typed line, or the model's reply.
pub enum SessionInput {
    Line(Seq<char>),
    Reply(Seq<char>),
}

/// A trimmed line that does not become a message.
pub open spec fn is_chat_command(t: Seq<char>) -> bool {
    t.len() == 0 || is_quit_command(t) || t == "/clear"@ || t == "/info"@
}

/// The turn an input adds to the conversation: a typed message (trimmed)
/// from the user, or a non-empty reply from the assistant.
pub open spec fn turn_of(x: SessionInput) -> Option<(Seq<char>, Seq<char>)> {
    match x {
        SessionInput::Line(l) => if is_chat_command(trim(l)) { None } else { Some(("user"@, trim(l))) },
        SessionInput::Reply(r) => if r.len() > 0 { Some(("assistant"@, r)) } else { None },
    }
}

pub open spec fn is_clear(x: SessionInput) -> bool {
    x matches SessionInput::Line(l) && trim(l) == "/clear"@
}

/// Where the current conversation starts: just after the last `/clear`.
pub open spec fn conversation_start(ins: Seq<SessionInput>) -> int
    decreases ins.len(),
{
    if ins.len() == 0 {
        0
    } else if is_clear(ins.last()) {
        ins.len() as int
    } else {
        conversation_start(ins.drop_last())
    }
}

/// The conversation after some inputs: the user's messages and the
/// assistant's non-empty replies since the last `/clear`, in order.
pub open spec fn conversation(ins: Seq<SessionInput>) -> Seq<(Seq<char>, Seq<char>)> {
    ins.skip(conversation_start(ins)).filter_map(|x: SessionInput| turn_of(x))
}

/// One step of a session: `b` is `a` after input `x`, which answered `r` when it is a line.
pub open spec fn session_step(a: ChatSession, b: ChatSession, x: SessionInput, r: ChatTurn) -> bool {
    match x {
        SessionInput::Line(l) => handled_line(a, b, l, r),
        SessionInput::Reply(t) => handled_reply(a, b, t),
    }
}

proof fn lemma_conversation_push(ins: Seq<SessionInput>, x: SessionInput)
    ensures
        conversation(ins.push(x)) == if is_clear(x) {
            Seq::empty()
        } else {
            match turn_of(x) {
                Some(t) => conversation(ins).push(t),
                None => conversation(ins),
            }
        },
{
    let all = ins.push(x);
    assert(all.drop_last() =~= ins);
    assert(all.last() == x);
    let f = |y: SessionInput| turn_of(y);
    if is_clear(x) {
        assert(conversation_start(all) == all.len());
        assert(all.skip(all.len() as int) =~= Seq::<SessionInput>::empty());
        assert(all.skip(all.len() as int).filter_map(f) =~= Seq::empty());
    } else {
        let st = conversation_start(ins);
        assert(conversation_start(all) == st);
        assert(0 <= st <= ins.len()) by {
            lemma_conversation_start_bounds(ins);
        }
        let tail = all.skip(st);
        assert(tail.drop_last() =~= ins.skip(st));
        assert(tail.last() == x);
        assert(tail.len() > 0);
        match turn_of(x) {
            Some(t) => {
                assert(tail.filter_map(f) == ins.skip(st).filter_map(f) + seq![t]);
                assert(ins.skip(st).filter_map(f) + seq![t] =~= ins.skip(st).filter_map(f).push(t));
            },
            None => {
                assert(tail.filter_map(f) == ins.skip(st).filter_map(f));
            },
        }
    }
}

proof fn lemma_conversation_start_bounds(ins: Seq<SessionInput>)
    ensures
        0 <= conversation_start(ins) <= ins.len(),
    decreases ins.len(),
{
    if ins.len() > 0 {
        lemma_conversation_start_bounds(ins.drop_last());
    }
}

/// A terminal chat session, from a fresh one: after any inputs, the
/// conversation holds the user's messages and the non-empty replies since
/// the last `/clear`, in order; each message is sent as the system prompt,
/// that conversation before it, then the message itself; the system prompt
/// never changes.
pub proof fn law_session_conversation(
    states: Seq<ChatSession>,
    ins: Seq<SessionInput>,
    turns: Seq<ChatTurn>,
)
    requires
        states.len() == ins.len() + 1,
        turns.len() == ins.len(),
        states[0].spec_history().len() == 0,
        forall|k: int| 0 <= k < ins.len() ==> session_step(states[k], states[k + 1], #[trigger] ins[k], turns[k]),
    ensures
        forall|k: int| 0 <= k <= ins.len() ==> #[trigger] states[k].spec_history() == conversation(ins.take(k)),
        forall|k: int| 0 <= k <= ins.len() ==> #[trigger] states[k].spec_system_prompt() == states[0].spec_system_prompt(),
        forall|k: int| 0 <= k < ins.len() && (#[trigger] ins[k] matches SessionInput::Line(l) && !is_chat_command(trim(l))) ==> {
            &&& turns[k] matches ChatTurn::Ask(m)
            &&& messages_view(m@) == seq![("system"@, states[0].spec_system_prompt())] + conversation(ins.take(k))
                + seq![("user"@, trim(ins[k]->Line_0))]
        },
{
    lemma_session_prefix(states, ins, turns, ins.len() as int);
    assert forall|k: int| 0 <= k < ins.len() && (#[trigger] ins[k] matches SessionInput::Line(l) && !is_chat_command(trim(l))) implies {
        &&& turns[k] matches ChatTurn::Ask(m)
        &&& messages_view(m@) == seq![("system"@, states[0].spec_system_prompt())] + conversation(ins.take(k))
            + seq![("user"@, trim(ins[k]->Line_0))]
    } by {
        assert(session_step(states[k], states[k + 1], ins[k], turns[k]));
        assert(states[k].spec_history() == conversation(ins.take(k)));
        assert(states[k].spec_system_prompt() == states[0].spec_system_prompt());
        let t = trim(ins[k]->Line_0);
        assert(seq![("system"@, states[0].spec_system_prompt())] + conversation(ins.take(k)).push(("user"@, t))
            =~= seq![("system"@, states[0].spec_system_prompt())] + conversation(ins.take(k)) + seq![("user"@, t)]);
    }
}

proof fn lemma_session_prefix(states: Seq<ChatSession>, ins: Seq<SessionInput>, turns: Seq<ChatTurn>, m: int)
    requires
        states.len() == ins.len() + 1,
        turns.len() == ins.len(),
        states[0].spec_history().len() == 0,
        forall|k: int| 0 <= k < ins.len() ==> session_step(states[k], states[k + 1], #[trigger] ins[k], turns[k]),
        0 <= m <= ins.len(),
    ensures
        forall|k: int| 0 <= k <= m ==> #[trigger] states[k].spec_history() == conversation(ins.take(k)),
        forall|k: int| 0 <= k <= m ==> #[trigger] states[k].spec_system_prompt() == states[0].spec_system_prompt(),
    decreases m,
{
    if m == 0 {
        assert(ins.take(0) =~= Seq::<SessionInput>::empty());
        assert(conversation(Seq::<SessionInput>::empty()) =~= Seq::empty());
        assert(states[0].spec_history() =~= Seq::empty());
    } else {
        lemma_session_prefix(states, ins, turns, m - 1);
        let k = m - 1;
        assert(session_step(states[k], states[k + 1], ins[k], turns[k]));
        assert(ins.take(m) =~= ins.take(k).push(ins[k]));
        lemma_conversation_push(ins.take(k), ins[k]);
        if is_clear(ins[k]) {
            reveal_strlit("/clear");
            reveal_strlit("exit");
            reveal_strlit("quit");
            reveal_strlit("/exit");
            reveal_strlit("/quit");
            let t = trim(ins[k]->Line_0);
            assert(t.len() == 6);
            assert(t[1] == 'c');
            assert(!is_quit_command(t));
            assert(states[m].spec_history() =~= Seq::empty());
        }
    }
}

} // verus!

verus! {

proof fn lemma_first_match_from(names: Seq<Seq<char>>, fragment: Seq<char>, i: int)
    requires
        0 <= i,
    ensures
        match first_match_from(names, fragment, i) {
            Some(j) => i <= j < names.len() && name_matches(names[j], fragment)
                && forall|k: int| i <= k < j ==> !name_matches(#[trigger] names[k], fragment),
            None => forall|k: int| i <= k < names.len() ==> !name_matches(#[trigger] names[k], fragment),
        },
    decreases names.len() - i,
{
    if i < names.len() && !name_matches(names[i], fragment) {
        lemma_first_match_from(names, fragment, i + 1);
    }
}

/// How a command-line argument picks a model from the scanned list: a
/// number `n` picks the `n`-th model as `list` numbers them (0 and 1 both
/// the first) when there is one; any other argument picks the first model
/// whose name contains it, ignoring case, and none when no name does.
pub proof fn law_model_selection(names: Seq<Seq<char>>, arg: Seq<char>)
    ensures
        match spec_parse_usize(arg) {
            Some(n) if (if n > 0 { n - 1 } else { 0 }) < names.len() =>
                named_model(names, arg) == Some(if n > 0 { n - 1 } else { 0 }),
            _ => match named_model(names, arg) {
                Some(j) => 0 <= j < names.len() && name_matches(names[j], arg)
                    && forall|k: int| 0 <= k < j ==> !name_matches(#[trigger] names[k], arg),
                None => forall|k: int| 0 <= k < names.len() ==> !name_matches(#[trigger] names[k], arg),
            },
        },
{
    lemma_first_match_from(names, arg, 0);
}

} // verus!
