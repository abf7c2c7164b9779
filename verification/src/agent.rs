//! What events and keys do to a session with a hosted agent.

use crate::acp::{
    AcpSession, PermissionOption, PermissionPrompt, ToolCall, ToolCallStatus, Turn,
};
use crate::text::{control, is_control, lines, lines_of, push_number, same_text, views, digits};
use vstd::prelude::*;

verus! {

/// An event from a hosted agent.
pub enum AcpEvent {
    Initialized { agent_name: String, agent_version: Option<String> },
    SessionCreated { session_id: String },
    UserMessageChunk(String),
    AgentMessageChunk(String),
    ToolCallStarted { id: String, title: String, kind: String },
    ToolCallUpdated { id: String, status: ToolCallStatus, output: Option<String> },
    PermissionRequest {
        request_id: String,
        tool_call_title: String,
        options: Vec<PermissionOption>,
    },
    FsReadRequest { request_id: String, path: String, line: Option<u32>, limit: Option<u32> },
    FsWriteRequest { request_id: String, path: String, content: String },
    ProtocolError(String),
    Stderr(String),
    Shutdown,
}

/// What the host has to do for an event.
pub enum AcpReply {
    Nothing,
    /// Open a session.
    NewSession,
    /// Read a file, and answer with what `read_text_for_agent` makes of it.
    Read { request_id: String, path: String, line: Option<u32>, limit: Option<u32> },
    /// Write a file, and answer with how that went.
    Write { request_id: String, path: String, content: String },
}

/// The last turn is the assistant's.
pub open spec fn assistant_last(turns: Seq<Turn>) -> bool {
    turns.len() > 0 && turns.last() is Assistant
}

/// `after` is `before` with another last turn.
pub open spec fn last_turn_became(before: AcpSession, after: AcpSession, t: Turn) -> bool {
    &&& after == AcpSession { turns: after.turns, ..before }
    &&& after.turns@ == before.turns@.update(before.turns@.len() - 1, t)
}

/// The position of the first call with the id `id`; the number of calls where
/// there is none.
pub open spec fn call_pos(calls: Seq<ToolCall>, id: Seq<char>) -> int
    decreases calls.len(),
{
    if calls.len() == 0 || calls[0].id@ == id {
        0
    } else {
        1 + call_pos(calls.drop_first(), id)
    }
}

/// `after` are `before` with the first call of that id in another state, and
/// with another output where there is a new one.
pub open spec fn call_updated(
    before: Seq<ToolCall>,
    after: Seq<ToolCall>,
    id: Seq<char>,
    status: ToolCallStatus,
    output: Option<String>,
) -> bool {
    let k = call_pos(before, id);
    if k < before.len() {
        after == before.update(
            k,
            ToolCall {
                status,
                output: if output is Some {
                    output
                } else {
                    before[k].output
                },
                ..before[k]
            },
        )
    } else {
        after == before
    }
}

/// `after` is `before` after an event of its agent.
pub open spec fn heard(before: AcpSession, after: AcpSession, event: AcpEvent) -> bool {
    match event {
        AcpEvent::SessionCreated { session_id } => after == (AcpSession {
            session_id: Some(session_id),
            ..before
        }),
        AcpEvent::AgentMessageChunk(chunk) => if assistant_last(before.turns@) {
            let t = before.turns@.last();
            let u = after.turns@.last();
            &&& u matches Turn::Assistant { text, tool_calls, streaming } && text@
                == t->Assistant_text@ + chunk@ && tool_calls == t->tool_calls && streaming
            &&& last_turn_became(before, after, u)
        } else {
            after == before
        },
        AcpEvent::ToolCallStarted { id, title, kind } => if assistant_last(before.turns@) {
            let t = before.turns@.last();
            let u = after.turns@.last();
            &&& u matches Turn::Assistant { text, tool_calls, streaming } && text
                == t->Assistant_text && streaming == t->streaming && tool_calls@
                == t->tool_calls@.push(
                ToolCall { id, title, kind, status: ToolCallStatus::Pending, output: None },
            )
            &&& last_turn_became(before, after, u)
        } else {
            after == before
        },
        AcpEvent::ToolCallUpdated { id, status, output } => if assistant_last(before.turns@) {
            let t = before.turns@.last();
            let u = after.turns@.last();
            &&& u matches Turn::Assistant { text, tool_calls, streaming } && text
                == t->Assistant_text && streaming == t->streaming && call_updated(
                t->tool_calls@,
                tool_calls@,
                id@,
                status,
                output,
            )
            &&& last_turn_became(before, after, u)
        } else {
            after == before
        },
        AcpEvent::PermissionRequest { request_id, tool_call_title, options } => after == (
        AcpSession {
            pending_permission: Some(
                PermissionPrompt { request_id, title: tool_call_title, options },
            ),
            ..before
        }),
        AcpEvent::Shutdown => {
            let quiet = AcpSession { awaiting_response: false, ..before };
            if assistant_last(before.turns@) {
                let t = before.turns@.last();
                last_turn_became(
                    quiet,
                    after,
                    Turn::Assistant {
                        text: t->Assistant_text,
                        tool_calls: t->tool_calls,
                        streaming: false,
                    },
                )
            } else {
                after == quiet
            }
        },
        // The user's own words were added when they were sent, and what is
        // only logged or answered changes nothing.
        _ => after == before,
    }
}

/// What the host has to do for an event.
pub open spec fn answer_to(event: AcpEvent) -> AcpReply {
    match event {
        AcpEvent::Initialized { .. } => AcpReply::NewSession,
        AcpEvent::FsReadRequest { request_id, path, line, limit } => AcpReply::Read {
            request_id,
            path,
            line,
            limit,
        },
        AcpEvent::FsWriteRequest { request_id, path, content } => AcpReply::Write {
            request_id,
            path,
            content,
        },
        _ => AcpReply::Nothing,
    }
}

fn call_index(calls: &Vec<ToolCall>, id: &str) -> (i: usize)
    ensures
        i == call_pos(calls@, id@),
        i <= calls@.len(),
{
    let mut i: usize = 0;
    assert(calls@.skip(0) =~= calls@);
    while i < calls.len() && !same_text(calls[i].id.as_str(), id)
        invariant
            i <= calls@.len(),
            call_pos(calls@, id@) == i + call_pos(calls@.skip(i as int), id@),
        decreases calls.len() - i,
    {
        assert(calls@.skip(i as int).drop_first() =~= calls@.skip(i + 1));
        i = i + 1;
    }
    i
}

fn update_call(
    calls: &mut Vec<ToolCall>,
    id: &str,
    status: ToolCallStatus,
    output: Option<String>,
)
    ensures
        call_updated(old(calls)@, final(calls)@, id@, status, output),
{
    let k = call_index(calls, id);
    if k < calls.len() {
        calls[k].status = status;
        if output.is_some() {
            calls[k].output = output;
        }
        assert(calls@ =~= old(calls)@.update(k as int, calls@[k as int]));
    }
}

impl AcpSession {
    /// A session that nothing has been said in.
    pub fn new() -> (s: Self)
        ensures
            s.turns@.len() == 0,
            s.session_id is None,
            s.pending_permission is None,
            !s.awaiting_response,
            s.draft@.len() == 0,
    {
        AcpSession {
            turns: Vec::new(),
            session_id: None,
            pending_permission: None,
            awaiting_response: false,
            draft: String::new(),
        }
    }

    /// Whether the last turn is the assistant's.
    pub fn replying(&self) -> (r: bool)
        ensures
            r == assistant_last(self.turns@),
    {
        let n = self.turns.len();
        n > 0 && match &self.turns[n - 1] {
            Turn::Assistant { .. } => true,
            Turn::User { .. } => false,
        }
    }

    /// Take one event of the agent in.
    pub fn hear(&mut self, event: AcpEvent) -> (r: AcpReply)
        ensures
            heard(*old(self), *final(self), event),
            r == answer_to(event),
    {
        match event {
            AcpEvent::Initialized { .. } => AcpReply::NewSession,
            AcpEvent::SessionCreated { session_id } => {
                self.session_id = Some(session_id);
                AcpReply::Nothing
            },
            AcpEvent::AgentMessageChunk(chunk) => {
                if self.replying() {
                    let n = self.turns.len();
                    if let Turn::Assistant { text, streaming, .. } = &mut self.turns[n - 1] {
                        text.append(chunk.as_str());
                        *streaming = true;
                    }
                }
                AcpReply::Nothing
            },
            AcpEvent::ToolCallStarted { id, title, kind } => {
                if self.replying() {
                    let n = self.turns.len();
                    if let Turn::Assistant { tool_calls, .. } = &mut self.turns[n - 1] {
                        tool_calls.push(
                            ToolCall {
                                id,
                                title,
                                kind,
                                status: ToolCallStatus::Pending,
                                output: None,
                            },
                        );
                    }
                }
                AcpReply::Nothing
            },
            AcpEvent::ToolCallUpdated { id, status, output } => {
                if self.replying() {
                    let n = self.turns.len();
                    if let Turn::Assistant { tool_calls, .. } = &mut self.turns[n - 1] {
                        update_call(tool_calls, id.as_str(), status, output);
                    }
                }
                AcpReply::Nothing
            },
            AcpEvent::PermissionRequest { request_id, tool_call_title, options } => {
                self.pending_permission = Some(
                    PermissionPrompt { request_id, title: tool_call_title, options },
                );
                AcpReply::Nothing
            },
            AcpEvent::FsReadRequest { request_id, path, line, limit } => AcpReply::Read {
                request_id,
                path,
                line,
                limit,
            },
            AcpEvent::FsWriteRequest { request_id, path, content } => AcpReply::Write {
                request_id,
                path,
                content,
            },
            AcpEvent::Shutdown => {
                self.awaiting_response = false;
                if self.replying() {
                    let n = self.turns.len();
                    if let Turn::Assistant { streaming, .. } = &mut self.turns[n - 1] {
                        *streaming = false;
                    }
                }
                AcpReply::Nothing
            },
            _ => AcpReply::Nothing,
        }
    }
}

/// What a key in an agent's pane comes to, for the host.
pub enum AgentKey {
    /// Nothing changed.
    Nothing,
    /// The draft has been edited.
    Draft,
    /// The open permission request is answered.
    Answer { request_id: String, option_id: String },
    /// The running prompt is cancelled.
    Cancel,
    /// This text is sent.
    Prompt { text: String },
}

/// `after` is `before` once its draft has been sent as `text`: the user's turn
/// is there, and an empty one that waits for the agent's words.
pub open spec fn prompted(before: AcpSession, after: AcpSession, text: Seq<char>) -> bool {
    let n = before.turns@.len() as int;
    &&& text == before.draft@
    &&& after == AcpSession {
        turns: after.turns,
        draft: after.draft,
        awaiting_response: true,
        ..before
    }
    &&& after.draft@.len() == 0
    &&& after.turns@.len() == n + 2
    &&& after.turns@.take(n) == before.turns@
    &&& after.turns@[n] matches Turn::User { text: said } && said@ == text
    &&& after.turns@[n + 1] matches Turn::Assistant { text: reply, tool_calls, streaming } && {
        &&& reply@.len() == 0
        &&& tool_calls@.len() == 0
        &&& !streaming
    }
}

/// The kind of answer that a key picks.
pub open spec fn answer_kind(s: Seq<char>) -> Option<Seq<char>> {
    if s == "a"@ {
        Some("allow_once"@)
    } else if s == "A"@ {
        Some("allow_always"@)
    } else if s == "r"@ {
        Some("reject_once"@)
    } else if s == "R"@ {
        Some("reject_always"@)
    } else {
        None
    }
}

/// The position of the first option of a kind; the number of options where
/// there is none.
pub open spec fn option_pos(options: Seq<PermissionOption>, kind: Seq<char>) -> int
    decreases options.len(),
{
    if options.len() == 0 || options[0].kind@ == kind {
        0
    } else {
        1 + option_pos(options.drop_first(), kind)
    }
}

/// A key answers the open permission request.
pub open spec fn answers(s: AcpSession, key: Seq<char>) -> bool {
    &&& s.pending_permission is Some
    &&& answer_kind(key) is Some
    &&& option_pos(s.pending_permission->0.options@, answer_kind(key)->0)
        < s.pending_permission->0.options@.len()
}

/// Text that goes into the draft as it is.
pub open spec fn printable(s: Seq<char>) -> bool {
    &&& s.len() > 0
    &&& forall|i: int| 0 <= i < s.len() ==> !control(#[trigger] s[i]) || s[i] == '\t'
}

/// `after` is `before` after a key, and `r` says what the host has to do. While
/// a permission request is open, the keys that pick an answer go to it.
pub open spec fn keyed(before: AcpSession, after: AcpSession, key: Seq<char>, r: AgentKey) -> bool {
    if answers(before, key) {
        let p = before.pending_permission->0;
        let k = option_pos(p.options@, answer_kind(key)->0);
        &&& after == AcpSession { pending_permission: None, ..before }
        &&& r == AgentKey::Answer { request_id: p.request_id, option_id: p.options@[k].option_id }
    } else {
        &&& (key != "\r"@ && key != "\n"@) ==> after == (AcpSession {
            draft: after.draft,
            ..before
        })
        &&& if key == "\x1b"@ {
            after.draft@.len() == 0 && r is Cancel
        } else if key == "\r"@ || key == "\n"@ {
            r matches AgentKey::Prompt { text } && prompted(before, after, text@)
        } else if key == "\x7f"@ || key == "\x08"@ {
            if before.draft@.len() > 0 {
                after.draft@ == before.draft@.drop_last() && r is Draft
            } else {
                after == before && r is Nothing
            }
        } else if printable(key) {
            after.draft@ == before.draft@ + key && r is Draft
        } else {
            after == before && r is Nothing
        }
    }
}

fn option_index(options: &Vec<PermissionOption>, kind: &str) -> (i: usize)
    ensures
        i == option_pos(options@, kind@),
        i <= options@.len(),
{
    let mut i: usize = 0;
    assert(options@.skip(0) =~= options@);
    while i < options.len() && !same_text(options[i].kind.as_str(), kind)
        invariant
            i <= options@.len(),
            option_pos(options@, kind@) == i + option_pos(options@.skip(i as int), kind@),
        decreases options.len() - i,
    {
        assert(options@.skip(i as int).drop_first() =~= options@.skip(i + 1));
        i = i + 1;
    }
    i
}

fn pick(s: &str) -> (r: Option<&'static str>)
    ensures
        match r {
            Some(k) => answer_kind(s@) == Some(k@),
            None => answer_kind(s@) is None,
        },
{
    if same_text(s, "a") {
        Some("allow_once")
    } else if same_text(s, "A") {
        Some("allow_always")
    } else if same_text(s, "r") {
        Some("reject_once")
    } else if same_text(s, "R") {
        Some("reject_always")
    } else {
        None
    }
}

/// Whether text goes into the draft as it is.
pub fn is_printable(s: &str) -> (r: bool)
    ensures
        r == printable(s@),
{
    if s.is_empty() {
        return false;
    }
    for c in it: s.chars()
        invariant
            it.seq() == s@,
            s@.len() > 0,
            forall|i: int|
                0 <= i < it.index() ==> !control(#[trigger] s@[i]) || s@[i] == '\t',
    {
        if is_control(c) && c != '\t' {
            assert(control(s@[it.index() as int]) && s@[it.index() as int] != '\t');
            return false;
        }
    }
    true
}

impl AcpSession {
    /// Send the draft: the user's turn is added, and an empty one that the
    /// agent's words go into. Returns what is sent.
    pub fn send_prompt(&mut self) -> (text: String)
        ensures
            prompted(*old(self), *final(self), text@),
    {
        let text = self.draft.clone();
        self.turns.push(Turn::User { text: text.clone() });
        self.turns.push(
            Turn::Assistant { text: String::new(), tool_calls: Vec::new(), streaming: false },
        );
        self.awaiting_response = true;
        self.draft = String::new();
        assert(self.turns@.take(old(self).turns@.len() as int) =~= old(self).turns@);
        text
    }

    /// Take one key in.
    pub fn key(&mut self, s: &str) -> (r: AgentKey)
        ensures
            keyed(*old(self), *final(self), s@, r),
    {
        let mut answer: Option<AgentKey> = None;
        if let Some(prompt) = &self.pending_permission {
            if let Some(kind) = pick(s) {
                let k = option_index(&prompt.options, kind);
                if k < prompt.options.len() {
                    answer = Some(
                        AgentKey::Answer {
                            request_id: prompt.request_id.clone(),
                            option_id: prompt.options[k].option_id.clone(),
                        },
                    );
                }
            }
        }
        if let Some(a) = answer {
            self.pending_permission = None;
            return a;
        }
        if same_text(s, "\x1b") {
            self.draft = String::new();
            AgentKey::Cancel
        } else if same_text(s, "\r") || same_text(s, "\n") {
            AgentKey::Prompt { text: self.send_prompt() }
        } else if same_text(s, "\x7f") || same_text(s, "\x08") {
            if self.draft.as_str().is_empty() {
                AgentKey::Nothing
            } else {
                let _ = self.draft.pop();
                AgentKey::Draft
            }
        } else if is_printable(s) {
            self.draft.append(s);
            AgentKey::Draft
        } else {
            AgentKey::Nothing
        }
    }
}

/// What is sent is answered: the agent's first words after a prompt become the
/// reply to it, behind the user's own.
pub proof fn law_prompt_is_answered(
    before: AcpSession,
    sent: AcpSession,
    after: AcpSession,
    text: Seq<char>,
    chunk: String,
)
    requires
        prompted(before, sent, text),
        heard(sent, after, AcpEvent::AgentMessageChunk(chunk)),
    ensures
        ({
            let n = before.turns@.len() as int;
            &&& after.turns@.len() == n + 2
            &&& after.turns@[n] matches Turn::User { text: said } && said@ == text
            &&& after.turns@[n + 1] matches Turn::Assistant { text: reply, .. } && reply@ == chunk@
        }),
{
    assert(sent.turns@.last()->Assistant_text@ + chunk@ =~= chunk@);
}

/// A draft is sent once: a second Enter has nothing left of it.
pub proof fn law_draft_is_sent_once(
    before: AcpSession,
    sent: AcpSession,
    again: AcpSession,
    text: Seq<char>,
    more: Seq<char>,
)
    requires
        prompted(before, sent, text),
        prompted(sent, again, more),
    ensures
        more.len() == 0,
{
}

/// Lines one after another. A line that follows nothing but empty ones starts
/// the text.
pub open spec fn run_on(ls: Seq<Seq<char>>) -> Seq<char>
    decreases ls.len(),
{
    if ls.len() == 0 {
        Seq::empty()
    } else {
        let head = run_on(ls.drop_last());
        if head.len() == 0 {
            ls.last()
        } else {
            head + seq!['\n'] + ls.last()
        }
    }
}

/// The lines of a text from `line` on, counted from one, and at most `limit`
/// of them.
pub open spec fn chosen_lines(
    text: Seq<char>,
    line: Option<u32>,
    limit: Option<u32>,
) -> Seq<Seq<char>> {
    let all = lines(text);
    let start: int = match line {
        Some(n) => if n > 0 {
            n - 1
        } else {
            0
        },
        None => 0,
    };
    let rest = all.skip(if start < all.len() {
        start
    } else {
        all.len() as int
    });
    match limit {
        Some(n) => rest.take(if n < rest.len() {
            n as int
        } else {
            rest.len() as int
        }),
        None => rest,
    }
}

/// What of a file's text an agent gets: all of it, or the lines it asked for.
pub fn read_text_for_agent(text: String, line: Option<u32>, limit: Option<u32>) -> (r: String)
    ensures
        r@ == (if line is None && limit is None {
            text@
        } else {
            run_on(chosen_lines(text@, line, limit))
        }),
{
    if line.is_none() && limit.is_none() {
        return text;
    }
    let all = lines_of(text.as_str());
    let from: usize = match line {
        Some(n) => if n > 0 {
            (n - 1) as usize
        } else {
            0
        },
        None => 0,
    };
    let start: usize = if from < all.len() {
        from
    } else {
        all.len()
    };
    let rest: usize = all.len() - start;
    let count: usize = match limit {
        Some(n) => if (n as usize) < rest {
            n as usize
        } else {
            rest
        },
        None => rest,
    };
    let ghost ls = lines(text@);
    let ghost want = chosen_lines(text@, line, limit);
    assert(want =~= ls.subrange(start as int, start + count));
    let mut out = String::new();
    let mut i: usize = 0;
    while i < count
        invariant
            i <= count,
            start + count <= all.len(),
            views(all@) == ls,
            out@ == run_on(ls.subrange(start as int, start + i)),
        decreases count - i,
    {
        if !out.as_str().is_empty() {
            out.push('\n');
        }
        out.append(all[start + i].as_str());
        let ghost s = ls.subrange(start as int, start + i + 1);
        proof {
            assert(s.drop_last() =~= ls.subrange(start as int, start + i));
            assert(s.last() == all@[start + i]@);
            assert(out@ =~= run_on(s));
        }
        i = i + 1;
    }
    out
}

/// Whether a file of this size may be read, and why not.
pub open spec fn read_allowed(path: &str, len: u64, cap: u64, r: Result<(), String>) -> bool {
    &&& (r is Ok <==> len <= cap)
    &&& (r matches Err(e) ==> e@ == path@ + ": "@ + digits(len as nat) + " bytes > cap "@ + digits(
        cap as nat,
    ))
}

/// Refuse to read a file of more than `cap` bytes.
pub fn allow_read(path: &str, len: u64, cap: u64) -> (r: Result<(), String>)
    ensures
        read_allowed(path, len, cap, r),
{
    if len > cap {
        let mut e = path.to_owned();
        e.append(": ");
        push_number(&mut e, len);
        e.append(" bytes > cap ");
        push_number(&mut e, cap);
        return Err(e);
    }
    Ok(())
}

/// Whether as much may be written, and why not.
pub open spec fn write_allowed(path: &str, len: u64, cap: u64, r: Result<(), String>) -> bool {
    &&& (r is Ok <==> len <= cap)
    &&& (r matches Err(e) ==> e@ == path@ + ": write payload "@ + digits(len as nat)
        + " bytes > cap "@ + digits(cap as nat))
}

/// Refuse to write more than `cap` bytes.
pub fn allow_write(path: &str, len: u64, cap: u64) -> (r: Result<(), String>)
    ensures
        write_allowed(path, len, cap, r),
{
    if len > cap {
        let mut e = path.to_owned();
        e.append(": write payload ");
        push_number(&mut e, len);
        e.append(" bytes > cap ");
        push_number(&mut e, cap);
        return Err(e);
    }
    Ok(())
}

} // verus!
