//! Hosted agents: the state of a session, what its events do to it, and how it
//! reads on screen.

use crate::text::{lines, lines_of, same_text, views};
use vstd::prelude::*;

verus! {

#[derive(Copy, Clone, PartialEq, Eq, Structural, Debug)]
pub enum ToolCallStatus {
    Pending,
    InProgress,
    Completed,
    Failed,
}

/// One tool call of an assistant's turn.
pub struct ToolCall {
    pub id: String,
    pub title: String,
    pub kind: String,
    pub status: ToolCallStatus,
    pub output: Option<String>,
}

pub enum Turn {
    User { text: String },
    Assistant { text: String, tool_calls: Vec<ToolCall>, streaming: bool },
}

/// One answer that a permission request offers.
pub struct PermissionOption {
    pub option_id: String,
    pub name: String,
    pub kind: String,
}

pub struct PermissionPrompt {
    pub request_id: String,
    pub title: String,
    pub options: Vec<PermissionOption>,
}

/// A conversation with a hosted agent.
pub struct AcpSession {
    pub turns: Vec<Turn>,
    pub session_id: Option<String>,
    pub pending_permission: Option<PermissionPrompt>,
    pub awaiting_response: bool,
    /// What the user is composing.
    pub draft: String,
}

/// The mark in front of a tool call.
pub open spec fn marker(status: ToolCallStatus) -> Seq<char> {
    match status {
        ToolCallStatus::Pending => "○"@,
        ToolCallStatus::InProgress => "◐"@,
        ToolCallStatus::Completed => "●"@,
        ToolCallStatus::Failed => "✗"@,
    }
}

/// The lines of a tool call's output, each on a line of its own and indented.
pub open spec fn indented(ls: Seq<Seq<char>>) -> Seq<char>
    decreases ls.len(),
{
    if ls.len() == 0 {
        Seq::empty()
    } else {
        indented(ls.drop_last()) + "\n    "@ + ls.last()
    }
}

pub open spec fn tool_text(tc: ToolCall) -> Seq<char> {
    "\n\n  "@ + marker(tc.status) + " ["@ + tc.kind@ + "] "@ + tc.title@ + (match tc.output {
        Some(o) => indented(lines(o@)),
        None => Seq::empty(),
    })
}

pub open spec fn tools_text(tcs: Seq<ToolCall>) -> Seq<char>
    decreases tcs.len(),
{
    if tcs.len() == 0 {
        Seq::empty()
    } else {
        tools_text(tcs.drop_last()) + tool_text(tcs.last())
    }
}

/// One turn: a divider that names the speaker, then what was said.
pub open spec fn turn_text(t: Turn) -> Seq<char> {
    match t {
        Turn::User { text } => "─── You ───\n"@ + text@,
        Turn::Assistant { text, tool_calls, streaming } => (if streaming {
            "─── Agent (streaming…) ───\n"@
        } else {
            "─── Agent ───\n"@
        }) + text@ + tools_text(tool_calls@),
    }
}

/// The turns, with an empty line between one and the next.
pub open spec fn turns_text(ts: Seq<Turn>) -> Seq<char>
    decreases ts.len(),
{
    if ts.len() == 0 {
        Seq::empty()
    } else {
        let before = turns_text(ts.drop_last());
        before + (if before.len() == 0 {
            Seq::empty()
        } else {
            "\n\n"@
        }) + turn_text(ts.last())
    }
}

/// The key that picks the `i`-th option of a permission prompt.
pub open spec fn option_key(kind: Seq<char>, i: int) -> Seq<char> {
    if kind == "allow_once"@ {
        "a"@
    } else if kind == "allow_always"@ {
        "A"@
    } else if kind == "reject_once"@ {
        "r"@
    } else if kind == "reject_always"@ {
        "R"@
    } else if i == 0 {
        "1"@
    } else if i == 1 {
        "2"@
    } else if i == 2 {
        "3"@
    } else {
        "4"@
    }
}

pub open spec fn options_text(os: Seq<PermissionOption>) -> Seq<char>
    decreases os.len(),
{
    if os.len() == 0 {
        Seq::empty()
    } else {
        options_text(os.drop_last()) + "\n  ["@ + option_key(os.last().kind@, os.len() - 1) + "] "@
            + os.last().name@
    }
}

pub open spec fn prompt_text(p: Option<PermissionPrompt>) -> Seq<char> {
    match p {
        Some(p) => "\n\n─── Permission requested ───\n"@ + p.title@ + "\n"@ + options_text(
            p.options@,
        ),
        None => Seq::empty(),
    }
}

/// A session as text: its turns, the question that waits for an answer, and
/// the draft with a cursor mark.
pub open spec fn acp_body(s: AcpSession) -> Seq<char> {
    turns_text(s.turns@) + prompt_text(s.pending_permission) + "\n\n> "@ + s.draft@ + "_"@
}

fn push_tool(out: &mut String, tc: &ToolCall)
    ensures
        final(out)@ == old(out)@ + tool_text(*tc),
{
    let ghost start = out@;
    out.append("\n\n  ");
    let mark = match tc.status {
        ToolCallStatus::Pending => "○",
        ToolCallStatus::InProgress => "◐",
        ToolCallStatus::Completed => "●",
        ToolCallStatus::Failed => "✗",
    };
    out.append(mark);
    out.append(" [");
    out.append(tc.kind.as_str());
    out.append("] ");
    out.append(tc.title.as_str());
    let ghost head = "\n\n  "@ + marker(tc.status) + " ["@ + tc.kind@ + "] "@ + tc.title@;
    assert(out@ =~= start + head);
    if let Some(o) = &tc.output {
        let ls = lines_of(o.as_str());
        let ghost vs = views(ls@);
        let mut i: usize = 0;
        assert(indented(vs.take(0)) =~= Seq::<char>::empty());
        assert(out@ =~= start + head + indented(vs.take(0)));
        while i < ls.len()
            invariant
                i <= ls@.len(),
                vs == views(ls@),
                out@ == start + head + indented(vs.take(i as int)),
            decreases ls.len() - i,
        {
            out.append("\n    ");
            out.append(ls[i].as_str());
            i = i + 1;
            proof {
                assert(vs.take(i as int).drop_last() =~= vs.take(i - 1));
                assert(vs.take(i as int).last() == ls@[i - 1]@);
                assert(out@ =~= start + head + indented(vs.take(i as int)));
            }
        }
        assert(vs.take(vs.len() as int) =~= vs);
    }
    assert(out@ =~= start + tool_text(*tc));
}

fn push_turn(out: &mut String, t: &Turn)
    ensures
        final(out)@ == old(out)@ + turn_text(*t),
{
    let ghost start = out@;
    match t {
        Turn::User { text } => {
            out.append("─── You ───\n");
            out.append(text.as_str());
        },
        Turn::Assistant { text, tool_calls, streaming } => {
            if *streaming {
                out.append("─── Agent (streaming…) ───\n");
            } else {
                out.append("─── Agent ───\n");
            }
            out.append(text.as_str());
            let ghost head = out@;
            let mut i: usize = 0;
            assert(tools_text(tool_calls@.take(0)) =~= Seq::<char>::empty());
            assert(out@ =~= head + tools_text(tool_calls@.take(0)));
            while i < tool_calls.len()
                invariant
                    i <= tool_calls@.len(),
                    out@ == head + tools_text(tool_calls@.take(i as int)),
                decreases tool_calls.len() - i,
            {
                push_tool(out, &tool_calls[i]);
                i = i + 1;
                proof {
                    assert(tool_calls@.take(i as int).drop_last() =~= tool_calls@.take(i - 1));
                    assert(out@ =~= head + tools_text(tool_calls@.take(i as int)));
                }
            }
            assert(tool_calls@.take(tool_calls@.len() as int) =~= tool_calls@);
        },
    }
    assert(out@ =~= start + turn_text(*t));
}

fn key_of(kind: &str, i: usize) -> (k: &'static str)
    ensures
        k@ == option_key(kind@, i as int),
{
    if same_text(kind, "allow_once") {
        "a"
    } else if same_text(kind, "allow_always") {
        "A"
    } else if same_text(kind, "reject_once") {
        "r"
    } else if same_text(kind, "reject_always") {
        "R"
    } else if i == 0 {
        "1"
    } else if i == 1 {
        "2"
    } else if i == 2 {
        "3"
    } else {
        "4"
    }
}

/// Render a session's turn list as a plain-text body. Each turn gets a divider;
/// tool calls show inline with status; a trailing `> draft` line shows what the
/// user is composing.
pub fn render_acp_body(session: &AcpSession) -> (out: String)
    ensures
        out@ == acp_body(*session),
{
    let mut out = String::new();
    let mut i: usize = 0;
    assert(turns_text(session.turns@.take(0)) =~= Seq::<char>::empty());
    while i < session.turns.len()
        invariant
            i <= session.turns@.len(),
            out@ == turns_text(session.turns@.take(i as int)),
        decreases session.turns.len() - i,
    {
        let ghost before = out@;
        if !out.as_str().is_empty() {
            out.append("\n\n");
        }
        push_turn(&mut out, &session.turns[i]);
        i = i + 1;
        proof {
            let ts = session.turns@;
            assert(ts.take(i as int).drop_last() =~= ts.take(i - 1));
            assert(out@ =~= turns_text(ts.take(i as int)));
        }
    }
    assert(session.turns@.take(session.turns@.len() as int) =~= session.turns@);
    let ghost turns = out@;
    if let Some(prompt) = &session.pending_permission {
        out.append("\n\n─── Permission requested ───\n");
        out.append(prompt.title.as_str());
        out.append("\n");
        let ghost head = out@;
        let mut i: usize = 0;
        assert(options_text(prompt.options@.take(0)) =~= Seq::<char>::empty());
        assert(out@ =~= head + options_text(prompt.options@.take(0)));
        while i < prompt.options.len()
            invariant
                i <= prompt.options@.len(),
                out@ == head + options_text(prompt.options@.take(i as int)),
            decreases prompt.options.len() - i,
        {
            let o = &prompt.options[i];
            out.append("\n  [");
            out.append(key_of(o.kind.as_str(), i));
            out.append("] ");
            out.append(o.name.as_str());
            i = i + 1;
            proof {
                let os = prompt.options@;
                assert(os.take(i as int).drop_last() =~= os.take(i - 1));
                assert(out@ =~= head + options_text(os.take(i as int)));
            }
        }
        assert(prompt.options@.take(prompt.options@.len() as int) =~= prompt.options@);
    }
    assert(out@ =~= turns + prompt_text(session.pending_permission));
    out.append("\n\n> ");
    out.append(session.draft.as_str());
    out.append("_");
    assert(out@ =~= acp_body(*session));
    out
}

} // verus!
