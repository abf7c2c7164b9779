//! What a hosted agent's pane promises: the key beside an option picks it, what
//! the agent says is what stands there, and what is typed is what is sent.

use crate::acp::{
    acp_body, indented, option_key, options_text, tool_text, tools_text, turn_text, turns_text,
    AcpSession, PermissionOption, ToolCall, ToolCallStatus, Turn,
};
use crate::agent::{
    answer_to, answers, call_pos, chosen_lines, heard, keyed, option_pos, printable, read_allowed,
    run_on, write_allowed, AcpEvent, AcpReply, AgentKey,
};
use crate::text::{digits, lines};
use vstd::prelude::*;

verus! {

/// `key` is the key for options of the kind `kind`: a small letter for once, a
/// capital for always, the first letter of allow or reject.
pub open spec fn key_for(key: Seq<char>, kind: Seq<char>) -> bool {
    ||| key == "a"@ && kind == "allow_once"@
    ||| key == "A"@ && kind == "allow_always"@
    ||| key == "r"@ && kind == "reject_once"@
    ||| key == "R"@ && kind == "reject_always"@
}

proof fn lemma_names_differ()
    ensures
        "a"@ != "A"@,
        "a"@ != "r"@,
        "a"@ != "R"@,
        "A"@ != "r"@,
        "A"@ != "R"@,
        "r"@ != "R"@,
        "allow_once"@ != "allow_always"@,
        "allow_once"@ != "reject_once"@,
        "allow_once"@ != "reject_always"@,
        "allow_always"@ != "reject_once"@,
        "allow_always"@ != "reject_always"@,
        "reject_once"@ != "reject_always"@,
{
    reveal_strlit("a");
    reveal_strlit("A");
    reveal_strlit("r");
    reveal_strlit("R");
    reveal_strlit("allow_once");
    reveal_strlit("allow_always");
    reveal_strlit("reject_once");
    reveal_strlit("reject_always");
    assert("a"@[0] != "A"@[0]);
    assert("a"@[0] != "r"@[0]);
    assert("a"@[0] != "R"@[0]);
    assert("A"@[0] != "r"@[0]);
    assert("A"@[0] != "R"@[0]);
    assert("r"@[0] != "R"@[0]);
    assert("allow_once"@.len() != "allow_always"@.len());
    assert("allow_once"@.len() != "reject_once"@.len());
    assert("allow_once"@.len() != "reject_always"@.len());
    assert("allow_always"@.len() != "reject_once"@.len());
    assert("allow_always"@.len() != "reject_always"@.len());
    assert("reject_once"@.len() != "reject_always"@.len());
}

/// Option `k` is the first of its kind.
pub open spec fn first_of_kind(os: Seq<PermissionOption>, k: int) -> bool {
    &&& 0 <= k < os.len()
    &&& forall|j: int| 0 <= j < k ==> (#[trigger] os[j]).kind@ != os[k].kind@
}

proof fn lemma_option_pos(os: Seq<PermissionOption>, k: int)
    requires
        first_of_kind(os, k),
    ensures
        option_pos(os, os[k].kind@) == k,
    decreases os.len(),
{
    if k > 0 {
        let rest = os.drop_first();
        assert(os[0].kind@ != os[k].kind@);
        assert forall|j: int| 0 <= j < k - 1 implies (#[trigger] rest[j]).kind@ != os[k].kind@ by {
            assert(os[j + 1].kind@ != os[k].kind@);
        }
        lemma_option_pos(rest, k - 1);
    }
}

proof fn lemma_no_option(os: Seq<PermissionOption>, kind: Seq<char>)
    requires
        forall|j: int| 0 <= j < os.len() ==> (#[trigger] os[j]).kind@ != kind,
    ensures
        option_pos(os, kind) == os.len(),
    decreases os.len(),
{
    if os.len() > 0 {
        assert(os[0].kind@ != kind);
        let rest = os.drop_first();
        assert forall|j: int| 0 <= j < rest.len() implies (#[trigger] rest[j]).kind@ != kind by {
            assert(os[j + 1].kind@ != kind);
        }
        lemma_no_option(rest, kind);
    }
}

/// The key that the prompt shows beside an option of one of the four kinds is
/// the key of its kind, and pressing it answers the request with that option,
/// where it is the first of its kind. The request is then closed, and the key
/// is not typed.
pub proof fn law_shown_key_picks(
    before: AcpSession,
    after: AcpSession,
    key: Seq<char>,
    r: AgentKey,
    k: int,
)
    requires
        before.pending_permission is Some,
        first_of_kind(before.pending_permission->0.options@, k),
        key_for(key, before.pending_permission->0.options@[k].kind@),
        keyed(before, after, key, r),
    ensures
        option_key(before.pending_permission->0.options@[k].kind@, k) == key,
        r matches AgentKey::Answer { request_id, option_id } && request_id
            == before.pending_permission->0.request_id && option_id
            == before.pending_permission->0.options@[k].option_id,
        after.pending_permission is None,
        after.draft == before.draft,
        after.turns == before.turns,
{
    lemma_names_differ();
    lemma_option_pos(before.pending_permission->0.options@, k);
}

/// A key whose kind is not on offer answers nothing, and neither does any key
/// while nothing is asked.
pub proof fn law_no_option_no_answer(
    before: AcpSession,
    after: AcpSession,
    key: Seq<char>,
    r: AgentKey,
)
    requires
        keyed(before, after, key, r),
        before.pending_permission matches Some(p) ==> forall|j: int|
            0 <= j < p.options@.len() ==> !key_for(key, (#[trigger] p.options@[j]).kind@),
    ensures
        !(r is Answer),
        after.pending_permission == before.pending_permission,
{
    lemma_names_differ();
    reveal_strlit("\x1b");
    reveal_strlit("\r");
    reveal_strlit("\n");
    assert("\x1b"@[0] as int == 27);
    assert("\r"@[0] as int == 13);
    assert("\n"@[0] as int == 10);
    if let Some(p) = before.pending_permission {
        if answers(before, key) {
            let kind = crate::agent::answer_kind(key)->0;
            assert forall|j: int| 0 <= j < p.options@.len() implies (#[trigger] p.options@[j]).kind@
                != kind by {
                assert(!key_for(key, p.options@[j].kind@));
            }
            lemma_no_option(p.options@, kind);
        }
    }
}

/// `part` stands in `all` from `at` on.
pub open spec fn stands_at(all: Seq<char>, at: int, part: Seq<char>) -> bool {
    0 <= at <= all.len() - part.len() && all.subrange(at, at + part.len()) == part
}

proof fn lemma_option_shown(os: Seq<PermissionOption>, k: int, key: Seq<char>) -> (at: int)
    requires
        0 <= k < os.len(),
        key_for(key, os[k].kind@),
    ensures
        stands_at(options_text(os), at, "\n  ["@ + key + "] "@ + os[k].name@),
    decreases os.len(),
{
    lemma_names_differ();
    let rest = os.drop_last();
    let all = options_text(os);
    let head = options_text(rest);
    let part = "\n  ["@ + key + "] "@ + os[k].name@;
    if k < rest.len() {
        let at = lemma_option_shown(rest, k, key);
        assert(all.subrange(at, at + part.len()) =~= head.subrange(at, at + part.len()));
        at
    } else {
        let at = head.len() as int;
        assert(option_key(os.last().kind@, os.len() - 1) == key);
        assert(all.subrange(at, at + part.len()) =~= part);
        at
    }
}

/// While a request is open, the pane shows every option of the four kinds on a
/// line of its own, its key in brackets before its name.
pub proof fn law_options_are_shown(s: AcpSession, k: int, key: Seq<char>) -> (at: int)
    requires
        s.pending_permission is Some,
        0 <= k < s.pending_permission->0.options@.len(),
        key_for(key, s.pending_permission->0.options@[k].kind@),
    ensures
        stands_at(
            acp_body(s),
            at,
            "\n  ["@ + key + "] "@ + s.pending_permission->0.options@[k].name@,
        ),
{
    let p = s.pending_permission->0;
    let part = "\n  ["@ + key + "] "@ + p.options@[k].name@;
    let i = lemma_option_shown(p.options@, k, key);
    let os = options_text(p.options@);
    let head = turns_text(s.turns@) + ("\n\n─── Permission requested ───\n"@ + p.title@ + "\n"@);
    let body = acp_body(s);
    assert(body =~= head + os + "\n\n> "@ + s.draft@ + "_"@);
    assert(os.subrange(i, i + part.len()) == part);
    assert(body.subrange(head.len() + i, head.len() + i + part.len()) =~= part);
    head.len() + i
}

/// The pane ends with what the user is composing, behind a mark and before a
/// cursor.
pub proof fn law_draft_ends_the_pane(s: AcpSession)
    ensures
        stands_at(
            acp_body(s),
            acp_body(s).len() - s.draft@.len() - 5,
            seq!['\n', '\n', '>', ' '] + s.draft@ + seq!['_'],
        ),
{
    reveal_strlit("\n\n> ");
    reveal_strlit("_");
    let part = seq!['\n', '\n', '>', ' '] + s.draft@ + seq!['_'];
    let body = acp_body(s);
    assert(body.subrange(body.len() - part.len(), body.len() as int) =~= part);
}

proof fn lemma_turn_shown(ts: Seq<Turn>, k: int) -> (at: int)
    requires
        0 <= k < ts.len(),
    ensures
        stands_at(turns_text(ts), at, turn_text(ts[k])),
    decreases ts.len(),
{
    let rest = ts.drop_last();
    let all = turns_text(ts);
    let head = turns_text(rest);
    let part = turn_text(ts[k]);
    if k < rest.len() {
        let at = lemma_turn_shown(rest, k);
        assert(head.subrange(at, at + part.len()) == part);
        assert(all.subrange(at, at + part.len()) =~= part);
        at
    } else {
        let at = all.len() - part.len();
        assert(all.subrange(at, all.len() as int) =~= part);
        at
    }
}

/// What was said: the text of a turn.
pub open spec fn said(t: Turn) -> Seq<char> {
    match t {
        Turn::User { text } => text@,
        Turn::Assistant { text, .. } => text@,
    }
}

/// Everything that was said stands in the pane, under the name of who said it.
pub proof fn law_conversation_is_shown(s: AcpSession, k: int) -> (at: int)
    requires
        0 <= k < s.turns@.len(),
    ensures
        s.turns@[k] is User ==> stands_at(acp_body(s), at, "─── You ───\n"@ + said(s.turns@[k])),
        s.turns@[k] matches Turn::Assistant { streaming, .. } ==> stands_at(
            acp_body(s),
            at,
            if streaming {
                "─── Agent (streaming…) ───\n"@ + said(s.turns@[k])
            } else {
                "─── Agent ───\n"@ + said(s.turns@[k])
            },
        ),
{
    let at = lemma_turn_shown(s.turns@, k);
    let head = turns_text(s.turns@);
    let t = turn_text(s.turns@[k]);
    let body = acp_body(s);
    let part = match s.turns@[k] {
        Turn::User { text } => "─── You ───\n"@ + text@,
        Turn::Assistant { text, streaming, .. } => if streaming {
            "─── Agent (streaming…) ───\n"@ + text@
        } else {
            "─── Agent ───\n"@ + text@
        },
    };
    assert(t.subrange(0, part.len() as int) =~= part);
    assert(head.subrange(at, at + t.len()) == t);
    assert(body.subrange(at, at + part.len()) =~= t.subrange(0, part.len() as int));
    at
}

/// The mark of a tool call says how it went: an empty circle before it has
/// begun, a half one while it runs, a full one when it is done, and a cross
/// where it failed; its kind and its title follow.
pub proof fn law_tool_call_is_marked(tc: ToolCall)
    ensures
        ({
            let mark = match tc.status {
                ToolCallStatus::Pending => "○"@,
                ToolCallStatus::InProgress => "◐"@,
                ToolCallStatus::Completed => "●"@,
                ToolCallStatus::Failed => "✗"@,
            };
            stands_at(
                tool_text(tc),
                0,
                "\n\n  "@ + mark + " ["@ + tc.kind@ + "] "@ + tc.title@,
            )
        }),
{
    let part = "\n\n  "@ + crate::acp::marker(tc.status) + " ["@ + tc.kind@ + "] "@ + tc.title@;
    assert(tool_text(tc).subrange(0, part.len() as int) =~= part);
}

/// What the agent says goes on where it left off, piece after piece, and
/// nothing that was said before changes; two pieces read as one.
pub proof fn law_words_go_on(a: AcpSession, b: AcpSession, chunk: String, k: int)
    requires
        a.turns@.len() > 0,
        a.turns@.last() is Assistant,
        heard(a, b, AcpEvent::AgentMessageChunk(chunk)),
        0 <= k < a.turns@.len() - 1,
    ensures
        b.turns@.len() == a.turns@.len(),
        b.turns@[k] == a.turns@[k],
        b.turns@.last() is Assistant,
        said(b.turns@.last()) == said(a.turns@.last()) + chunk@,
        b.turns@.last()->streaming,
        b.turns@.last()->tool_calls == a.turns@.last()->tool_calls,
        b.draft == a.draft,
        b.pending_permission == a.pending_permission,
{
}

/// Two pieces of the agent's words say what one piece of both would.
pub proof fn law_pieces_add_up(
    a: AcpSession,
    b: AcpSession,
    c: AcpSession,
    d: AcpSession,
    first: String,
    second: String,
    both: String,
)
    requires
        a.turns@.len() > 0,
        a.turns@.last() is Assistant,
        both@ == first@ + second@,
        heard(a, b, AcpEvent::AgentMessageChunk(first)),
        heard(b, c, AcpEvent::AgentMessageChunk(second)),
        heard(a, d, AcpEvent::AgentMessageChunk(both)),
    ensures
        said(c.turns@.last()) == said(d.turns@.last()),
{
    assert(said(a.turns@.last()) + first@ + second@ =~= said(a.turns@.last()) + both@);
}

/// A tool call that starts is listed last, and has not begun.
pub proof fn law_tool_call_is_listed(
    a: AcpSession,
    b: AcpSession,
    id: String,
    title: String,
    kind: String,
)
    requires
        a.turns@.len() > 0,
        a.turns@.last() is Assistant,
        heard(a, b, AcpEvent::ToolCallStarted { id, title, kind }),
    ensures
        b.turns@.len() == a.turns@.len(),
        b.turns@.last() is Assistant,
        ({
            let old = a.turns@.last()->tool_calls@;
            let new = b.turns@.last()->tool_calls@;
            &&& new.len() == old.len() + 1
            &&& new.take(old.len() as int) == old
            &&& new.last().id == id
            &&& new.last().title == title
            &&& new.last().kind == kind
            &&& new.last().status == ToolCallStatus::Pending
            &&& new.last().output is None
        }),
        said(b.turns@.last()) == said(a.turns@.last()),
{
    let old = a.turns@.last()->tool_calls@;
    let new = b.turns@.last()->tool_calls@;
    assert(new.take(old.len() as int) =~= old);
}

proof fn lemma_call_pos(calls: Seq<ToolCall>, k: int)
    requires
        0 <= k < calls.len(),
        forall|j: int| 0 <= j < k ==> (#[trigger] calls[j]).id@ != calls[k].id@,
    ensures
        call_pos(calls, calls[k].id@) == k,
    decreases calls.len(),
{
    if k > 0 {
        let rest = calls.drop_first();
        assert(calls[0].id@ != calls[k].id@);
        assert forall|j: int| 0 <= j < k - 1 implies (#[trigger] rest[j]).id@ != calls[k].id@ by {
            assert(calls[j + 1].id@ != calls[k].id@);
        }
        lemma_call_pos(rest, k - 1);
    }
}

/// News of a tool call reach the call that they name and no other: it takes the
/// new state, and the new output where there is one.
pub proof fn law_tool_call_is_updated(
    a: AcpSession,
    b: AcpSession,
    id: String,
    status: ToolCallStatus,
    output: Option<String>,
    k: int,
    other: int,
)
    requires
        a.turns@.len() > 0,
        a.turns@.last() is Assistant,
        heard(a, b, AcpEvent::ToolCallUpdated { id, status, output }),
        ({
            let calls = a.turns@.last()->tool_calls@;
            &&& 0 <= k < calls.len()
            &&& calls[k].id@ == id@
            &&& forall|j: int| 0 <= j < k ==> (#[trigger] calls[j]).id@ != id@
            &&& 0 <= other < calls.len()
            &&& other != k
        }),
    ensures
        b.turns@.last() is Assistant,
        ({
            let old = a.turns@.last()->tool_calls@;
            let new = b.turns@.last()->tool_calls@;
            &&& new.len() == old.len()
            &&& new[k].status == status
            &&& output is Some ==> new[k].output == output
            &&& output is None ==> new[k].output == old[k].output
            &&& new[k].id == old[k].id
            &&& new[k].title == old[k].title
            &&& new[k].kind == old[k].kind
            &&& new[other] == old[other]
        }),
{
    lemma_call_pos(a.turns@.last()->tool_calls@, k);
}

/// A request for permission is put to the user as it came, and touches nothing
/// else.
pub proof fn law_request_is_put(
    a: AcpSession,
    b: AcpSession,
    request_id: String,
    tool_call_title: String,
    options: Vec<PermissionOption>,
)
    requires
        heard(a, b, AcpEvent::PermissionRequest { request_id, tool_call_title, options }),
    ensures
        b.pending_permission matches Some(p) && p.request_id == request_id && p.title
            == tool_call_title && p.options == options,
        b.turns == a.turns,
        b.draft == a.draft,
{
}

/// When the agent has gone, nothing is awaited and nothing streams any more;
/// what was said stays.
pub proof fn law_shutdown_ends_the_turn(a: AcpSession, b: AcpSession, k: int)
    requires
        heard(a, b, AcpEvent::Shutdown),
        0 <= k < a.turns@.len(),
    ensures
        !b.awaiting_response,
        b.turns@.len() == a.turns@.len(),
        said(b.turns@[k]) == said(a.turns@[k]),
        b.turns@.last() matches Turn::Assistant { streaming, .. } ==> !streaming,
        b.draft == a.draft,
{
}

/// An agent that asks for a file is answered for that file, and for the lines
/// that it named; one that is ready gets a session.
pub proof fn law_file_requests_are_passed_on(
    request_id: String,
    path: String,
    line: Option<u32>,
    limit: Option<u32>,
    content: String,
    agent_name: String,
    agent_version: Option<String>,
)
    ensures
        answer_to(AcpEvent::FsReadRequest { request_id, path, line, limit }) == (AcpReply::Read {
            request_id,
            path,
            line,
            limit,
        }),
        answer_to(AcpEvent::FsWriteRequest { request_id, path, content }) == (AcpReply::Write {
            request_id,
            path,
            content,
        }),
        answer_to(AcpEvent::Initialized { agent_name, agent_version }) is NewSession,
{
}

/// What is typed while nothing is asked goes to the end of the draft, and a
/// backspace takes the last character back.
pub proof fn law_typing_and_taking_back(
    a: AcpSession,
    b: AcpSession,
    c: AcpSession,
    ch: char,
    r: AgentKey,
    q: AgentKey,
)
    requires
        a.pending_permission is None,
        ch as int >= 32,
        ch as int != 127,
        !(128 <= ch as int <= 159),
        keyed(a, b, seq![ch], r),
        keyed(b, c, "\x7f"@, q),
    ensures
        r is Draft,
        b.draft@ == a.draft@.push(ch),
        q is Draft,
        c.draft@ == a.draft@,
{
    reveal_strlit("\x1b");
    reveal_strlit("\r");
    reveal_strlit("\n");
    reveal_strlit("\x7f");
    reveal_strlit("\x08");
    let key = seq![ch];
    assert(key[0] == ch);
    assert("\x1b"@[0] as int == 27);
    assert("\r"@[0] as int == 13);
    assert("\n"@[0] as int == 10);
    assert("\x7f"@[0] as int == 127);
    assert("\x08"@[0] as int == 8);
    assert(printable(key));
    assert(a.draft@ + key =~= a.draft@.push(ch));
    assert(a.draft@.push(ch).drop_last() =~= a.draft@);
}

/// Enter sends the draft as it stands, and Escape cancels what runs and throws
/// the draft away, where no key is an answer.
pub proof fn law_enter_sends_and_escape_cancels(
    a: AcpSession,
    b: AcpSession,
    c: AcpSession,
    r: AgentKey,
    q: AgentKey,
)
    requires
        keyed(a, b, "\r"@, r),
        keyed(a, c, "\x1b"@, q),
    ensures
        r matches AgentKey::Prompt { text } && text@ == a.draft@,
        b.draft@.len() == 0,
        b.awaiting_response,
        b.turns@.len() == a.turns@.len() + 2,
        b.turns@[a.turns@.len() as int] is User,
        said(b.turns@[a.turns@.len() as int]) == a.draft@,
        q is Cancel,
        c.draft@.len() == 0,
        c.turns == a.turns,
{
    reveal_strlit("\x1b");
    reveal_strlit("\r");
    reveal_strlit("\n");
    reveal_strlit("a");
    reveal_strlit("A");
    reveal_strlit("r");
    reveal_strlit("R");
    assert("\x1b"@[0] as int == 27);
    assert("\r"@[0] as int == 13);
    assert("\n"@[0] as int == 10);
    assert("a"@[0] as int == 97);
    assert("A"@[0] as int == 65);
    assert("r"@[0] as int == 114);
    assert("R"@[0] as int == 82);
}

/// An agent that asks for lines gets those: from the one it named on, counted
/// from one, in order, and no more than it asked for.
pub proof fn law_asked_lines_are_given(text: Seq<char>, line: u32, limit: u32, i: int)
    requires
        line > 0,
    ensures
        ({
            let all = lines(text);
            let got = chosen_lines(text, Some(line), Some(limit));
            &&& got.len() <= limit
            &&& line - 1 + limit <= all.len() ==> got.len() == limit
            &&& line - 1 <= all.len() < line - 1 + limit ==> got.len() == all.len() - (line - 1)
            &&& line > all.len() ==> got.len() == 0
            &&& 0 <= i < got.len() ==> got[i] == all[line - 1 + i]
            &&& chosen_lines(text, None, None) == all
            &&& chosen_lines(text, Some(0), None) == all
            &&& chosen_lines(text, Some(line), None).len() >= got.len()
            &&& 0 <= i < got.len() ==> chosen_lines(text, Some(line), None)[i] == all[line - 1 + i]
            &&& chosen_lines(text, None, Some(limit)) == chosen_lines(text, Some(1), Some(limit))
        }),
{
    let all = lines(text);
    assert(chosen_lines(text, None, None) =~= all);
    assert(chosen_lines(text, Some(0), None) =~= all);
    assert(chosen_lines(text, None, Some(limit)) =~= chosen_lines(text, Some(1), Some(limit)));
}

/// Lines that are not empty are given one after another, with a line break
/// between one and the next.
pub proof fn law_given_lines_are_separated(ls: Seq<Seq<char>>, next: Seq<char>)
    requires
        ls.len() > 0,
        ls[0].len() > 0,
    ensures
        run_on(ls.push(next)) == run_on(ls) + seq!['\n'] + next,
        run_on(seq![next]) == next,
{
    assert(ls.push(next).drop_last() =~= ls);
    lemma_run_on_holds(ls);
    assert(seq![next].drop_last() =~= Seq::<Seq<char>>::empty());
    assert(run_on(Seq::<Seq<char>>::empty()).len() == 0);
}

proof fn lemma_run_on_holds(ls: Seq<Seq<char>>)
    requires
        ls.len() > 0,
        ls[0].len() > 0,
    ensures
        run_on(ls).len() > 0,
    decreases ls.len(),
{
    if ls.len() > 1 {
        lemma_run_on_holds(ls.drop_last());
    }
}

/// The output of a tool call stands below it, line by line, each on a line of its
/// own and four spaces in.
pub proof fn law_tool_output_is_indented(ls: Seq<Seq<char>>, k: int)
    requires
        0 <= k < ls.len(),
    ensures
        exists|at: int|
            {
                &&& 0 <= at <= indented(ls).len() - 5 - ls[k].len()
                &&& #[trigger] indented(ls)[at] == '\n'
                &&& indented(ls).subrange(at + 1, at + 5) == seq![' ', ' ', ' ', ' ']
                &&& indented(ls).subrange(at + 5, at + 5 + ls[k].len()) == ls[k]
            },
        indented(ls).len() == indented(ls.drop_last()).len() + 5 + ls.last().len(),
    decreases ls.len(),
{
    reveal_strlit("\n    ");
    let rest = ls.drop_last();
    let head = indented(rest);
    let all = indented(ls);
    assert("\n    "@.len() == 5);
    assert(all == head + "\n    "@ + ls.last());
    if k < rest.len() {
        law_tool_output_is_indented(rest, k);
        let at = choose|at: int|
            {
                &&& 0 <= at <= head.len() - 5 - rest[k].len()
                &&& #[trigger] head[at] == '\n'
                &&& head.subrange(at + 1, at + 5) == seq![' ', ' ', ' ', ' ']
                &&& head.subrange(at + 5, at + 5 + rest[k].len()) == rest[k]
            };
        assert(all[at] == '\n');
        assert(all.subrange(at + 1, at + 5) =~= head.subrange(at + 1, at + 5));
        assert(all.subrange(at + 5, at + 5 + ls[k].len()) =~= head.subrange(
            at + 5,
            at + 5 + ls[k].len(),
        ));
    } else {
        let at = head.len() as int;
        assert(all[at] == "\n    "@[0]);
        assert(all.subrange(at + 1, at + 5) =~= seq![' ', ' ', ' ', ' ']);
        assert(all.subrange(at + 5, at + 5 + ls[k].len()) =~= ls[k]);
    }
}

/// A turn is headed by who speaks: the user, or the agent, who may still be
/// speaking; and turns stand apart by an empty line.
pub proof fn law_turns_stand_apart(ts: Seq<Turn>, t: Turn)
    ensures
        turns_text(seq![t]) == turn_text(t),
        ts.len() > 0 ==> turns_text(ts.push(t)) == turns_text(ts) + seq!['\n', '\n'] + turn_text(t),
        t matches Turn::User { text } ==> turn_text(t) == "─── You ───\n"@ + text@,
        t matches Turn::Assistant { text, tool_calls, streaming } ==> tool_calls@.len() == 0
            && streaming ==> turn_text(t) == "─── Agent (streaming…) ───\n"@ + text@,
        t matches Turn::Assistant { text, tool_calls, streaming } ==> tool_calls@.len() == 0
            && !streaming ==> turn_text(t) == "─── Agent ───\n"@ + text@,
{
    reveal_strlit("\n\n");
    assert("\n\n"@ =~= seq!['\n', '\n']);
    assert(seq![t].drop_last() =~= Seq::<Turn>::empty());
    assert(turns_text(Seq::<Turn>::empty()) =~= Seq::<char>::empty());
    assert(turns_text(seq![t]) =~= turn_text(t));
    if ts.len() > 0 {
        lemma_turn_is_not_empty(ts.last());
        assert(turns_text(ts).len() >= turn_text(ts.last()).len());
        assert(ts.push(t).drop_last() =~= ts);
    }
    if let Turn::Assistant { text, tool_calls, streaming } = t {
        if tool_calls@.len() == 0 {
            let head = if streaming {
                "─── Agent (streaming…) ───\n"@
            } else {
                "─── Agent ───\n"@
            };
            assert(tools_text(tool_calls@) =~= Seq::<char>::empty());
            assert(head + text@ + Seq::<char>::empty() =~= head + text@);
        }
    }
}

proof fn lemma_turn_is_not_empty(t: Turn)
    ensures
        turn_text(t).len() > 0,
{
    reveal_strlit("─── You ───\n");
    reveal_strlit("─── Agent (streaming…) ───\n");
    reveal_strlit("─── Agent ───\n");
    assert("─── You ───\n"@.len() > 0);
    assert("─── Agent (streaming…) ───\n"@.len() > 0);
    assert("─── Agent ───\n"@.len() > 0);
}

/// A file up to the cap may be read, and one beyond it may not; the refusal names
/// the file, its size and the cap.
pub proof fn law_large_files_are_not_read(path: &str, len: u64, cap: u64, r: Result<(), String>)
    requires
        read_allowed(path, len, cap, r),
    ensures
        len <= cap ==> r is Ok,
        len > cap ==> r is Err && r->Err_0@ == path@ + ": "@ + digits(len as nat)
            + " bytes > cap "@ + digits(cap as nat),
{
}

/// As much as the cap may be written, and no more; the refusal names the file,
/// the size and the cap.
pub proof fn law_large_writes_are_refused(path: &str, len: u64, cap: u64, r: Result<(), String>)
    requires
        write_allowed(path, len, cap, r),
    ensures
        len <= cap ==> r is Ok,
        len > cap ==> r is Err && r->Err_0@ == path@ + ": write payload "@ + digits(len as nat)
            + " bytes > cap "@ + digits(cap as nat),
{
}

/// An option of a kind that has no letter is shown under its number.
pub proof fn law_other_options_are_numbered(kind: Seq<char>, i: int)
    requires
        kind != "allow_once"@,
        kind != "allow_always"@,
        kind != "reject_once"@,
        kind != "reject_always"@,
    ensures
        i == 0 ==> option_key(kind, i) == "1"@,
        i == 1 ==> option_key(kind, i) == "2"@,
        i == 2 ==> option_key(kind, i) == "3"@,
        i == 3 ==> option_key(kind, i) == "4"@,
{
}

/// What goes into a draft as it is: text with something in it, and no control
/// character but the tab.
pub proof fn law_controls_are_not_typed(s: Seq<char>, i: int)
    ensures
        s.len() == 0 ==> !printable(s),
        0 <= i < s.len() && s[i] == '\x1b' ==> !printable(s),
        0 <= i < s.len() && s[i] == '\r' ==> !printable(s),
        s == seq!['\t'] ==> printable(s),
{
}

} // verus!
