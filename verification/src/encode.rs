//! Byte sequences that go to a terminal: mouse reports, pastes, wheel steps,
//! focus reports.

use crate::text::{chars_of, text_of};
use vstd::prelude::*;
use vstd::utf8::encode_utf8;

verus! {

/// A mouse button.
#[derive(Copy, Clone, PartialEq, Eq, Structural, Debug)]
pub enum MouseButton {
    Left,
    Right,
    Middle,
    Other,
}

/// The modifier keys that are held.
#[derive(Copy, Clone, PartialEq, Eq, Structural, Debug)]
pub struct Modifiers {
    pub shift: bool,
    pub alt: bool,
    pub control: bool,
    pub command: bool,
}

/// What the foreground application asked its terminal for.
#[derive(Copy, Clone, PartialEq, Eq, Structural, Debug)]
pub struct ModeFlags {
    pub mouse_report_click: bool,
    pub mouse_drag: bool,
    pub mouse_motion: bool,
    pub sgr_mouse: bool,
    pub alt_screen: bool,
    pub app_cursor: bool,
    pub bracketed_paste: bool,
    pub focus_in_out: bool,
}

impl ModeFlags {
    /// The application wants to hear of the mouse.
    pub open spec fn reports_mouse(self) -> bool {
        self.mouse_report_click || self.mouse_drag || self.mouse_motion
    }

    pub fn mouse_active(&self) -> (r: bool)
        ensures
            r == self.reports_mouse(),
    {
        self.mouse_report_click || self.mouse_drag || self.mouse_motion
    }
}

/// What kind of mouse event is reported. The button is needed for press and
/// release; motion and wheel use a synthetic encoding.
#[derive(Copy, Clone, PartialEq, Eq, Structural, Debug)]
pub enum MouseEvent {
    Press(MouseButton),
    Release(MouseButton),
    Motion,
    WheelUp,
    WheelDown,
}

/// The number of a button in a report; `None` for one that is not reported.
pub open spec fn button_number(button: MouseButton) -> Option<u32> {
    match button {
        MouseButton::Left => Some(0),
        MouseButton::Middle => Some(1),
        MouseButton::Right => Some(2),
        MouseButton::Other => None,
    }
}

pub fn button_code(button: MouseButton) -> (r: Option<u32>)
    ensures
        r == button_number(button),
{
    match button {
        MouseButton::Left => Some(0),
        MouseButton::Middle => Some(1),
        MouseButton::Right => Some(2),
        MouseButton::Other => None,
    }
}

/// The decimal digits of `n`, as ASCII bytes.
pub open spec fn dec(n: nat) -> Seq<u8>
    decreases n,
{
    if n < 10 {
        seq![(48 + n) as u8]
    } else {
        dec(n / 10).push((48 + n % 10) as u8)
    }
}

/// The number that decimal digits stand for.
pub open spec fn undec(s: Seq<u8>) -> nat
    decreases s.len(),
{
    if s.len() == 0 {
        0
    } else {
        undec(s.drop_last()) * 10 + ((s.last() - 48) as nat)
    }
}

/// A number reads back from its decimal digits.
pub proof fn law_dec_reads_back(n: nat)
    ensures
        undec(dec(n)) == n,
    decreases n,
{
    if n < 10 {
        reveal_with_fuel(undec, 2);
        assert(dec(n).drop_last() =~= Seq::<u8>::empty());
    } else {
        law_dec_reads_back(n / 10);
        assert(dec(n).drop_last() =~= dec(n / 10));
    }
}

/// Append the decimal digits of `n`.
pub fn push_dec(out: &mut Vec<u8>, n: u64)
    ensures
        final(out)@ == old(out)@ + dec(n as nat),
    decreases n,
{
    let ghost start = out@;
    if n >= 10 {
        push_dec(out, n / 10);
    }
    out.push(48 + (n % 10) as u8);
    assert(out@ =~= start + dec(n as nat));
}

/// The button field of a report.
pub open spec fn report_button(event: MouseEvent, mods: Modifiers) -> Option<int> {
    let base: Option<u32> = match event {
        MouseEvent::Press(b) => button_number(b),
        MouseEvent::Release(b) => button_number(b),
        MouseEvent::Motion => Some(32),
        MouseEvent::WheelUp => Some(64),
        MouseEvent::WheelDown => Some(65),
    };
    match base {
        Some(n) => Some(
            n + (if mods.shift {
                4int
            } else {
                0
            }) + (if mods.alt {
                8int
            } else {
                0
            }) + (if mods.control {
                16int
            } else {
                0
            }),
        ),
        None => None,
    }
}

/// A coordinate in the old report format, which cannot go beyond 223.
pub open spec fn x10_coordinate(v: u32) -> u8 {
    if v < 223 {
        (v + 32) as u8
    } else {
        255
    }
}

/// A report in the SGR format: `ESC [ < button ; col ; row`, then `M` for a
/// press and `m` for a release.
pub open spec fn sgr_report(btn: nat, release: bool, col: nat, row: nat) -> Seq<u8> {
    seq![27u8, 91u8, 60u8] + dec(btn) + seq![59u8] + dec(col) + seq![59u8] + dec(row) + seq![
        if release {
            109u8
        } else {
            77u8
        },
    ]
}

/// A report in the X10 format: `ESC [ M`, then one byte each for button, column
/// and row. A release does not say which button it was.
pub open spec fn x10_report(btn: int, release: bool, col: u32, row: u32) -> Seq<u8> {
    seq![
        27u8,
        91u8,
        77u8,
        if release {
            35u8
        } else {
            (btn + 32) as u8
        },
        x10_coordinate(col),
        x10_coordinate(row),
    ]
}

/// The bytes of a mouse report; `None` where nothing is reported.
pub open spec fn mouse_report(
    mode: ModeFlags,
    event: MouseEvent,
    mods: Modifiers,
    col: u32,
    row: u32,
) -> Option<Seq<u8>> {
    if !mode.reports_mouse() {
        None
    } else {
        match report_button(event, mods) {
            None => None,
            Some(btn) => if mode.sgr_mouse {
                Some(sgr_report(btn as nat, event is Release, col as nat, row as nat))
            } else {
                Some(x10_report(btn, event is Release, col, row))
            },
        }
    }
}

/// Encode a mouse event in the format the foreground application has asked
/// for: the SGR format where it can, the X10 format otherwise. Modifiers add
/// the standard shift, alt and control bits. `None` if reporting isn't enabled.
pub fn encode_mouse_report(
    mode: &ModeFlags,
    event: MouseEvent,
    modifiers: Modifiers,
    col: u32,
    row: u32,
) -> (r: Option<Vec<u8>>)
    ensures
        match r {
            Some(v) => Some(v@) == mouse_report(*mode, event, modifiers, col, row),
            None => mouse_report(*mode, event, modifiers, col, row) is None,
        },
{
    if !mode.mouse_active() {
        return None;
    }
    let (base, is_release): (Option<u32>, bool) = match event {
        MouseEvent::Press(b) => (button_code(b), false),
        MouseEvent::Release(b) => (button_code(b), true),
        MouseEvent::Motion => (Some(32), false),
        MouseEvent::WheelUp => (Some(64), false),
        MouseEvent::WheelDown => (Some(65), false),
    };
    let mut btn: u32 = match base {
        Some(n) => n,
        None => return None,
    };
    if modifiers.shift {
        btn = btn + 4;
    }
    if modifiers.alt {
        btn = btn + 8;
    }
    if modifiers.control {
        btn = btn + 16;
    }
    if mode.sgr_mouse {
        Some(encode_sgr(btn, is_release, col, row))
    } else {
        Some(encode_x10(btn, is_release, col, row))
    }
}

fn encode_sgr(btn: u32, release: bool, col: u32, row: u32) -> (out: Vec<u8>)
    ensures
        out@ == sgr_report(btn as nat, release, col as nat, row as nat),
{
    let mut out: Vec<u8> = Vec::new();
    out.push(27);
    out.push(91);
    out.push(60);
    assert(out@ =~= seq![27u8, 91u8, 60u8]);
    push_dec(&mut out, btn as u64);
    out.push(59);
    push_dec(&mut out, col as u64);
    out.push(59);
    push_dec(&mut out, row as u64);
    out.push(
        if release {
            109
        } else {
            77
        },
    );
    assert(out@ =~= sgr_report(btn as nat, release, col as nat, row as nat));
    out
}

fn encode_x10(btn: u32, release: bool, col: u32, row: u32) -> (out: Vec<u8>)
    requires
        btn <= 93,
    ensures
        out@ == x10_report(btn as int, release, col, row),
{
    let mut out: Vec<u8> = Vec::new();
    out.push(27);
    out.push(91);
    out.push(77);
    out.push(
        if release {
            35
        } else {
            btn as u8 + 32
        },
    );
    out.push(
        if col < 223 {
            col as u8 + 32
        } else {
            255
        },
    );
    out.push(
        if row < 223 {
            row as u8 + 32
        } else {
            255
        },
    );
    assert(out@ =~= x10_report(btn as int, release, col, row));
    out
}

/// The most arrow keys that one wheel event turns into.
pub const WHEEL_STEPS: usize = 100;

/// `n` arrow keys: up or down, in application or in normal cursor mode.
pub open spec fn arrows(up: bool, app_cursor: bool, n: nat) -> Seq<u8>
    decreases n,
{
    if n == 0 {
        Seq::empty()
    } else {
        arrows(up, app_cursor, (n - 1) as nat) + seq![
            27u8,
            if app_cursor {
                79u8
            } else {
                91u8
            },
            if up {
                65u8
            } else {
                66u8
            },
        ]
    }
}

/// The arrow keys that stand for `lines` wheel lines in an application that
/// has its own screen; `None` where there are none to send.
pub fn wheel_arrows(up: bool, app_cursor: bool, lines: usize) -> (r: Option<Vec<u8>>)
    ensures
        r is None <==> lines == 0,
        r matches Some(v) ==> v@ == arrows(
            up,
            app_cursor,
            if lines < WHEEL_STEPS {
                lines as nat
            } else {
                WHEEL_STEPS as nat
            },
        ),
{
    if lines == 0 {
        return None;
    }
    let count = if lines < WHEEL_STEPS {
        lines
    } else {
        WHEEL_STEPS
    };
    let mut out: Vec<u8> = Vec::new();
    let mut i: usize = 0;
    while i < count
        invariant
            i <= count,
            out@ == arrows(up, app_cursor, i as nat),
        decreases count - i,
    {
        let ghost before = out@;
        out.push(27);
        out.push(
            if app_cursor {
                79
            } else {
                91
            },
        );
        out.push(
            if up {
                65
            } else {
                66
            },
        );
        i = i + 1;
        assert(out@ =~= arrows(up, app_cursor, i as nat));
    }
    Some(out)
}

/// The report of a focus change.
pub fn focus_report(focused: bool) -> (out: Vec<u8>)
    ensures
        out@ == seq![
            27u8,
            91u8,
            if focused {
                73u8
            } else {
                79u8
            },
        ],
{
    let mut out: Vec<u8> = Vec::new();
    out.push(27);
    out.push(91);
    out.push(
        if focused {
            73
        } else {
            79
        },
    );
    assert(out@ =~= seq![
        27u8,
        91u8,
        if focused {
            73u8
        } else {
            79u8
        },
    ]);
    out
}

/// What opens a bracketed paste.
pub open spec fn paste_start() -> Seq<char> {
    seq!['\x1b', '[', '2', '0', '0', '~']
}

/// What ends a bracketed paste.
pub open spec fn paste_end() -> Seq<char> {
    seq!['\x1b', '[', '2', '0', '1', '~']
}

/// `s` holds an end mark from position `i` on.
pub open spec fn end_at(s: Seq<char>, i: int) -> bool {
    &&& 0 <= i <= s.len() - 6
    &&& s[i] == '\x1b'
    &&& s[i + 1] == '['
    &&& s[i + 2] == '2'
    &&& s[i + 3] == '0'
    &&& s[i + 4] == '1'
    &&& s[i + 5] == '~'
}

/// `s` without end marks. It is read from left to right, and a mark goes as
/// soon as it is complete, so that what stood on both sides of one cannot close
/// up into another.
pub open spec fn stripped(s: Seq<char>) -> Seq<char>
    decreases s.len(),
{
    if s.len() == 0 {
        Seq::empty()
    } else {
        let out = stripped(s.drop_last()).push(s.last());
        if end_at(out, out.len() - 6) {
            out.take(out.len() - 6)
        } else {
            out
        }
    }
}

/// The bytes that a paste of `text` writes.
pub open spec fn pasted(text: Seq<char>, bracketed: bool) -> Seq<u8> {
    if bracketed {
        encode_utf8(paste_start()) + encode_utf8(stripped(text)) + encode_utf8(paste_end())
    } else {
        encode_utf8(text)
    }
}

fn ends_paste(v: &Vec<char>) -> (r: bool)
    ensures
        r == end_at(v@, v@.len() - 6),
{
    let n = v.len();
    n >= 6 && v[n - 6] == '\x1b' && v[n - 5] == '[' && v[n - 4] == '2' && v[n - 3] == '0' && v[n - 2]
        == '1' && v[n - 1] == '~'
}

/// The text without end marks: however they were split or nested, none is
/// left, and a text that holds none stays as it is.
pub fn strip_paste_end(text: &str) -> (out: String)
    ensures
        out@ == stripped(text@),
        forall|i: int| !end_at(out@, i),
        (forall|i: int| !end_at(text@, i)) ==> out@ == text@,
{
    let v = chars_of(text);
    let mut kept: Vec<char> = Vec::new();
    let mut i: usize = 0;
    while i < v.len()
        invariant
            v@ == text@,
            i <= v@.len(),
            kept@ == stripped(v@.take(i as int)),
        decreases v.len() - i,
    {
        assert(v@.take(i + 1).drop_last() =~= v@.take(i as int));
        kept.push(v[i]);
        if ends_paste(&kept) {
            let n = kept.len();
            kept.truncate(n - 6);
        }
        i = i + 1;
    }
    assert(v@.take(i as int) =~= v@);
    proof {
        lemma_stripped_clean(text@);
        if forall|i: int| !end_at(text@, i) {
            law_clean_paste_is_unchanged(text@);
        }
    }
    text_of(&kept)
}

pub proof fn lemma_stripped_clean(s: Seq<char>)
    ensures
        forall|i: int| !end_at(stripped(s), i),
    decreases s.len(),
{
    if s.len() > 0 {
        let before = stripped(s.drop_last());
        lemma_stripped_clean(s.drop_last());
        let out = before.push(s.last());
        assert forall|i: int| !end_at(stripped(s), i) by {
            if end_at(stripped(s), i) {
                if i + 6 <= before.len() {
                    assert(end_at(before, i));
                }
            }
        }
    }
}

/// The bytes of a paste. Where the shell takes bracketed pastes the text is
/// framed, so that it counts as one input and not as typed lines, and end
/// marks are taken out of it.
pub fn paste_bytes(text: &str, bracketed: bool) -> (out: Vec<u8>)
    ensures
        out@ == pasted(text@, bracketed),
{
    if !bracketed {
        return text.as_bytes_vec();
    }
    let safe = strip_paste_end(text);
    proof {
        reveal_strlit("\x1b[200~");
        reveal_strlit("\x1b[201~");
        assert("\x1b[200~"@ =~= paste_start());
        assert("\x1b[201~"@ =~= paste_end());
    }
    let mut out = "\x1b[200~".as_bytes_vec();
    let mut body = safe.as_str().as_bytes_vec();
    let mut end = "\x1b[201~".as_bytes_vec();
    out.append(&mut body);
    out.append(&mut end);
    assert(out@ =~= pasted(text@, bracketed));
    out
}

/// A text that holds no end mark is pasted as it is.
pub proof fn law_clean_paste_is_unchanged(text: Seq<char>)
    requires
        forall|i: int| !end_at(text, i),
    ensures
        stripped(text) == text,
    decreases text.len(),
{
    if text.len() > 0 {
        let rest = text.drop_last();
        assert forall|i: int| !end_at(rest, i) by {
            assert(!end_at(text, i));
        }
        law_clean_paste_is_unchanged(rest);
        assert(rest.push(text.last()) =~= text);
        assert(!end_at(text, text.len() - 6));
    }
}

/// The framing is safe, whatever is pasted: the frame holds exactly one end
/// mark, and it is where the frame ends.
pub proof fn law_paste_frame_is_safe(text: Seq<char>, i: int)
    ensures
        end_at(paste_start() + stripped(text) + paste_end(), i) <==> i == 6 + stripped(text).len(),
{
    let body = stripped(text);
    lemma_stripped_clean(text);
    let f = paste_start() + body + paste_end();
    let n = 6 + body.len() as int;
    assert forall|k: int| 0 <= k < 6 implies f[k] == paste_start()[k] by {}
    assert forall|k: int| 6 <= k < n implies f[k] == body[k - 6] by {}
    assert forall|k: int| n <= k < n + 6 implies f[k] == paste_end()[k - n] by {}
    if end_at(f, i) {
        if 6 <= i && i + 6 <= n {
            assert(end_at(body, i - 6));
        }
    }
}

} // verus!
