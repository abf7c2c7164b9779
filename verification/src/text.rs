//! Text: the string operations that the rest of the library is built on.

use vstd::prelude::*;
use vstd::utf8::{decode_utf8, valid_utf8};

verus! {

/// `String::push`: appends one character.
pub assume_specification[ String::push ](s: &mut String, c: char)
    ensures
        final(s)@ == old(s)@.push(c),
;

/// `String::pop`: takes the last character off and hands it back; `None`, and
/// nothing changed, on an empty string.
pub assume_specification[ String::pop ](s: &mut String) -> (r: Option<char>)
    ensures
        old(s)@.len() == 0 ==> r is None && final(s)@ == old(s)@,
        old(s)@.len() > 0 ==> r == Some(old(s)@.last()) && final(s)@ == old(s)@.drop_last(),
;

/// The characters of `s` as a vector.
pub fn chars_of(s: &str) -> (v: Vec<char>)
    ensures
        v@ == s@,
{
    let mut v: Vec<char> = Vec::new();
    for c in it: s.chars()
        invariant
            it.seq() == s@,
            v@ == s@.take(it.index() as int),
    {
        v.push(c);
        assert(v@ =~= s@.take(it.index() as int + 1));
    }
    assert(s@.take(s@.len() as int) =~= s@);
    v
}

/// Whether two texts have the same characters.
pub(crate) fn same_text(a: &str, b: &str) -> (r: bool)
    ensures
        r == (a@ == b@),
{
    let v = chars_of(a);
    let w = chars_of(b);
    if v.len() != w.len() {
        return false;
    }
    let mut i: usize = 0;
    while i < v.len()
        invariant
            v@ == a@,
            w@ == b@,
            i <= v@.len(),
            v@.len() == w@.len(),
            forall|k: int| 0 <= k < i ==> v@[k] == w@[k],
        decreases v.len() - i,
    {
        if v[i] != w[i] {
            assert(v@[i as int] != w@[i as int]);
            return false;
        }
        i = i + 1;
    }
    assert(v@ =~= w@);
    true
}

/// The string with the characters `v`.
pub fn text_of(v: &Vec<char>) -> (s: String)
    ensures
        s@ == v@,
{
    let mut s = String::new();
    let mut i: usize = 0;
    while i < v.len()
        invariant
            i <= v.len(),
            s@ == v@.take(i as int),
        decreases v.len() - i,
    {
        s.push(v[i]);
        i = i + 1;
        assert(s@ =~= v@.take(i as int));
    }
    assert(v@.take(v@.len() as int) =~= v@);
    s
}

/// The upper-case form of one character, as Unicode maps it.
pub uninterp spec fn uppercase(c: char) -> Seq<char>;

/// The capital that goes with one of the letters from `a` to `z`.
pub open spec fn capital(c: char) -> char {
    (c as int - 32) as char
}

/// `char::to_uppercase`, collected: the result is a function of the character
/// alone, and is named rather than spelled out. A letter from `a` to `z` gives
/// the capital from `A` to `Z` that goes with it.
#[verifier::external_body]
fn upper(c: char) -> (s: String)
    ensures
        s@ == uppercase(c),
        'a' <= c <= 'z' ==> s@ == seq![capital(c)],
{
    c.to_uppercase().collect()
}

/// The position of the first `c` in `s`; the length of `s` where there is none.
pub open spec fn first_of(s: Seq<char>, c: char) -> int
    decreases s.len(),
{
    if s.len() == 0 || s[0] == c {
        0
    } else {
        1 + first_of(s.drop_first(), c)
    }
}

/// The cosmetic name that goes with a slug: what stands before its first `-`,
/// with the first character in upper case; the slug itself where nothing does.
pub open spec fn agent_name(slug: Seq<char>) -> Seq<char> {
    let base = slug.take(first_of(slug, '-'));
    if base.len() == 0 {
        slug
    } else {
        uppercase(base[0]) + base.drop_first()
    }
}

/// Cosmetic display name from a slug: `codex-1` gives `Codex`.
pub fn agent_name_from_slug(slug: &str) -> (name: String)
    ensures
        name@ == agent_name(slug@),
        slug@.len() > 0 && 'a' <= slug@[0] <= 'z' ==> name@ == slug@.take(
            first_of(slug@, '-'),
        ).update(0, capital(slug@[0])),
{
    let v = chars_of(slug);
    let mut n: usize = 0;
    assert(slug@.skip(0) =~= slug@);
    while n < v.len() && v[n] != '-'
        invariant
            n <= v@.len(),
            v@ == slug@,
            first_of(slug@, '-') == n + first_of(slug@.skip(n as int), '-'),
        decreases v.len() - n,
    {
        assert(slug@.skip(n as int).drop_first() =~= slug@.skip(n + 1));
        n = n + 1;
    }
    let ghost base = slug@.take(n as int);
    assert(first_of(slug@.skip(n as int), '-') == 0);
    if n == 0 {
        return slug.to_owned();
    }
    let mut name = upper(v[0]);
    let ghost first = name@;
    let mut i: usize = 1;
    while i < n
        invariant
            1 <= i <= n <= v@.len(),
            v@ == slug@,
            name@ == first + slug@.subrange(1, i as int),
        decreases n - i,
    {
        name.push(v[i]);
        i = i + 1;
        assert(name@ =~= first + slug@.subrange(1, i as int));
    }
    assert(base.drop_first() =~= slug@.subrange(1, n as int));
    assert(first == seq![capital(slug@[0])] ==> name@ =~= base.update(0, capital(slug@[0])));
    name
}

/// What a line ends up as: without the carriage return that stood before its
/// line feed.
pub open spec fn strip_cr(line: Seq<char>) -> Seq<char> {
    if line.len() > 0 && line.last() == '\r' {
        line.drop_last()
    } else {
        line
    }
}

/// The lines of a text: what stands between line feeds, a carriage return
/// before one left out. A line feed at the very end ends the last line, it
/// opens no other.
pub open spec fn lines(s: Seq<char>) -> Seq<Seq<char>>
    decreases s.len(),
{
    if s.len() == 0 {
        Seq::empty()
    } else {
        let n = first_of(s, '\n');
        if 0 <= n < s.len() {
            seq![strip_cr(s.take(n))] + lines(s.skip(n + 1))
        } else {
            seq![s]
        }
    }
}

/// The strings of `v`, each as its characters.
pub open spec fn views(v: Seq<String>) -> Seq<Seq<char>> {
    v.map_values(|s: String| s@)
}

/// `first_of` gives a position with nothing but other characters before it.
pub proof fn lemma_first_of(s: Seq<char>, c: char, n: int)
    requires
        0 <= n <= s.len(),
        forall|i: int| 0 <= i < n ==> s[i] != c,
        n < s.len() ==> s[n] == c,
    ensures
        first_of(s, c) == n,
    decreases n,
{
    if n > 0 {
        let rest = s.drop_first();
        assert(s[0] != c);
        assert forall|i: int| 0 <= i < n - 1 implies rest[i] != c by {
            assert(rest[i] == s[i + 1]);
        }
        lemma_first_of(rest, c, n - 1);
    }
}

/// The string with the characters of `v` from `from` up to `to`.
pub fn text_between(v: &Vec<char>, from: usize, to: usize) -> (s: String)
    requires
        from <= to <= v@.len(),
    ensures
        s@ == v@.subrange(from as int, to as int),
{
    let mut s = String::new();
    let mut i: usize = from;
    while i < to
        invariant
            from <= i <= to <= v@.len(),
            s@ == v@.subrange(from as int, i as int),
        decreases to - i,
    {
        s.push(v[i]);
        i = i + 1;
        assert(s@ =~= v@.subrange(from as int, i as int));
    }
    s
}

/// The lines of a text.
pub fn lines_of(text: &str) -> (out: Vec<String>)
    ensures
        views(out@) == lines(text@),
{
    let v = chars_of(text);
    let mut out: Vec<String> = Vec::new();
    let mut at: usize = 0;
    assert(v@.skip(0) =~= v@);
    assert(views(out@) + lines(v@) =~= lines(v@));
    while at < v.len()
        invariant
            v@ == text@,
            at <= v@.len(),
            views(out@) + lines(v@.skip(at as int)) == lines(text@),
        decreases v.len() - at,
    {
        let ghost rest = v@.skip(at as int);
        let ghost had = views(out@);
        let mut end: usize = at;
        while end < v.len() && v[end] != '\n'
            invariant
                at <= end <= v@.len(),
                forall|i: int| at <= i < end ==> v@[i] != '\n',
            decreases v.len() - end,
        {
            end = end + 1;
        }
        proof {
            assert forall|i: int| 0 <= i < end - at implies rest[i] != '\n' by {
                assert(rest[i] == v@[at + i]);
            }
            lemma_first_of(rest, '\n', end - at);
        }
        if end < v.len() {
            let ghost body = rest.take(end - at);
            let stop = if end > at && v[end - 1] == '\r' {
                end - 1
            } else {
                end
            };
            let line = text_between(&v, at, stop);
            proof {
                assert(body =~= v@.subrange(at as int, end as int));
                assert(line@ =~= strip_cr(body));
                assert(rest.skip(end - at + 1) =~= v@.skip(end + 1));
            }
            out.push(line);
            at = end + 1;
            proof {
                assert(views(out@) =~= had + seq![strip_cr(body)]);
                assert(views(out@) + lines(v@.skip(at as int)) =~= had + lines(rest));
            }
        } else {
            let line = text_between(&v, at, end);
            assert(line@ =~= rest);
            out.push(line);
            at = end;
            proof {
                assert(views(out@) =~= had + seq![rest]);
                assert(v@.skip(at as int) =~= Seq::<char>::empty());
                assert(views(out@) + lines(v@.skip(at as int)) =~= had + lines(rest));
            }
        }
    }
    proof {
        assert(v@.skip(at as int) =~= Seq::<char>::empty());
        assert(views(out@) + lines(v@.skip(at as int)) =~= views(out@));
    }
    out
}

/// The lower-case form of a text, as Unicode maps it.
pub uninterp spec fn lowercase(s: Seq<char>) -> Seq<char>;

/// `str::to_lowercase`: the result is a function of the text alone, and is
/// named rather than spelled out; nothing comes of nothing.
#[verifier::external_body]
pub(crate) fn lower(s: &str) -> (r: String)
    ensures
        r@ == lowercase(s@),
        s@.len() == 0 ==> r@.len() == 0,
{
    s.to_lowercase()
}

/// `p` stands in `s` from position `i` on.
pub open spec fn found_at(s: Seq<char>, p: Seq<char>, i: int) -> bool {
    0 <= i <= s.len() - p.len() && s.subrange(i, i + p.len()) == p
}

/// `p` stands somewhere in `s`.
pub open spec fn found_in(s: Seq<char>, p: Seq<char>) -> bool {
    exists|i: int| found_at(s, p, i)
}

/// Whether `p` stands in `s` from position `at` on.
fn matches_at(s: &Vec<char>, p: &Vec<char>, at: usize) -> (r: bool)
    ensures
        r == found_at(s@, p@, at as int),
{
    if s.len() < p.len() || at > s.len() - p.len() {
        return false;
    }
    let mut k: usize = 0;
    while k < p.len()
        invariant
            at + p.len() <= s.len(),
            k <= p.len(),
            forall|j: int| 0 <= j < k ==> s@[at + j] == p@[j],
        decreases p.len() - k,
    {
        if s[at + k] != p[k] {
            assert(s@.subrange(at as int, at + p@.len())[k as int] != p@[k as int]);
            return false;
        }
        k = k + 1;
    }
    assert(s@.subrange(at as int, at + p@.len()) =~= p@);
    true
}

/// Whether `p` stands somewhere in `s`.
pub fn contains(s: &str, p: &str) -> (r: bool)
    ensures
        r == found_in(s@, p@),
{
    let v = chars_of(s);
    let w = chars_of(p);
    let mut i: usize = 0;
    if v.len() < w.len() {
        return false;
    }
    let last = v.len() - w.len();
    loop
        invariant
            v@ == s@,
            w@ == p@,
            last == v@.len() - w@.len(),
            i <= last,
            forall|k: int| 0 <= k < i ==> !found_at(s@, p@, k),
        decreases last - i,
    {
        if matches_at(&v, &w, i) {
            return true;
        }
        if i == last {
            return false;
        }
        i = i + 1;
    }
}

/// `s` begins with `p`.
pub open spec fn begins_with(s: Seq<char>, p: Seq<char>) -> bool {
    found_at(s, p, 0)
}

/// Whether `s` begins with `p`.
pub fn has_prefix(s: &str, p: &str) -> (r: bool)
    ensures
        r == begins_with(s@, p@),
{
    let v = chars_of(s);
    let w = chars_of(p);
    matches_at(&v, &w, 0)
}

/// The decimal digits of `n`, as characters.
pub open spec fn digits(n: nat) -> Seq<char>
    decreases n,
{
    if n < 10 {
        seq![digit(n)]
    } else {
        digits(n / 10).push(digit(n % 10))
    }
}

/// A decimal digit as a character.
pub open spec fn digit(d: nat) -> char {
    (48 + d) as char
}

/// Append the decimal digits of `n`.
pub fn push_number(s: &mut String, n: u64)
    ensures
        final(s)@ == old(s)@ + digits(n as nat),
    decreases n,
{
    let ghost start = s@;
    if n >= 10 {
        push_number(s, n / 10);
    }
    s.push((48 + (n % 10) as u8) as char);
    assert(s@ =~= start + digits(n as nat));
}

/// `n` spaces.
pub open spec fn spaces(n: nat) -> Seq<char> {
    Seq::new(n, |i: int| ' ')
}

/// `s`, filled up with spaces to `width` characters.
pub open spec fn padded(s: Seq<char>, width: nat) -> Seq<char> {
    s + spaces(if s.len() < width {
        (width - s.len()) as nat
    } else {
        0
    })
}

/// `s`, filled up with spaces to `width` characters.
pub fn pad(s: &str, width: usize) -> (r: String)
    ensures
        r@ == padded(s@, width as nat),
{
    let mut r = s.to_owned();
    let n = s.unicode_len();
    let mut k: usize = n;
    while k < width
        invariant
            n == s@.len(),
            n <= k,
            n <= width ==> k <= width,
            n > width ==> k == n,
            r@ == s@ + spaces((k - n) as nat),
        decreases width - k,
    {
        r.push(' ');
        k = k + 1;
        assert(r@ =~= s@ + spaces((k - n) as nat));
    }
    r
}

/// The characters of a text that may be missing.
pub open spec fn opt_text(o: Option<String>) -> Option<Seq<char>> {
    match o {
        Some(s) => Some(s@),
        None => None,
    }
}

/// White space, as Unicode has it.
pub open spec fn white(c: char) -> bool {
    ||| '\u{9}' <= c <= '\u{d}'
    ||| c == ' ' || c == '\u{85}' || c == '\u{a0}' || c == '\u{1680}'
    ||| '\u{2000}' <= c <= '\u{200a}'
    ||| c == '\u{2028}' || c == '\u{2029}' || c == '\u{202f}' || c == '\u{205f}'
    ||| c == '\u{3000}'
}

/// Whether `c` is white space.
pub fn is_white(c: char) -> (r: bool)
    ensures
        r == white(c),
{
    ('\u{9}' <= c && c <= '\u{d}') || c == ' ' || c == '\u{85}' || c == '\u{a0}' || c
        == '\u{1680}' || ('\u{2000}' <= c && c <= '\u{200a}') || c == '\u{2028}' || c
        == '\u{2029}' || c == '\u{202f}' || c == '\u{205f}' || c == '\u{3000}'
}

/// `s` without the white space at its start.
pub open spec fn trimmed_start(s: Seq<char>) -> Seq<char>
    decreases s.len(),
{
    if s.len() > 0 && white(s[0]) {
        trimmed_start(s.drop_first())
    } else {
        s
    }
}

/// `s` without the white space at its end.
pub open spec fn trimmed_end(s: Seq<char>) -> Seq<char>
    decreases s.len(),
{
    if s.len() > 0 && white(s.last()) {
        trimmed_end(s.drop_last())
    } else {
        s
    }
}

/// `s` without the white space around it.
pub open spec fn trimmed(s: Seq<char>) -> Seq<char> {
    trimmed_end(trimmed_start(s))
}

/// Nothing but white space.
pub open spec fn blank(s: Seq<char>) -> bool {
    forall|i: int| 0 <= i < s.len() ==> white(#[trigger] s[i])
}

/// A string is blank exactly when nothing is left of it without the white
/// space around it.
pub proof fn law_blank_trims_away(s: Seq<char>)
    ensures
        blank(s) <==> trimmed(s).len() == 0,
{
    lemma_trimmed_start(s);
    lemma_trimmed_end(trimmed_start(s));
}

proof fn lemma_trimmed_start(s: Seq<char>)
    ensures
        blank(s) <==> trimmed_start(s).len() == 0,
        trimmed_start(s).len() > 0 ==> !blank(trimmed_start(s)),
    decreases s.len(),
{
    if s.len() > 0 && white(s[0]) {
        let rest = s.drop_first();
        lemma_trimmed_start(rest);
        if blank(rest) {
            assert forall|i: int| 0 <= i < s.len() implies white(#[trigger] s[i]) by {
                if i > 0 {
                    assert(s[i] == rest[i - 1]);
                }
            }
        } else {
            let k = choose|k: int| 0 <= k < rest.len() && !white(#[trigger] rest[k]);
            assert(!white(s[k + 1]));
        }
    } else if s.len() > 0 {
        assert(!white(s[0]));
    }
}

proof fn lemma_trimmed_end(s: Seq<char>)
    ensures
        blank(s) <==> trimmed_end(s).len() == 0,
    decreases s.len(),
{
    if s.len() > 0 && white(s.last()) {
        let rest = s.drop_last();
        lemma_trimmed_end(rest);
        if blank(rest) {
            assert forall|i: int| 0 <= i < s.len() implies white(#[trigger] s[i]) by {
                if i < s.len() - 1 {
                    assert(s[i] == rest[i]);
                }
            }
        } else {
            let k = choose|k: int| 0 <= k < rest.len() && !white(#[trigger] rest[k]);
            assert(!white(s[k]));
        }
    } else if s.len() > 0 {
        assert(!white(s[s.len() - 1]));
    }
}

/// Whether `s` is nothing but white space.
pub fn is_blank(s: &str) -> (r: bool)
    ensures
        r == blank(s@),
{
    for c in it: s.chars()
        invariant
            it.seq() == s@,
            forall|i: int| 0 <= i < it.index() ==> white(#[trigger] s@[i]),
    {
        if !is_white(c) {
            assert(!white(s@[it.index() as int]));
            return false;
        }
    }
    true
}

/// `s` without the white space around it.
pub fn trim(s: &str) -> (r: String)
    ensures
        r@ == trimmed(s@),
{
    let v = chars_of(s);
    let mut a: usize = 0;
    assert(s@.skip(0) =~= s@);
    while a < v.len() && is_white(v[a])
        invariant
            a <= v@.len(),
            v@ == s@,
            trimmed_start(s@) == trimmed_start(s@.skip(a as int)),
        decreases v.len() - a,
    {
        assert(s@.skip(a as int).drop_first() =~= s@.skip(a + 1));
        a = a + 1;
    }
    let ghost t = s@.skip(a as int);
    assert(trimmed_start(s@) == t);
    let mut b: usize = v.len();
    assert(t.take(b - a) =~= t);
    while b > a && is_white(v[b - 1])
        invariant
            a <= b <= v@.len(),
            v@ == s@,
            t == s@.skip(a as int),
            trimmed_end(t) == trimmed_end(t.take(b - a)),
        decreases b,
    {
        assert(t.take(b - a).drop_last() =~= t.take(b - a - 1));
        b = b - 1;
    }
    assert(v@.subrange(a as int, b as int) =~= t.take(b - a));
    text_between(&v, a, b)
}

/// A control code.
pub open spec fn control(c: char) -> bool {
    c <= '\u{1f}' || '\u{7f}' <= c <= '\u{9f}'
}

/// Whether `c` is a control code.
pub fn is_control(c: char) -> (r: bool)
    ensures
        r == control(c),
{
    c <= '\u{1f}' || ('\u{7f}' <= c && c <= '\u{9f}')
}

/// `str::from_utf8`: the text that bytes encode, where they are well-formed
/// UTF-8; `None` where they are not.
#[verifier::external_body]
pub(crate) fn decoded(bytes: &Vec<u8>) -> (r: Option<String>)
    ensures
        r is Some <==> valid_utf8(bytes@),
        r matches Some(s) ==> s@ == decode_utf8(bytes@),
{
    std::str::from_utf8(bytes).ok().map(|s| s.to_owned())
}

/// A text in quotes, with what is not printable escaped.
pub uninterp spec fn quoted_text(s: Seq<char>) -> Seq<char>;

/// The `Debug` form of `str`, as `format!` writes it: the result is a function
/// of the characters alone, and is named rather than spelled out.
#[verifier::external_body]
pub(crate) fn quoted(s: &str) -> (r: String)
    ensures
        r@ == quoted_text(s@),
{
    format!("{s:?}")
}

} // verus!
