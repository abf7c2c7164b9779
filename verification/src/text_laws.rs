//! What the library does with text: lines, numbers, white space, names.

use crate::text::{
    agent_name, digits, first_of, found_in, lines, padded, trimmed, trimmed_end, trimmed_start,
    uppercase, white,
};
use vstd::prelude::*;

verus! {

/// The number that decimal digits stand for.
pub open spec fn number(s: Seq<char>) -> int
    decreases s.len(),
{
    if s.len() == 0 {
        0
    } else {
        number(s.drop_last()) * 10 + (s.last() as int - 48)
    }
}

/// A number reads back from its digits, which are nothing but digits, and start
/// with none that could be left out.
pub proof fn law_number_reads_back(n: nat, i: int)
    ensures
        number(digits(n)) == n,
        digits(n).len() > 0,
        0 <= i < digits(n).len() ==> '0' <= digits(n)[i] <= '9',
        n > 0 ==> digits(n)[0] != '0',
    decreases n,
{
    if n < 10 {
        reveal_with_fuel(number, 2);
        assert(digits(n).drop_last() =~= Seq::<char>::empty());
    } else {
        law_number_reads_back(n / 10, i);
        law_number_reads_back(n / 10, 0);
        assert(digits(n).drop_last() =~= digits(n / 10));
    }
}

/// The first place of a character is where it stands and nowhere before.
pub proof fn law_first_place(s: Seq<char>, c: char)
    ensures
        0 <= first_of(s, c) <= s.len(),
        first_of(s, c) < s.len() ==> s[first_of(s, c)] == c,
        forall|i: int| 0 <= i < first_of(s, c) ==> #[trigger] s[i] != c,
    decreases s.len(),
{
    if s.len() > 0 && s[0] != c {
        let rest = s.drop_first();
        law_first_place(rest, c);
        assert forall|i: int| 0 <= i < first_of(s, c) implies #[trigger] s[i] != c by {
            if i > 0 {
                assert(rest[i - 1] != c);
            }
        }
    }
}

/// Lines joined again, with a line break behind each.
pub open spec fn rejoined(ls: Seq<Seq<char>>) -> Seq<char>
    decreases ls.len(),
{
    if ls.len() == 0 {
        Seq::empty()
    } else {
        ls[0] + seq!['\n'] + rejoined(ls.drop_first())
    }
}

/// No line holds a line break, and joined again the lines of a text are the
/// text, where it has no carriage returns; a line break at its end is the only
/// thing that the lines do not tell.
pub proof fn law_lines_make_the_text(s: Seq<char>, i: int, j: int)
    requires
        forall|k: int| 0 <= k < s.len() ==> #[trigger] s[k] != '\r',
    ensures
        0 <= i < lines(s).len() && 0 <= j < lines(s)[i].len() ==> lines(s)[i][j] != '\n',
        s.len() > 0 && s.last() == '\n' ==> rejoined(lines(s)) == s,
        s.len() > 0 && s.last() != '\n' ==> rejoined(lines(s)) == s + seq!['\n'],
        s.len() == 0 ==> lines(s).len() == 0,
    decreases s.len(),
{
    if s.len() > 0 {
        law_first_place(s, '\n');
        let n = first_of(s, '\n');
        if n < s.len() {
            let rest = s.skip(n + 1);
            let head = s.take(n);
            assert forall|k: int| 0 <= k < rest.len() implies #[trigger] rest[k] != '\r' by {
                assert(s[n + 1 + k] != '\r');
            }
            if head.len() > 0 {
                assert(head.last() == s[n - 1]);
            }
            assert(crate::text::strip_cr(head) == head);
            law_lines_make_the_text(rest, i - 1, j);
            let ls = lines(s);
            assert(ls[0] == head);
            assert(ls.drop_first() =~= lines(rest));
            if 0 < i < ls.len() {
                assert(ls[i] == lines(rest)[i - 1]);
            }
            if 0 == i && 0 <= j < head.len() {
                assert(head[j] == s[j]);
            }
            if rest.len() > 0 {
                assert(rest.last() == s.last());
                assert(head + seq!['\n'] + rest =~= s);
                assert(head + seq!['\n'] + (rest + seq!['\n']) =~= s + seq!['\n']);
            } else {
                assert(n == s.len() - 1);
                assert(rejoined(lines(rest)) =~= Seq::<char>::empty());
                assert(head + seq!['\n'] + Seq::<char>::empty() =~= s);
            }
        } else {
            assert(s.last() == s[s.len() - 1]);
            assert(lines(s) == seq![s]);
            assert(lines(s).drop_first() =~= Seq::<Seq<char>>::empty());
            assert(rejoined(lines(s).drop_first()) =~= Seq::<char>::empty());
            assert(rejoined(lines(s)) =~= s + seq!['\n']);
            if i == 0 && 0 <= j < s.len() {
                assert(s[j] != '\n');
            }
        }
    }
}

proof fn lemma_start(s: Seq<char>)
    ensures
        ({
            let t = trimmed_start(s);
            let n = s.len() - t.len();
            &&& n >= 0
            &&& t == s.skip(n)
            &&& t.len() > 0 ==> !white(t[0])
            &&& forall|i: int| 0 <= i < n ==> white(#[trigger] s[i])
        }),
    decreases s.len(),
{
    if s.len() > 0 && white(s[0]) {
        let rest = s.drop_first();
        lemma_start(rest);
        let t = trimmed_start(s);
        let n = s.len() - t.len();
        assert(s.skip(n) =~= rest.skip(n - 1));
        assert forall|i: int| 0 <= i < n implies white(#[trigger] s[i]) by {
            if i > 0 {
                assert(rest[i - 1] == s[i]);
            }
        }
    } else {
        assert(s.skip(0) =~= s);
    }
}

proof fn lemma_end(s: Seq<char>)
    ensures
        ({
            let t = trimmed_end(s);
            &&& t.len() <= s.len()
            &&& t == s.take(t.len() as int)
            &&& t.len() > 0 ==> !white(t.last())
            &&& forall|i: int| t.len() <= i < s.len() ==> white(#[trigger] s[i])
        }),
    decreases s.len(),
{
    if s.len() > 0 && white(s.last()) {
        let rest = s.drop_last();
        lemma_end(rest);
        let t = trimmed_end(s);
        assert(s.take(t.len() as int) =~= rest.take(t.len() as int));
        assert forall|i: int| t.len() <= i < s.len() implies white(#[trigger] s[i]) by {
            if i < rest.len() {
                assert(rest[i] == s[i]);
            }
        }
    } else {
        assert(s.take(s.len() as int) =~= s);
    }
}

/// What is left of a text without the white space around it starts and ends in
/// something else, stands in the text as it is, and has nothing but white space
/// before it and behind it.
pub proof fn law_white_space_around_goes(s: Seq<char>) -> (at: int)
    ensures
        ({
            let t = trimmed(s);
            &&& 0 <= at <= s.len() - t.len()
            &&& s.subrange(at, at + t.len()) == t
            &&& t.len() > 0 ==> !white(t[0]) && !white(t.last())
            &&& forall|i: int| 0 <= i < at ==> white(#[trigger] s[i])
            &&& forall|i: int| at + t.len() <= i < s.len() ==> white(#[trigger] s[i])
        }),
{
    let u = trimmed_start(s);
    let t = trimmed(s);
    lemma_start(s);
    lemma_end(u);
    let at = s.len() - u.len();
    assert(s.subrange(at, at + t.len()) =~= t);
    assert forall|i: int| at + t.len() <= i < s.len() implies white(#[trigger] s[i]) by {
        assert(u[i - at] == s[i]);
    }
    if t.len() > 0 {
        assert(t[0] == u[0]);
    }
    at
}

/// A space, a tab and a line break are white; a letter, a digit and a mark are
/// not.
pub proof fn law_white_is_what_separates(c: char)
    ensures
        c == ' ' || c == '\t' || c == '\n' || c == '\r' ==> white(c),
        'a' <= c <= 'z' || 'A' <= c <= 'Z' || '0' <= c <= '9' || c == '-' || c == '_' || c == '.'
            ==> !white(c),
{
}

/// A name that is padded stands first, with spaces up to the width; one that is
/// wider stays as it is.
pub proof fn law_padding_fills_up(s: Seq<char>, width: nat, i: int)
    ensures
        s.len() <= width ==> padded(s, width).len() == width,
        s.len() > width ==> padded(s, width) == s,
        0 <= i < s.len() ==> padded(s, width)[i] == s[i],
        s.len() <= i < width ==> padded(s, width)[i] == ' ',
{
    if s.len() > width {
        assert(padded(s, width) =~= s);
    }
}

/// The name of an agent is what stands before the first hyphen of its slug, with
/// a capital; a slug that starts with a hyphen is its own name.
pub proof fn law_agent_is_named_after_its_slug(base: Seq<char>, rest: Seq<char>)
    requires
        forall|i: int| 0 <= i < base.len() ==> #[trigger] base[i] != '-',
    ensures
        base.len() > 0 ==> agent_name(base + seq!['-'] + rest) == uppercase(base[0])
            + base.drop_first(),
        base.len() > 0 ==> agent_name(base) == uppercase(base[0]) + base.drop_first(),
        base.len() == 0 ==> agent_name(base + seq!['-'] + rest) == seq!['-'] + rest,
{
    let slug = base + seq!['-'] + rest;
    law_first_place(slug, '-');
    law_first_place(base, '-');
    let n = base.len() as int;
    assert(slug[n] == '-');
    assert(first_of(slug, '-') == n) by {
        let k = first_of(slug, '-');
        if k > n {
            assert(slug[n] != '-');
        } else if k < n {
            assert(slug[k] == base[k]);
        }
    }
    assert(slug.take(n) =~= base);
    assert(first_of(base, '-') == n) by {
        let k = first_of(base, '-');
        if k < n {
            assert(base[k] == '-');
        }
    }
    assert(base.take(n) =~= base);
    if n == 0 {
        assert(slug =~= seq!['-'] + rest);
        assert(slug.take(0).len() == 0);
    }
}

/// A text is found where it stands, and everything holds the empty text.
pub proof fn law_text_is_found(a: Seq<char>, p: Seq<char>, b: Seq<char>)
    ensures
        found_in(a + p + b, p),
        found_in(a, Seq::empty()),
        found_in(a, p) ==> p.len() <= a.len(),
{
    let s = a + p + b;
    assert(s.subrange(a.len() as int, (a.len() + p.len()) as int) =~= p);
    assert(crate::text::found_at(s, p, a.len() as int));
    assert(a.subrange(0, 0) =~= Seq::<char>::empty());
    assert(crate::text::found_at(a, Seq::<char>::empty(), 0));
}

} // verus!
