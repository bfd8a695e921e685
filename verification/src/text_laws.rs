//! What holds of every text that is cut up or written out.
use vstd::prelude::*;

verus! {

/// Whether a text holds a line feed.
pub open spec fn has_feed(s: Seq<char>) -> bool {
    exists|i: int| 0 <= i < s.len() && #[trigger] s[i] == '\n'
}

/// Lines, each with its ending behind it, one after the other.
pub open spec fn with_ends(lines: Seq<Seq<char>>, ends: Seq<Seq<char>>) -> Seq<char>
    decreases lines.len(),
{
    if lines.len() == 0 {
        Seq::empty()
    } else {
        with_ends(lines.drop_last(), ends.drop_last()) + lines.last() + ends.last()
    }
}

/// Whether a line may end so: in a line feed, with a carriage return before it that
/// is no part of the line; and only the last line, which is not empty, in nothing.
pub open spec fn may_end(line: Seq<char>, end: Seq<char>, last: bool) -> bool {
    ||| end == seq!['\n'] && !(line.len() > 0 && line.last() == '\r')
    ||| end == seq!['\r', '\n']
    ||| last && end.len() == 0 && line.len() > 0
}

/// Whether lines and their endings are what a text is made of.
pub open spec fn makes_up(s: Seq<char>, lines: Seq<Seq<char>>, ends: Seq<Seq<char>>) -> bool {
    &&& ends.len() == lines.len()
    &&& with_ends(lines, ends) == s
    &&& forall|i: int|
        0 <= i < lines.len() ==> !has_feed(#[trigger] lines[i]) && may_end(
            lines[i],
            ends[i],
            i == lines.len() - 1,
        )
}

/// Pieces with a line feed behind each but the last.
spec fn fed(parts: Seq<Seq<char>>) -> Seq<char>
    decreases parts.len(),
{
    if parts.len() == 0 {
        Seq::empty()
    } else if parts.len() == 1 {
        parts[0]
    } else {
        fed(parts.drop_last()).push('\n') + parts.last()
    }
}

proof fn lemma_pieces_fed(s: Seq<char>)
    ensures
        fed(crate::text::pieces(s, crate::text::at_newline())) == s,
        crate::text::pieces(s, crate::text::at_newline()).len() > 0,
        forall|i: int|
            0 <= i < crate::text::pieces(s, crate::text::at_newline()).len() ==> !has_feed(
                #[trigger] crate::text::pieces(s, crate::text::at_newline())[i],
            ),
    decreases s.len(),
{
    let cut = crate::text::at_newline();
    let parts = crate::text::pieces(s, cut);
    if s.len() == 0 {
        assert(fed(parts) =~= s);
    } else {
        let t = s.drop_last();
        let before = crate::text::pieces(t, cut);
        lemma_pieces_fed(t);
        if s.last() == '\n' {
            assert(parts.drop_last() =~= before);
            assert(fed(parts) =~= s);
        } else {
            let n = before.len() - 1;
            assert(parts.drop_last() =~= before.drop_last());
            assert forall|i: int| 0 <= i < parts.len() implies !has_feed(#[trigger] parts[i]) by {
                assert(!has_feed(before[i]));
                if i == n {
                    assert forall|j: int| 0 <= j < parts[i].len() implies #[trigger] parts[i][j]
                        != '\n' by {
                        if j < before[i].len() {
                            assert(parts[i][j] == before[i][j]);
                        }
                    }
                }
            }
            assert(parts.last() =~= before.last().push(s.last()));
            if n == 0 {
                assert(fed(before) == before[0]);
                assert(fed(parts) == parts[0]);
                assert(parts[0] =~= t.push(s.last()));
            } else {
                let head = fed(before.drop_last()).push('\n');
                assert(fed(before) == head + before.last());
                assert(fed(parts) == head + parts.last());
                assert(head + parts.last() =~= t.push(s.last()));
            }
            assert(t.push(s.last()) =~= s);
        }
    }
}

spec fn end_of(parts: Seq<Seq<char>>, i: int) -> Seq<char> {
    if i < parts.len() - 1 {
        if parts[i].len() > 0 && parts[i].last() == '\r' {
            seq!['\r', '\n']
        } else {
            seq!['\n']
        }
    } else {
        Seq::empty()
    }
}

proof fn lemma_with_ends(parts: Seq<Seq<char>>, n: int)
    requires
        0 <= n < parts.len(),
    ensures
        ({
            let lines = Seq::new(n as nat, |i: int| crate::text::strip_return(parts[i]));
            let ends = Seq::new(n as nat, |i: int| end_of(parts, i));
            with_ends(lines, ends) + parts[n] == fed(parts.take(n + 1))
        }),
    decreases n,
{
    let lines = Seq::new(n as nat, |i: int| crate::text::strip_return(parts[i]));
    let ends = Seq::new(n as nat, |i: int| end_of(parts, i));
    if n == 0 {
        assert(with_ends(lines, ends) + parts[n] =~= fed(parts.take(1)));
    } else {
        let before = Seq::new((n - 1) as nat, |i: int| crate::text::strip_return(parts[i]));
        let ended = Seq::new((n - 1) as nat, |i: int| end_of(parts, i));
        lemma_with_ends(parts, n - 1);
        assert(lines.drop_last() =~= before);
        assert(ends.drop_last() =~= ended);
        assert(parts.take(n + 1).drop_last() =~= parts.take(n));
        assert(crate::text::strip_return(parts[n - 1]) + end_of(parts, n - 1) =~= parts[n
            - 1].push('\n'));
        assert(with_ends(lines, ends) + parts[n] =~= fed(parts.take(n + 1)));
    }
}

/// The lines of a text are all of it but their endings: no line holds a line feed,
/// and with their endings put back they are the text again, character for
/// character.
pub proof fn law_lines_make_up_the_text(s: Seq<char>)
    ensures
        exists|ends: Seq<Seq<char>>| makes_up(s, crate::text::lines(s), ends),
{
    let parts = crate::text::pieces(s, crate::text::at_newline());
    let lines = crate::text::lines(s);
    lemma_pieces_fed(s);
    let n = parts.len() - 1;
    lemma_with_ends(parts, n);
    assert(parts.take(n + 1) =~= parts);
    let whole = Seq::new(n as nat, |i: int| crate::text::strip_return(parts[i]));
    let ended = Seq::new(n as nat, |i: int| end_of(parts, i));
    let ends = Seq::new(lines.len(), |i: int| end_of(parts, i));
    if parts.last().len() == 0 {
        assert(lines =~= whole);
        assert(ends =~= ended);
        assert(with_ends(lines, ends) =~= s);
    } else {
        assert(lines.drop_last() =~= whole);
        assert(ends.drop_last() =~= ended);
        assert(with_ends(lines, ends) =~= s);
    }
    assert forall|i: int| 0 <= i < lines.len() implies !has_feed(#[trigger] lines[i]) && may_end(
        lines[i],
        ends[i],
        i == lines.len() - 1,
    ) by {
        assert(!has_feed(parts[i]));
        if has_feed(lines[i]) {
            let j = choose|j: int| 0 <= j < lines[i].len() && #[trigger] lines[i][j] == '\n';
            assert(parts[i][j] == '\n');
        }
        if i < n {
            if parts[i].len() > 0 && parts[i].last() == '\r' {
                assert(ends[i] =~= seq!['\r', '\n']);
            } else {
                assert(lines[i] == parts[i]);
                assert(ends[i] =~= seq!['\n']);
            }
        } else {
            assert(lines[i] == parts[i]);
        }
    }
    assert(makes_up(s, lines, ends));
}

/// The number that digits write.
pub open spec fn number_of(digits: Seq<char>) -> int
    decreases digits.len(),
{
    if digits.len() == 0 {
        0
    } else {
        number_of(digits.drop_last()) * 10 + (digits.last() as int - '0' as int)
    }
}

/// A number is written in digits that give it back, with no zero in front but that
/// of zero itself.
pub proof fn law_digits_write_the_number(n: nat)
    ensures
        number_of(crate::text::decimal(n)) == n,
        crate::text::decimal(n).len() > 0,
        forall|i: int|
            0 <= i < crate::text::decimal(n).len() ==> '0' <= #[trigger] crate::text::decimal(n)[i]
                <= '9',
        n > 0 ==> crate::text::decimal(n)[0] != '0',
    decreases n,
{
    crate::highlights::lemma_decimal_digits(n);
    let d = crate::text::decimal(n);
    if n < 10 {
        assert(d.drop_last() =~= Seq::empty());
        assert(number_of(d.drop_last()) == 0);
    } else {
        law_digits_write_the_number(n / 10);
        assert(d.drop_last() =~= crate::text::decimal(n / 10));
    }
}

/// Trimming takes white characters off both ends and no other: what is left is one
/// stretch of the text, with no white character at either end, and what is gone is
/// white.
pub proof fn law_trimming_takes_only_white_ends(s: Seq<char>)
    ensures
        exists|a: int, b: int|
            0 <= a <= b <= s.len() && crate::text::trim(s) == #[trigger] s.subrange(a, b) && (
            forall|i: int|
                (0 <= i < a || b <= i < s.len()) ==> crate::text::is_white(#[trigger] s[i])),
        crate::text::trim(s).len() > 0 ==> !crate::text::is_white(crate::text::trim(s)[0])
            && !crate::text::is_white(crate::text::trim(s).last()),
{
    let head = crate::text::trim_start(s);
    lemma_trim_start(s);
    lemma_trim_end(head);
    let a = s.len() - head.len();
    let b = a + crate::text::trim(s).len();
    assert(crate::text::trim(s) =~= s.subrange(a, b));
    assert forall|i: int| (0 <= i < a || b <= i < s.len()) implies crate::text::is_white(
        #[trigger] s[i],
    ) by {
        if i >= b {
            assert(head[i - a] == s[i]);
        }
    }
}

/// Trimming the start takes white characters off it, up to the first that is not.
pub proof fn lemma_trim_start(s: Seq<char>)
    ensures
        ({
            let r = crate::text::trim_start(s);
            &&& r.len() <= s.len()
            &&& r == s.skip(s.len() - r.len())
            &&& forall|i: int| 0 <= i < s.len() - r.len() ==> crate::text::is_white(#[trigger] s[i])
            &&& r.len() > 0 ==> !crate::text::is_white(r[0])
        }),
    decreases s.len(),
{
    let r = crate::text::trim_start(s);
    if s.len() > 0 && crate::text::is_white(s[0]) {
        let t = s.skip(1);
        lemma_trim_start(t);
        assert(r =~= s.skip(s.len() - r.len()));
        assert forall|i: int| 0 <= i < s.len() - r.len() implies crate::text::is_white(
            #[trigger] s[i],
        ) by {
            if i > 0 {
                assert(t[i - 1] == s[i]);
            }
        }
    } else {
        assert(r =~= s.skip(0));
    }
}

/// Trimming the end takes white characters off it, up to the last that is not.
pub proof fn lemma_trim_end(s: Seq<char>)
    ensures
        ({
            let r = crate::text::trim_end(s);
            &&& r.len() <= s.len()
            &&& r == s.take(r.len() as int)
            &&& forall|i: int| r.len() <= i < s.len() ==> crate::text::is_white(#[trigger] s[i])
            &&& r.len() > 0 ==> !crate::text::is_white(r.last())
        }),
    decreases s.len(),
{
    let r = crate::text::trim_end(s);
    if s.len() > 0 && crate::text::is_white(s.last()) {
        let t = s.drop_last();
        lemma_trim_end(t);
        assert(r =~= s.take(r.len() as int));
        assert forall|i: int| r.len() <= i < s.len() implies crate::text::is_white(
            #[trigger] s[i],
        ) by {
            if i < t.len() {
                assert(t[i] == s[i]);
            }
        }
    } else {
        assert(r =~= s.take(r.len() as int));
    }
}

/// The white characters are the twenty-five of Unicode's `White_Space`.
pub proof fn law_white_characters_are_those_of_unicode(c: char)
    ensures
        crate::text::is_white(c) <==> seq![
            0x9u32,
            0xa,
            0xb,
            0xc,
            0xd,
            0x20,
            0x85,
            0xa0,
            0x1680,
            0x2000,
            0x2001,
            0x2002,
            0x2003,
            0x2004,
            0x2005,
            0x2006,
            0x2007,
            0x2008,
            0x2009,
            0x200a,
            0x2028,
            0x2029,
            0x202f,
            0x205f,
            0x3000,
        ].contains(c as u32),
{
    let n = c as u32;
    let all = seq![
        0x9u32,
        0xa,
        0xb,
        0xc,
        0xd,
        0x20,
        0x85,
        0xa0,
        0x1680,
        0x2000,
        0x2001,
        0x2002,
        0x2003,
        0x2004,
        0x2005,
        0x2006,
        0x2007,
        0x2008,
        0x2009,
        0x200a,
        0x2028,
        0x2029,
        0x202f,
        0x205f,
        0x3000,
    ];
    if 9 <= n <= 13 {
        assert(all[n - 9] == n);
    } else if 0x2000 <= n <= 0x200a {
        assert(all[n - 0x2000 + 9] == n);
    } else if crate::text::is_white(c) {
        assert(all[5] == 0x20 && all[6] == 0x85 && all[7] == 0xa0 && all[8] == 0x1680);
        assert(all[20] == 0x2028 && all[21] == 0x2029 && all[22] == 0x202f && all[23] == 0x205f
            && all[24] == 0x3000);
    }
}

} // verus!
