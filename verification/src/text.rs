//! Text as sequences of characters: whitespace, lines, words, decimal numbers.
use vstd::prelude::*;

verus! {

/// `String::push`: the character joins the end of the text.
pub assume_specification[ String::push ](s: &mut String, c: char)
    ensures
        final(s)@ == old(s)@.push(c),
;

/// The characters of the Unicode `White_Space` property.
pub open spec fn is_white(c: char) -> bool {
    let n = c as u32;
    ||| 9 <= n <= 13
    ||| n == 0x20
    ||| n == 0x85
    ||| n == 0xA0
    ||| n == 0x1680
    ||| 0x2000 <= n <= 0x200A
    ||| n == 0x2028
    ||| n == 0x2029
    ||| n == 0x202F
    ||| n == 0x205F
    ||| n == 0x3000
}

/// Whether `c` is a whitespace character.
pub fn white(c: char) -> (r: bool)
    ensures
        r == is_white(c),
{
    let n: u32 = c as u32;
    (9 <= n && n <= 13) || n == 0x20 || n == 0x85 || n == 0xA0 || n == 0x1680 || (0x2000 <= n && n
        <= 0x200A) || n == 0x2028 || n == 0x2029 || n == 0x202F || n == 0x205F || n == 0x3000
}

/// The predicate that splits text at line feeds.
pub open spec fn at_newline() -> spec_fn(char) -> bool {
    |c: char| c == '\n'
}

/// The predicate that splits text at whitespace.
pub open spec fn at_white() -> spec_fn(char) -> bool {
    |c: char| is_white(c)
}

/// The pieces of `s` between the elements that `cut` picks. `n` cuts leave
/// `n + 1` pieces, some of them empty.
pub open spec fn pieces<T>(s: Seq<T>, cut: spec_fn(T) -> bool) -> Seq<Seq<T>>
    decreases s.len(),
{
    if s.len() == 0 {
        seq![Seq::empty()]
    } else {
        let before = pieces(s.drop_last(), cut);
        if cut(s.last()) {
            before.push(Seq::empty())
        } else {
            before.update(before.len() - 1, before.last().push(s.last()))
        }
    }
}

/// The maximal runs of elements that `gap` does not pick.
pub open spec fn words<T>(s: Seq<T>, gap: spec_fn(T) -> bool) -> Seq<Seq<T>>
    decreases s.len(),
{
    if s.len() == 0 {
        Seq::empty()
    } else {
        let before = words(s.drop_last(), gap);
        if gap(s.last()) {
            before
        } else if s.len() >= 2 && !gap(s[s.len() - 2]) {
            before.update(before.len() - 1, before.last().push(s.last()))
        } else {
            before.push(seq![s.last()])
        }
    }
}

/// Cutting always leaves at least one piece.
pub proof fn lemma_pieces_nonempty<T>(s: Seq<T>, cut: spec_fn(T) -> bool)
    ensures
        pieces(s, cut).len() >= 1,
    decreases s.len(),
{
    if s.len() > 0 {
        lemma_pieces_nonempty(s.drop_last(), cut);
    }
}

/// A sequence that ends inside a word has a word, and the words are nonempty.
pub proof fn lemma_words_nonempty<T>(s: Seq<T>, gap: spec_fn(T) -> bool)
    ensures
        s.len() > 0 && !gap(s.last()) ==> words(s, gap).len() >= 1,
        forall|i: int|
            0 <= i < words(s, gap).len() ==> (#[trigger] words(s, gap)[i]).len() >= 1,
    decreases s.len(),
{
    if s.len() > 0 {
        lemma_words_nonempty(s.drop_last(), gap);
        if s.len() >= 2 {
            assert(s.drop_last().last() == s[s.len() - 2]);
        }
        let before = words(s.drop_last(), gap);
        assert forall|i: int| 0 <= i < words(s, gap).len() implies (#[trigger] words(
            s,
            gap,
        )[i]).len() >= 1 by {
            if i < before.len() {
                assert(before[i].len() >= 1);
            }
        }
    }
}

/// The characters of `s`.
pub fn chars_of(s: &str) -> (v: Vec<char>)
    ensures
        v@ == s@,
{
    let mut v: Vec<char> = Vec::new();
    for c in it: s.chars()
        invariant
            v@ == it.seq().take(it.index() as int),
            it.seq() == s@,
    {
        v.push(c);
        assert(v@ =~= it.seq().take(it.index() as int + 1));
    }
    assert(v@ =~= s@);
    v
}

/// The text made of `v`'s characters.
pub fn text_of(v: &Vec<char>) -> (s: String)
    ensures
        s@ == v@,
{
    let mut s = String::new();
    let mut i: usize = 0;
    while i < v.len()
        invariant
            i <= v.len(),
            s@ == v@.take(i as int),
        decreases v.len() - i,
    {
        s.push(v[i]);
        i = i + 1;
        assert(v@.take(i as int) =~= v@.take(i - 1).push(v@[i - 1]));
    }
    assert(v@.take(i as int) =~= v@);
    s
}

/// The text of `v[from..to]`.
pub fn text_between(v: &Vec<char>, from: usize, to: usize) -> (s: String)
    requires
        from <= to <= v@.len(),
    ensures
        s@ == v@.subrange(from as int, to as int),
{
    let mut s = String::new();
    let mut i: usize = from;
    while i < to
        invariant
            from <= i <= to <= v@.len(),
            s@ == v@.subrange(from as int, i as int),
        decreases to - i,
    {
        s.push(v[i]);
        i = i + 1;
        assert(v@.subrange(from as int, i as int) =~= v@.subrange(from as int, i - 1).push(
            v@[i - 1],
        ));
    }
    s
}

/// The decimal digit of `d`, for `d` under ten.
pub open spec fn digit(d: nat) -> char {
    (48 + d) as char
}

/// `n` in decimal, without leading zeros.
pub open spec fn decimal(n: nat) -> Seq<char>
    decreases n,
{
    if n < 10 {
        seq![digit(n)]
    } else {
        decimal(n / 10).push(digit(n % 10))
    }
}

/// Appends `n` in decimal.
pub fn push_decimal(s: &mut String, n: u64)
    ensures
        final(s)@ == old(s)@ + decimal(n as nat),
    decreases n,
{
    if n >= 10 {
        push_decimal(s, n / 10);
    }
    let d: u8 = (n % 10) as u8;
    s.push((48u8 + d) as char);
    assert(s@ =~= old(s)@ + decimal(n as nat));
}

/// Appends `t`.
pub fn push_text(s: &mut String, t: &str)
    ensures
        final(s)@ == old(s)@ + t@,
{
    s.append(t);
}

/// `s` without leading whitespace.
pub open spec fn trim_start(s: Seq<char>) -> Seq<char>
    decreases s.len(),
{
    if s.len() > 0 && is_white(s[0]) {
        trim_start(s.skip(1))
    } else {
        s
    }
}

/// `s` without trailing whitespace.
pub open spec fn trim_end(s: Seq<char>) -> Seq<char>
    decreases s.len(),
{
    if s.len() > 0 && is_white(s.last()) {
        trim_end(s.drop_last())
    } else {
        s
    }
}

/// `s` without leading and trailing whitespace.
pub open spec fn trim(s: Seq<char>) -> Seq<char> {
    trim_end(trim_start(s))
}

/// Whether `s` holds nothing but whitespace.
pub open spec fn is_blank(s: Seq<char>) -> bool {
    forall|i: int| 0 <= i < s.len() ==> is_white(#[trigger] s[i])
}

/// Whether `s` is empty or all whitespace.
pub fn blank(s: &str) -> (r: bool)
    ensures
        r == is_blank(s@),
{
    let v = chars_of(s);
    let mut i: usize = 0;
    while i < v.len()
        invariant
            i <= v@.len(),
            v@ == s@,
            forall|j: int| 0 <= j < i ==> is_white(#[trigger] s@[j]),
        decreases v.len() - i,
    {
        if !white(v[i]) {
            assert(!is_white(s@[i as int]));
            return false;
        }
        i = i + 1;
    }
    true
}

/// What `trim_start` leaves: the suffix from the first non-whitespace on.
proof fn lemma_trim_start(s: Seq<char>, k: int)
    requires
        0 <= k <= s.len(),
        forall|j: int| 0 <= j < k ==> is_white(#[trigger] s[j]),
        k < s.len() ==> !is_white(s[k]),
    ensures
        trim_start(s) == s.skip(k),
    decreases k,
{
    if k > 0 {
        assert(is_white(s[0]));
        let t = s.skip(1);
        assert forall|j: int| 0 <= j < k - 1 implies is_white(#[trigger] t[j]) by {
            assert(t[j] == s[j + 1]);
        }
        lemma_trim_start(t, k - 1);
        assert(t.skip(k - 1) =~= s.skip(k));
    } else {
        assert(s.skip(0) =~= s);
    }
}

/// What `trim_end` leaves: the prefix up to the last non-whitespace.
proof fn lemma_trim_end(s: Seq<char>, k: int)
    requires
        0 <= k <= s.len(),
        forall|j: int| k <= j < s.len() ==> is_white(#[trigger] s[j]),
        k > 0 ==> !is_white(s[k - 1]),
    ensures
        trim_end(s) == s.take(k),
    decreases s.len() - k,
{
    if k < s.len() {
        assert(is_white(s[s.len() - 1]));
        lemma_trim_end(s.drop_last(), k);
        assert(s.drop_last().take(k) =~= s.take(k));
    } else {
        assert(s.take(k) =~= s);
    }
}

/// `s` trimmed of whitespace at both ends.
pub fn trimmed(s: &str) -> (r: String)
    ensures
        r@ == trim(s@),
{
    let v = chars_of(s);
    let mut a: usize = 0;
    while a < v.len() && white(v[a])
        invariant
            a <= v@.len(),
            v@ == s@,
            forall|j: int| 0 <= j < a ==> is_white(#[trigger] s@[j]),
        decreases v.len() - a,
    {
        a = a + 1;
    }
    proof {
        lemma_trim_start(s@, a as int);
    }
    let ghost t = s@.skip(a as int);
    let mut b: usize = v.len();
    while b > a && white(v[b - 1])
        invariant
            a <= b <= v@.len(),
            v@ == s@,
            t == s@.skip(a as int),
            forall|j: int| b - a <= j < t.len() ==> is_white(#[trigger] t[j]),
        decreases b,
    {
        b = b - 1;
        assert(t[b - a] == s@[b as int]);
    }
    proof {
        if b > a {
            assert(t[b - a - 1] == s@[b - 1]);
        }
        lemma_trim_end(t, b - a);
        assert(t.take(b - a) =~= s@.subrange(a as int, b as int));
    }
    text_between(&v, a, b)
}

/// `s` without a carriage return at its end.
pub open spec fn strip_return(s: Seq<char>) -> Seq<char> {
    if s.len() > 0 && s.last() == '\r' {
        s.drop_last()
    } else {
        s
    }
}

/// The lines of `s`: what stands between line feeds, a carriage return before
/// a line feed dropped with it, an empty last piece no line.
pub open spec fn lines(s: Seq<char>) -> Seq<Seq<char>> {
    let parts = pieces(s, at_newline());
    Seq::new(
        if parts.last().len() == 0 {
            (parts.len() - 1) as nat
        } else {
            parts.len()
        },
        |i: int|
            if i < parts.len() - 1 {
                strip_return(parts[i])
            } else {
                parts[i]
            },
    )
}

/// The texts of `v`.
pub open spec fn texts(v: Seq<String>) -> Seq<Seq<char>> {
    Seq::new(v.len(), |i: int| v[i]@)
}

/// `texts` of one more.
pub proof fn lemma_texts_push(v: Seq<String>, s: String)
    ensures
        texts(v.push(s)) == texts(v).push(s@),
{
    assert(texts(v.push(s)) =~= texts(v).push(s@));
}

/// Cuts `s` at the line feeds.
fn newline_pieces(s: &str) -> (r: Vec<Vec<char>>)
    ensures
        r@.len() == pieces(s@, at_newline()).len(),
        forall|i: int| 0 <= i < r@.len() ==> (#[trigger] r@[i])@ == pieces(s@, at_newline())[i],
{
    let v = chars_of(s);
    let mut r: Vec<Vec<char>> = Vec::new();
    let mut cur: Vec<char> = Vec::new();
    let mut i: usize = 0;
    while i < v.len()
        invariant
            i <= v@.len(),
            v@ == s@,
            ({
                let done = pieces(v@.take(i as int), at_newline());
                &&& r@.len() == done.len() - 1
                &&& cur@ == done.last()
                &&& forall|j: int| 0 <= j < r@.len() ==> (#[trigger] r@[j])@ == done[j]
            }),
        decreases v.len() - i,
    {
        let c = v[i];
        proof {
            assert(v@.take(i + 1).drop_last() =~= v@.take(i as int));
            assert(v@.take(i + 1).last() == c);
        }
        if c == '\n' {
            r.push(cur);
            cur = Vec::new();
        } else {
            cur.push(c);
        }
        i = i + 1;
    }
    assert(v@.take(i as int) =~= s@);
    r.push(cur);
    r
}

/// The lines of `s`, as `str::lines` yields them.
pub fn lines_of(s: &str) -> (r: Vec<String>)
    ensures
        texts(r@) == lines(s@),
{
    let parts = newline_pieces(s);
    proof {
        lemma_pieces_nonempty(s@, at_newline());
    }
    let ghost all = pieces(s@, at_newline());
    let mut r: Vec<String> = Vec::new();
    let n: usize = if parts[parts.len() - 1].len() == 0 {
        parts.len() - 1
    } else {
        parts.len()
    };
    let mut i: usize = 0;
    while i < n
        invariant
            i <= n <= parts@.len(),
            parts@.len() == all.len(),
            all == pieces(s@, at_newline()),
            n == lines(s@).len(),
            forall|j: int| 0 <= j < all.len() ==> (#[trigger] parts@[j])@ == all[j],
            texts(r@) == lines(s@).take(i as int),
        decreases n - i,
    {
        let p = &parts[i];
        let line = if i + 1 < parts.len() && p.len() > 0 && p[p.len() - 1] == '\r' {
            assert(p@.subrange(0, p@.len() - 1) =~= p@.drop_last());
            text_between(p, 0, p.len() - 1)
        } else {
            text_of(p)
        };
        assert(line@ == lines(s@)[i as int]);
        proof {
            lemma_texts_push(r@, line);
            assert(lines(s@).take(i + 1) =~= lines(s@).take(i as int).push(line@));
        }
        r.push(line);
        i = i + 1;
    }
    assert(lines(s@).take(i as int) =~= lines(s@));
    r
}

/// `parts` with `sep` between each two.
pub open spec fn join(parts: Seq<Seq<char>>, sep: Seq<char>) -> Seq<char>
    decreases parts.len(),
{
    if parts.len() == 0 {
        Seq::empty()
    } else if parts.len() == 1 {
        parts[0]
    } else {
        join(parts.drop_last(), sep) + sep + parts.last()
    }
}

/// `s` on one line: its words with one space between each two.
pub open spec fn one_line(s: Seq<char>) -> Seq<char> {
    join(words(s, at_white()), seq![' '])
}

/// Collapses every run of whitespace to one space and trims both ends, so the
/// text fits a one-line label.
pub fn single_line(s: &str) -> (r: String)
    ensures
        r@ == one_line(s@),
{
    let v = chars_of(s);
    let mut r = String::new();
    let mut i: usize = 0;
    let mut inside = false;
    let mut any = false;
    proof {
        assert(words(v@.take(0), at_white()) =~= Seq::<Seq<char>>::empty());
    }
    while i < v.len()
        invariant
            i <= v@.len(),
            v@ == s@,
            r@ == one_line(v@.take(i as int)),
            inside == (i > 0 && !is_white(v@[i - 1])),
            any == (words(v@.take(i as int), at_white()).len() > 0),
        decreases v.len() - i,
    {
        let c = v[i];
        let ghost t = v@.take(i as int);
        let ghost u = v@.take(i + 1);
        let ghost before = words(t, at_white());
        proof {
            assert(u.drop_last() =~= t);
            assert(u.last() == c);
            if i > 0 {
                assert(u[u.len() - 2] == v@[i - 1]);
                assert(t.last() == v@[i - 1]);
            }
            lemma_words_nonempty(t, at_white());
            lemma_words_nonempty(u, at_white());
        }
        if white(c) {
            inside = false;
        } else {
            if !inside && any {
                r.push(' ');
            }
            r.push(c);
            proof {
                let after = words(u, at_white());
                if inside {
                    assert(after == before.update(before.len() - 1, before.last().push(c)));
                    assert(after.drop_last() =~= before.drop_last());
                    assert(r@ =~= join(after, seq![' ']));
                } else {
                    assert(after == before.push(seq![c]));
                    assert(after.drop_last() =~= before);
                    assert(r@ =~= join(after, seq![' ']));
                }
            }
            inside = true;
            any = true;
        }
        i = i + 1;
    }
    assert(v@.take(i as int) =~= s@);
    r
}

/// A word behind a gap, or at the start, is one more word.
pub proof fn lemma_words_extend<T>(s: Seq<T>, w: Seq<T>, gap: spec_fn(T) -> bool)
    requires
        w.len() > 0,
        s.len() > 0 ==> gap(s.last()),
        forall|i: int| 0 <= i < w.len() ==> !gap(#[trigger] w[i]),
    ensures
        words(s + w, gap) == words(s, gap).push(w),
    decreases w.len(),
{
    let before = words(s, gap);
    let v = w.drop_last();
    assert((s + w).drop_last() =~= s + v);
    assert((s + w).last() == w.last());
    assert(!gap(w[w.len() - 1]));
    if v.len() == 0 {
        assert(s + v =~= s);
        assert(w =~= seq![w.last()]);
        if s.len() > 0 {
            assert((s + w)[(s + w).len() - 2] == s.last());
        }
    } else {
        assert forall|i: int| 0 <= i < v.len() implies !gap(#[trigger] v[i]) by {
            assert(v[i] == w[i]);
        }
        lemma_words_extend(s, v, gap);
        assert((s + w)[(s + w).len() - 2] == w[w.len() - 2]);
        assert(v.push(w.last()) =~= w);
        let mid = before.push(v);
        assert(mid.update(mid.len() - 1, mid.last().push(w.last())) =~= before.push(w));
    }
}

/// A word: characters, none of them white.
pub open spec fn is_word(w: Seq<char>) -> bool {
    w.len() > 0 && forall|i: int| 0 <= i < w.len() ==> !is_white(#[trigger] w[i])
}

proof fn lemma_words_are_words(s: Seq<char>)
    ensures
        forall|i: int|
            0 <= i < words(s, at_white()).len() ==> is_word(#[trigger] words(s, at_white())[i]),
    decreases s.len(),
{
    if s.len() > 0 {
        lemma_words_are_words(s.drop_last());
        lemma_words_nonempty(s.drop_last(), at_white());
        if s.len() >= 2 {
            assert(s.drop_last().last() == s[s.len() - 2]);
        }
        let before = words(s.drop_last(), at_white());
        assert forall|i: int| 0 <= i < words(s, at_white()).len() implies is_word(
            #[trigger] words(s, at_white())[i],
        ) by {
            if i < before.len() {
                assert(is_word(before[i]));
            }
        }
    }
}

proof fn lemma_words_of_join(ws: Seq<Seq<char>>)
    requires
        forall|i: int| 0 <= i < ws.len() ==> is_word(#[trigger] ws[i]),
    ensures
        words(join(ws, seq![' ']), at_white()) == ws,
    decreases ws.len(),
{
    let sep = seq![' '];
    if ws.len() == 0 {
        assert(words(join(ws, sep), at_white()) =~= ws);
    } else if ws.len() == 1 {
        assert(is_word(ws[0]));
        let none: Seq<char> = Seq::empty();
        lemma_words_extend(none, ws[0], at_white());
        assert(none + ws[0] =~= ws[0]);
        assert(words(none, at_white()).push(ws[0]) =~= ws);
    } else {
        let init = ws.drop_last();
        assert forall|i: int| 0 <= i < init.len() implies is_word(#[trigger] init[i]) by {
            assert(init[i] == ws[i]);
        }
        lemma_words_of_join(init);
        let head = join(init, sep) + sep;
        assert(head.drop_last() =~= join(init, sep));
        assert(head.last() == ' ');
        assert(is_word(ws[ws.len() - 1]));
        lemma_words_extend(head, ws.last(), at_white());
        assert(join(ws, sep) =~= head + ws.last());
        assert(init.push(ws.last()) =~= ws);
    }
}

proof fn lemma_join_white(ws: Seq<Seq<char>>)
    requires
        forall|i: int| 0 <= i < ws.len() ==> is_word(#[trigger] ws[i]),
    ensures
        forall|i: int|
            0 <= i < join(ws, seq![' ']).len() && is_white(#[trigger] join(ws, seq![' '])[i])
                ==> join(ws, seq![' '])[i] == ' ',
    decreases ws.len(),
{
    if ws.len() == 1 {
        assert(is_word(ws[0]));
    } else if ws.len() > 1 {
        let init = ws.drop_last();
        assert forall|i: int| 0 <= i < init.len() implies is_word(#[trigger] init[i]) by {
            assert(init[i] == ws[i]);
        }
        lemma_join_white(init);
        let a = join(init, seq![' ']);
        let all = join(ws, seq![' ']);
        assert(is_word(ws[ws.len() - 1]));
        assert forall|i: int| 0 <= i < all.len() && is_white(#[trigger] all[i]) implies all[i]
            == ' ' by {
            if i < a.len() {
                assert(all[i] == a[i]);
            } else if i > a.len() {
                assert(all[i] == ws.last()[i - a.len() - 1]);
            }
        }
    }
}

/// A text on one line holds no line break and no other white character than
/// the space, keeps its words, and stays as it is when it is put on one line
/// again.
pub proof fn law_one_line(s: Seq<char>)
    ensures
        forall|i: int|
            0 <= i < one_line(s).len() && is_white(#[trigger] one_line(s)[i]) ==> one_line(s)[i]
                == ' ',
        words(one_line(s), at_white()) == words(s, at_white()),
        one_line(one_line(s)) == one_line(s),
{
    lemma_words_are_words(s);
    lemma_words_of_join(words(s, at_white()));
    lemma_join_white(words(s, at_white()));
}

} // verus!
