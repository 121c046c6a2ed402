//! Character-level text operations that the capture pipeline is built from.

use vstd::prelude::*;

verus! {

/// Appends one character to a string.
///
/// Stands for `String::push`: the string afterwards is the string before with
/// `c` at its end.
#[verifier::external_body]
fn push_char(s: &mut String, c: char)
    ensures
        final(s)@ == old(s)@.push(c),
{
    s.push(c)
}

/// The characters of `s`, in order.
pub fn chars_of(s: &str) -> (v: Vec<char>)
    ensures
        v@ == s@,
{
    let mut v: Vec<char> = Vec::new();
    for c in it: s.chars()
        invariant
            v@ == it.seq().take(it.index()),
            it.seq() == s@,
    {
        v.push(c);
    }
    v
}

/// The string made of the characters of `v`, in order.
pub fn string_of(v: &Vec<char>) -> (s: String)
    ensures
        s@ == v@,
{
    let mut s = String::new();
    let mut i: usize = 0;
    while i < v.len()
        invariant
            i <= v.len(),
            s@ == v@.take(i as int),
        decreases v.len() - i,
    {
        push_char(&mut s, v[i]);
        i += 1;
    }
    s
}

/// Whether `c` is white space: a character that Unicode classes as
/// `White_Space`.
pub open spec fn is_space(c: char) -> bool {
    let n = c as u32;
    ||| 0x09 <= n <= 0x0D
    ||| n == 0x20
    ||| n == 0x85
    ||| n == 0xA0
    ||| n == 0x1680
    ||| 0x2000 <= n <= 0x200A
    ||| n == 0x2028
    ||| n == 0x2029
    ||| n == 0x202F
    ||| n == 0x205F
    ||| n == 0x3000
}

/// Tests `c` for white space.
pub fn space(c: char) -> (r: bool)
    ensures
        r == is_space(c),
{
    let n: u32 = c as u32;
    (0x09 <= n && n <= 0x0D) || n == 0x20 || n == 0x85 || n == 0xA0 || n == 0x1680 || (0x2000 <= n
        && n <= 0x200A) || n == 0x2028 || n == 0x2029 || n == 0x202F || n == 0x205F || n == 0x3000
}

/// `s` without its NUL characters.
pub open spec fn without_nul(s: Seq<char>) -> Seq<char> {
    s.filter(|c: char| c != '\0')
}

/// Removes every NUL character.
pub fn strip_nul(v: &Vec<char>) -> (out: Vec<char>)
    ensures
        out@ == without_nul(v@),
{
    let mut out: Vec<char> = Vec::new();
    let mut i: usize = 0;
    proof {
        reveal(Seq::filter);
    }
    while i < v.len()
        invariant
            i <= v.len(),
            out@ == without_nul(v@.take(i as int)),
        decreases v.len() - i,
    {
        proof {
            reveal(Seq::filter);
            assert(v@.take(i + 1).drop_last() == v@.take(i as int));
        }
        if v[i] != '\0' {
            out.push(v[i]);
        }
        i += 1;
    }
    assert(v@.take(v.len() as int) == v@);
    out
}

/// Number of white-space characters at the front of `s`.
pub open spec fn leading_space(s: Seq<char>) -> nat
    decreases s.len(),
{
    if s.len() > 0 && is_space(s[0]) {
        1 + leading_space(s.skip(1))
    } else {
        0
    }
}

/// Number of white-space characters at the end of `s`.
pub open spec fn trailing_space(s: Seq<char>) -> nat
    decreases s.len(),
{
    if s.len() > 0 && is_space(s.last()) {
        1 + trailing_space(s.drop_last())
    } else {
        0
    }
}

/// `s` without the white space at its front and at its end.
pub open spec fn trimmed(s: Seq<char>) -> Seq<char> {
    let rest = s.skip(leading_space(s) as int);
    rest.take(rest.len() - trailing_space(rest))
}

/// Removes the white space at both ends.
pub fn trim(v: &Vec<char>) -> (out: Vec<char>)
    ensures
        out@ == trimmed(v@),
{
    let mut lo: usize = 0;
    proof {
        assert(v@.skip(0) == v@);
    }
    while lo < v.len() && space(v[lo])
        invariant
            lo <= v.len(),
            leading_space(v@) == lo + leading_space(v@.skip(lo as int)),
        decreases v.len() - lo,
    {
        proof {
            assert(v@.skip(lo as int).skip(1) == v@.skip(lo + 1));
        }
        lo += 1;
    }
    let ghost rest = v@.skip(lo as int);
    let mut hi: usize = v.len();
    proof {
        assert(rest.take(rest.len() as int) == rest);
    }
    while hi > lo && space(v[hi - 1])
        invariant
            lo <= hi <= v.len(),
            rest == v@.skip(lo as int),
            trailing_space(rest) == (v.len() - hi) + trailing_space(rest.take(hi - lo)),
        decreases hi - lo,
    {
        proof {
            assert(rest.take(hi - lo).drop_last() == rest.take(hi - lo - 1));
        }
        hi -= 1;
    }
    let mut out: Vec<char> = Vec::new();
    let mut i: usize = lo;
    while i < hi
        invariant
            lo <= i <= hi <= v.len(),
            out@ == v@.subrange(lo as int, i as int),
        decreases hi - i,
    {
        out.push(v[i]);
        i += 1;
    }
    proof {
        assert(rest.take(rest.len() as int) == rest);
        assert(rest.take(hi - lo) == v@.subrange(lo as int, hi as int));
    }
    out
}

/// The first `width` characters of `s` trimmed, or all of them where there
/// are no more than `width`.
pub open spec fn clipped(s: Seq<char>, width: nat) -> Seq<char> {
    let t = trimmed(s);
    if t.len() > width {
        t.take(width as int)
    } else {
        t
    }
}

/// Trims `v` and cuts it to at most `width` characters.
pub fn truncate(v: &Vec<char>, width: usize) -> (out: Vec<char>)
    ensures
        out@ == clipped(v@, width as nat),
{
    let mut out = trim(v);
    if out.len() > width {
        out.truncate(width);
    }
    out
}

/// Whether `p` stands in `s` at index `i`.
pub open spec fn occurs_at(s: Seq<char>, p: Seq<char>, i: int) -> bool {
    0 <= i && i + p.len() <= s.len() && s.subrange(i, i + p.len()) == p
}

/// Whether `p` stands somewhere in `s`. The empty sequence stands in every
/// sequence.
pub open spec fn contains_seq(s: Seq<char>, p: Seq<char>) -> bool {
    exists|i: int| occurs_at(s, p, i)
}

/// Tests whether `p` stands in `s` at index `i`.
pub fn matches_at(s: &Vec<char>, p: &Vec<char>, i: usize) -> (r: bool)
    ensures
        r == occurs_at(s@, p@, i as int),
{
    if i > s.len() || p.len() > s.len() - i {
        return false;
    }
    let mut k: usize = 0;
    while k < p.len()
        invariant
            k <= p.len(),
            i + p.len() <= s.len(),
            s@.subrange(i as int, i + k) == p@.take(k as int),
        decreases p.len() - k,
    {
        if s[i + k] != p[k] {
            proof {
                assert(s@.subrange(i as int, i + p.len())[k as int] != p@[k as int]);
            }
            return false;
        }
        proof {
            assert(s@.subrange(i as int, i + k + 1) == s@.subrange(i as int, i + k).push(
                s@[i + k],
            ));
            assert(p@.take(k + 1) == p@.take(k as int).push(p@[k as int]));
        }
        k += 1;
    }
    proof {
        assert(p@.take(p.len() as int) == p@);
    }
    true
}

/// Tests whether `p` stands somewhere in `s`.
pub fn contains(s: &Vec<char>, p: &Vec<char>) -> (r: bool)
    ensures
        r == contains_seq(s@, p@),
{
    if p.len() > s.len() {
        return false;
    }
    let last: usize = s.len() - p.len();
    let mut i: usize = 0;
    while i < last
        invariant
            i <= last,
            last == s.len() - p.len(),
            forall|j: int| 0 <= j < i ==> !occurs_at(s@, p@, j),
        decreases last - i,
    {
        if matches_at(s, p, i) {
            return true;
        }
        i += 1;
    }
    matches_at(s, p, last)
}

/// Appends the characters of `t` to `out`.
pub fn append(out: &mut Vec<char>, t: &Vec<char>)
    ensures
        final(out)@ == old(out)@ + t@,
{
    let mut k: usize = 0;
    while k < t.len()
        invariant
            k <= t.len(),
            out@ == old(out)@ + t@.take(k as int),
        decreases t.len() - k,
    {
        proof {
            assert(t@.take(k + 1) == t@.take(k as int).push(t@[k as int]));
        }
        out.push(t[k]);
        k += 1;
    }
    proof {
        assert(t@.take(t.len() as int) == t@);
    }
}

/// Number of line breaks at the front of `s`.
pub open spec fn newline_run(s: Seq<char>) -> nat
    decreases s.len(),
{
    if s.len() > 0 && s[0] == '\n' {
        1 + newline_run(s.skip(1))
    } else {
        0
    }
}

/// Length of the span that a break at the front of `s` covers: the whole run
/// of line breaks, and the one white-space character after it if there is one.
pub open spec fn break_span(s: Seq<char>) -> nat {
    let n = newline_run(s);
    if n < s.len() && is_space(s[n as int]) {
        n + 1
    } else {
        n
    }
}

/// The run of line breaks at the front of `s` is no longer than `s`.
pub proof fn lemma_newline_run_bound(s: Seq<char>)
    ensures
        newline_run(s) <= s.len(),
        s.len() > 0 && s[0] == '\n' ==> 1 <= newline_run(s),
        s.len() > 0 && s[0] == '\n' ==> 1 <= break_span(s) <= s.len(),
    decreases s.len(),
{
    if s.len() > 0 && s[0] == '\n' {
        lemma_newline_run_bound(s.skip(1));
    }
}

/// `s` with every break span replaced by one space.
pub open spec fn collapsed(s: Seq<char>) -> Seq<char>
    decreases s.len(),
    via collapsed_decreases
{
    if s.len() == 0 {
        s
    } else if s[0] == '\n' {
        seq![' '] + collapsed(s.skip(break_span(s) as int))
    } else {
        seq![s[0]] + collapsed(s.skip(1))
    }
}

#[via_fn]
proof fn collapsed_decreases(s: Seq<char>) {
    lemma_newline_run_bound(s);
}

/// Number of line breaks in `s`.
pub open spec fn newline_count(s: Seq<char>) -> nat {
    s.filter(|c: char| c == '\n').len()
}

/// Whether `s` holds no line break.
pub open spec fn unbroken(s: Seq<char>) -> bool {
    forall|i: int| 0 <= i < s.len() ==> s[i] != '\n'
}

/// A sequence holds no line break exactly when its count of them is zero.
pub proof fn lemma_newline_count(s: Seq<char>)
    ensures
        unbroken(s) <==> newline_count(s) == 0,
    decreases s.len(),
{
    reveal(Seq::filter);
    if s.len() > 0 {
        lemma_newline_count(s.drop_last());
        if unbroken(s) {
            assert forall|i: int| 0 <= i < s.drop_last().len() implies s.drop_last()[i]
                != '\n' by {
                assert(s.drop_last()[i] == s[i]);
            }
        }
        if newline_count(s) == 0 {
            assert forall|i: int| 0 <= i < s.len() implies s[i] != '\n' by {
                if i < s.len() - 1 {
                    assert(s.drop_last()[i] == s[i]);
                }
            }
        }
    }
}

/// Collapsing leaves no line break.
pub proof fn lemma_collapsed_unbroken(s: Seq<char>)
    ensures
        unbroken(collapsed(s)),
    decreases s.len(),
{
    if s.len() == 0 {
    } else if s[0] == '\n' {
        lemma_newline_run_bound(s);
        lemma_collapsed_unbroken(s.skip(break_span(s) as int));
    } else {
        lemma_collapsed_unbroken(s.skip(1));
    }
}

/// Collapsing changes nothing where there is no line break.
pub proof fn lemma_collapsed_identity(s: Seq<char>)
    requires
        unbroken(s),
    ensures
        collapsed(s) == s,
    decreases s.len(),
{
    if s.len() > 0 {
        assert forall|i: int| 0 <= i < s.skip(1).len() implies s.skip(1)[i] != '\n' by {
            assert(s.skip(1)[i] == s[i + 1]);
        }
        lemma_collapsed_identity(s.skip(1));
        assert(seq![s[0]] + s.skip(1) == s);
    }
}

/// Collapsing is a fixed point: what it returns holds no line break, and
/// collapsing it again returns it unchanged.
pub proof fn lemma_collapsed_fixed_point(s: Seq<char>)
    ensures
        unbroken(collapsed(s)),
        collapsed(collapsed(s)) == collapsed(s),
{
    lemma_collapsed_unbroken(s);
    lemma_collapsed_identity(collapsed(s));
}

/// A pass over a text that holds a line break lowers the number of line
/// breaks: every span that it replaces holds one at least, and the space
/// that stands for the span holds none.
pub proof fn lemma_collapsed_lowers_count(s: Seq<char>)
    requires
        !unbroken(s),
    ensures
        newline_count(collapsed(s)) < newline_count(s),
{
    lemma_collapsed_unbroken(s);
    lemma_newline_count(s);
    lemma_newline_count(collapsed(s));
}

/// Tests whether `v` holds a line break.
pub fn has_newline(v: &Vec<char>) -> (r: bool)
    ensures
        r == !unbroken(v@),
{
    let mut i: usize = 0;
    while i < v.len()
        invariant
            i <= v.len(),
            forall|j: int| 0 <= j < i ==> v@[j] != '\n',
        decreases v.len() - i,
    {
        if v[i] == '\n' {
            return true;
        }
        i += 1;
    }
    false
}

/// One pass over `v` that replaces every break span by one space.
pub fn collapse_once(v: &Vec<char>) -> (out: Vec<char>)
    ensures
        out@ == collapsed(v@),
{
    let mut out: Vec<char> = Vec::new();
    let mut i: usize = 0;
    proof {
        assert(v@.skip(0) == v@);
    }
    while i < v.len()
        invariant
            i <= v.len(),
            out@ + collapsed(v@.skip(i as int)) == collapsed(v@),
        decreases v.len() - i,
    {
        let ghost rest = v@.skip(i as int);
        if v[i] == '\n' {
            let mut j: usize = i + 1;
            proof {
                assert(rest.skip(1) == v@.skip(i + 1));
            }
            while j < v.len() && v[j] == '\n'
                invariant
                    i < j <= v.len(),
                    rest == v@.skip(i as int),
                    newline_run(rest) == (j - i) + newline_run(v@.skip(j as int)),
                decreases v.len() - j,
            {
                proof {
                    assert(v@.skip(j as int).skip(1) == v@.skip(j + 1));
                }
                j += 1;
            }
            proof {
                assert(newline_run(rest) == j - i);
                if j < v.len() {
                    assert(rest[j - i] == v@[j as int]);
                }
            }
            if j < v.len() && space(v[j]) {
                j += 1;
            }
            proof {
                assert(break_span(rest) == j - i);
                assert(rest.skip(j - i) == v@.skip(j as int));
                assert(out@.push(' ') + collapsed(v@.skip(j as int)) == out@ + (seq![' ']
                    + collapsed(v@.skip(j as int))));
            }
            out.push(' ');
            i = j;
        } else {
            proof {
                assert(rest.skip(1) == v@.skip(i + 1));
                assert(out@.push(v@[i as int]) + collapsed(v@.skip(i + 1)) == out@ + (seq![
                    rest[0],
                ] + collapsed(rest.skip(1))));
            }
            out.push(v[i]);
            i += 1;
        }
    }
    proof {
        assert(out@ + Seq::<char>::empty() == out@);
    }
    out
}

/// Collapses the line breaks of `v`: passes over the text until none is
/// left. Every pass lowers the number of line breaks, which bounds the loop.
pub fn collapse_breaks(v: Vec<char>) -> (out: Vec<char>)
    ensures
        out@ == collapsed(v@),
        unbroken(out@),
{
    let ghost start = v@;
    let mut cur = v;
    while has_newline(&cur)
        invariant
            collapsed(cur@) == collapsed(start),
        decreases newline_count(cur@),
    {
        let next = collapse_once(&cur);
        proof {
            lemma_collapsed_fixed_point(cur@);
            lemma_collapsed_lowers_count(cur@);
        }
        cur = next;
    }
    proof {
        lemma_collapsed_identity(cur@);
    }
    cur
}

/// `s` with every occurrence of `from` replaced by `to`, found from left to
/// right without overlap. An empty `from` stands before every character and
/// at the end.
pub open spec fn replaced(s: Seq<char>, from: Seq<char>, to: Seq<char>) -> Seq<char>
    decreases s.len(),
{
    if from.len() == 0 {
        if s.len() == 0 {
            to
        } else {
            to + seq![s[0]] + replaced(s.skip(1), from, to)
        }
    } else if occurs_at(s, from, 0) {
        to + replaced(s.skip(from.len() as int), from, to)
    } else if s.len() == 0 {
        s
    } else {
        seq![s[0]] + replaced(s.skip(1), from, to)
    }
}

/// A substitution brings no line break into a text that holds none, as long
/// as the replacement holds none.
pub proof fn lemma_replaced_unbroken(s: Seq<char>, from: Seq<char>, to: Seq<char>)
    requires
        unbroken(s),
        unbroken(to),
    ensures
        unbroken(replaced(s, from, to)),
    decreases s.len(),
{
    if from.len() == 0 {
        if s.len() > 0 {
            assert forall|i: int| 0 <= i < s.skip(1).len() implies s.skip(1)[i] != '\n' by {
                assert(s.skip(1)[i] == s[i + 1]);
            }
            lemma_replaced_unbroken(s.skip(1), from, to);
        }
    } else if occurs_at(s, from, 0) {
        let rest = s.skip(from.len() as int);
        assert forall|i: int| 0 <= i < rest.len() implies rest[i] != '\n' by {
            assert(rest[i] == s[i + from.len()]);
        }
        lemma_replaced_unbroken(rest, from, to);
    } else if s.len() > 0 {
        assert forall|i: int| 0 <= i < s.skip(1).len() implies s.skip(1)[i] != '\n' by {
            assert(s.skip(1)[i] == s[i + 1]);
        }
        lemma_replaced_unbroken(s.skip(1), from, to);
    }
}

/// Replaces every occurrence of `from` in `s` by `to`.
pub fn replace_all(s: &Vec<char>, from: &Vec<char>, to: &Vec<char>) -> (out: Vec<char>)
    ensures
        out@ == replaced(s@, from@, to@),
{
    let mut out: Vec<char> = Vec::new();
    let mut i: usize = 0;
    proof {
        assert(s@.skip(0) == s@);
    }
    while i < s.len()
        invariant
            i <= s.len(),
            out@ + replaced(s@.skip(i as int), from@, to@) == replaced(s@, from@, to@),
        decreases s.len() - i,
    {
        let ghost rest = s@.skip(i as int);
        let ghost before = out@;
        if from.len() == 0 {
            proof {
                assert(rest.skip(1) == s@.skip(i + 1));
            }
            append(&mut out, to);
            out.push(s[i]);
            proof {
                assert(out@ + replaced(s@.skip(i + 1), from@, to@) == before + (to@ + seq![
                    rest[0],
                ] + replaced(rest.skip(1), from@, to@)));
            }
            i += 1;
        } else if matches_at(s, from, i) {
            proof {
                assert(rest.subrange(0, from.len() as int) == s@.subrange(
                    i as int,
                    i + from.len(),
                ));
                assert(occurs_at(rest, from@, 0));
                assert(rest.skip(from.len() as int) == s@.skip(i + from.len()));
            }
            append(&mut out, to);
            proof {
                assert(out@ + replaced(s@.skip(i + from.len()), from@, to@) == before + (to@
                    + replaced(rest.skip(from.len() as int), from@, to@)));
            }
            i += from.len();
        } else {
            proof {
                if i + from.len() <= s.len() {
                    assert(rest.subrange(0, from.len() as int) == s@.subrange(
                        i as int,
                        i + from.len(),
                    ));
                }
                assert(!occurs_at(rest, from@, 0));
                assert(rest.skip(1) == s@.skip(i + 1));
                assert(out@.push(s@[i as int]) + replaced(s@.skip(i + 1), from@, to@) == before
                    + (seq![rest[0]] + replaced(rest.skip(1), from@, to@)));
            }
            out.push(s[i]);
            i += 1;
        }
    }
    if from.len() == 0 {
        append(&mut out, to);
    } else {
        proof {
            assert(out@ + Seq::<char>::empty() == out@);
        }
    }
    out
}

/// Number of lines of a file that holds `s`: each line break ends a line, and
/// what stands behind the last line break is a line of its own.
pub open spec fn lines_of(s: Seq<char>) -> nat {
    if s.len() > 0 && s.last() != '\n' {
        newline_count(s) + 1
    } else {
        newline_count(s)
    }
}

/// Counts the lines of `text`.
pub fn line_count(text: &str) -> (n: usize)
    ensures
        n == lines_of(text@),
{
    let v = chars_of(text);
    let mut n: usize = 0;
    let mut i: usize = 0;
    proof {
        reveal(Seq::filter);
    }
    while i < v.len()
        invariant
            i <= v.len(),
            n == newline_count(v@.take(i as int)),
            n <= i,
        decreases v.len() - i,
    {
        proof {
            reveal(Seq::filter);
            assert(v@.take(i + 1).drop_last() == v@.take(i as int));
        }
        if v[i] == '\n' {
            n += 1;
        }
        i += 1;
    }
    assert(v@.take(v.len() as int) == v@);
    if v.len() > 0 && v[v.len() - 1] != '\n' {
        proof {
            reveal(Seq::filter);
            lemma_newline_count_short(v@);
        }
        n += 1;
    }
    n
}

/// A text that does not end in a line break holds fewer line breaks than
/// characters.
pub proof fn lemma_newline_count_short(s: Seq<char>)
    requires
        s.len() > 0,
        s.last() != '\n',
    ensures
        newline_count(s) < s.len(),
{
    broadcast use vstd::seq_lib::group_filter_ensures;

    reveal(Seq::filter);
    assert(s.drop_last().filter(|c: char| c == '\n').len() <= s.drop_last().len());
}

} // verus!
