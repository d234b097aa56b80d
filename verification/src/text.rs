//! Text helpers: character access, ordering of strings by code point, and
//! fixed-width decimal rendering.

use vstd::prelude::*;

verus! {

/// The characters of `s`, in order.
pub fn chars_of(s: &str) -> (r: Vec<char>)
    ensures
        r@ == s@,
{
    let mut out: Vec<char> = Vec::new();
    for c in it: s.chars()
        invariant
            out@ == it.seq().take(it.index() as int),
    {
        out.push(c);
    }
    out
}

/// Whether two strings hold the same characters.
pub fn same_text(a: &str, b: &str) -> (r: bool)
    ensures
        r == (a@ == b@),
{
    let x = a.to_owned();
    let y = b.to_owned();
    x == y
}

/// `a` sorts before or with `b` when strings are compared character by
/// character on their code points, a proper prefix sorting first.
pub open spec fn text_le(a: Seq<char>, b: Seq<char>) -> bool
    decreases a.len(),
{
    if a.len() == 0 {
        true
    } else if b.len() == 0 {
        false
    } else if a[0] != b[0] {
        (a[0] as u32) < (b[0] as u32)
    } else {
        text_le(a.skip(1), b.skip(1))
    }
}

/// Computes [`text_le`].
pub fn text_at_most(a: &str, b: &str) -> (r: bool)
    ensures
        r == text_le(a@, b@),
{
    let x = chars_of(a);
    let y = chars_of(b);
    let mut i: usize = 0;
    assert(x@.skip(0) =~= x@ && y@.skip(0) =~= y@);
    while i < x.len() && i < y.len()
        invariant
            i <= x.len(),
            i <= y.len(),
            x@ == a@,
            y@ == b@,
            text_le(x@, y@) == text_le(x@.skip(i as int), y@.skip(i as int)),
        decreases x.len() - i,
    {
        let ghost xs = x@.skip(i as int);
        let ghost ys = y@.skip(i as int);
        assert(xs[0] == x@[i as int] && ys[0] == y@[i as int]);
        assert(xs.skip(1) =~= x@.skip(i + 1));
        assert(ys.skip(1) =~= y@.skip(i + 1));
        if x[i] != y[i] {
            assert(text_le(xs, ys) == ((xs[0] as u32) < (ys[0] as u32)));
            return (x[i] as u32) < (y[i] as u32);
        }
        assert(text_le(xs, ys) == text_le(xs.skip(1), ys.skip(1)));
        i = i + 1;
    }
    assert(x@.skip(i as int).len() == x@.len() - i);
    assert(y@.skip(i as int).len() == y@.len() - i);
    i == x.len()
}

/// The character that writes the decimal digit `d`.
pub open spec fn digit_char(d: int) -> char {
    if d == 0 {
        '0'
    } else if d == 1 {
        '1'
    } else if d == 2 {
        '2'
    } else if d == 3 {
        '3'
    } else if d == 4 {
        '4'
    } else if d == 5 {
        '5'
    } else if d == 6 {
        '6'
    } else if d == 7 {
        '7'
    } else if d == 8 {
        '8'
    } else {
        '9'
    }
}

/// `n` written in exactly two decimal digits; meant for `n` below 100.
pub open spec fn two_digits(n: int) -> Seq<char> {
    seq![digit_char(n / 10), digit_char(n % 10)]
}

/// `n` written in exactly four decimal digits; meant for `n` below 10000.
pub open spec fn four_digits(n: int) -> Seq<char> {
    two_digits(n / 100) + two_digits(n % 100)
}

fn digit_text(d: u32) -> (s: &'static str)
    requires
        d < 10,
    ensures
        s@ == seq![digit_char(d as int)],
{
    proof {
        reveal_strlit("0");
        reveal_strlit("1");
        reveal_strlit("2");
        reveal_strlit("3");
        reveal_strlit("4");
        reveal_strlit("5");
        reveal_strlit("6");
        reveal_strlit("7");
        reveal_strlit("8");
        reveal_strlit("9");
    }
    let s = if d == 0 {
        "0"
    } else if d == 1 {
        "1"
    } else if d == 2 {
        "2"
    } else if d == 3 {
        "3"
    } else if d == 4 {
        "4"
    } else if d == 5 {
        "5"
    } else if d == 6 {
        "6"
    } else if d == 7 {
        "7"
    } else if d == 8 {
        "8"
    } else {
        "9"
    };
    assert(s@ =~= seq![digit_char(d as int)]);
    s
}

/// Appends `n` in two decimal digits to `out`.
pub fn push_two_digits(out: &mut String, n: u32)
    requires
        n < 100,
    ensures
        final(out)@ == old(out)@ + two_digits(n as int),
{
    out.append(digit_text(n / 10));
    out.append(digit_text(n % 10));
    assert(out@ =~= old(out)@ + two_digits(n as int));
}

/// Appends `n` in four decimal digits to `out`.
pub fn push_four_digits(out: &mut String, n: u32)
    requires
        n < 10000,
    ensures
        final(out)@ == old(out)@ + four_digits(n as int),
{
    push_two_digits(out, n / 100);
    push_two_digits(out, n % 100);
    assert(out@ =~= old(out)@ + four_digits(n as int));
}

/// The code point of `c`, with the letters `A` to `Z` taken as `a` to `z`.
pub open spec fn folded(c: char) -> u32 {
    if 65 <= c as u32 <= 90 {
        (c as u32 + 32) as u32
    } else {
        c as u32
    }
}

/// Computes [`folded`].
pub fn fold(c: char) -> (n: u32)
    ensures
        n == folded(c),
{
    let n: u32 = c as u32;
    if 65 <= n && n <= 90 {
        n + 32
    } else {
        n
    }
}

/// `text` matches `pattern`, in which `%` stands for any run of
/// characters, also an empty one, `_` for any one character, and every
/// other character for itself, the letters `a` to `z` in either case.
pub open spec fn like(pattern: Seq<char>, text: Seq<char>) -> bool
    decreases pattern.len(), text.len(),
{
    if pattern.len() == 0 {
        text.len() == 0
    } else if pattern[0] == '%' {
        like(pattern.skip(1), text) || (text.len() > 0 && like(pattern, text.skip(1)))
    } else if text.len() == 0 {
        false
    } else if pattern[0] == '_' || folded(pattern[0]) == folded(text[0]) {
        like(pattern.skip(1), text.skip(1))
    } else {
        false
    }
}

/// The pattern that finds `search` anywhere in a text.
pub open spec fn containing(search: Seq<char>) -> Seq<char> {
    seq!['%'] + search + seq!['%']
}

/// Computes [`containing`].
pub fn pattern_containing(search: &str) -> (r: Vec<char>)
    ensures
        r@ == containing(search@),
{
    let inner = chars_of(search);
    let mut out: Vec<char> = Vec::new();
    out.push('%');
    let mut i: usize = 0;
    while i < inner.len()
        invariant
            i <= inner.len(),
            inner@ == search@,
            out@ == seq!['%'] + inner@.take(i as int),
        decreases inner.len() - i,
    {
        out.push(inner[i]);
        assert(inner@.take(i + 1) =~= inner@.take(i as int).push(inner@[i as int]));
        i = i + 1;
    }
    assert(inner@.take(i as int) =~= inner@);
    out.push('%');
    assert(out@ =~= containing(search@));
    out
}

/// Computes [`like`], one character of the pattern at a time from its end,
/// for all ends of the text at once.
pub fn like_match(pattern: &Vec<char>, text: &Vec<char>) -> (b: bool)
    ensures
        b == like(pattern@, text@),
{
    let n = text.len();
    let ghost p = pattern@;
    let ghost t = text@;
    // row[j] tells whether the rest of the text from j on matches the rest
    // of the pattern from i on.
    let mut row: Vec<bool> = Vec::new();
    let mut j: usize = 0;
    while j < n
        invariant
            j <= n,
            n == text.len(),
            row.len() == j,
            forall|k: int| 0 <= k < j ==> row[k] == false,
        decreases n - j,
    {
        row.push(false);
        j = j + 1;
    }
    row.push(true);
    let mut i: usize = pattern.len();
    assert forall|k: int| 0 <= k <= n implies row[k] == like(p.skip(i as int), t.skip(k)) by {
        assert(p.skip(i as int).len() == 0);
        assert(t.skip(k).len() == n - k);
    }
    while i > 0
        invariant
            i <= pattern.len(),
            n == text.len(),
            p == pattern@,
            t == text@,
            row.len() == n + 1,
            forall|k: int| 0 <= k <= n ==> row[k] == like(p.skip(i as int), t.skip(k)),
        decreases i,
    {
        i = i - 1;
        let c = pattern[i];
        let ghost rest = p.skip(i + 1);
        let ghost here = p.skip(i as int);
        let ghost below = row@;
        assert(here.len() > 0 && here[0] == c && here.skip(1) =~= rest);
        assert(t.skip(n as int).len() == 0);
        if c == '%' {
            // A run may be empty, or take one more character of the text.
            let mut k: usize = n;
            while k > 0
                invariant
                    k <= n,
                    n == text.len(),
                    t == text@,
                    row.len() == n + 1,
                    below.len() == n + 1,
                    here.len() > 0,
                    here[0] == '%',
                    here.skip(1) == rest,
                    forall|m: int| 0 <= m <= n ==> below[m] == like(rest, t.skip(m)),
                    forall|m: int| 0 <= m < k ==> row[m] == below[m],
                    forall|m: int| k <= m <= n ==> row[m] == like(here, t.skip(m)),
                decreases k,
            {
                k = k - 1;
                let ghost tail = t.skip(k as int);
                assert(tail.len() > 0 && tail.skip(1) =~= t.skip(k + 1));
                let value = row[k] || row[k + 1];
                proof {
                    assert(row[k as int] == below[k as int]);
                    assert(below[k as int] == like(rest, tail));
                    assert(row[k + 1] == like(here, t.skip(k + 1)));
                    assert(like(here, tail) == (like(here.skip(1), tail) || (tail.len() > 0
                        && like(here, tail.skip(1)))));
                }
                row.set(k, value);
            }
        } else {
            // One character of the text is used up.
            let any_one = c == '_';
            let folded_c = fold(c);
            let mut k: usize = 0;
            while k < n
                invariant
                    k <= n,
                    n == text.len(),
                    t == text@,
                    row.len() == n + 1,
                    below.len() == n + 1,
                    here.len() > 0,
                    here[0] == c,
                    c != '%',
                    here.skip(1) == rest,
                    any_one == (c == '_'),
                    folded_c == folded(c),
                    forall|m: int| 0 <= m <= n ==> below[m] == like(rest, t.skip(m)),
                    forall|m: int| 0 <= m < k ==> row[m] == like(here, t.skip(m)),
                    forall|m: int| k <= m <= n ==> row[m] == below[m],
                decreases n - k,
            {
                let ghost tail = t.skip(k as int);
                assert(tail.len() > 0 && tail[0] == t[k as int] && tail.skip(1) =~= t.skip(k + 1));
                let value = (any_one || folded_c == fold(text[k])) && row[k + 1];
                proof {
                    assert(row[k + 1] == below[k + 1]);
                    assert(below[k + 1] == like(rest, t.skip(k + 1)));
                    assert(like(here, tail) == ((here[0] == '_' || folded(here[0]) == folded(
                        tail[0],
                    )) && like(here.skip(1), tail.skip(1))));
                }
                row.set(k, value);
                k = k + 1;
            }
            row.set(n, false);
        }
    }
    assert(p.skip(0) =~= p && t.skip(0) =~= t);
    row[0]
}

} // verus!
