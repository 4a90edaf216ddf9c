//! Rendering of numbers as text and splitting of text into lines.

use vstd::prelude::*;

verus! {

/// `String::push` appends one character at the end of the string, as the
/// standard library documents it.
pub assume_specification[ String::push ](s: &mut String, ch: char)
    ensures
        final(s)@ == old(s)@.push(ch),
;

/// The digit that stands for `d` in bases up to sixteen, lower case.
pub open spec fn digit_char(d: nat) -> char {
    if d < 10 {
        (d + 48) as char
    } else {
        (d + 87) as char
    }
}

/// Text of `n` in base `base`, most significant digit first, without
/// leading zeros (zero itself is the single digit `0`).
pub open spec fn radix_text(n: nat, base: nat) -> Seq<char>
    decreases n,
{
    if base < 2 || n < base {
        seq![digit_char(n)]
    } else {
        proof {
            lemma_div_shrinks(n, base);
        }
        radix_text(n / base, base).push(digit_char(n % base))
    }
}

/// Dividing by a base of at least two makes a number of at least that base smaller.
pub proof fn lemma_div_shrinks(n: nat, base: nat)
    requires
        base >= 2,
        n >= base,
    ensures
        n / base < n,
{
    assert(n / base < n) by (nonlinear_arith)
        requires
            base >= 2,
            n >= base,
    ;
}

/// Decimal text of an unsigned number.
pub open spec fn decimal_text(n: nat) -> Seq<char> {
    radix_text(n, 10)
}

/// Decimal text of a signed number: a minus sign before the magnitude when it
/// is negative.
pub open spec fn signed_decimal_text(v: int) -> Seq<char> {
    if v < 0 {
        seq!['-'] + decimal_text((-v) as nat)
    } else {
        decimal_text(v as nat)
    }
}

/// Lower-case hexadecimal text of an unsigned number.
pub open spec fn hex_text(n: nat) -> Seq<char> {
    radix_text(n, 16)
}

fn digit(d: u64) -> (c: char)
    requires
        d < 16,
    ensures
        c == digit_char(d as nat),
{
    if d < 10 {
        ((d as u8) + 48) as char
    } else {
        ((d as u8) + 87) as char
    }
}

/// Appends the text of `n` in base `base` to `s`.
pub fn push_radix(s: &mut String, n: u64, base: u64)
    requires
        2 <= base <= 16,
    ensures
        final(s)@ == old(s)@ + radix_text(n as nat, base as nat),
    decreases n,
{
    if n >= base {
        proof {
            lemma_div_shrinks(n as nat, base as nat);
        }
        push_radix(s, n / base, base);
    } else {
        assert(n % base == n) by (nonlinear_arith)
            requires
                n < base,
        ;
    }
    let d = digit(n % base);
    s.push(d);
    assert(s@ =~= old(s)@ + radix_text(n as nat, base as nat));
}

/// Appends the decimal text of `v`, with a leading minus sign when negative.
pub fn push_signed_decimal(s: &mut String, v: i64)
    ensures
        final(s)@ == old(s)@ + signed_decimal_text(v as int),
{
    if v < 0 {
        s.push('-');
        let magnitude: u64 = (-(v as i128)) as u64;
        push_radix(s, magnitude, 10);
    } else {
        push_radix(s, v as u64, 10);
    }
    assert(s@ =~= old(s)@ + signed_decimal_text(v as int));
}

} // verus!

verus! {

/// A line without the carriage return that ends it, if any.
pub open spec fn strip_cr(line: Seq<char>) -> Seq<char> {
    if line.len() > 0 && line.last() == '\r' {
        line.drop_last()
    } else {
        line
    }
}

/// Scanning a text from the start: the lines already ended by a line feed
/// (without the line feed, and without a carriage return just before it), and
/// the characters read since the last line feed.
pub open spec fn line_scan(t: Seq<char>) -> (Seq<Seq<char>>, Seq<char>)
    decreases t.len(),
{
    if t.len() == 0 {
        (seq![], seq![])
    } else {
        let (done, cur) = line_scan(t.drop_last());
        if t.last() == '\n' {
            (done.push(strip_cr(cur)), seq![])
        } else {
            (done, cur.push(t.last()))
        }
    }
}

/// The lines of a text: the text cut at each line feed, with a carriage
/// return right before a line feed dropped; the last line is kept when it is
/// not empty, and keeps a final carriage return that no line feed follows.
pub open spec fn text_lines(t: Seq<char>) -> Seq<Seq<char>> {
    let (done, cur) = line_scan(t);
    if cur.len() > 0 {
        done.push(cur)
    } else {
        done
    }
}

/// The views of a list of strings.
pub open spec fn string_views(v: Seq<String>) -> Seq<Seq<char>> {
    v.map_values(|s: String| s@)
}

/// No line of a text holds a line feed.
pub proof fn lemma_lines_hold_no_line_feed(t: Seq<char>)
    ensures
        forall|i: int| 0 <= i < text_lines(t).len() ==> !(#[trigger] text_lines(t)[i]).contains(
            '\n',
        ),
    decreases t.len(),
{
    lemma_scan_holds_no_line_feed(t);
}

proof fn lemma_scan_holds_no_line_feed(t: Seq<char>)
    ensures
        forall|i: int|
            0 <= i < line_scan(t).0.len() ==> !(#[trigger] line_scan(t).0[i]).contains('\n'),
        !line_scan(t).1.contains('\n'),
    decreases t.len(),
{
    if t.len() > 0 {
        lemma_scan_holds_no_line_feed(t.drop_last());
        let (done, cur) = line_scan(t.drop_last());
        if t.last() == '\n' {
            assert forall|i: int|
                0 <= i < line_scan(t).0.len() implies !(#[trigger] line_scan(t).0[i]).contains(
                '\n',
            ) by {
                if i == done.len() {
                    if strip_cr(cur).contains('\n') {
                        let k = choose|k: int| 0 <= k < strip_cr(cur).len() && strip_cr(cur)[k] == '\n';
                        assert(cur[k] == '\n');
                    }
                } else {
                    assert(line_scan(t).0[i] == done[i]);
                }
            }
        } else {
            if cur.push(t.last()).contains('\n') {
                let k = choose|k: int| 0 <= k < cur.push(t.last()).len() && cur.push(t.last())[k] == '\n';
                if k < cur.len() {
                    assert(cur[k] == '\n');
                }
            }
        }
    }
}

/// Splits a text into its lines, as `str::lines` does.
pub fn split_lines(text: &str) -> (r: Vec<String>)
    ensures
        string_views(r@) == text_lines(text@),
{
    let mut lines: Vec<String> = Vec::new();
    let mut cur = String::new();
    let ghost mut seen: Seq<char> = seq![];
    for c in it: text.chars()
        invariant
            it.seq() == text@,
            seen == text@.take(it.index() as int),
            string_views(lines@) == line_scan(seen).0,
            cur@ == line_scan(seen).1,
    {
        proof {
            assert(text@.take(it.index() + 1).drop_last() =~= seen);
            seen = text@.take(it.index() + 1);
        }
        if c == '\n' {
            let n = cur.unicode_len();
            let line = if n > 0 && cur.as_str().get_char(n - 1) == '\r' {
                cur.as_str().substring_char(0, n - 1).to_owned()
            } else {
                cur
            };
            lines.push(line);
            cur = String::new();
        } else {
            cur.push(c);
        }
        assert(string_views(lines@) =~= line_scan(seen).0);
    }
    assert(text@.take(text@.len() as int) =~= text@);
    if cur.as_str().is_empty() {
        lines
    } else {
        lines.push(cur);
        assert(string_views(lines@) =~= text_lines(text@));
        lines
    }
}

} // verus!

verus! {

/// `c` does not occur in `t`.
pub open spec fn lacks_char(t: Seq<char>, c: char) -> bool {
    forall|i: int| 0 <= i < t.len() ==> t[i] != c
}

/// Digits are neither colons nor dots, and different digits are different
/// characters.
pub proof fn lemma_digit_char(d: nat, e: nat)
    requires
        d < 16,
        e < 16,
    ensures
        digit_char(d) != ':',
        digit_char(d) != '.',
        digit_char(d) == digit_char(e) ==> d == e,
{
}

/// The text of a number has at least one digit, and at least two when the
/// number is not below the base; it holds neither colons nor dots.
pub proof fn lemma_radix_text_shape(n: nat, base: nat)
    requires
        2 <= base <= 16,
    ensures
        radix_text(n, base).len() >= 1,
        n >= base ==> radix_text(n, base).len() >= 2,
        lacks_char(radix_text(n, base), ':'),
        lacks_char(radix_text(n, base), '.'),
    decreases n,
{
    if n < base {
        lemma_digit_char(n, n);
    } else {
        lemma_div_shrinks(n, base);
        lemma_radix_text_shape(n / base, base);
        lemma_digit_char(n % base, n % base);
        let t = radix_text(n, base);
        let p = radix_text(n / base, base);
        assert(t == p.push(digit_char(n % base)));
        assert forall|i: int| 0 <= i < t.len() implies t[i] != ':' && t[i] != '.' by {
            if i < p.len() {
                assert(t[i] == p[i]);
            }
        }
    }
}

/// Different numbers have different texts in the same base: the text of a
/// number reads back as that number.
pub proof fn lemma_radix_text_injective(n: nat, m: nat, base: nat)
    requires
        2 <= base <= 16,
        radix_text(n, base) == radix_text(m, base),
    ensures
        n == m,
    decreases n,
{
    lemma_radix_text_shape(n, base);
    lemma_radix_text_shape(m, base);
    if n < base && m < base {
        assert(radix_text(n, base) == seq![digit_char(n)]);
        assert(radix_text(m, base) == seq![digit_char(m)]);
        assert(radix_text(n, base)[0] == digit_char(n));
        assert(radix_text(m, base)[0] == digit_char(m));
        lemma_digit_char(n, m);
        assert(n == m);
    } else if n >= base && m >= base {
        lemma_div_shrinks(n, base);
        let tn = radix_text(n, base);
        let tm = radix_text(m, base);
        assert(tn.drop_last() =~= radix_text(n / base, base));
        assert(tm.drop_last() =~= radix_text(m / base, base));
        assert(tn.last() == tm.last());
        assert(tn.last() == digit_char(n % base));
        assert(tm.last() == digit_char(m % base));
        lemma_digit_char(n % base, m % base);
        assert(n % base == m % base);
        lemma_radix_text_injective(n / base, m / base, base);
        assert(n / base == m / base);
        assert(n == (n / base) * base + n % base) by (nonlinear_arith)
            requires
                base > 0,
        ;
        assert(m == (m / base) * base + m % base) by (nonlinear_arith)
            requires
                base > 0,
        ;
    } else {
        assert(radix_text(n, base).len() == radix_text(m, base).len());
    }
}

/// A text made of a piece without `x`, then `x`, then a rest, is split at its
/// first `x` in one way only.
pub proof fn lemma_split_at_first(a: Seq<char>, b: Seq<char>, c: Seq<char>, d: Seq<char>, x: char)
    requires
        a + seq![x] + b == c + seq![x] + d,
        lacks_char(a, x),
        lacks_char(c, x),
    ensures
        a == c,
        b == d,
{
    let t = a + seq![x] + b;
    let u = c + seq![x] + d;
    let ax = a + seq![x];
    let cx = c + seq![x];
    assert(t == ax + b && ax.len() == a.len() + 1);
    assert(u == cx + d && cx.len() == c.len() + 1);
    if a.len() < c.len() {
        let p = a.len() as int;
        assert(t[p] == ax[p] && ax[p] == x);
        assert(u[p] == cx[p] && cx[p] == c[p]);
    } else if c.len() < a.len() {
        let p = c.len() as int;
        assert(u[p] == cx[p] && cx[p] == x);
        assert(t[p] == ax[p] && ax[p] == a[p]);
    }
    assert(a =~= t.subrange(0, a.len() as int));
    assert(c =~= u.subrange(0, c.len() as int));
    assert(b =~= t.subrange(a.len() as int + 1, t.len() as int));
    assert(d =~= u.subrange(c.len() as int + 1, u.len() as int));
}

/// A text made of a start, then `x`, then a piece without `x`, is split at
/// its last `x` in one way only.
pub proof fn lemma_split_at_last(a: Seq<char>, b: Seq<char>, c: Seq<char>, d: Seq<char>, x: char)
    requires
        a + seq![x] + b == c + seq![x] + d,
        lacks_char(b, x),
        lacks_char(d, x),
    ensures
        a == c,
        b == d,
{
    let t = a + seq![x] + b;
    let u = c + seq![x] + d;
    assert(t.len() == u.len());
    let ax = a + seq![x];
    let cx = c + seq![x];
    assert(t == ax + b && ax.len() == a.len() + 1);
    assert(u == cx + d && cx.len() == c.len() + 1);
    if a.len() < c.len() {
        let p = c.len() as int;
        assert(u[p] == cx[p]);
        assert(cx[p] == x);
        assert(t[p] == b[p - ax.len()]);
        assert(b[p - ax.len()] != x);
    } else if c.len() < a.len() {
        let p = a.len() as int;
        assert(t[p] == ax[p]);
        assert(ax[p] == x);
        assert(u[p] == d[p - cx.len()]);
        assert(d[p - cx.len()] != x);
    }
    assert(a =~= t.subrange(0, a.len() as int));
    assert(c =~= u.subrange(0, c.len() as int));
    assert(b =~= t.subrange(a.len() as int + 1, t.len() as int));
    assert(d =~= u.subrange(c.len() as int + 1, u.len() as int));
}

} // verus!
