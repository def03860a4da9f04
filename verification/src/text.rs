//! Decimal and hexadecimal rendering of integers, and joining of lines,
//! with the specifications that the code generators are stated over.

use vstd::prelude::*;

verus! {

/// The character of a decimal digit.
pub open spec fn digit_char(d: nat) -> char {
    if d == 0 { '0' }
    else if d == 1 { '1' }
    else if d == 2 { '2' }
    else if d == 3 { '3' }
    else if d == 4 { '4' }
    else if d == 5 { '5' }
    else if d == 6 { '6' }
    else if d == 7 { '7' }
    else if d == 8 { '8' }
    else { '9' }
}

/// The character of a lowercase hexadecimal digit.
pub open spec fn hex_char(d: nat) -> char {
    if d < 10 { digit_char(d) }
    else if d == 10 { 'a' }
    else if d == 11 { 'b' }
    else if d == 12 { 'c' }
    else if d == 13 { 'd' }
    else if d == 14 { 'e' }
    else { 'f' }
}

/// Whether `s` reads `lit`.
pub fn text_is(s: &str, lit: &str) -> (b: bool)
    ensures
        b == (s@ == lit@),
{
    let a = string_of(s);
    let t = string_of(lit);
    a == t
}

/// The decimal text of a natural number, without leading zeros.
pub open spec fn nat_text(n: nat) -> Seq<char>
    decreases n,
{
    if n < 10 {
        seq![digit_char(n)]
    } else {
        nat_text(n / 10).push(digit_char(n % 10))
    }
}

/// The decimal text of an integer, with a leading '-' when it is negative.
pub open spec fn int_text(i: int) -> Seq<char> {
    if i < 0 {
        seq!['-'] + nat_text((-i) as nat)
    } else {
        nat_text(i as nat)
    }
}

/// The two lowercase hexadecimal digits of a byte.
pub open spec fn byte_hex(b: u8) -> Seq<char> {
    seq![hex_char((b / 16) as nat), hex_char((b % 16) as nat)]
}

/// The lowercase hexadecimal text of a byte string, two digits per byte.
pub open spec fn bytes_hex(bs: Seq<u8>) -> Seq<char>
    decreases bs.len(),
{
    if bs.len() == 0 {
        seq![]
    } else {
        bytes_hex(bs.drop_last()) + byte_hex(bs.last())
    }
}

/// The hexadecimal text of a byte string has two digits per byte.
pub proof fn lemma_bytes_hex_len(bs: Seq<u8>)
    ensures
        bytes_hex(bs).len() == 2 * bs.len(),
    decreases bs.len(),
{
    if bs.len() > 0 {
        lemma_bytes_hex_len(bs.drop_last());
    }
}

/// The lines joined with `sep` between consecutive lines.
pub open spec fn join(lines: Seq<Seq<char>>, sep: Seq<char>) -> Seq<char>
    decreases lines.len(),
{
    if lines.len() == 0 {
        seq![]
    } else if lines.len() == 1 {
        lines[0]
    } else {
        join(lines.drop_last(), sep) + sep + lines.last()
    }
}

/// The pieces concatenated in order.
pub open spec fn concat(pieces: Seq<Seq<char>>) -> Seq<char>
    decreases pieces.len(),
{
    if pieces.len() == 0 {
        seq![]
    } else {
        concat(pieces.drop_last()) + pieces.last()
    }
}

/// Appends one character to a string (std's `String::push`).
#[verifier::external_body]
pub(crate) fn push_char(s: &mut String, c: char)
    ensures
        final(s)@ == old(s)@.push(c),
{
    s.push(c);
}

fn digit(d: u64) -> (c: char)
    requires
        d < 10,
    ensures
        c == digit_char(d as nat),
{
    if d == 0 { '0' }
    else if d == 1 { '1' }
    else if d == 2 { '2' }
    else if d == 3 { '3' }
    else if d == 4 { '4' }
    else if d == 5 { '5' }
    else if d == 6 { '6' }
    else if d == 7 { '7' }
    else if d == 8 { '8' }
    else { '9' }
}

fn hex_digit(d: u8) -> (c: char)
    requires
        d < 16,
    ensures
        c == hex_char(d as nat),
{
    if d < 10 { digit(d as u64) }
    else if d == 10 { 'a' }
    else if d == 11 { 'b' }
    else if d == 12 { 'c' }
    else if d == 13 { 'd' }
    else if d == 14 { 'e' }
    else { 'f' }
}

/// A new string holding the text of `s`.
pub fn string_of(s: &str) -> (r: String)
    ensures
        r@ == s@,
{
    let mut r = String::new();
    r.append(s);
    assert(r@ =~= s@);
    r
}

/// The outcome of running `step` over the items of `s` in order, stopping at
/// the first item whose step reports a fault: the lines of all steps run, and
/// the fault, if any.
pub open spec fn run_lines<T, X>(
    s: Seq<T>,
    step: spec_fn(T) -> (Seq<Seq<char>>, Option<X>),
) -> (Seq<Seq<char>>, Option<X>)
    decreases s.len(),
{
    if s.len() == 0 {
        (seq![], None)
    } else {
        let (p, e) = run_lines(s.drop_last(), step);
        if e is Some {
            (p, e)
        } else {
            let (q, e2) = step(s.last());
            (p + q, e2)
        }
    }
}

/// Once a prefix has faulted, running over the whole sequence gives the same outcome.
pub proof fn lemma_run_lines_fault<T, X>(
    s: Seq<T>,
    k: int,
    step: spec_fn(T) -> (Seq<Seq<char>>, Option<X>),
)
    requires
        0 <= k <= s.len(),
        run_lines(s.take(k), step).1 is Some,
    ensures
        run_lines(s, step) == run_lines(s.take(k), step),
    decreases s.len(),
{
    if s.len() == k {
        assert(s.take(k) =~= s);
    } else {
        assert(s.drop_last().take(k) =~= s.take(k));
        lemma_run_lines_fault(s.drop_last(), k, step);
    }
}

/// Running over one more item extends the outcome of the prefix by that item's step.
pub proof fn lemma_run_lines_step<T, X>(
    s: Seq<T>,
    k: int,
    step: spec_fn(T) -> (Seq<Seq<char>>, Option<X>),
)
    requires
        0 <= k < s.len(),
    ensures
        run_lines(s.take(k + 1), step) == (if run_lines(s.take(k), step).1 is Some {
            run_lines(s.take(k), step)
        } else {
            (run_lines(s.take(k), step).0 + step(s[k]).0, step(s[k]).1)
        }),
{
    assert(s.take(k + 1).drop_last() =~= s.take(k));
    assert(s.take(k + 1).last() == s[k]);
}

/// Appends the decimal text of `n` to `s`.
pub fn push_u64(s: &mut String, n: u64)
    ensures
        final(s)@ == old(s)@ + nat_text(n as nat),
    decreases n,
{
    if n < 10 {
        push_char(s, digit(n));
        assert(nat_text(n as nat) =~= seq![digit_char(n as nat)]);
    } else {
        push_u64(s, n / 10);
        push_char(s, digit(n % 10));
        assert(nat_text(n as nat) == nat_text((n / 10) as nat).push(digit_char((n % 10) as nat)));
        assert(final(s)@ =~= old(s)@ + nat_text(n as nat));
    }
}

/// Appends the decimal text of `n` to `s`.
pub fn push_usize(s: &mut String, n: usize)
    ensures
        final(s)@ == old(s)@ + nat_text(n as nat),
{
    push_u64(s, n as u64);
}

/// Appends the decimal text of `i` to `s`, with a '-' when it is negative.
pub fn push_i64(s: &mut String, i: i64)
    ensures
        final(s)@ == old(s)@ + int_text(i as int),
{
    if i < 0 {
        push_char(s, '-');
        let m: u64 = if i == i64::MIN { 9223372036854775808u64 } else { (-i) as u64 };
        push_u64(s, m);
        assert(final(s)@ =~= old(s)@ + int_text(i as int));
    } else {
        push_u64(s, i as u64);
    }
}

/// Appends the two lowercase hexadecimal digits of `b` to `s`.
pub fn push_byte_hex(s: &mut String, b: u8)
    ensures
        final(s)@ == old(s)@ + byte_hex(b),
{
    push_char(s, hex_digit(b / 16));
    push_char(s, hex_digit(b % 16));
    assert(final(s)@ =~= old(s)@ + byte_hex(b));
}

/// The lowercase hexadecimal text of `bytes`.
pub fn hex_string(bytes: &[u8]) -> (s: String)
    ensures
        s@ == bytes_hex(bytes@),
{
    let mut s = String::new();
    let mut i: usize = 0;
    while i < bytes.len()
        invariant
            i <= bytes.len(),
            s@ == bytes_hex(bytes@.subrange(0, i as int)),
        decreases bytes.len() - i,
    {
        push_byte_hex(&mut s, bytes[i]);
        assert(bytes@.subrange(0, (i + 1) as int).drop_last() =~= bytes@.subrange(0, i as int));
        i = i + 1;
    }
    assert(bytes@.subrange(0, bytes.len() as int) =~= bytes@);
    s
}

/// The strings of `lines` joined with `sep` between consecutive ones.
pub fn join_strings(lines: &Vec<String>, sep: &str) -> (s: String)
    ensures
        s@ == join(lines@.map_values(|l: String| l@), sep@),
{
    let ghost views = lines@.map_values(|l: String| l@);
    let mut s = String::new();
    let mut i: usize = 0;
    while i < lines.len()
        invariant
            i <= lines.len(),
            views == lines@.map_values(|l: String| l@),
            s@ == join(views.subrange(0, i as int), sep@),
        decreases lines.len() - i,
    {
        assert(views.subrange(0, (i + 1) as int).drop_last() =~= views.subrange(0, i as int));
        if i > 0 {
            s.append(sep);
        }
        s.append(lines[i].as_str());
        proof {
            let p = views.subrange(0, (i + 1) as int);
            if i == 0 {
                assert(p.len() == 1);
                assert(s@ =~= p[0]);
            } else {
                assert(s@ =~= join(p.drop_last(), sep@) + sep@ + p.last());
            }
        }
        i = i + 1;
    }
    assert(views.subrange(0, lines.len() as int) =~= views);
    s
}

} // verus!
