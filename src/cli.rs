//! The command line's duration argument and its grammar.
//!
//! A duration is written as `<integer><unit>` pieces with units `h`, `m`
//! and `s`, in any order and with repeats (`1h1m2s`, `39m16s2h`, `1s2s3s`).
//! Whitespace may separate pieces; each unit letter ends a piece.
use vstd::prelude::*;
use vstd::string::*;
use crate::duration::{Duration, MAX_SECS};

verus! {

/// What the program was asked to do.
pub enum Commands {
    /// Count down the given duration.
    Timeout(DurationTmArg),
}

/// A duration as typed on the command line.
pub struct DurationTmArg {
    pub duration: String,
}

/// Whether `c` is white space in Unicode's sense (`char::is_whitespace`).
pub open spec fn is_space(c: char) -> bool {
    let u = c as u32;
    (9 <= u && u <= 13) || u == 32 || u == 0x85 || u == 0xa0 || u == 0x1680 || (0x2000 <= u
        && u <= 0x200a) || u == 0x2028 || u == 0x2029 || u == 0x202f || u == 0x205f || u
        == 0x3000
}

/// Whether `c` is one of the unit letters.
pub open spec fn is_unit(c: char) -> bool {
    c == 'h' || c == 'm' || c == 's'
}

/// Seconds in one of the unit letters.
pub open spec fn unit_secs(c: char) -> nat {
    if c == 'h' {
        3600
    } else if c == 'm' {
        60
    } else {
        1
    }
}

pub open spec fn is_digit(c: char) -> bool {
    '0' <= c && c <= '9'
}

pub open spec fn digit_value(c: char) -> nat {
    (c as u32 - '0' as u32) as nat
}

pub open spec fn all_digits(t: Seq<char>) -> bool {
    forall|i: int| 0 <= i < t.len() ==> is_digit(#[trigger] t[i])
}

/// The value of a string of decimal digits.
pub open spec fn digits_value(t: Seq<char>) -> nat
    decreases t.len(),
{
    if t.len() == 0 {
        0
    } else {
        digits_value(t.drop_last()) * 10 + digit_value(t.last())
    }
}

/// Whether `t` reads as an unsigned integer: an optional `+`, then digits.
pub open spec fn is_number(t: Seq<char>) -> bool {
    if t.len() > 0 && t[0] == '+' {
        t.len() > 1 && all_digits(t.drop_first())
    } else {
        t.len() > 0 && all_digits(t)
    }
}

/// The value of a string that `is_number` accepts.
pub open spec fn number_value(t: Seq<char>) -> nat {
    if t.len() > 0 && t[0] == '+' {
        digits_value(t.drop_first())
    } else {
        digits_value(t)
    }
}

/// The length of the run at the start of `s` that holds neither white
/// space nor a unit letter.
pub open spec fn piece_len(s: Seq<char>) -> nat
    decreases s.len(),
{
    if s.len() == 0 || is_space(s[0]) || is_unit(s[0]) {
        0
    } else {
        1 + piece_len(s.drop_first())
    }
}

pub open spec fn opt_add(a: nat, o: Option<nat>) -> Option<nat> {
    match o {
        Some(t) => Some(a + t),
        None => None,
    }
}

/// The sum in seconds of the pieces of `s`, or `None` where a piece is not
/// a number followed by a unit letter.
pub open spec fn total_secs(s: Seq<char>) -> Option<nat>
    decreases s.len(),
{
    if s.len() == 0 {
        Some(0)
    } else if is_space(s[0]) {
        total_secs(s.drop_first())
    } else {
        let k = piece_len(s) as int;
        if k < s.len() && is_unit(s[k]) && is_number(s.take(k)) {
            opt_add(number_value(s.take(k)) * unit_secs(s[k]), total_secs(s.skip(k + 1)))
        } else {
            None
        }
    }
}

/// Whether `s` holds anything but white space.
pub open spec fn has_piece(s: Seq<char>) -> bool {
    exists|i: int| 0 <= i < s.len() && !is_space(#[trigger] s[i])
}

/// The number of seconds that `s` denotes; `None` for a string that is
/// empty or blank, or holds a malformed piece.
pub open spec fn parse_secs(s: Seq<char>) -> Option<nat> {
    if has_piece(s) {
        total_secs(s)
    } else {
        None
    }
}

fn is_space_char(c: char) -> (r: bool)
    ensures
        r == is_space(c),
{
    let u = c as u32;
    (9 <= u && u <= 13) || u == 32 || u == 0x85 || u == 0xa0 || u == 0x1680 || (0x2000 <= u
        && u <= 0x200a) || u == 0x2028 || u == 0x2029 || u == 0x202f || u == 0x205f || u
        == 0x3000
}

fn unit_secs_of(c: char) -> (r: u64)
    requires
        is_unit(c),
    ensures
        r == unit_secs(c),
{
    if c == 'h' {
        3600
    } else if c == 'm' {
        60
    } else {
        1
    }
}

proof fn lemma_digits_value_prefix(t: Seq<char>, m: int)
    requires
        0 <= m <= t.len(),
    ensures
        digits_value(t.take(m)) <= digits_value(t),
    decreases t.len(),
{
    if m < t.len() {
        lemma_digits_value_prefix(t.drop_last(), m);
        assert(t.drop_last().take(m) =~= t.take(m));
    } else {
        assert(t.take(m) =~= t);
    }
}

/// Reads the characters `start..end` of `s` as an unsigned integer of at
/// most `MAX_SECS`.
fn parse_number(s: &str, start: usize, end: usize) -> (r: Option<u64>)
    requires
        start <= end <= s@.len(),
    ensures
        r is Some <==> is_number(s@.subrange(start as int, end as int)) && number_value(
            s@.subrange(start as int, end as int),
        ) <= MAX_SECS,
        r is Some ==> r->0 == number_value(s@.subrange(start as int, end as int)),
{
    let ghost t = s@.subrange(start as int, end as int);
    let mut p = start;
    if p < end && s.get_char(p) == '+' {
        assert(t[0] == s@[start as int]);
        p = p + 1;
    } else {
        assert(t.len() > 0 ==> t[0] == s@[start as int]);
    }
    if p == end {
        return None;
    }
    let ghost digits = s@.subrange(p as int, end as int);
    assert(number_value(t) == digits_value(digits) && (is_number(t) <==> all_digits(digits))) by {
        if t[0] == '+' {
            assert(t.drop_first() =~= digits);
        } else {
            assert(t =~= digits);
        }
    }
    let mut v: u64 = 0;
    let mut q = p;
    while q < end
        invariant
            start <= p <= q <= end <= s@.len(),
            p < end,
            digits == s@.subrange(p as int, end as int),
            t == s@.subrange(start as int, end as int),
            number_value(t) == digits_value(digits),
            is_number(t) <==> all_digits(digits),
            forall|i: int| p <= i < q ==> is_digit(#[trigger] s@[i]),
            v == digits_value(s@.subrange(p as int, q as int)),
            v <= MAX_SECS,
        decreases end - q,
    {
        let c = s.get_char(q);
        if !('0' <= c && c <= '9') {
            assert(digits[q - p] == c);
            assert(!is_digit(digits[q - p]));
            return None;
        }
        let d = (c as u32 - '0' as u32) as u64;
        assert(s@.subrange(p as int, q + 1).drop_last() =~= s@.subrange(p as int, q as int));
        assert(s@.subrange(p as int, q + 1).last() == c);
        assert(digits_value(s@.subrange(p as int, q + 1)) == v * 10 + d);
        v = v * 10 + d;
        q = q + 1;
        if v > MAX_SECS {
            proof {
                lemma_digits_value_prefix(digits, q - p);
                assert(digits.take(q - p) =~= s@.subrange(p as int, q as int));
            }
            return None;
        }
    }
    assert(s@.subrange(p as int, q as int) =~= digits);
    assert(all_digits(digits)) by {
        assert forall|i: int| 0 <= i < digits.len() implies is_digit(#[trigger] digits[i]) by {
            assert(digits[i] == s@[p + i]);
        }
    }
    Some(v)
}

impl DurationTmArg {
    /// The duration that the argument denotes.
    ///
    /// `None` where the string is empty or blank, where a piece lacks its
    /// unit letter or its number, or where the total exceeds what a
    /// `Duration` holds.
    pub fn parse(&self) -> (r: Option<Duration>)
        ensures
            r is Some <==> (parse_secs(self.duration@) is Some && parse_secs(self.duration@)->0
                <= MAX_SECS),
            r is Some ==> r->0@ == parse_secs(self.duration@)->0 * 1000,
    {
        let s = self.duration.as_str();
        let ghost w = s@;
        let n = s.unicode_len();
        let mut i: usize = 0;
        let mut total: u64 = 0;
        let mut seen = false;
        assert(w.skip(0) =~= w);
        while i < n
            invariant
                w == s@,
                w == self.duration@,
                n == w.len(),
                i <= n,
                total <= MAX_SECS,
                seen ==> has_piece(w),
                !seen ==> forall|k: int| 0 <= k < i ==> is_space(#[trigger] w[k]),
                total_secs(w) == opt_add(total as nat, total_secs(w.skip(i as int))),
            decreases n - i,
        {
            let ghost rest = w.skip(i as int);
            let c = s.get_char(i);
            if is_space_char(c) {
                assert(rest.drop_first() =~= w.skip(i + 1));
                i = i + 1;
            } else {
                seen = true;
                let start = i;
                let mut j = i;
                while j < n
                    invariant
                        w == s@,
                        n == w.len(),
                        start <= j <= n,
                        rest == w.skip(start as int),
                        piece_len(rest) == (j - start) + piece_len(w.skip(j as int)),
                    ensures
                        piece_len(rest) == j - start,
                    decreases n - j,
                {
                    let cj = s.get_char(j);
                    if is_space_char(cj) || cj == 'h' || cj == 'm' || cj == 's' {
                        assert(w.skip(j as int)[0] == cj);
                        assert(piece_len(w.skip(j as int)) == 0);
                        break;
                    }
                    assert(w.skip(j as int).drop_first() =~= w.skip(j + 1));
                    j = j + 1;
                }
                if j == n {
                    assert(piece_len(rest) == n - start);
                    return None;
                }
                let u = s.get_char(j);
                assert(piece_len(rest) == j - start);
                if !(u == 'h' || u == 'm' || u == 's') {
                    return None;
                }
                assert(rest.take(j - start) =~= w.subrange(start as int, j as int));
                assert(rest.skip(j - start + 1) =~= w.skip(j + 1));
                assert(rest[0] == c);
                assert(rest[j - start] == u);
                let ghost piece = w.subrange(start as int, j as int);
                let v = match parse_number(s, start, j) {
                    Some(v) => v,
                    None => {
                        proof {
                            if is_number(piece) {
                                let nv = number_value(piece);
                                assert(nv * unit_secs(u) >= nv) by (nonlinear_arith)
                                    requires
                                        unit_secs(u) >= 1,
                                ;
                            }
                        }
                        return None;
                    },
                };
                let unit = unit_secs_of(u);
                assert((v as int) * (unit as int) <= MAX_SECS * 3600) by (nonlinear_arith)
                    requires
                        v <= MAX_SECS,
                        unit <= 3600,
                ;
                let add: u128 = (v as u128) * (unit as u128);
                if (total as u128) + add > MAX_SECS as u128 {
                    return None;
                }
                total = total + add as u64;
                i = j + 1;
            }
        }
        assert(w.skip(n as int) =~= Seq::<char>::empty());
        if seen {
            Some(Duration::from_secs(total))
        } else {
            None
        }
    }
}

/// The decimal digit for `d < 10`.
pub open spec fn digit_char(d: nat) -> char {
    ((d + 48) as u8) as char
}

/// The decimal spelling of `n`, without leading zeros.
pub open spec fn decimal(n: nat) -> Seq<char>
    decreases n,
{
    if n < 10 {
        seq![digit_char(n)]
    } else {
        decimal(n / 10).push(digit_char(n % 10))
    }
}

/// Pieces `(value, unit letter)` written one after another.
pub open spec fn spell(pieces: Seq<(nat, char)>) -> Seq<char>
    decreases pieces.len(),
{
    if pieces.len() == 0 {
        Seq::empty()
    } else {
        decimal(pieces[0].0) + seq![pieces[0].1] + spell(pieces.drop_first())
    }
}

/// The sum in seconds of pieces `(value, unit letter)`.
pub open spec fn pieces_secs(pieces: Seq<(nat, char)>) -> nat
    decreases pieces.len(),
{
    if pieces.len() == 0 {
        0
    } else {
        pieces[0].0 * unit_secs(pieces[0].1) + pieces_secs(pieces.drop_first())
    }
}

proof fn lemma_decimal(n: nat)
    ensures
        decimal(n).len() >= 1,
        all_digits(decimal(n)),
        digits_value(decimal(n)) == n,
    decreases n,
{
    assert(digit_value(digit_char(n % 10)) == n % 10);
    if n < 10 {
        assert(decimal(n).drop_last() =~= Seq::<char>::empty());
        assert(digits_value(Seq::<char>::empty()) == 0);
        assert(decimal(n).last() == digit_char(n % 10));
    } else {
        lemma_decimal(n / 10);
        let d = decimal(n);
        assert((n / 10) * 10 + n % 10 == n);
        assert(d.last() == digit_char(n % 10));
        assert(d.drop_last() =~= decimal(n / 10));
        assert(all_digits(d)) by {
            assert forall|i: int| 0 <= i < d.len() implies is_digit(#[trigger] d[i]) by {
                if i < d.len() - 1 {
                    assert(d[i] == decimal(n / 10)[i]);
                }
            }
        }
    }
}

proof fn lemma_piece_len_concat(a: Seq<char>, b: Seq<char>)
    requires
        forall|i: int| 0 <= i < a.len() ==> is_digit(#[trigger] a[i]),
    ensures
        piece_len(a + b) == a.len() + piece_len(b),
    decreases a.len(),
{
    if a.len() > 0 {
        assert((a + b).drop_first() =~= a.drop_first() + b);
        assert((a + b)[0] == a[0]);
        lemma_piece_len_concat(a.drop_first(), b);
    } else {
        assert(a + b =~= b);
    }
}

proof fn lemma_total_secs_spell(pieces: Seq<(nat, char)>)
    requires
        forall|i: int| 0 <= i < pieces.len() ==> is_unit(#[trigger] pieces[i].1),
    ensures
        total_secs(spell(pieces)) == Some(pieces_secs(pieces)),
    decreases pieces.len(),
{
    if pieces.len() > 0 {
        let (n, u) = pieces[0];
        let rest = pieces.drop_first();
        assert forall|i: int| 0 <= i < rest.len() implies is_unit(#[trigger] rest[i].1) by {
            assert(rest[i] == pieces[i + 1]);
        }
        lemma_total_secs_spell(rest);
        lemma_decimal(n);
        let d = decimal(n);
        let tail = seq![u] + spell(rest);
        let s = spell(pieces);
        assert(s =~= d + tail);
        assert(piece_len(tail) == 0) by {
            assert(tail[0] == u);
        }
        lemma_piece_len_concat(d, tail);
        let k = d.len() as int;
        assert(s[0] == d[0]);
        assert(s.take(k) =~= d);
        assert(s[k] == u);
        assert(s.skip(k + 1) =~= spell(rest));
        assert(d[0] != '+');
    }
}

/// Pieces written in any order and with repeats read back as the sum of
/// their values in seconds.
pub proof fn lemma_parse_sums_pieces(pieces: Seq<(nat, char)>)
    requires
        pieces.len() > 0,
        forall|i: int| 0 <= i < pieces.len() ==> is_unit(#[trigger] pieces[i].1),
    ensures
        parse_secs(spell(pieces)) == Some(pieces_secs(pieces)),
{
    lemma_total_secs_spell(pieces);
    lemma_decimal(pieces[0].0);
    let s = spell(pieces);
    assert(s =~= decimal(pieces[0].0) + seq![pieces[0].1] + spell(pieces.drop_first()));
    assert(s[0] == decimal(pieces[0].0)[0]);
    assert(!is_space(s[0]));
}

} // verus!
