//! Big-endian numbers written as bytes or as lowercase hexadecimal text.

use vstd::prelude::*;
use vstd::arithmetic::power::{pow, lemma_pow0, lemma_pow1, lemma_pow_adds, lemma_pow_positive};
use crate::text::push_char;

verus! {

/// The number that a big-endian byte string denotes.
pub open spec fn be_value(b: Seq<u8>) -> nat
    decreases b.len(),
{
    if b.len() == 0 {
        0
    } else {
        be_value(b.drop_last()) * 256 + b.last() as nat
    }
}

pub open spec fn is_lower_hex(c: char) -> bool {
    ('0' <= c && c <= '9') || ('a' <= c && c <= 'f')
}

/// The value of one hexadecimal digit (lowercase or uppercase); zero for any other character.
pub open spec fn hex_digit_value(c: char) -> nat {
    if '0' <= c && c <= '9' {
        (c as u32 - 48) as nat
    } else if 'a' <= c && c <= 'f' {
        (c as u32 - 87) as nat
    } else if 'A' <= c && c <= 'F' {
        (c as u32 - 55) as nat
    } else {
        0
    }
}

/// The number that a string of hexadecimal digits denotes, most significant first.
pub open spec fn hex_value(s: Seq<char>) -> nat
    decreases s.len(),
{
    if s.len() == 0 {
        0
    } else {
        hex_value(s.drop_last()) * 16 + hex_digit_value(s.last())
    }
}

/// The lowercase hexadecimal digit for `d < 16`.
pub open spec fn hex_char(d: nat) -> char {
    if d < 10 {
        ((48 + d) as u8) as char
    } else {
        ((87 + d) as u8) as char
    }
}

fn hex_digit(c: char) -> (r: u8)
    ensures
        r as nat == hex_digit_value(c),
        r < 16,
{
    if '0' <= c && c <= '9' {
        (c as u32 - 48) as u8
    } else if 'a' <= c && c <= 'f' {
        (c as u32 - 87) as u8
    } else if 'A' <= c && c <= 'F' {
        (c as u32 - 55) as u8
    } else {
        0
    }
}

fn push_hex_digit(s: &mut String, d: u8)
    requires
        d < 16,
    ensures
        final(s)@ == old(s)@.push(hex_char(d as nat)),
        hex_digit_value(hex_char(d as nat)) == d,
        is_lower_hex(hex_char(d as nat)),
{
    let c = if d < 10 {
        (48 + d) as char
    } else {
        (87 + d) as char
    };
    push_char(s, c);
}

/// Reads pairs of hexadecimal digits into bytes.
pub fn hex_decode(s: &str) -> (r: Vec<u8>)
    requires
        s@.len() % 2 == 0,
    ensures
        r@.len() == s@.len() / 2,
        be_value(r@) == hex_value(s@),
{
    let n = s.unicode_len();
    let mut out: Vec<u8> = Vec::new();
    let mut i: usize = 0;
    assert(s@.take(0) =~= Seq::<char>::empty());
    assert(out@ =~= Seq::<u8>::empty());
    while i < n / 2
        invariant
            n == s@.len(),
            n % 2 == 0,
            i <= n / 2,
            out@.len() == i,
            be_value(out@) == hex_value(s@.take(2 * i)),
        decreases n / 2 - i,
    {
        let hi = hex_digit(s.get_char(2 * i));
        let lo = hex_digit(s.get_char(2 * i + 1));
        let ghost t1 = s@.take(2 * i + 1);
        let ghost t2 = s@.take(2 * i + 2);
        assert(t2.drop_last() =~= t1);
        assert(t1.drop_last() =~= s@.take(2 * i));
        let ghost old_out = out@;
        out.push(hi * 16 + lo);
        assert(out@.drop_last() =~= old_out);
        assert(t2.last() == s@[2 * i + 1]);
        assert(t1.last() == s@[2 * i as int]);
        assert(hex_value(t1) == hex_value(s@.take(2 * i)) * 16 + hi);
        assert(hex_value(t2) == hex_value(t1) * 16 + lo);
        assert(be_value(out@) == be_value(old_out) * 256 + (hi * 16 + lo) as nat);
        i = i + 1;
    }
    assert(s@.take(n as int) =~= s@);
    out
}

/// Writes bytes as two lowercase hexadecimal digits each.
pub fn hex_encode(b: &Vec<u8>) -> (r: String)
    ensures
        r@.len() == 2 * b@.len(),
        hex_value(r@) == be_value(b@),
        forall|i: int| 0 <= i < r@.len() ==> is_lower_hex(#[trigger] r@[i]),
{
    let mut out = String::new();
    let mut i: usize = 0;
    assert(b@.take(0) =~= Seq::<u8>::empty());
    while i < b.len()
        invariant
            i <= b@.len(),
            out@.len() == 2 * i,
            hex_value(out@) == be_value(b@.take(i as int)),
            forall|k: int| 0 <= k < out@.len() ==> is_lower_hex(#[trigger] out@[k]),
        decreases b@.len() - i,
    {
        let x = b[i];
        let ghost o0 = out@;
        push_hex_digit(&mut out, x / 16);
        let ghost o1 = out@;
        push_hex_digit(&mut out, x % 16);
        assert(out@.drop_last() =~= o1);
        assert(o1.drop_last() =~= o0);
        assert(b@.take(i + 1).drop_last() =~= b@.take(i as int));
        assert(x as nat == (x / 16) as nat * 16 + (x % 16) as nat);
        assert(hex_value(o1) == hex_value(o0) * 16 + (x / 16) as nat);
        assert(hex_value(out@) == hex_value(o1) * 16 + (x % 16) as nat);
        assert(b@.take(i + 1).last() == x);
        assert(be_value(b@.take(i + 1)) == be_value(b@.take(i as int)) * 256 + x as nat);
        assert forall|k: int| 0 <= k < out@.len() implies is_lower_hex(#[trigger] out@[k]) by {
            if k < o0.len() {
                assert(out@[k] == o0[k]);
            }
        }
        i = i + 1;
    }
    assert(b@.take(b@.len() as int) =~= b@);
    out
}

pub proof fn lemma_be_value_concat(a: Seq<u8>, b: Seq<u8>)
    ensures
        be_value(a + b) == be_value(a) * pow(256, b.len()) + be_value(b),
    decreases b.len(),
{
    if b.len() == 0 {
        assert(a + b =~= a);
        lemma_pow0(256);
    } else {
        let n = b.len();
        assert((a + b).drop_last() =~= a + b.drop_last());
        lemma_be_value_concat(a, b.drop_last());
        lemma_pow_adds(256, (n - 1) as nat, 1);
        lemma_pow1(256);
        let p = pow(256, (n - 1) as nat);
        assert((be_value(a) * p + be_value(b.drop_last())) * 256 + b.last() as nat == be_value(a) * (
        p * 256) + be_value(b)) by (nonlinear_arith)
            requires
                be_value(b) == be_value(b.drop_last()) * 256 + b.last() as nat,
        ;
    }
}

pub proof fn lemma_hex_value_concat(a: Seq<char>, b: Seq<char>)
    ensures
        hex_value(a + b) == hex_value(a) * pow(16, b.len()) + hex_value(b),
    decreases b.len(),
{
    if b.len() == 0 {
        assert(a + b =~= a);
        lemma_pow0(16);
    } else {
        let n = b.len();
        assert((a + b).drop_last() =~= a + b.drop_last());
        lemma_hex_value_concat(a, b.drop_last());
        lemma_pow_adds(16, (n - 1) as nat, 1);
        lemma_pow1(16);
        let p = pow(16, (n - 1) as nat);
        assert((hex_value(a) * p + hex_value(b.drop_last())) * 16 + hex_digit_value(b.last())
            == hex_value(a) * (p * 16) + hex_value(b)) by (nonlinear_arith)
            requires
                hex_value(b) == hex_value(b.drop_last()) * 16 + hex_digit_value(b.last()),
        ;
    }
}

pub proof fn lemma_hex_value_bound(s: Seq<char>)
    ensures
        hex_value(s) < pow(16, s.len()),
    decreases s.len(),
{
    if s.len() == 0 {
        lemma_pow0(16);
    } else {
        let n = s.len();
        lemma_hex_value_bound(s.drop_last());
        lemma_pow_adds(16, (n - 1) as nat, 1);
        lemma_pow1(16);
        let p = pow(16, (n - 1) as nat);
        assert(hex_digit_value(s.last()) < 16);
        assert(hex_value(s.drop_last()) * 16 + hex_digit_value(s.last()) < p * 16)
            by (nonlinear_arith)
            requires
                hex_value(s.drop_last()) < p,
                hex_digit_value(s.last()) < 16,
        ;
    }
}

pub proof fn lemma_be_value_zeros(z: Seq<u8>)
    requires
        forall|i: int| 0 <= i < z.len() ==> z[i] == 0,
    ensures
        be_value(z) == 0,
    decreases z.len(),
{
    if z.len() > 0 {
        lemma_be_value_zeros(z.drop_last());
    }
}

/// A byte string whose first byte is not zero is at least `256^(len - 1)`.
pub proof fn lemma_be_value_leading(b: Seq<u8>)
    requires
        b.len() >= 1,
        b[0] != 0,
    ensures
        be_value(b) >= pow(256, (b.len() - 1) as nat),
{
    let head = b.take(1);
    let tail = b.skip(1);
    assert(head + tail =~= b);
    lemma_be_value_concat(head, tail);
    assert(head.drop_last() =~= Seq::<u8>::empty());
    assert(be_value(Seq::<u8>::empty()) == 0);
    assert(be_value(head) == b[0] as nat);
    lemma_pow_positive(256, tail.len());
    assert(be_value(head) * pow(256, tail.len()) >= pow(256, tail.len())) by (nonlinear_arith)
        requires
            be_value(head) >= 1,
            pow(256, tail.len()) > 0,
    ;
}

} // verus!
