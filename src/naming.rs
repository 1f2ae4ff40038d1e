//! The name of a challenge: its range in whole yards and an eight-digit
//! hexadecimal digest of its distances, as in `20 - 40 0a1b2c3d`.
use vstd::prelude::*;
use vstd::string::*;

use crate::units::Yards;

verus! {

/// The digits `0`-`9` then `a`-`f`.
pub open spec fn digit_chars() -> Seq<char> {
    seq!['0', '1', '2', '3', '4', '5', '6', '7', '8', '9', 'a', 'b', 'c', 'd', 'e', 'f']
}

/// `n` in decimal, without leading zeros.
pub open spec fn decimal(n: nat) -> Seq<char>
    decreases n,
{
    if n < 10 {
        seq![digit_chars()[n as int]]
    } else {
        decimal(n / 10).push(digit_chars()[(n % 10) as int])
    }
}

/// The `width` lowest hexadecimal digits of `v`, lowercase, with leading
/// zeros.
pub open spec fn hex_fixed(v: nat, width: nat) -> Seq<char>
    decreases width,
{
    if width == 0 {
        seq![]
    } else {
        hex_fixed(v / 16, (width - 1) as nat).push(digit_chars()[(v % 16) as int])
    }
}

/// A milli-yard length in whole yards, halves rounded up.
pub open spec fn rounded_yards(my: nat) -> nat {
    (my + 500) / 1000
}

/// The name of a challenge over `[lo, hi)` whose distances hash to `uid`.
pub open spec fn challenge_name(lo: Yards, hi: Yards, uid: u32) -> Seq<char> {
    decimal(rounded_yards(lo.0 as nat)) + seq![' ', '-', ' '] + decimal(rounded_yards(hi.0 as nat))
        + seq![' '] + hex_fixed(uid as nat, 8)
}

/// The milli-yard values of a sequence of lengths.
pub open spec fn milli_seq(ys: Seq<Yards>) -> Seq<usize> {
    ys.map_values(|y: Yards| y.0)
}

/// The 64-bit digest that std's `DefaultHasher` gives for the values `ms`
/// fed to it one after another.
pub uninterp spec fn default_hash_of(ms: Seq<usize>) -> u64;

/// The identifier of a sequence of distances: the low 32 bits of the digest
/// of their milli-yard values.
pub open spec fn uid_of(ys: Seq<Yards>) -> u32 {
    (default_hash_of(milli_seq(ys)) % 0x1_0000_0000) as u32
}

/// Relies on std's `DefaultHasher`: a SipHash whose hashers made by `new`
/// all start alike, so the digest is a function of the values hashed.
#[verifier::external_body]
fn hash_milli_yards(ms: &[usize]) -> (r: u64)
    ensures
        r == default_hash_of(ms@),
{
    let mut s = std::collections::hash_map::DefaultHasher::new();
    std::hash::Hash::hash_slice(ms, &mut s);
    std::hash::Hasher::finish(&s)
}

/// The identifier of the distances `ys`.
pub fn uid(ys: &Vec<Yards>) -> (r: u32)
    ensures
        r == uid_of(ys@),
{
    let mut ms: Vec<usize> = Vec::new();
    let mut i: usize = 0;
    while i < ys.len()
        invariant
            i <= ys@.len(),
            ms@ == milli_seq(ys@.subrange(0, i as int)),
        decreases ys@.len() - i,
    {
        proof {
            assert(ys@.subrange(0, i + 1) =~= ys@.subrange(0, i as int).push(ys@[i as int]));
        }
        ms.push(ys[i].0);
        assert(ms@ =~= milli_seq(ys@.subrange(0, i + 1)));
        i = i + 1;
    }
    assert(ys@.subrange(0, ys@.len() as int) =~= ys@);
    let h = hash_milli_yards(ms.as_slice());
    (h % 0x1_0000_0000) as u32
}

/// The one-character text of digit `d`.
fn digit_str(d: usize) -> (r: &'static str)
    requires
        d < 16,
    ensures
        r@ == seq![digit_chars()[d as int]],
{
    let all = "0123456789abcdef";
    proof {
        reveal_strlit("0123456789abcdef");
        assert(all@ =~= digit_chars());
    }
    let r = all.substring_char(d, d + 1);
    assert(r@ =~= seq![digit_chars()[d as int]]);
    r
}

/// Appends `n` in decimal to `s`.
fn push_decimal(s: &mut String, n: usize)
    ensures
        final(s)@ == old(s)@ + decimal(n as nat),
    decreases n,
{
    if n >= 10 {
        push_decimal(s, n / 10);
    }
    s.append(digit_str(n % 10));
    assert(final(s)@ =~= old(s)@ + decimal(n as nat));
}

/// Appends the `width` lowest hexadecimal digits of `v` to `s`.
fn push_hex(s: &mut String, v: u32, width: usize)
    ensures
        final(s)@ == old(s)@ + hex_fixed(v as nat, width as nat),
    decreases width,
{
    if width > 0 {
        push_hex(s, v / 16, width - 1);
        s.append(digit_str((v % 16) as usize));
    }
    assert(final(s)@ =~= old(s)@ + hex_fixed(v as nat, width as nat));
}

/// A milli-yard length in whole yards, halves rounded up.
pub fn round_yards(y: Yards) -> (r: usize)
    ensures
        r == rounded_yards(y.0 as nat),
{
    let m = y.0;
    let up: usize = if m % 1000 >= 500 { 1 } else { 0 };
    assert((m + 500) / 1000 == m / 1000 + up) by (nonlinear_arith)
        requires
            up == (if m % 1000 >= 500 { 1int } else { 0int }),
            m >= 0,
    ;
    m / 1000 + up
}

/// The name of a challenge over `[lo, hi)` whose distances hash to `uid`.
pub fn format_name(lo: Yards, hi: Yards, uid: u32) -> (r: String)
    ensures
        r@ == challenge_name(lo, hi, uid),
{
    let mut s = String::new();
    push_decimal(&mut s, round_yards(lo));
    proof {
        reveal_strlit(" - ");
        reveal_strlit(" ");
    }
    s.append(" - ");
    push_decimal(&mut s, round_yards(hi));
    s.append(" ");
    push_hex(&mut s, uid, 8);
    assert(s@ =~= challenge_name(lo, hi, uid));
    s
}

/// Every character of a decimal rendering is one of `0`-`9`.
pub proof fn lemma_decimal_digits(n: nat)
    ensures
        decimal(n).len() >= 1,
        forall|k: int| 0 <= k < decimal(n).len() ==> is_decimal_digit(#[trigger] decimal(n)[k]),
    decreases n,
{
    if n >= 10 {
        lemma_decimal_digits(n / 10);
        assert forall|k: int| 0 <= k < decimal(n).len() implies is_decimal_digit(
            #[trigger] decimal(n)[k],
        ) by {
            if k < decimal(n / 10).len() {
                assert(decimal(n)[k] == decimal(n / 10)[k]);
            }
        }
    }
}

/// A fixed-width hexadecimal rendering has exactly `width` characters, each
/// one of `0`-`9` or `a`-`f`.
pub proof fn lemma_hex_fixed_digits(v: nat, width: nat)
    ensures
        hex_fixed(v, width).len() == width,
        forall|k: int| 0 <= k < width ==> is_hex_digit(#[trigger] hex_fixed(v, width)[k]),
    decreases width,
{
    if width > 0 {
        lemma_hex_fixed_digits(v / 16, (width - 1) as nat);
        assert forall|k: int| 0 <= k < width implies is_hex_digit(#[trigger] hex_fixed(v, width)[k]) by {
            if k < width - 1 {
                assert(hex_fixed(v, width)[k] == hex_fixed(v / 16, (width - 1) as nat)[k]);
            }
        }
    }
}

/// `c` is one of `0`-`9`.
pub open spec fn is_decimal_digit(c: char) -> bool {
    '0' <= c <= '9'
}

/// `c` is one of `0`-`9` or `a`-`f`.
pub open spec fn is_hex_digit(c: char) -> bool {
    ('0' <= c <= '9') || ('a' <= c <= 'f')
}

/// A challenge name is the rounded lower bound in decimal digits, `" - "`,
/// the rounded upper bound in decimal digits, a space, and exactly eight
/// lowercase hexadecimal digits.
pub proof fn lemma_name_shape(lo: Yards, hi: Yards, uid: u32)
    ensures
        ({
            let name = challenge_name(lo, hi, uid);
            let a = decimal(rounded_yards(lo.0 as nat));
            let b = decimal(rounded_yards(hi.0 as nat));
            let t = hex_fixed(uid as nat, 8);
            &&& name == a + seq![' ', '-', ' '] + b + seq![' '] + t
            &&& a.len() >= 1 && forall|k: int| 0 <= k < a.len() ==> is_decimal_digit(#[trigger] a[k])
            &&& b.len() >= 1 && forall|k: int| 0 <= k < b.len() ==> is_decimal_digit(#[trigger] b[k])
            &&& t.len() == 8 && forall|k: int| 0 <= k < 8 ==> is_hex_digit(#[trigger] t[k])
        }),
{
    lemma_decimal_digits(rounded_yards(lo.0 as nat));
    lemma_decimal_digits(rounded_yards(hi.0 as nat));
    lemma_hex_fixed_digits(uid as nat, 8);
}

/// The identifier is a function of the distances alone: the same distances
/// give the same identifier every time it is computed.
pub proof fn lemma_uid_deterministic(a: Seq<Yards>, b: Seq<Yards>)
    requires
        a == b,
    ensures
        uid_of(a) == uid_of(b),
{
}

} // verus!
