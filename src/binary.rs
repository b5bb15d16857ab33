//! The contract's native binary encoding of action arguments.
//!
//! Each reader takes the payload and a position, and gives the value read
//! there with the position just after it, or `None` where the bytes do not
//! hold a value of that kind.

use vstd::prelude::*;
use vstd::utf8::{decode_utf8, valid_utf8};
use crate::text::{hex_encode, hex_of, string_of_chars};

verus! {

/// The unsigned little-endian value of the `n` bytes at `p`.
pub open spec fn le_value(b: Seq<u8>, p: int, n: nat) -> nat
    decreases n,
{
    if n == 0 {
        0
    } else {
        b[p] as nat + 256 * le_value(b, p + 1, (n - 1) as nat)
    }
}

pub open spec fn pow256(n: nat) -> nat
    decreases n,
{
    if n == 0 {
        1
    } else {
        256 * pow256((n - 1) as nat)
    }
}

/// The `n`-byte little-endian unsigned integer at `p`.
pub open spec fn uint_at(b: Seq<u8>, p: int, n: nat) -> Option<(nat, int)> {
    if 0 <= p && p + n <= b.len() {
        Some((le_value(b, p, n), p + n))
    } else {
        None
    }
}

/// The LEB128 unsigned integer at `p`, of at most `k` bytes.
pub open spec fn varuint_at(b: Seq<u8>, p: int, k: nat) -> Option<(nat, int)>
    decreases k,
{
    if k == 0 || p < 0 || p >= b.len() {
        None
    } else if b[p] < 128 {
        Some((b[p] as nat, p + 1))
    } else {
        match varuint_at(b, p + 1, (k - 1) as nat) {
            Some((v, q)) => Some(((b[p] - 128) as nat + 128 * v, q)),
            None => None,
        }
    }
}

/// A length prefix: a LEB128 integer of at most five bytes that fits in 32 bits.
pub open spec fn length_at(b: Seq<u8>, p: int) -> Option<(nat, int)> {
    match varuint_at(b, p, 5) {
        Some((v, q)) => if v < 0x1_0000_0000 { Some((v, q)) } else { None },
        None => None,
    }
}

/// The character that a 5-bit (or, last, 4-bit) group of an account name stands for.
pub open spec fn name_symbol(d: u64) -> char {
    if d == 0 {
        '.'
    } else if d <= 5 {
        ((d + 48) as u8) as char
    } else {
        ((d + 91) as u8) as char
    }
}

/// The group of bits of a name value that its `j`-th character encodes.
pub open spec fn name_group(v: u64, j: int) -> u64 {
    if j < 12 {
        (v >> ((59 - 5 * j) as u64)) & 31
    } else {
        v & 15
    }
}

/// The thirteen characters of a name value, trailing dots included.
pub open spec fn name_chars(v: u64) -> Seq<char> {
    Seq::new(13, |j: int| name_symbol(name_group(v, j)))
}

/// A sequence with its trailing dots taken off.
pub open spec fn trim_dots(s: Seq<char>) -> Seq<char>
    decreases s.len(),
{
    if s.len() > 0 && s.last() == '.' {
        trim_dots(s.drop_last())
    } else {
        s
    }
}

/// The text of an account name.
pub open spec fn name_text(v: u64) -> Seq<char> {
    trim_dots(name_chars(v))
}

/// The account name at `p`: eight bytes.
pub open spec fn name_at(b: Seq<u8>, p: int) -> Option<(Seq<char>, int)> {
    match uint_at(b, p, 8) {
        Some((v, q)) => Some((name_text(v as u64), q)),
        None => None,
    }
}

/// The 256-bit checksum at `p`, as hex text.
pub open spec fn checksum_at(b: Seq<u8>, p: int) -> Option<(Seq<char>, int)> {
    if 0 <= p && p + 32 <= b.len() {
        Some((hex_of(b.subrange(p, p + 32)), p + 32))
    } else {
        None
    }
}

/// The string at `p`: a length prefix and that many bytes of UTF-8.
pub open spec fn string_at(b: Seq<u8>, p: int) -> Option<(Seq<char>, int)> {
    match length_at(b, p) {
        Some((n, q)) => if q + n <= b.len() && valid_utf8(b.subrange(q, q + n)) {
            Some((decode_utf8(b.subrange(q, q + n)), q + n))
        } else {
            None
        },
        None => None,
    }
}

/// Whether an executable read result is the spec one.
pub open spec fn read_as<T>(r: Option<(T, usize)>, s: Option<(T, int)>) -> bool {
    match r {
        Some((v, q)) => s == Some((v, q as int)),
        None => s is None,
    }
}

/// Whether an executable text read result is the spec one.
pub open spec fn text_read_as(r: Option<(String, usize)>, s: Option<(Seq<char>, int)>) -> bool {
    match r {
        Some((v, q)) => s == Some((v@, q as int)),
        None => s is None,
    }
}

proof fn lemma_le_value_bound(b: Seq<u8>, p: int, n: nat)
    ensures
        le_value(b, p, n) < pow256(n),
    decreases n,
{
    if n > 0 {
        lemma_le_value_bound(b, p + 1, (n - 1) as nat);
        let r = le_value(b, p + 1, (n - 1) as nat);
        let m = pow256((n - 1) as nat);
        assert(b[p] as nat + 256 * r < 256 * m) by (nonlinear_arith)
            requires
                r < m,
                b[p] < 256,
        ;
    }
}

/// Reads an `n`-byte little-endian unsigned integer.
pub fn read_uint(b: &[u8], p: usize, n: usize) -> (r: Option<(u64, usize)>)
    requires
        n <= 8,
    ensures
        match r {
            Some((v, q)) => uint_at(b@, p as int, n as nat) == Some((v as nat, q as int)),
            None => uint_at(b@, p as int, n as nat) is None,
        },
{
    if p > b.len() || n > b.len() - p {
        return None;
    }
    let end = p + n;
    let mut v: u64 = 0;
    let mut i: usize = n;
    assert(pow256(0) == 1);
    while i > 0
        invariant
            n <= 8,
            i <= n,
            end == p + n,
            p + n <= b@.len(),
            v as nat == le_value(b@, p + i, (n - i) as nat),
            v < pow256((n - i) as nat),
        decreases i,
    {
        let ghost k = (n - i) as nat;
        assert(k < 8);
        assert(v * 256 < 0x1_0000_0000_0000_0000) by {
            assert(pow256(0) == 1);
            assert(pow256(1) == 256);
            assert(pow256(2) == 65536);
            assert(pow256(3) == 16777216);
            assert(pow256(4) == 4294967296);
            assert(pow256(5) == 1099511627776);
            assert(pow256(6) == 281474976710656);
            assert(pow256(7) == 72057594037927936);
            assert(pow256(k) <= 72057594037927936);
        }
        let byte = b[p + i - 1];
        v = byte as u64 + v * 256;
        i = i - 1;
        proof {
            assert(le_value(b@, p + i, (n - i) as nat) == byte as nat + 256 * le_value(b@, p + i + 1, k));
            lemma_le_value_bound(b@, p + i, (n - i) as nat);
        }
    }
    Some((v, p + n))
}

/// Reads a LEB128 unsigned integer of at most `k` bytes.
pub fn read_varuint(b: &[u8], p: usize, k: usize) -> (r: Option<(u64, usize)>)
    requires
        k <= 5,
    ensures
        match r {
            Some((v, q)) => varuint_at(b@, p as int, k as nat) == Some((v as nat, q as int)),
            None => varuint_at(b@, p as int, k as nat) is None,
        },
        r matches Some((v, q)) ==> v < pow128(k as nat),
    decreases k,
{
    if k == 0 || p >= b.len() {
        return None;
    }
    let byte = b[p];
    if byte < 128 {
        proof {
            assert(pow128((k - 1) as nat) >= 1) by {
                lemma_pow128_pos((k - 1) as nat);
            }
        }
        return Some((byte as u64, p + 1));
    }
    match read_varuint(b, p + 1, k - 1) {
        Some((v, q)) => {
            proof {
                assert(pow128((k - 1) as nat) <= pow128(4)) by {
                    lemma_pow128_mono((k - 1) as nat, 4);
                }
                assert(pow128(0) == 1);
                assert(pow128(1) == 128);
                assert(pow128(2) == 16384);
                assert(pow128(3) == 2097152);
                assert(pow128(4) == 268435456);
                assert((byte - 128) as nat + 128 * v < 128 * pow128((k - 1) as nat)) by (nonlinear_arith)
                    requires
                        v < pow128((k - 1) as nat),
                        byte >= 128,
                ;
            }
            Some(((byte - 128) as u64 + 128 * v, q))
        },
        None => None,
    }
}

pub open spec fn pow128(n: nat) -> nat
    decreases n,
{
    if n == 0 {
        1
    } else {
        128 * pow128((n - 1) as nat)
    }
}

proof fn lemma_pow128_pos(n: nat)
    ensures
        pow128(n) >= 1,
    decreases n,
{
    if n > 0 {
        lemma_pow128_pos((n - 1) as nat);
    }
}

proof fn lemma_pow128_mono(a: nat, c: nat)
    requires
        a <= c,
    ensures
        pow128(a) <= pow128(c),
    decreases c,
{
    if a < c {
        lemma_pow128_mono(a, (c - 1) as nat);
        lemma_pow128_pos((c - 1) as nat);
    }
}

/// Reads a length prefix.
pub fn read_length(b: &[u8], p: usize) -> (r: Option<(usize, usize)>)
    ensures
        match r {
            Some((v, q)) => length_at(b@, p as int) == Some((v as nat, q as int)),
            None => length_at(b@, p as int) is None,
        },
        r matches Some((v, q)) ==> q <= b@.len(),
{
    match read_varuint(b, p, 5) {
        Some((v, q)) => {
            if v < 0x1_0000_0000 && v <= usize::MAX as u64 {
                proof {
                    lemma_varuint_end(b@, p as int, 5);
                }
                Some((v as usize, q))
            } else {
                if v < 0x1_0000_0000 {
                    // lengths past the address space cannot fit in the payload
                    assert(false) by {
                        assert(usize::MAX >= 0xffff_ffff);
                    }
                }
                None
            }
        },
        None => None,
    }
}

proof fn lemma_varuint_end(b: Seq<u8>, p: int, k: nat)
    ensures
        varuint_at(b, p, k) matches Some((v, q)) ==> p < q <= b.len(),
    decreases k,
{
    if k > 0 && 0 <= p < b.len() && b[p] >= 128 {
        lemma_varuint_end(b, p + 1, (k - 1) as nat);
    }
}

/// Relies on std's `String::from_utf8`: it accepts exactly the valid UTF-8
/// byte sequences and gives the characters they encode.
#[verifier::external_body]
fn text_of_utf8(b: &[u8]) -> (r: Option<String>)
    ensures
        r is Some <==> valid_utf8(b@),
        r matches Some(t) ==> t@ == decode_utf8(b@),
{
    String::from_utf8(b.to_vec()).ok()
}

/// The character for one group of bits of a name.
fn name_symbol_of(d: u64) -> (c: char)
    requires
        d < 32,
    ensures
        c == name_symbol(d),
{
    if d == 0 {
        '.'
    } else if d <= 5 {
        ((d + 48) as u8) as char
    } else {
        ((d + 91) as u8) as char
    }
}

/// The text of an account name value.
pub fn name_string(v: u64) -> (r: String)
    ensures
        r@ == name_text(v),
{
    let mut cs: Vec<char> = Vec::new();
    let mut j: u64 = 0;
    while j < 13
        invariant
            j <= 13,
            cs@ == name_chars(v).take(j as int),
        decreases 13 - j,
    {
        let d = if j < 12 {
            (v >> (59 - 5 * j)) & 31
        } else {
            v & 15
        };
        assert(d < 32) by (bit_vector)
            requires
                d == (v >> ((59 - 5 * j) as u64)) & 31 || d == v & 15,
        ;
        cs.push(name_symbol_of(d));
        proof {
            assert(cs@ =~= name_chars(v).take(j + 1));
        }
        j = j + 1;
    }
    assert(cs@ =~= name_chars(v));
    while cs.len() > 0 && cs[cs.len() - 1] == '.'
        invariant
            trim_dots(cs@) == name_text(v),
        decreases cs.len(),
    {
        let ghost before = cs@;
        cs.pop();
        assert(cs@ =~= before.drop_last());
    }
    string_of_chars(&cs)
}

/// Reads an account name.
pub fn read_name(b: &[u8], p: usize) -> (r: Option<(String, usize)>)
    ensures
        text_read_as(r, name_at(b@, p as int)),
{
    match read_uint(b, p, 8) {
        Some((v, q)) => Some((name_string(v), q)),
        None => None,
    }
}

/// Reads a 256-bit checksum as hex text.
pub fn read_checksum(b: &[u8], p: usize) -> (r: Option<(String, usize)>)
    ensures
        text_read_as(r, checksum_at(b@, p as int)),
{
    if p > b.len() || 32 > b.len() - p {
        return None;
    }
    let bytes = vstd::slice::slice_subrange(b, p, p + 32);
    Some((hex_encode(bytes), p + 32))
}

/// Reads a length-prefixed UTF-8 string.
pub fn read_string(b: &[u8], p: usize) -> (r: Option<(String, usize)>)
    ensures
        text_read_as(r, string_at(b@, p as int)),
{
    match read_length(b, p) {
        Some((n, q)) => {
            if n > b.len() - q {
                return None;
            }
            let bytes = vstd::slice::slice_subrange(b, q, q + n);
            match text_of_utf8(bytes) {
                Some(t) => Some((t, q + n)),
                None => None,
            }
        },
        None => None,
    }
}

pub open spec fn digit_char(d: nat) -> char {
    ((d + 48) as u8) as char
}

/// The decimal digits of a number, without leading zeros.
pub open spec fn decimal(n: nat) -> Seq<char>
    decreases n,
{
    if n < 10 {
        seq![digit_char(n)]
    } else {
        decimal(n / 10) + seq![digit_char(n % 10)]
    }
}

/// The last `w` decimal digits of a number, with leading zeros.
pub open spec fn padded(n: nat, w: nat) -> Seq<char>
    decreases w,
{
    if w == 0 {
        Seq::empty()
    } else {
        padded(n / 10, (w - 1) as nat) + seq![digit_char(n % 10)]
    }
}

pub open spec fn pow10(n: nat) -> nat
    decreases n,
{
    if n == 0 {
        1
    } else {
        10 * pow10((n - 1) as nat)
    }
}

/// The `k`-th byte of a value, least significant first.
pub open spec fn byte_of(v: u64, k: nat) -> u64 {
    (v >> (8 * k) as u64) & 0xff
}

/// The code of a symbol value from its `k`-th byte: bytes up to the first zero.
pub open spec fn code_from(sym: u64, k: nat) -> Seq<char>
    decreases 8 - k,
{
    if k >= 8 || byte_of(sym, k) == 0 {
        Seq::empty()
    } else {
        seq![(byte_of(sym, k) as u8) as char] + code_from(sym, k + 1)
    }
}

/// The text of an asset: the amount with as many decimals as the symbol's
/// precision (its lowest byte), a space, and the symbol's code.
pub open spec fn asset_text(amount: i64, sym: u64) -> Seq<char> {
    let prec = (sym & 0xff) as nat;
    let a = if amount < 0 { -amount } else { amount as int } as nat;
    let sign = if amount < 0 { seq!['-'] } else { Seq::empty() };
    let frac = if prec > 0 { seq!['.'] + padded(a % pow10(prec), prec) } else { Seq::empty() };
    sign + decimal(a / pow10(prec)) + frac + seq![' '] + code_from(sym, 1)
}

/// The asset at `p`: an eight-byte signed amount and an eight-byte symbol,
/// whose precision is at most 18.
pub open spec fn asset_at(b: Seq<u8>, p: int) -> Option<(Seq<char>, int)> {
    match uint_at(b, p, 8) {
        Some((a, q)) => match uint_at(b, q, 8) {
            Some((sym, e)) => if (sym as u64) & 0xff <= 18 {
                Some((asset_text((a as u64) as i64, sym as u64), e))
            } else {
                None
            },
            None => None,
        },
        None => None,
    }
}

fn push_decimal(n: u64, out: &mut Vec<char>)
    ensures
        final(out)@ == old(out)@ + decimal(n as nat),
    decreases n,
{
    if n >= 10 {
        push_decimal(n / 10, out);
    }
    out.push(((n % 10 + 48) as u8) as char);
    proof {
        assert(decimal(n as nat) == if n < 10 {
            seq![digit_char(n as nat)]
        } else {
            decimal((n / 10) as nat) + seq![digit_char((n % 10) as nat)]
        });
    }
    assert(out@ =~= old(out)@ + decimal(n as nat));
}

fn push_padded(n: u64, w: u64, out: &mut Vec<char>)
    ensures
        final(out)@ == old(out)@ + padded(n as nat, w as nat),
    decreases w,
{
    if w > 0 {
        push_padded(n / 10, w - 1, out);
        out.push(((n % 10 + 48) as u8) as char);
    }
    assert(out@ =~= old(out)@ + padded(n as nat, w as nat));
}

/// The text of an asset whose precision is at most 18.
pub fn asset_string(amount: i64, sym: u64) -> (r: String)
    requires
        sym & 0xff <= 18,
    ensures
        r@ == asset_text(amount, sym),
{
    let prec: u64 = sym & 0xff;
    let a: u64 = if amount < 0 { (0 - (amount as i128)) as u64 } else { amount as u64 };
    let mut scale: u64 = 1;
    let mut i: u64 = 0;
    while i < prec
        invariant
            prec <= 18,
            i <= prec,
            scale as nat == pow10(i as nat),
            scale <= 1_000_000_000_000_000_000,
            scale >= 1,
        decreases prec - i,
    {
        proof {
            lemma_pow10_le((i + 1) as nat, 18);
            reveal_with_fuel(pow10, 19);
            assert(pow10((i + 1) as nat) == 10 * pow10(i as nat));
        }
        scale = scale * 10;
        i = i + 1;
    }
    let mut cs: Vec<char> = Vec::new();
    if amount < 0 {
        cs.push('-');
    }
    push_decimal(a / scale, &mut cs);
    if prec > 0 {
        cs.push('.');
        push_padded(a % scale, prec, &mut cs);
    }
    cs.push(' ');
    let mut k: u64 = 1;
    let ghost head = cs@;
    while k < 8 && (sym >> (8 * k)) & 0xff != 0
        invariant
            1 <= k <= 8,
            cs@ + code_from(sym, k as nat) == head + code_from(sym, 1),
        decreases 8 - k,
    {
        let byte = (sym >> (8 * k)) & 0xff;
        assert(byte <= 255) by (bit_vector)
            requires
                byte == (sym >> (8 * k)) & 0xff,
        ;
        let c = (byte as u8) as char;
        let ghost before = cs@;
        cs.push(c);
        assert(before + code_from(sym, k as nat) =~= cs@ + code_from(sym, (k + 1) as nat));
        k = k + 1;
    }
    assert(code_from(sym, k as nat) =~= Seq::empty());
    assert(cs@ =~= head + code_from(sym, 1));
    assert(cs@ =~= asset_text(amount, sym));
    string_of_chars(&cs)
}

proof fn lemma_pow10_le(i: nat, c: nat)
    requires
        i <= c,
    ensures
        pow10(i) <= pow10(c),
    decreases c,
{
    if i < c {
        lemma_pow10_le(i, (c - 1) as nat);
    }
}

/// Reads an asset.
pub fn read_asset(b: &[u8], p: usize) -> (r: Option<(String, usize)>)
    ensures
        text_read_as(r, asset_at(b@, p as int)),
{
    match read_uint(b, p, 8) {
        Some((a, q)) => match read_uint(b, q, 8) {
            Some((sym, e)) => {
                if sym & 0xff <= 18 {
                    Some((asset_string(a as i64, sym), e))
                } else {
                    None
                }
            },
            None => None,
        },
        None => None,
    }
}

} // verus!
