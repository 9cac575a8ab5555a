use crate::error::UsbtmcErrors;
use vstd::prelude::*;

verus! {

/// ASCII `#`, which opens a definite-length binary block.
pub const BLOCK_MARKER: u8 = 0x23;

/// ASCII `0`.
pub const ASCII_ZERO: u8 = 0x30;

/// Whether `b` is an ASCII decimal digit.
pub open spec fn is_digit(b: u8) -> bool {
    ASCII_ZERO <= b <= 0x39
}

/// Whether every byte of `s` is an ASCII decimal digit.
pub open spec fn all_digits(s: Seq<u8>) -> bool {
    forall|i: int| 0 <= i < s.len() ==> is_digit(#[trigger] s[i])
}

/// The number written in decimal by the ASCII digits `s` (0 when empty).
pub open spec fn decimal_value(s: Seq<u8>) -> nat
    decreases s.len(),
{
    if s.len() == 0 {
        0
    } else {
        decimal_value(s.drop_last()) * 10 + (s.last() - ASCII_ZERO) as nat
    }
}

/// `n` written in decimal ASCII digits, without leading zeros ("0" for 0).
pub open spec fn decimal_digits(n: nat) -> Seq<u8>
    decreases n,
{
    if n < 10 {
        seq![(ASCII_ZERO + n) as u8]
    } else {
        decimal_digits(n / 10).push((ASCII_ZERO + n % 10) as u8)
    }
}

/// The data that the binary block `raw` carries, or `None` when `raw` is not
/// one. A block is `#`, a digit `k`, then `k` digits giving the length of the
/// data that follows and must match it exactly; with `k == 0` there is no
/// length field and everything after the two-byte prefix is the data.
pub open spec fn block_data(raw: Seq<u8>) -> Option<Seq<u8>> {
    if raw.len() < 2 || raw[0] != BLOCK_MARKER || !is_digit(raw[1]) {
        None
    } else {
        let k = (raw[1] - ASCII_ZERO) as int;
        let start = 2 + k;
        if raw.len() < start || !all_digits(raw.subrange(2, start)) {
            None
        } else if k > 0 && decimal_value(raw.subrange(2, start)) != raw.len() - start {
            None
        } else {
            Some(raw.subrange(start, raw.len() as int))
        }
    }
}

/// The binary block that carries `data`: `#`, the number of digits of its
/// length, the length in decimal, then the data.
pub open spec fn binary_block(data: Seq<u8>) -> Seq<u8> {
    let digits = decimal_digits(data.len());
    seq![BLOCK_MARKER, (ASCII_ZERO + digits.len()) as u8] + digits + data
}

/// `10` to the power `n`.
pub open spec fn pow10(n: nat) -> nat
    decreases n,
{
    if n == 0 {
        1
    } else {
        10 * pow10((n - 1) as nat)
    }
}

proof fn lemma_pow10_mono(a: nat, b: nat)
    requires
        a <= b,
    ensures
        pow10(a) <= pow10(b),
    decreases b,
{
    if a < b {
        lemma_pow10_mono(a, (b - 1) as nat);
    }
}

proof fn lemma_decimal_value_bound(s: Seq<u8>)
    requires
        all_digits(s),
    ensures
        decimal_value(s) < pow10(s.len()),
    decreases s.len(),
{
    if s.len() > 0 {
        assert(is_digit(s[s.len() - 1]));
        assert(all_digits(s.drop_last()));
        lemma_decimal_value_bound(s.drop_last());
    }
}

/// The digits of `n` are digits, spell `n`, and there are `d` of them when
/// `n < 10^d` (with `d >= 1`).
proof fn lemma_decimal_digits(n: nat, d: nat)
    requires
        d >= 1,
        n < pow10(d),
    ensures
        all_digits(decimal_digits(n)),
        decimal_value(decimal_digits(n)) == n,
        1 <= decimal_digits(n).len() <= d,
    decreases n,
{
    let s = decimal_digits(n);
    if n < 10 {
        assert(s.drop_last() =~= Seq::<u8>::empty());
        assert(decimal_value(s.drop_last()) == 0);
    } else {
        let p = decimal_digits(n / 10);
        assert(d >= 2) by {
            if d == 1 {
                reveal_with_fuel(pow10, 2);
            }
        }
        assert(n / 10 < pow10((d - 1) as nat)) by (nonlinear_arith)
            requires
                n < pow10(d),
                pow10(d) == 10 * pow10((d - 1) as nat),
        ;
        lemma_decimal_digits(n / 10, (d - 1) as nat);
        assert(s.drop_last() =~= p);
        assert(n == (n / 10) * 10 + n % 10) by (nonlinear_arith);
        assert forall|i: int| 0 <= i < s.len() implies is_digit(#[trigger] s[i]) by {
            if i < p.len() {
                assert(s[i] == p[i]);
            }
        }
    }
}

/// Decodes a definite-length binary block: the data it carries, as a slice
/// of `raw_data`, or `InvalidData` when `raw_data` is not such a block.
pub fn get_data_from_raw(raw_data: &[u8]) -> (r: Result<&[u8], UsbtmcErrors>)
    ensures
        match r {
            Ok(data) => block_data(raw_data@) == Some(data@),
            Err(e) => block_data(raw_data@) is None && e == UsbtmcErrors::InvalidData,
        },
{
    let len = raw_data.len();
    if len < 2 || raw_data[0] != BLOCK_MARKER || raw_data[1] < ASCII_ZERO || raw_data[1] > 0x39 {
        return Err(UsbtmcErrors::InvalidData);
    }
    let num_digits: usize = (raw_data[1] - ASCII_ZERO) as usize;
    let start: usize = 2 + num_digits;
    if len < start {
        return Err(UsbtmcErrors::InvalidData);
    }
    let ghost field = raw_data@.subrange(2, start as int);
    let mut data_size: usize = 0;
    let mut i: usize = 2;
    while i < start
        invariant
            2 <= i <= start,
            raw_data@[0] == BLOCK_MARKER,
            is_digit(raw_data@[1]),
            num_digits == raw_data@[1] - ASCII_ZERO,
            start == 2 + num_digits,
            num_digits <= 9,
            start <= len,
            len == raw_data@.len(),
            field == raw_data@.subrange(2, start as int),
            all_digits(raw_data@.subrange(2, i as int)),
            data_size == decimal_value(raw_data@.subrange(2, i as int)),
        decreases start - i,
    {
        let b = raw_data[i];
        if b < ASCII_ZERO || b > 0x39 {
            assert(!is_digit(field[i - 2]));
            return Err(UsbtmcErrors::InvalidData);
        }
        let ghost done = raw_data@.subrange(2, i as int);
        let ghost next = raw_data@.subrange(2, i + 1);
        proof {
            lemma_decimal_value_bound(done);
            lemma_pow10_mono(done.len(), 8);
            reveal_with_fuel(pow10, 9);
            assert(next.drop_last() =~= done);
        }
        data_size = data_size * 10 + (b - ASCII_ZERO) as usize;
        i += 1;
        assert forall|j: int| 0 <= j < next.len() implies is_digit(#[trigger] next[j]) by {
            if j < done.len() {
                assert(next[j] == done[j]);
            }
        }
    }
    if num_digits > 0 && data_size != len - start {
        return Err(UsbtmcErrors::InvalidData);
    }
    Ok(&raw_data[start..len])
}

/// Decoding the binary block written for `data` gives `data` back, for data
/// shorter than 10^9 bytes (whose length fits in nine digits).
pub proof fn lemma_binary_block_round_trip(data: Seq<u8>)
    requires
        data.len() < 1000000000,
    ensures
        block_data(binary_block(data)) == Some(data),
{
    let digits = decimal_digits(data.len());
    reveal_with_fuel(pow10, 10);
    lemma_decimal_digits(data.len(), 9);
    let raw = binary_block(data);
    let start = 2 + digits.len() as int;
    assert(raw.subrange(2, start) =~= digits);
    assert(raw.subrange(start, raw.len() as int) =~= data);
}

} // verus!
