//! Address parsing: the hexadecimal text of an address, with or without
//! one leading `0x`, to its word form. Character classes are stated over
//! code points, so the parse is specified to the digit.

use crate::primitives::Address;
use vstd::prelude::*;
use vstd::string::StrSliceExecFns;

verus! {

/// Whether `c` is a hexadecimal digit (`0-9`, `a-f` or `A-F`).
pub open spec fn is_hex_digit(c: char) -> bool {
    (48 <= c as u32 && c as u32 <= 57) || (97 <= c as u32 && c as u32 <= 102) || (65 <= c as u32
        && c as u32 <= 70)
}

/// The value of a hexadecimal digit.
pub open spec fn hex_val(c: char) -> int
    recommends
        is_hex_digit(c),
{
    if 48 <= c as u32 && c as u32 <= 57 {
        c as u32 - 48
    } else if 97 <= c as u32 && c as u32 <= 102 {
        c as u32 - 87
    } else {
        c as u32 - 55
    }
}

/// The value of a run of hexadecimal digits, most significant first.
pub open spec fn hex_seq_val(s: Seq<char>) -> int
    decreases s.len(),
{
    if s.len() == 0 {
        0
    } else {
        hex_seq_val(s.drop_last()) * 16 + hex_val(s.last())
    }
}

/// 16 to the power `n`: the exclusive upper bound of `hex_seq_val` on `n`
/// digits.
pub open spec fn pow16(n: nat) -> int
    decreases n,
{
    if n == 0 {
        1
    } else {
        16 * pow16((n - 1) as nat)
    }
}

proof fn lemma_pow16_consts()
    ensures
        pow16(8) == 0x1_0000_0000,
        pow16(16) == 0x1_0000_0000_0000_0000,
{
    reveal_with_fuel(pow16, 17);
}

/// On hexadecimal digits the value is non-negative and below `16^len`.
proof fn lemma_hex_seq_val_bound(s: Seq<char>)
    requires
        forall|i: int| 0 <= i < s.len() ==> is_hex_digit(#[trigger] s[i]),
    ensures
        0 <= hex_seq_val(s) < pow16(s.len()),
    decreases s.len(),
{
    if s.len() > 0 {
        assert(forall|i: int| 0 <= i < s.len() - 1 ==> is_hex_digit(#[trigger] s.drop_last()[i]));
        lemma_hex_seq_val_bound(s.drop_last());
        assert(is_hex_digit(s.last()));
        assert(0 <= hex_val(s.last()) < 16);
        assert(hex_seq_val(s.drop_last()) * 16 + 16 <= pow16((s.len() - 1) as nat) * 16)
            by (nonlinear_arith)
            requires
                hex_seq_val(s.drop_last()) < pow16((s.len() - 1) as nat),
        ;
        assert(hex_seq_val(s.drop_last()) * 16 >= 0) by (nonlinear_arith)
            requires
                hex_seq_val(s.drop_last()) >= 0,
        ;
    }
}

proof fn lemma_pow16_increases(m: nat, n: nat)
    requires
        m <= n,
    ensures
        pow16(m) <= pow16(n),
    decreases n,
{
    if m < n {
        lemma_pow16_increases(m, (n - 1) as nat);
        lemma_pow16_positive((n - 1) as nat);
        assert(pow16((n - 1) as nat) * 1 <= pow16((n - 1) as nat) * 16) by (nonlinear_arith)
            requires
                pow16((n - 1) as nat) >= 1,
        ;
    }
}

proof fn lemma_pow16_positive(n: nat)
    ensures
        pow16(n) >= 1,
    decreases n,
{
    if n > 0 {
        lemma_pow16_positive((n - 1) as nat);
    }
}

/// The address 40 hexadecimal digits spell, big-endian.
pub open spec fn address_of_hex_digits(t: Seq<char>) -> Address
    recommends
        t.len() == 40,
{
    Address {
        w0: hex_seq_val(t.subrange(0, 16)) as u64,
        w1: hex_seq_val(t.subrange(16, 32)) as u64,
        w2: hex_seq_val(t.subrange(32, 40)) as u32,
    }
}

/// The parse of the digits after any prefix: exactly 40 hexadecimal
/// digits; anything else is rejected.
pub open spec fn parse_stripped(t: Seq<char>) -> Option<Address> {
    if t.len() == 40 && (forall|i: int| 0 <= i < 40 ==> is_hex_digit(#[trigger] t[i])) {
        Some(address_of_hex_digits(t))
    } else {
        None
    }
}

/// The parse of an address string: one optional leading `0x`, then exactly
/// 40 hexadecimal digits; anything else is rejected.
pub open spec fn parse_address_spec(s: Seq<char>) -> Option<Address> {
    if s.len() >= 2 && s[0] as u32 == 48 && s[1] as u32 == 120 {
        parse_stripped(s.skip(2))
    } else {
        parse_stripped(s)
    }
}

/// Reads the `len` hexadecimal digits at `s[lo..lo + len]` as one value.
fn parse_hex_run(s: &str, lo: usize, len: usize) -> (r: Option<u64>)
    requires
        lo + len <= s@.len(),
        s@.len() <= usize::MAX,
        len <= 16,
    ensures
        match r {
            Some(v) => (forall|i: int| lo <= i < lo + len ==> is_hex_digit(#[trigger] s@[i]))
                && v == hex_seq_val(s@.subrange(lo as int, lo + len)),
            None => exists|i: int| lo <= i < lo + len && !is_hex_digit(#[trigger] s@[i]),
        },
{
    let ghost sub = s@.subrange(lo as int, lo + len);
    let mut acc: u64 = 0;
    let mut i: usize = 0;
    while i < len
        invariant
            0 <= i <= len,
            len <= 16,
            lo + len <= s@.len(),
            s@.len() <= usize::MAX,
            sub == s@.subrange(lo as int, lo + len),
            forall|j: int| lo <= j < lo + i ==> is_hex_digit(#[trigger] s@[j]),
            acc == hex_seq_val(sub.take(i as int)),
            acc < pow16(i as nat),
        decreases len - i,
    {
        let c = s.get_char(lo + i);
        let cv = c as u32;
        let hv: u32 = if 48 <= cv && cv <= 57 {
            cv - 48
        } else if 97 <= cv && cv <= 102 {
            cv - 87
        } else if 65 <= cv && cv <= 70 {
            cv - 55
        } else {
            proof {
                assert(!is_hex_digit(s@[lo + i]));
            }
            return None;
        };
        proof {
            assert(sub.take(i + 1).drop_last() =~= sub.take(i as int));
            assert(sub.take(i + 1).last() == s@[lo + i]);
            assert(is_hex_digit(s@[lo + i]));
            assert(hv == hex_val(s@[lo + i]));
            assert(forall|j: int| 0 <= j < i + 1 ==> is_hex_digit(#[trigger] sub.take(i + 1)[j]));
            lemma_hex_seq_val_bound(sub.take(i + 1));
            lemma_pow16_consts();
            lemma_pow16_increases(i as nat + 1, 16);
        }
        acc = acc * 16 + (hv as u64);
        i = i + 1;
    }
    proof {
        assert(sub.take(len as int) =~= sub);
    }
    Some(acc)
}

/// Parses an address from hexadecimal text. One leading `0x` is stripped;
/// what remains must be exactly 40 hexadecimal digits.
pub fn parse_address(address: String) -> (r: Option<Address>)
    ensures
        r == parse_address_spec(address@),
{
    let s: &str = address.as_str();
    let n = s.unicode_len();
    let start: usize = if n >= 2 && s.get_char(0) as u32 == 48 && s.get_char(1) as u32 == 120 {
        2
    } else {
        0
    };
    let ghost t = if start == 2 {
        address@.skip(2)
    } else {
        address@
    };
    proof {
        assert(forall|i: int| 0 <= i < t.len() ==> t[i] == s@[start + i]);
        if start == 2 {
            assert(t == address@.skip(2));
            assert(parse_address_spec(address@) == parse_stripped(t));
        } else {
            assert(t == address@);
            assert(parse_address_spec(address@) == parse_stripped(t));
        }
    }
    if n - start != 40 {
        return None;
    }
    let w0 = match parse_hex_run(s, start, 16) {
        Some(v) => v,
        None => {
            proof {
                let k = choose|i: int| start <= i < start + 16 && !is_hex_digit(#[trigger] s@[i]);
                assert(t[k - start] == s@[k]);
                assert(!is_hex_digit(t[k - start]));
            }
            return None;
        },
    };
    let w1 = match parse_hex_run(s, start + 16, 16) {
        Some(v) => v,
        None => {
            proof {
                let k = choose|i: int| start + 16 <= i < start + 32 && !is_hex_digit(#[trigger] s@[i]);
                assert(t[k - start] == s@[k]);
                assert(!is_hex_digit(t[k - start]));
            }
            return None;
        },
    };
    let w2run = match parse_hex_run(s, start + 32, 8) {
        Some(v) => v,
        None => {
            proof {
                let k = choose|i: int| start + 32 <= i < start + 40 && !is_hex_digit(#[trigger] s@[i]);
                assert(t[k - start] == s@[k]);
                assert(!is_hex_digit(t[k - start]));
            }
            return None;
        },
    };
    proof {
        assert(t.subrange(0, 16) =~= s@.subrange(start as int, start + 16));
        assert(t.subrange(16, 32) =~= s@.subrange(start + 16, start + 32));
        assert(t.subrange(32, 40) =~= s@.subrange(start + 32, start + 40));
        assert(forall|i: int| 0 <= i < 40 ==> is_hex_digit(#[trigger] t[i]));
        lemma_hex_seq_val_bound(t.subrange(32, 40));
        lemma_pow16_consts();
    }
    let w2: u32 = w2run as u32;
    Some(Address { w0, w1, w2 })
}

} // verus!
