//! Device identity: a Bluetooth hardware address, held as its 48-bit value,
//! with the colon-joined hex text it is written as in the favorites file.

use vstd::prelude::*;
use vstd::string::StrSliceExecFns;

use crate::bluetooth::is_hex_digit;
use crate::strings::push_char;

verus! {

/// The largest value a 48-bit Bluetooth address can take, plus one.
pub const ADDRESS_LIMIT: u64 = 0x1_0000_0000_0000;

/// A Bluetooth device address: the six octets of the hardware address,
/// read big-endian as one 48-bit number.
#[derive(Debug, Clone, Copy, PartialEq, Eq, Structural, Hash)]
pub struct Address {
    pub bits: u64,
}

impl Address {
    /// A well-formed address fits in 48 bits.
    pub open spec fn wf(self) -> bool {
        self.bits < ADDRESS_LIMIT
    }

    pub fn new(bits: u64) -> (r: Address)
        requires
            bits < ADDRESS_LIMIT,
        ensures
            r.bits == bits,
            r.wf(),
    {
        Address { bits }
    }
}

pub open spec fn is_upper_hex_digit(c: char) -> bool {
    ('0' <= c && c <= '9') || ('A' <= c && c <= 'F')
}

pub open spec fn hex_digit_value(c: char) -> int {
    if '0' <= c && c <= '9' {
        c as int - '0' as int
    } else if 'a' <= c && c <= 'f' {
        c as int - 'a' as int + 10
    } else {
        c as int - 'A' as int + 10
    }
}

pub open spec fn upper_hex_char(d: int) -> char {
    if d == 0 {
        '0'
    } else if d == 1 {
        '1'
    } else if d == 2 {
        '2'
    } else if d == 3 {
        '3'
    } else if d == 4 {
        '4'
    } else if d == 5 {
        '5'
    } else if d == 6 {
        '6'
    } else if d == 7 {
        '7'
    } else if d == 8 {
        '8'
    } else if d == 9 {
        '9'
    } else if d == 10 {
        'A'
    } else if d == 11 {
        'B'
    } else if d == 12 {
        'C'
    } else if d == 13 {
        'D'
    } else if d == 14 {
        'E'
    } else {
        'F'
    }
}

/// The written form of an address: six hex pairs joined by colons.
pub open spec fn is_address_text(s: Seq<char>) -> bool {
    s.len() == 17 && forall|i: int|
        0 <= i < 17 ==> (if i % 3 == 2 {
            #[trigger] s[i] == ':'
        } else {
            is_hex_digit(s[i])
        })
}

/// Where the `k`-th hex digit of the text stands, skipping the colons.
pub open spec fn digit_pos(k: int) -> int {
    3 * (k / 2) + (k % 2)
}

/// The number the first `k` hex digits of an address text denote.
pub open spec fn address_text_value(s: Seq<char>, k: int) -> int
    decreases k,
{
    if k <= 0 {
        0
    } else {
        address_text_value(s, k - 1) * 16 + hex_digit_value(s[digit_pos(k - 1)])
    }
}

pub open spec fn pow16(n: nat) -> int
    decreases n,
{
    if n == 0 {
        1
    } else {
        16 * pow16((n - 1) as nat)
    }
}

proof fn lemma_pow16_pos(n: nat)
    ensures
        pow16(n) >= 1,
    decreases n,
{
    if n > 0 {
        lemma_pow16_pos((n - 1) as nat);
    }
}

proof fn lemma_address_text_value_bound(s: Seq<char>, k: int)
    requires
        0 <= k,
        forall|t: int| 0 <= t < k ==> is_upper_hex_digit(#[trigger] s[digit_pos(t)]),
    ensures
        0 <= address_text_value(s, k) < pow16(k as nat),
    decreases k,
{
    if k == 0 {
    } else {
        lemma_address_text_value_bound(s, k - 1);
        assert(is_upper_hex_digit(s[digit_pos(k - 1)]));
        assert(0 <= hex_digit_value(s[digit_pos(k - 1)]) <= 15);
    }
}

/// The number the nibbles denote, least significant first.
pub open spec fn nibbles_value(ns: Seq<u8>) -> int
    decreases ns.len(),
{
    if ns.len() == 0 {
        0
    } else {
        nibbles_value(ns.drop_last()) + ns.last() * pow16((ns.len() - 1) as nat)
    }
}

proof fn lemma_nibbles_value_nonneg(ns: Seq<u8>)
    ensures
        nibbles_value(ns) >= 0,
    decreases ns.len(),
{
    if ns.len() > 0 {
        lemma_nibbles_value_nonneg(ns.drop_last());
        lemma_pow16_pos((ns.len() - 1) as nat);
        assert(ns.last() * pow16((ns.len() - 1) as nat) >= 0) by (nonlinear_arith)
            requires
                ns.last() >= 0,
                pow16((ns.len() - 1) as nat) >= 1,
        ;
    }
}

fn upper_hex_digit_of(d: u8) -> (r: char)
    requires
        d < 16,
    ensures
        r == upper_hex_char(d as int),
        is_upper_hex_digit(r),
        is_hex_digit(r),
        hex_digit_value(r) == d as int,
{
    match d {
        0 => '0',
        1 => '1',
        2 => '2',
        3 => '3',
        4 => '4',
        5 => '5',
        6 => '6',
        7 => '7',
        8 => '8',
        9 => '9',
        10 => 'A',
        11 => 'B',
        12 => 'C',
        13 => 'D',
        14 => 'E',
        _ => 'F',
    }
}

/// Writes an address the way the favorites file holds it: six uppercase hex
/// pairs joined by colons, most significant octet first. Reading the text
/// back with `parse_address` gives the address again.
pub fn format_address(addr: Address) -> (r: String)
    requires
        addr.wf(),
    ensures
        is_address_text(r@),
        address_text_value(r@, 12) == addr.bits,
{
    // Split the value into twelve nibbles, least significant first.
    let mut nibbles: Vec<u8> = Vec::new();
    let mut rem: u64 = addr.bits;
    let mut j: usize = 0;
    proof {
        assert(pow16(0) == 1);
        assert(pow16(1) == 16);
        assert(pow16(2) == 0x100);
        assert(pow16(3) == 0x1000);
        assert(pow16(4) == 0x10000);
        assert(pow16(5) == 0x100000);
        assert(pow16(6) == 0x1000000);
        assert(pow16(7) == 0x10000000);
        assert(pow16(8) == 0x100000000);
        assert(pow16(9) == 0x1000000000);
        assert(pow16(10) == 0x10000000000);
        assert(pow16(11) == 0x100000000000);
        assert(pow16(12) == 0x1000000000000);
    }
    while j < 12
        invariant
            j == nibbles@.len(),
            j <= 12,
            forall|t: int| 0 <= t < j ==> nibbles@[t] < 16,
            addr.bits == rem * pow16(j as nat) + nibbles_value(nibbles@),
            addr.bits < pow16(12),
        decreases 12 - j,
    {
        let d = (rem % 16) as u8;
        let ghost pre = nibbles@;
        let ghost rem0 = rem as int;
        nibbles.push(d);
        rem = rem / 16;
        proof {
            assert(nibbles@.drop_last() == pre);
            assert(nibbles@.last() == d);
            assert(nibbles_value(nibbles@) == nibbles_value(pre) + d * pow16(j as nat));
            assert(rem0 * pow16(j as nat) == (rem as int) * pow16((j + 1) as nat) + (d as int)
                * pow16(j as nat)) by (nonlinear_arith)
                requires
                    rem0 == 16 * (rem as int) + d as int,
                    pow16((j + 1) as nat) == 16 * pow16(j as nat),
            ;
        }
        j += 1;
    }
    proof {
        lemma_nibbles_value_nonneg(nibbles@);
        assert(rem == 0) by (nonlinear_arith)
            requires
                (rem as int) * pow16(12) + nibbles_value(nibbles@) < pow16(12),
                nibbles_value(nibbles@) >= 0,
                pow16(12) >= 1,
                rem >= 0,
        ;
        assert(addr.bits == nibbles_value(nibbles@));
    }
    // Write the text, most significant nibble first, a colon after each
    // pair.
    let mut s = String::new();
    let mut k: usize = 0;
    proof {
        assert(nibbles@.subrange(0, 12) =~= nibbles@);
    }
    while k < 12
        invariant
            k <= 12,
            nibbles@.len() == 12,
            forall|t: int| 0 <= t < 12 ==> nibbles@[t] < 16,
            addr.bits == nibbles_value(nibbles@),
            s@.len() == (if k < 12 {
                digit_pos(k as int)
            } else {
                17
            }),
            forall|i: int|
                0 <= i < s@.len() ==> (if i % 3 == 2 {
                    #[trigger] s@[i] == ':'
                } else {
                    is_hex_digit(s@[i])
                }),
            forall|t: int| 0 <= t < k ==> s@[digit_pos(t)] == upper_hex_char(
                nibbles@[11 - t] as int,
            ),
            address_text_value(s@, k as int) * pow16((12 - k) as nat) + nibbles_value(
                nibbles@.subrange(0, 12 - k as int),
            ) == addr.bits,
        decreases 12 - k,
    {
        let d = nibbles[11 - k];
        let c = upper_hex_digit_of(d);
        let ghost s_pre = s@;
        let ghost value_pre = address_text_value(s_pre, k as int);
        push_char(&mut s, c);
        proof {
            let kk = k as int;
            assert(forall|t: int|
                0 <= t < kk ==> digit_pos(t) < s_pre.len() && s@[digit_pos(t)] == s_pre[digit_pos(
                    t,
                )]);
            assert(s@[digit_pos(kk)] == c);
            assert(address_text_value(s@, kk + 1) == address_text_value(s@, kk) * 16
                + hex_digit_value(c));
            assert(address_text_value(s@, kk) == value_pre) by {
                lemma_address_text_value_prefix(s_pre, s@, kk);
            }
            let tail_pre = nibbles@.subrange(0, 12 - kk);
            let tail_post = nibbles@.subrange(0, 11 - kk);
            assert(tail_pre.drop_last() == tail_post);
            assert(tail_pre.last() == nibbles@[11 - kk]);
            assert(nibbles_value(tail_pre) == nibbles_value(tail_post) + nibbles@[11 - kk]
                * pow16((11 - kk) as nat));
            assert((value_pre * 16 + hex_digit_value(c)) * pow16((11 - kk) as nat) + nibbles_value(
                tail_post,
            ) == value_pre * pow16((12 - kk) as nat) + nibbles@[11 - kk] * pow16((11 - kk) as nat)
                + nibbles_value(tail_post)) by (nonlinear_arith)
                requires
                    hex_digit_value(c) == nibbles@[11 - kk] as int,
                    pow16((12 - kk) as nat) == 16 * pow16((11 - kk) as nat),
            ;
            assert(address_text_value(s@, kk + 1) * pow16((11 - kk) as nat) + nibbles_value(
                nibbles@.subrange(0, 11 - kk),
            ) == addr.bits);
        }
        k += 1;
        if k < 12 && k % 2 == 0 {
            let ghost before_colon = s@;
            push_char(&mut s, ':');
            proof {
                let kk = k as int;
                assert(s@.len() == digit_pos(kk));
                assert(forall|t: int|
                    0 <= t < kk ==> digit_pos(t) < before_colon.len() && s@[digit_pos(t)]
                        == before_colon[digit_pos(t)]);
                lemma_address_text_value_prefix(before_colon, s@, kk);
                assert(address_text_value(s@, kk) == address_text_value(before_colon, kk));
                assert(address_text_value(s@, kk) * pow16((12 - kk) as nat) + nibbles_value(
                    nibbles@.subrange(0, 12 - kk),
                ) == addr.bits);
            }
        }
    }
    proof {
        assert(nibbles@.subrange(0, 0) =~= Seq::<u8>::empty());
        lemma_pow16_pos(0);
        assert(s@.len() == 17);
    }
    s
}

/// A text's leading value only reads digit positions below `k`, so any
/// extension reads the same.
proof fn lemma_address_text_value_prefix(a: Seq<char>, b: Seq<char>, k: int)
    requires
        0 <= k,
        forall|t: int| 0 <= t < k ==> digit_pos(t) < a.len() && a[digit_pos(t)] == b[digit_pos(t)],
    ensures
        address_text_value(a, k) == address_text_value(b, k),
    decreases k,
{
    if k > 0 {
        lemma_address_text_value_prefix(a, b, k - 1);
    }
}

/// Reads an address written as six uppercase hex pairs joined by colons;
/// anything else is rejected.
pub fn parse_address(s: &str) -> (r: Option<Address>)
    ensures
        match r {
            Some(a) => is_address_text(s@) && a.bits == address_text_value(s@, 12) && a.wf(),
            None => !is_address_text(s@),
        },
{
    let n = s.unicode_len();
    if n != 17 {
        return None;
    }
    let mut acc: u64 = 0;
    let mut i: usize = 0;
    proof {
        assert(pow16(0) == 1);
        assert(pow16(1) == 16);
        assert(pow16(2) == 0x100);
        assert(pow16(3) == 0x1000);
        assert(pow16(4) == 0x10000);
        assert(pow16(5) == 0x100000);
        assert(pow16(6) == 0x1000000);
        assert(pow16(7) == 0x10000000);
        assert(pow16(8) == 0x100000000);
        assert(pow16(9) == 0x1000000000);
        assert(pow16(10) == 0x10000000000);
        assert(pow16(11) == 0x100000000000);
        assert(pow16(12) == 0x1000000000000);
    }
    while i < 17
        invariant
            s@.len() == 17,
            i <= 17,
            forall|p: int|
                0 <= p < i ==> (if p % 3 == 2 {
                    #[trigger] s@[p] == ':'
                } else {
                    is_hex_digit(s@[p])
                }),
            acc as int == address_text_value(s@, i as int - i as int / 3),
            (acc as int) < pow16((i - i / 3) as nat),
            pow16(11) == 0x100000000000,
            pow16(12) == 0x1000000000000,
        decreases 17 - i,
    {
        let c = s.get_char(i);
        if i % 3 == 2 {
            if c != ':' {
                return None;
            }
        } else {
            let d: u64 = if '0' <= c && c <= '9' {
                (c as u64) - ('0' as u64)
            } else if 'a' <= c && c <= 'f' {
                (c as u64) - ('a' as u64) + 10
            } else if 'A' <= c && c <= 'F' {
                (c as u64) - ('A' as u64) + 10
            } else {
                return None;
            };
            let ghost k = i as int - i as int / 3;
            proof {
                assert(digit_pos(k) == i as int);
                assert(hex_digit_value(s@[i as int]) == d as int);
                assert(address_text_value(s@, k + 1) == address_text_value(s@, k) * 16 + d as int);
                assert(k <= 11);
                assert(pow16(k as nat) <= pow16(11)) by {
                    lemma_pow16_monotonic(k as nat, 11);
                }
            }
            acc = acc * 16 + d;
        }
        i += 1;
    }
    proof {
        assert(17int - 17int / 3 == 12);
    }
    Some(Address { bits: acc })
}

proof fn lemma_pow16_monotonic(a: nat, b: nat)
    requires
        a <= b,
    ensures
        pow16(a) <= pow16(b),
    decreases b,
{
    if a < b {
        lemma_pow16_monotonic(a, (b - 1) as nat);
        lemma_pow16_pos((b - 1) as nat);
    }
}

} // verus!
