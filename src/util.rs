//! Byte decoding and path helpers.
use vstd::prelude::*;

use crate::error::PhoneError;

verus! {

/// The unsigned value of `s` read as a little-endian number.
pub open spec fn le_value(s: Seq<u8>) -> nat
    decreases s.len(),
{
    if s.len() == 0 {
        0
    } else {
        s[0] as nat + 256 * le_value(s.drop_first())
    }
}

/// `256` raised to the power `n`.
pub open spec fn pow256(n: nat) -> nat
    decreases n,
{
    if n == 0 {
        1
    } else {
        256 * pow256((n - 1) as nat)
    }
}

/// A little-endian number of `n` bytes is below `256^n`.
pub proof fn lemma_le_value_bound(s: Seq<u8>)
    ensures
        le_value(s) < pow256(s.len()),
    decreases s.len(),
{
    if s.len() > 0 {
        let rest = s.drop_first();
        lemma_le_value_bound(rest);
        let l = le_value(rest);
        let p = pow256(rest.len());
        let b = s[0] as nat;
        assert(b + 256 * l < 256 * p) by (nonlinear_arith)
            requires
                l < p,
                b < 256,
        ;
    }
}

/// A value below `2^32` read as a two's-complement 32-bit integer.
pub open spec fn as_signed32(v: nat) -> int {
    if v < 0x8000_0000 {
        v as int
    } else {
        v - 0x1_0000_0000
    }
}

/// Reads up to four little-endian bytes as a signed 32-bit integer.
pub fn u8_i32(data: &[u8]) -> (r: i32)
    requires
        data@.len() <= 4,
    ensures
        r as int == as_signed32(le_value(data@)),
{
    let len = data.len();
    let mut i: usize = len;
    let mut acc: u64 = 0;
    proof {
        reveal_with_fuel(pow256, 5);
        assert(data@.subrange(len as int, len as int) =~= Seq::<u8>::empty());
    }
    while i > 0
        invariant
            i <= len,
            len == data@.len(),
            len <= 4,
            acc as nat == le_value(data@.subrange(i as int, len as int)),
            acc < pow256((len - i) as nat),
            pow256((len - i) as nat) <= 0x1_0000_0000,
        decreases i,
    {
        let ghost k: nat = (len - i) as nat;
        let ghost old_acc = acc;
        i = i - 1;
        let b = data[i];
        proof {
            assert(pow256(k + 1) == 256 * pow256(k));
            assert(old_acc * 256 + b < 256 * pow256(k)) by (nonlinear_arith)
                requires
                    old_acc < pow256(k),
                    b < 256,
            ;
            assert(data@.subrange(i as int, len as int).drop_first() =~= data@.subrange(
                i + 1,
                len as int,
            ));
            reveal_with_fuel(pow256, 5);
        }
        acc = acc * 256 + b as u64;
    }
    proof {
        assert(data@.subrange(0, len as int) =~= data@);
    }
    if acc < 0x8000_0000 {
        acc as i32
    } else {
        (acc as i64 - 0x1_0000_0000) as i32
    }
}

/// `s` with every `~` replaced by `home`.
pub open spec fn replace_tilde(s: Seq<char>, home: Seq<char>) -> Seq<char>
    decreases s.len(),
{
    if s.len() == 0 {
        Seq::empty()
    } else {
        replace_tilde(s.drop_last(), home) + if s.last() == '~' {
            home
        } else {
            seq![s.last()]
        }
    }
}

/// A path that starts with `~` has every `~` replaced by `home`; any
/// other path is kept.
pub open spec fn expand_home(p: Seq<char>, home: Seq<char>) -> Seq<char> {
    if p.len() > 0 && p[0] == '~' {
        replace_tilde(p, home)
    } else {
        p
    }
}

/// Expands a leading `~` of `p` to the home directory `home`.
pub fn replace_home(p: &str, home: &str) -> (r: String)
    ensures
        r@ == expand_home(p@, home@),
{
    let n = p.unicode_len();
    if n == 0 || p.get_char(0) != '~' {
        return p.to_owned();
    }
    let mut out = String::new();
    let mut i: usize = 0;
    proof {
        assert(p@.take(0) =~= Seq::<char>::empty());
    }
    while i < n
        invariant
            n == p@.len(),
            i <= n,
            out@ == replace_tilde(p@.take(i as int), home@),
        decreases n - i,
    {
        let c = p.get_char(i);
        proof {
            assert(p@.take(i + 1).drop_last() =~= p@.take(i as int));
        }
        if c == '~' {
            out.append(home);
        } else {
            let one = p.substring_char(i, i + 1);
            assert(one@ =~= seq![c]);
            out.append(one);
        }
        i = i + 1;
    }
    proof {
        assert(p@.take(n as int) =~= p@);
    }
    out
}

/// The first seven characters are decimal digits.
pub open spec fn prefix_ok(s: Seq<char>) -> bool {
    s.len() >= 7 && forall|i: int| 0 <= i < 7 ==> '0' <= #[trigger] s[i] <= '9'
}

/// The decimal value of the first `k` characters.
pub open spec fn decimal_value(s: Seq<char>, k: int) -> int
    decreases k,
{
    if k <= 0 {
        0
    } else {
        decimal_value(s, k - 1) * 10 + (s[k - 1] as int - '0' as int)
    }
}

/// Reads the first seven characters of `phone` as a decimal number.
pub fn parse_prefix(phone: &str) -> (r: Result<i32, PhoneError>)
    ensures
        r is Ok <==> prefix_ok(phone@),
        r matches Ok(v) ==> v as int == decimal_value(phone@, 7),
        r matches Err(e) ==> e is Parse,
{
    let n = phone.unicode_len();
    if n < 7 {
        return Err(PhoneError::Parse);
    }
    let mut v: i32 = 0;
    let mut i: usize = 0;
    while i < 7
        invariant
            n == phone@.len(),
            n >= 7,
            i <= 7,
            forall|j: int| 0 <= j < i ==> '0' <= #[trigger] phone@[j] <= '9',
            v as int == decimal_value(phone@, i as int),
            0 <= v < pow10(i as nat),
        decreases 7 - i,
    {
        let c = phone.get_char(i);
        if c < '0' || c > '9' {
            return Err(PhoneError::Parse);
        }
        let d = (c as u32 - '0' as u32) as i32;
        proof {
            assert(v * 10 + d < pow10(i as nat) * 10) by (nonlinear_arith)
                requires
                    v < pow10(i as nat),
                    0 <= d < 10,
            ;
            reveal_with_fuel(pow10, 8);
        }
        v = v * 10 + d;
        i = i + 1;
    }
    Ok(v)
}

/// `10` raised to the power `n`.
pub open spec fn pow10(n: nat) -> int
    decreases n,
{
    if n == 0 {
        1
    } else {
        10 * pow10((n - 1) as nat)
    }
}

} // verus!
