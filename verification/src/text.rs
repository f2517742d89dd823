//! Byte-string helpers: the entity-name filter, NUL-terminated string
//! length, prefix matching, and the numeric parsing the console commands
//! and the sync protocol use.

use vstd::prelude::*;

verus! {

/// Length of the NUL-terminated content of `s`: the index of the first zero
/// byte, or the whole length when none occurs.
pub open spec fn spec_nul_len(s: Seq<u8>) -> nat
    decreases s.len(),
{
    if s.len() == 0 {
        0
    } else if s[0] == 0 {
        0
    } else {
        1 + spec_nul_len(s.drop_first())
    }
}

/// `spec_nul_len` really is the index of the first zero byte.
pub proof fn lemma_nul_len(s: Seq<u8>)
    ensures
        spec_nul_len(s) <= s.len(),
        spec_nul_len(s) < s.len() ==> s[spec_nul_len(s) as int] == 0,
        forall|i: int| 0 <= i < spec_nul_len(s) ==> s[i] != 0,
    decreases s.len(),
{
    if s.len() > 0 && s[0] != 0 {
        lemma_nul_len(s.drop_first());
        assert forall|i: int| 0 <= i < spec_nul_len(s) implies s[i] != 0 by {
            if i > 0 {
                assert(s.drop_first()[i - 1] == s[i]);
            }
        }
        if spec_nul_len(s) < s.len() {
            assert(s.drop_first()[spec_nul_len(s.drop_first()) as int] == s[spec_nul_len(
                s,
            ) as int]);
        }
    }
}

/// Finds the length of the NUL-terminated content of `name`.
pub fn nul_len(name: &[u8]) -> (r: usize)
    ensures
        r == spec_nul_len(name@),
{
    let n = name.len();
    let mut i: usize = 0;
    while i < n
        invariant
            i <= n,
            n == name@.len(),
            forall|j: int| 0 <= j < i ==> name@[j] != 0,
        decreases n - i,
    {
        if name[i] == 0 {
            proof {
                lemma_nul_len(name@);
                let l = spec_nul_len(name@) as int;
                if l < i {
                    assert(name@[l] != 0);
                } else if l > i {
                    assert(name@[i as int] != 0);
                }
            }
            return i;
        }
        i = i + 1;
    }
    proof {
        lemma_nul_len(name@);
        let l = spec_nul_len(name@) as int;
        if l < n {
            assert(name@[l] != 0);
        }
    }
    n
}

/// The bytes an entity name may contain: ASCII letters and digits, space,
/// parentheses and underscore.
pub open spec fn spec_name_byte_allowed(c: u8) -> bool {
    ||| 0x30 <= c <= 0x39
    ||| 0x41 <= c <= 0x5a
    ||| 0x61 <= c <= 0x7a
    ||| c == 0x20
    ||| c == 0x28
    ||| c == 0x29
    ||| c == 0x5f
}

/// A usable entity name: non-empty, NUL-terminated content of at least two
/// bytes, every content byte from the allowed set.
pub open spec fn spec_valid_name(s: Seq<u8>) -> bool {
    &&& s.len() > 0
    &&& spec_nul_len(s) >= 2
    &&& forall|i: int| 0 <= i < spec_nul_len(s) ==> spec_name_byte_allowed(#[trigger] s[i])
}

/// Decides whether a raw name buffer read out of the target holds a usable
/// entity name.
pub fn is_valid_name(name: &[u8]) -> (r: bool)
    ensures
        r == spec_valid_name(name@),
{
    if name.len() == 0 {
        return false;
    }
    let len = nul_len(name);
    if len < 2 {
        return false;
    }
    proof {
        lemma_nul_len(name@);
    }
    let mut i: usize = 0;
    while i < len
        invariant
            i <= len,
            len == spec_nul_len(name@),
            len <= name@.len(),
            forall|j: int| 0 <= j < i ==> spec_name_byte_allowed(#[trigger] name@[j]),
        decreases len - i,
    {
        let c = name[i];
        let ok = (c >= 0x30 && c <= 0x39) || (c >= 0x41 && c <= 0x5a) || (c >= 0x61 && c <= 0x7a)
            || c == 0x20 || c == 0x28 || c == 0x29 || c == 0x5f;
        if !ok {
            return false;
        }
        i = i + 1;
    }
    true
}

/// Whether `p` is a prefix of `s`.
pub open spec fn spec_is_prefix(p: Seq<u8>, s: Seq<u8>) -> bool {
    p.len() <= s.len() && s.subrange(0, p.len() as int) == p
}

/// Decides whether `s` starts with `p`.
pub fn starts_with_bytes(s: &Vec<u8>, p: &Vec<u8>) -> (r: bool)
    ensures
        r == spec_is_prefix(p@, s@),
{
    if p.len() > s.len() {
        return false;
    }
    crate::bytes::bytes_eq_at(s, 0, p)
}

/// Value of one ASCII hex digit.
pub open spec fn spec_hex_digit(c: u8) -> Option<u8> {
    if 0x30 <= c <= 0x39 {
        Some((c - 0x30) as u8)
    } else if 0x61 <= c <= 0x66 {
        Some((c - 0x61 + 10) as u8)
    } else if 0x41 <= c <= 0x46 {
        Some((c - 0x41 + 10) as u8)
    } else {
        None
    }
}

/// Value of a hex digit string, most significant digit first; `None` when
/// any byte is no hex digit.
pub open spec fn spec_hex_value(s: Seq<u8>) -> Option<nat>
    decreases s.len(),
{
    if s.len() == 0 {
        Some(0nat)
    } else {
        match (spec_hex_value(s.drop_last()), spec_hex_digit(s.last())) {
            (Some(v), Some(d)) => Some((16 * v + d) as nat),
            _ => None,
        }
    }
}

/// Parses a non-empty hex digit string into a word; `None` on an empty
/// string, a non-digit byte, or a value past `u64::MAX`.
pub fn parse_hex_u64(s: &[u8]) -> (r: Option<u64>)
    ensures
        r matches Some(v) ==> s@.len() > 0 && spec_hex_value(s@) == Some(v as nat),
        r is None <==> (s@.len() == 0 || spec_hex_value(s@) is None || (spec_hex_value(s@)
            matches Some(v) && v > u64::MAX)),
{
    let n = s.len();
    if n == 0 {
        return None;
    }
    let mut acc: u64 = 0;
    let mut i: usize = 0;
    while i < n
        invariant
            i <= n,
            n == s@.len(),
            spec_hex_value(s@.subrange(0, i as int)) == Some(acc as nat),
        decreases n - i,
    {
        let c = s[i];
        let d: u8 = if c >= 0x30 && c <= 0x39 {
            c - 0x30
        } else if c >= 0x61 && c <= 0x66 {
            c - 0x61 + 10
        } else if c >= 0x41 && c <= 0x46 {
            c - 0x41 + 10
        } else {
            proof {
                lemma_hex_value_step_none(s@, i as int);
            }
            return None;
        };
        assert(spec_hex_digit(s@[i as int]) == Some(d));
        if acc > (u64::MAX - (d as u64)) / 16 {
            proof {
                lemma_hex_value_step(s@, i as int, acc as nat, d as nat);
                assert(16 * (acc as nat) + d > u64::MAX) by (nonlinear_arith)
                    requires
                        acc as nat > (u64::MAX - (d as nat)) / 16,
                        d < 16,
                ;
                lemma_hex_value_grows(s@, i + 1);
            }
            return None;
        }
        proof {
            lemma_hex_value_step(s@, i as int, acc as nat, d as nat);
            assert(16 * (acc as nat) + d <= u64::MAX) by (nonlinear_arith)
                requires
                    acc as nat <= (u64::MAX - (d as nat)) / 16,
                    d < 16,
            ;
        }
        acc = 16 * acc + (d as u64);
        i = i + 1;
    }
    proof {
        assert(s@.subrange(0, n as int) =~= s@);
    }
    Some(acc)
}

/// One parsing step: the value of a prefix one byte longer.
proof fn lemma_hex_value_step(s: Seq<u8>, i: int, v: nat, d: nat)
    requires
        0 <= i < s.len(),
        spec_hex_value(s.subrange(0, i)) == Some(v),
        spec_hex_digit(s[i]) == Some(d as u8),
        d < 16,
    ensures
        spec_hex_value(s.subrange(0, i + 1)) == Some((16 * v + d) as nat),
{
    let p = s.subrange(0, i + 1);
    assert(p.drop_last() =~= s.subrange(0, i));
    assert(p.last() == s[i]);
}

/// A prefix ending in a non-digit byte has no value.
proof fn lemma_hex_value_step_none(s: Seq<u8>, i: int)
    requires
        0 <= i < s.len(),
        spec_hex_digit(s[i]) is None,
    ensures
        spec_hex_value(s) is None,
    decreases s.len(),
{
    if s.len() > 0 {
        if i == s.len() - 1 {
            assert(s.last() == s[i]);
        } else {
            lemma_hex_value_step_none(s.drop_last(), i);
        }
    }
}

/// If some prefix of `s` has no value or a value past `u64::MAX`, so has
/// `s` itself.
proof fn lemma_hex_value_grows(s: Seq<u8>, i: int)
    requires
        0 <= i <= s.len(),
        spec_hex_value(s.subrange(0, i)) is None || (spec_hex_value(s.subrange(0, i))
            matches Some(v) && v > u64::MAX),
    ensures
        spec_hex_value(s) is None || (spec_hex_value(s) matches Some(v) && v > u64::MAX),
    decreases s.len() - i,
{
    if i == s.len() {
        assert(s.subrange(0, i) =~= s);
    } else {
        let p = s.subrange(0, i + 1);
        assert(p.drop_last() =~= s.subrange(0, i));
        match spec_hex_value(s.subrange(0, i)) {
            Some(v) => {
                match spec_hex_digit(p.last()) {
                    Some(d) => {
                        assert(spec_hex_value(p) == Some((16 * v + d) as nat));
                        assert(16 * v + d > u64::MAX) by (nonlinear_arith)
                            requires
                                v > u64::MAX,
                        ;
                    },
                    None => {},
                }
            },
            None => {},
        }
        lemma_hex_value_grows(s, i + 1);
    }
}

/// Value of one ASCII decimal digit.
pub open spec fn spec_dec_digit(c: u8) -> Option<u8> {
    if 0x30 <= c <= 0x39 {
        Some((c - 0x30) as u8)
    } else {
        None
    }
}

/// Value of a decimal digit string, most significant digit first.
pub open spec fn spec_dec_value(s: Seq<u8>) -> Option<nat>
    decreases s.len(),
{
    if s.len() == 0 {
        Some(0nat)
    } else {
        match (spec_dec_value(s.drop_last()), spec_dec_digit(s.last())) {
            (Some(v), Some(d)) => Some((10 * v + d) as nat),
            _ => None,
        }
    }
}

/// Parses a non-empty decimal digit string; `None` on an empty string, a
/// non-digit byte, or a value past `u64::MAX`.
pub fn parse_dec_u64(s: &[u8]) -> (r: Option<u64>)
    ensures
        r matches Some(v) ==> s@.len() > 0 && spec_dec_value(s@) == Some(v as nat),
        r is None <==> (s@.len() == 0 || spec_dec_value(s@) is None || (spec_dec_value(s@)
            matches Some(v) && v > u64::MAX)),
{
    let n = s.len();
    if n == 0 {
        return None;
    }
    let mut acc: u64 = 0;
    let mut i: usize = 0;
    while i < n
        invariant
            i <= n,
            n == s@.len(),
            spec_dec_value(s@.subrange(0, i as int)) == Some(acc as nat),
        decreases n - i,
    {
        let c = s[i];
        let d: u8 = if c >= 0x30 && c <= 0x39 {
            c - 0x30
        } else {
            proof {
                lemma_dec_value_step_none(s@, i as int);
            }
            return None;
        };
        assert(spec_dec_digit(s@[i as int]) == Some(d));
        if acc > (u64::MAX - (d as u64)) / 10 {
            proof {
                lemma_dec_value_step(s@, i as int, acc as nat, d as nat);
                assert(10 * (acc as nat) + d > u64::MAX) by (nonlinear_arith)
                    requires
                        acc as nat > (u64::MAX - (d as nat)) / 10,
                        d < 10,
                ;
                lemma_dec_value_grows(s@, i + 1);
            }
            return None;
        }
        proof {
            lemma_dec_value_step(s@, i as int, acc as nat, d as nat);
            assert(10 * (acc as nat) + d <= u64::MAX) by (nonlinear_arith)
                requires
                    acc as nat <= (u64::MAX - (d as nat)) / 10,
                    d < 10,
            ;
        }
        acc = 10 * acc + (d as u64);
        i = i + 1;
    }
    proof {
        assert(s@.subrange(0, n as int) =~= s@);
    }
    Some(acc)
}

proof fn lemma_dec_value_step(s: Seq<u8>, i: int, v: nat, d: nat)
    requires
        0 <= i < s.len(),
        spec_dec_value(s.subrange(0, i)) == Some(v),
        spec_dec_digit(s[i]) == Some(d as u8),
        d < 10,
    ensures
        spec_dec_value(s.subrange(0, i + 1)) == Some((10 * v + d) as nat),
{
    let p = s.subrange(0, i + 1);
    assert(p.drop_last() =~= s.subrange(0, i));
    assert(p.last() == s[i]);
}

proof fn lemma_dec_value_step_none(s: Seq<u8>, i: int)
    requires
        0 <= i < s.len(),
        spec_dec_digit(s[i]) is None,
    ensures
        spec_dec_value(s) is None,
    decreases s.len(),
{
    if s.len() > 0 {
        if i == s.len() - 1 {
            assert(s.last() == s[i]);
        } else {
            lemma_dec_value_step_none(s.drop_last(), i);
        }
    }
}

proof fn lemma_dec_value_grows(s: Seq<u8>, i: int)
    requires
        0 <= i <= s.len(),
        spec_dec_value(s.subrange(0, i)) is None || (spec_dec_value(s.subrange(0, i))
            matches Some(v) && v > u64::MAX),
    ensures
        spec_dec_value(s) is None || (spec_dec_value(s) matches Some(v) && v > u64::MAX),
    decreases s.len() - i,
{
    if i == s.len() {
        assert(s.subrange(0, i) =~= s);
    } else {
        let p = s.subrange(0, i + 1);
        assert(p.drop_last() =~= s.subrange(0, i));
        match spec_dec_value(s.subrange(0, i)) {
            Some(v) => {
                match spec_dec_digit(p.last()) {
                    Some(d) => {
                        assert(spec_dec_value(p) == Some((10 * v + d) as nat));
                        assert(10 * v + d > u64::MAX) by (nonlinear_arith)
                            requires
                                v > u64::MAX,
                        ;
                    },
                    None => {},
                }
            },
            None => {},
        }
        lemma_dec_value_grows(s, i + 1);
    }
}

/// Parses a console-supplied address: an optional `0x` prefix followed by
/// hex digits. `None` when what follows the prefix is empty, non-hex, or
/// does not fit a word.
pub fn parse_hex_address(s: &Vec<u8>) -> (r: Option<u64>)
    ensures
        ({
            let digits = if s@.len() >= 2 && s@[0] == 0x30 && s@[1] == 0x78 {
                s@.subrange(2, s@.len() as int)
            } else {
                s@
            };
            &&& (r matches Some(v) ==> digits.len() > 0 && spec_hex_value(digits) == Some(
                v as nat,
            ))
            &&& (r is None <==> (digits.len() == 0 || spec_hex_value(digits) is None || (
            spec_hex_value(digits) matches Some(v) && v > u64::MAX)))
        }),
{
    let n = s.len();
    if n >= 2 && s[0] == 0x30 && s[1] == 0x78 {
        let mut digits: Vec<u8> = Vec::new();
        let mut i: usize = 2;
        while i < n
            invariant
                2 <= i <= n,
                n == s@.len(),
                digits@ == s@.subrange(2, i as int),
            decreases n - i,
        {
            digits.push(s[i]);
            assert(digits@ =~= s@.subrange(2, i as int + 1));
            i = i + 1;
        }
        assert(digits@ =~= s@.subrange(2, s@.len() as int));
        parse_hex_u64(digits.as_slice())
    } else {
        parse_hex_u64(s.as_slice())
    }
}

/// Index of the first occurrence of `b` in `s`, or the whole length when
/// `b` does not occur.
pub open spec fn spec_find_byte(s: Seq<u8>, b: u8) -> nat
    decreases s.len(),
{
    if s.len() == 0 {
        0
    } else if s[0] == b {
        0
    } else {
        1 + spec_find_byte(s.drop_first(), b)
    }
}

/// `spec_find_byte` really is the index of the first occurrence.
pub proof fn lemma_find_byte(s: Seq<u8>, b: u8)
    ensures
        spec_find_byte(s, b) <= s.len(),
        spec_find_byte(s, b) < s.len() ==> s[spec_find_byte(s, b) as int] == b,
        forall|i: int| 0 <= i < spec_find_byte(s, b) ==> s[i] != b,
    decreases s.len(),
{
    if s.len() > 0 && s[0] != b {
        lemma_find_byte(s.drop_first(), b);
        assert forall|i: int| 0 <= i < spec_find_byte(s, b) implies s[i] != b by {
            if i > 0 {
                assert(s.drop_first()[i - 1] == s[i]);
            }
        }
        if spec_find_byte(s, b) < s.len() {
            assert(s.drop_first()[spec_find_byte(s.drop_first(), b) as int] == s[spec_find_byte(
                s,
                b,
            ) as int]);
        }
    }
}

/// Finds the first occurrence of `b` in `s` at or after `from`.
pub fn find_byte_from(s: &Vec<u8>, b: u8, from: usize) -> (r: usize)
    requires
        from <= s@.len(),
    ensures
        from + spec_find_byte(s@.subrange(from as int, s@.len() as int), b) == r,
{
    let n = s.len();
    let mut i: usize = from;
    while i < n
        invariant
            from <= i <= n,
            n == s@.len(),
            forall|j: int| from <= j < i ==> s@[j] != b,
        decreases n - i,
    {
        if s[i] == b {
            proof {
                lemma_find_byte_position(s@, b, from as int, i as int);
            }
            return i;
        }
        i = i + 1;
    }
    proof {
        lemma_find_byte_position(s@, b, from as int, n as int);
    }
    n
}

/// Uniqueness of the first occurrence: a position whose predecessors in the
/// window all differ from `b`, and which holds `b` unless it is the window's
/// end, is exactly where `spec_find_byte` points.
proof fn lemma_find_byte_position(s: Seq<u8>, b: u8, from: int, at: int)
    requires
        0 <= from <= at <= s.len(),
        forall|j: int| from <= j < at ==> s[j] != b,
        at < s.len() ==> s[at] == b,
    ensures
        from + spec_find_byte(s.subrange(from, s.len() as int), b) == at,
{
    let w = s.subrange(from, s.len() as int);
    lemma_find_byte(w, b);
    let k = spec_find_byte(w, b) as int;
    if from + k < at {
        assert(w[k] == b);
        assert(s[from + k] == b);
    } else if from + k > at {
        assert(at < s.len());
        assert(w[at - from] == s[at]);
    }
}

} // verus!
