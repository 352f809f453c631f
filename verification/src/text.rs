//! Byte-level text helpers: whitespace trimming, comma splitting, decimal and
//! hexadecimal parsing, float syntax, and resource-path joining. Layer
//! payloads and attribute values are ASCII-oriented, so the specifications
//! speak over the UTF-8 bytes of the text.

use vstd::prelude::*;

verus! {

/// The whitespace bytes the format strips: space, tab, line feed, carriage
/// return.
pub open spec fn is_ws(b: u8) -> bool {
    b == 32 || b == 9 || b == 10 || b == 13
}

pub open spec fn trim_front(s: Seq<u8>) -> Seq<u8>
    decreases s.len(),
{
    if s.len() > 0 && is_ws(s[0]) {
        trim_front(s.drop_first())
    } else {
        s
    }
}

pub open spec fn trim_back(s: Seq<u8>) -> Seq<u8>
    decreases s.len(),
{
    if s.len() > 0 && is_ws(s.last()) {
        trim_back(s.drop_last())
    } else {
        s
    }
}

/// The sequence with leading and trailing whitespace removed.
pub open spec fn trim_spec(s: Seq<u8>) -> Seq<u8> {
    trim_back(trim_front(s))
}

proof fn lemma_trim_front_at(s: Seq<u8>, lo: int)
    requires
        0 <= lo <= s.len(),
        forall|j: int| 0 <= j < lo ==> is_ws(s[j]),
        lo < s.len() ==> !is_ws(s[lo]),
    ensures
        trim_front(s) == s.subrange(lo, s.len() as int),
    decreases lo,
{
    if lo == 0 {
        assert(s.subrange(0, s.len() as int) =~= s);
    } else {
        let t = s.drop_first();
        assert(forall|j: int| 0 <= j < lo - 1 ==> is_ws(t[j]));
        lemma_trim_front_at(t, lo - 1);
        assert(t.subrange(lo - 1, t.len() as int) =~= s.subrange(lo, s.len() as int));
    }
}

proof fn lemma_trim_back_at(s: Seq<u8>, hi: int)
    requires
        0 <= hi <= s.len(),
        forall|j: int| hi <= j < s.len() ==> is_ws(s[j]),
        hi > 0 ==> !is_ws(s[hi - 1]),
    ensures
        trim_back(s) == s.subrange(0, hi),
    decreases s.len() - hi,
{
    if hi == s.len() {
        assert(s.subrange(0, s.len() as int) =~= s);
    } else {
        let t = s.drop_last();
        lemma_trim_back_at(t, hi);
        assert(t.subrange(0, hi) =~= s.subrange(0, hi));
    }
}

/// Returns the bounds `(lo, hi)` of the slice with surrounding whitespace
/// stripped, so that `v[lo..hi]` is the trimmed content.
pub fn trim_bounds(v: &[u8]) -> (r: (usize, usize))
    ensures
        r.0 <= r.1 <= v@.len(),
        v@.subrange(r.0 as int, r.1 as int) == trim_spec(v@),
{
    let n: usize = v.len();
    let mut lo: usize = 0;
    while lo < n && (v[lo] == 32 || v[lo] == 9 || v[lo] == 10 || v[lo] == 13)
        invariant
            lo <= n,
            n == v@.len(),
            forall|j: int| 0 <= j < lo ==> is_ws(v@[j]),
        decreases n - lo,
    {
        lo = lo + 1;
    }
    proof {
        lemma_trim_front_at(v@, lo as int);
    }
    let mut hi: usize = n;
    while hi > lo && (v[hi - 1] == 32 || v[hi - 1] == 9 || v[hi - 1] == 10 || v[hi - 1] == 13)
        invariant
            lo <= hi <= n,
            n == v@.len(),
            forall|j: int| hi <= j < n ==> is_ws(v@[j]),
        decreases hi,
    {
        hi = hi - 1;
    }
    proof {
        let f = trim_front(v@);
        assert(f =~= v@.subrange(lo as int, n as int));
        lemma_trim_back_at(f, hi - lo);
        assert(f.subrange(0, hi - lo) =~= v@.subrange(lo as int, hi as int));
    }
    (lo, hi)
}

/// Whether `b` is an ASCII decimal digit.
pub open spec fn is_digit(b: u8) -> bool {
    48 <= b <= 57
}

pub open spec fn all_digits(s: Seq<u8>) -> bool {
    forall|j: int| 0 <= j < s.len() ==> is_digit(s[j])
}

/// The value of a digit string, most significant first.
pub open spec fn digits_val(s: Seq<u8>) -> int
    decreases s.len(),
{
    if s.len() == 0 {
        0
    } else {
        digits_val(s.drop_last()) * 10 + (s.last() - 48)
    }
}

/// What parsing an unsigned decimal accepts: an optional leading `+`, then
/// at least one digit, with a value that fits the target width.
pub open spec fn parse_u32_spec(s: Seq<u8>) -> Option<u32> {
    let t = if s.len() > 0 && s[0] == 43 {
        s.drop_first()
    } else {
        s
    };
    if t.len() > 0 && all_digits(t) && digits_val(t) <= u32::MAX {
        Some(digits_val(t) as u32)
    } else {
        None
    }
}

proof fn lemma_digits_val_step(s: Seq<u8>, i: int)
    requires
        0 <= i < s.len(),
    ensures
        digits_val(s.subrange(0, i + 1)) == digits_val(s.subrange(0, i)) * 10 + (s[i] - 48),
{
    let p = s.subrange(0, i + 1);
    assert(p.drop_last() =~= s.subrange(0, i));
}

proof fn lemma_digits_val_nonneg(s: Seq<u8>)
    requires
        all_digits(s),
    ensures
        digits_val(s) >= 0,
    decreases s.len(),
{
    if s.len() > 0 {
        assert(all_digits(s.drop_last()));
        lemma_digits_val_nonneg(s.drop_last());
    }
}

proof fn lemma_digits_val_grows(s: Seq<u8>, i: int)
    requires
        0 <= i <= s.len(),
        all_digits(s),
    ensures
        digits_val(s) >= digits_val(s.subrange(0, i)),
    decreases s.len() - i,
{
    if i == s.len() {
        assert(s.subrange(0, i) =~= s);
    } else {
        lemma_digits_val_step(s, i);
        assert(all_digits(s.subrange(0, i)));
        lemma_digits_val_nonneg(s.subrange(0, i));
        lemma_digits_val_grows(s, i + 1);
        assert(digits_val(s.subrange(0, i + 1)) >= digits_val(s.subrange(0, i)));
    }
}

/// Parses an unsigned decimal with an optional leading `+`.
pub fn parse_u32_bytes(v: &[u8]) -> (r: Option<u32>)
    ensures
        r == parse_u32_spec(v@),
{
    let n: usize = v.len();
    let start: usize = if n > 0 && v[0] == 43 {
        1
    } else {
        0
    };
    let ghost t = if v@.len() > 0 && v@[0] == 43 {
        v@.drop_first()
    } else {
        v@
    };
    proof {
        assert(t =~= v@.subrange(start as int, n as int));
    }
    if start == n {
        return None;
    }
    let mut acc: u64 = 0;
    let mut i: usize = start;
    while i < n
        invariant
            start <= i <= n,
            n == v@.len(),
            t == v@.subrange(start as int, n as int),
            t == (if v@.len() > 0 && v@[0] == 43 {
                v@.drop_first()
            } else {
                v@
            }),
            all_digits(t.subrange(0, i - start)),
            acc == digits_val(t.subrange(0, i - start)),
            acc <= u32::MAX,
        decreases n - i,
    {
        let b = v[i];
        if !(48 <= b && b <= 57) {
            proof {
                assert(t[i - start] == b);
                assert(!all_digits(t)) by {
                    if all_digits(t) {
                        assert(is_digit(t[i - start]));
                    }
                }
            }
            return None;
        }
        let next: u64 = acc * 10 + ((b - 48) as u64);
        proof {
            lemma_digits_val_step(t, i - start);
            assert(t.subrange(0, i - start + 1) =~= t.subrange(0, (i + 1) - start));
        }
        if next > 0xFFFF_FFFF {
            proof {
                assert(t[i - start] == b);
                if all_digits(t) {
                    lemma_digits_val_grows(t, i - start + 1);
                }
            }
            return None;
        }
        acc = next;
        i = i + 1;
    }
    proof {
        assert(t.subrange(0, n - start) =~= t);
    }
    Some(acc as u32)
}

/// What parsing a signed decimal accepts: an optional `+` or `-`, then at
/// least one digit, with the signed value in the 32-bit range.
pub open spec fn parse_i32_spec(s: Seq<u8>) -> Option<i32> {
    let neg = s.len() > 0 && s[0] == 45;
    let t = if s.len() > 0 && (s[0] == 43 || s[0] == 45) {
        s.drop_first()
    } else {
        s
    };
    if t.len() > 0 && all_digits(t) {
        let v = digits_val(t);
        if neg && v <= 0x8000_0000 {
            Some((-v) as i32)
        } else if !neg && v <= i32::MAX {
            Some(v as i32)
        } else {
            None
        }
    } else {
        None
    }
}

/// Parses a signed decimal with an optional sign.
pub fn parse_i32_bytes(v: &[u8]) -> (r: Option<i32>)
    ensures
        r == parse_i32_spec(v@),
{
    let n: usize = v.len();
    if n == 0 {
        return None;
    }
    let neg = v[0] == 45;
    let rest: &[u8] = if v[0] == 43 || v[0] == 45 {
        vstd::slice::slice_subrange(v, 1, n)
    } else {
        v
    };
    let ghost t = if v@.len() > 0 && (v@[0] == 43 || v@[0] == 45) {
        v@.drop_first()
    } else {
        v@
    };
    proof {
        assert(rest@ =~= t);
    }
    if rest.len() == 0 {
        return None;
    }
    // Reuse the unsigned parser's digit loop through a 64-bit bound first.
    let mut acc: u64 = 0;
    let mut i: usize = 0;
    let m: usize = rest.len();
    while i < m
        invariant
            i <= m,
            m == t.len(),
            rest@ == t,
            t == (if v@.len() > 0 && (v@[0] == 43 || v@[0] == 45) {
                v@.drop_first()
            } else {
                v@
            }),
            neg == (v@.len() > 0 && v@[0] == 45),
            all_digits(t.subrange(0, i as int)),
            acc == digits_val(t.subrange(0, i as int)),
            acc <= 0x8000_0000u64,
        decreases m - i,
    {
        let b = rest[i];
        if !(48 <= b && b <= 57) {
            proof {
                assert(t[i as int] == b);
                assert(!all_digits(t)) by {
                    if all_digits(t) {
                        assert(is_digit(t[i as int]));
                    }
                }
            }
            return None;
        }
        let next: u64 = acc * 10 + ((b - 48) as u64);
        proof {
            lemma_digits_val_step(t, i as int);
        }
        if next > 0x8000_0000 {
            proof {
                assert(t[i as int] == b);
                if all_digits(t) {
                    lemma_digits_val_grows(t, i as int + 1);
                }
            }
            return None;
        }
        acc = next;
        i = i + 1;
    }
    proof {
        assert(t.subrange(0, m as int) =~= t);
    }
    if neg {
        if acc == 0x8000_0000 {
            Some(i32::MIN)
        } else {
            Some(-((acc as u32) as i32))
        }
    } else {
        if acc <= 0x7FFF_FFFF {
            Some(acc as i32)
        } else {
            None
        }
    }
}

/// What parsing a signed 64-bit decimal accepts, like the 32-bit form with
/// wider bounds.
pub open spec fn parse_i64_spec(s: Seq<u8>) -> Option<i64> {
    let neg = s.len() > 0 && s[0] == 45;
    let t = if s.len() > 0 && (s[0] == 43 || s[0] == 45) {
        s.drop_first()
    } else {
        s
    };
    if t.len() > 0 && all_digits(t) {
        let v = digits_val(t);
        if neg && v <= 0x8000_0000_0000_0000 {
            Some((-v) as i64)
        } else if !neg && v <= i64::MAX {
            Some(v as i64)
        } else {
            None
        }
    } else {
        None
    }
}

/// Parses a signed 64-bit decimal with an optional sign.
pub fn parse_i64_bytes(v: &[u8]) -> (r: Option<i64>)
    ensures
        r == parse_i64_spec(v@),
{
    let n: usize = v.len();
    if n == 0 {
        return None;
    }
    let neg = v[0] == 45;
    let rest: &[u8] = if v[0] == 43 || v[0] == 45 {
        vstd::slice::slice_subrange(v, 1, n)
    } else {
        v
    };
    let ghost t = if v@.len() > 0 && (v@[0] == 43 || v@[0] == 45) {
        v@.drop_first()
    } else {
        v@
    };
    proof {
        assert(rest@ =~= t);
    }
    if rest.len() == 0 {
        return None;
    }
    let mut acc: u64 = 0;
    let mut i: usize = 0;
    let m: usize = rest.len();
    while i < m
        invariant
            i <= m,
            m == t.len(),
            rest@ == t,
            t == (if v@.len() > 0 && (v@[0] == 43 || v@[0] == 45) {
                v@.drop_first()
            } else {
                v@
            }),
            neg == (v@.len() > 0 && v@[0] == 45),
            all_digits(t.subrange(0, i as int)),
            acc == digits_val(t.subrange(0, i as int)),
            acc <= 0x8000_0000_0000_0000u64,
        decreases m - i,
    {
        let b = rest[i];
        if !(48 <= b && b <= 57) {
            proof {
                assert(t[i as int] == b);
                assert(!all_digits(t)) by {
                    if all_digits(t) {
                        assert(is_digit(t[i as int]));
                    }
                }
            }
            return None;
        }
        if acc > 0x0CCC_CCCC_CCCC_CCCC {
            // the next step would exceed the signed 64-bit magnitude bound
            proof {
                assert(t[i as int] == b);
                lemma_digits_val_step(t, i as int);
                lemma_digits_val_nonneg(t.subrange(0, i as int));
                if all_digits(t) {
                    lemma_digits_val_grows(t, i as int + 1);
                }
            }
            return None;
        }
        let next: u64 = acc * 10 + ((b - 48) as u64);
        proof {
            lemma_digits_val_step(t, i as int);
        }
        if next > 0x8000_0000_0000_0000 {
            proof {
                assert(t[i as int] == b);
                if all_digits(t) {
                    lemma_digits_val_grows(t, i as int + 1);
                }
            }
            return None;
        }
        acc = next;
        i = i + 1;
    }
    proof {
        assert(t.subrange(0, m as int) =~= t);
    }
    if neg {
        if acc == 0x8000_0000_0000_0000 {
            Some(i64::MIN)
        } else {
            Some(-(acc as i64))
        }
    } else {
        if acc <= 0x7FFF_FFFF_FFFF_FFFF {
            Some(acc as i64)
        } else {
            None
        }
    }
}

/// The value of an ASCII hexadecimal digit, upper or lower case.
pub open spec fn hex_val(b: u8) -> Option<u8> {
    if 48 <= b <= 57 {
        Some((b - 48) as u8)
    } else if 97 <= b <= 102 {
        Some((b - 87) as u8)
    } else if 65 <= b <= 70 {
        Some((b - 55) as u8)
    } else {
        None
    }
}

/// The value of a two-digit hexadecimal pair, or `None` if either byte is
/// not a hexadecimal digit.
pub open spec fn hex_pair(hi: u8, lo: u8) -> Option<u8> {
    match (hex_val(hi), hex_val(lo)) {
        (Some(h), Some(l)) => Some((h * 16 + l) as u8),
        _ => None,
    }
}

fn hex_digit(b: u8) -> (r: Option<u8>)
    ensures
        r == hex_val(b),
{
    if 48 <= b && b <= 57 {
        Some(b - 48)
    } else if 97 <= b && b <= 102 {
        Some(b - 87)
    } else if 65 <= b && b <= 70 {
        Some(b - 55)
    } else {
        None
    }
}

/// Parses one two-digit hexadecimal pair.
pub fn parse_hex_pair(hi: u8, lo: u8) -> (r: Option<u8>)
    ensures
        r == hex_pair(hi, lo),
{
    match (hex_digit(hi), hex_digit(lo)) {
        (Some(h), Some(l)) => Some(h * 16 + l),
        _ => None,
    }
}

/// An ASCII byte lowered: upper-case letters mapped to lower case.
pub open spec fn lower(b: u8) -> u8 {
    if 65 <= b <= 90 {
        (b + 32) as u8
    } else {
        b
    }
}

fn lower_byte(b: u8) -> (r: u8)
    ensures
        r == lower(b),
{
    if 65 <= b && b <= 90 {
        b + 32
    } else {
        b
    }
}

/// The sequence with one leading `+` or `-` removed.
pub open spec fn strip_sign(s: Seq<u8>) -> Seq<u8> {
    if s.len() > 0 && (s[0] == 43 || s[0] == 45) {
        s.drop_first()
    } else {
        s
    }
}

/// The special float words: `inf`, `infinity` and `nan`, case-insensitive.
pub open spec fn is_special_float(s: Seq<u8>) -> bool {
    (s.len() == 3 && lower(s[0]) == 105 && lower(s[1]) == 110 && lower(s[2]) == 102) || (s.len()
        == 3 && lower(s[0]) == 110 && lower(s[1]) == 97 && lower(s[2]) == 110) || (s.len() == 8
        && lower(s[0]) == 105 && lower(s[1]) == 110 && lower(s[2]) == 102 && lower(s[3]) == 105
        && lower(s[4]) == 110 && lower(s[5]) == 105 && lower(s[6]) == 116 && lower(s[7]) == 121)
}

/// The first index at or after `i` holding `a` or `b`.
pub open spec fn find_byte2(s: Seq<u8>, i: int, a: u8, b: u8) -> Option<int>
    decreases s.len() - i,
{
    if i < 0 || i >= s.len() {
        None
    } else if s[i] == a || s[i] == b {
        Some(i)
    } else {
        find_byte2(s, i + 1, a, b)
    }
}

proof fn lemma_find_byte2_at(s: Seq<u8>, i: int, a: u8, b: u8)
    requires
        0 <= i <= s.len(),
        forall|j: int| 0 <= j < i ==> s[j] != a && s[j] != b,
        i < s.len() ==> (s[i] == a || s[i] == b),
    ensures
        find_byte2(s, 0, a, b) == (if i < s.len() {
            Some(i)
        } else {
            None::<int>
        }),
    decreases i,
{
    lemma_find_byte2_from(s, 0, i, a, b);
}

proof fn lemma_find_byte2_from(s: Seq<u8>, lo: int, i: int, a: u8, b: u8)
    requires
        0 <= lo <= i <= s.len(),
        forall|j: int| lo <= j < i ==> s[j] != a && s[j] != b,
        i < s.len() ==> (s[i] == a || s[i] == b),
    ensures
        find_byte2(s, lo, a, b) == (if i < s.len() {
            Some(i)
        } else {
            None::<int>
        }),
    decreases i - lo,
{
    if lo < i {
        lemma_find_byte2_from(s, lo + 1, i, a, b);
    }
}

/// Finds the first occurrence of either byte.
pub fn find_byte2_exec(v: &[u8], a: u8, b: u8) -> (r: Option<usize>)
    ensures
        match r {
            Some(i) => i < v@.len() && find_byte2(v@, 0, a, b) == Some(i as int),
            None => find_byte2(v@, 0, a, b) is None,
        },
{
    let mut i: usize = 0;
    while i < v.len()
        invariant
            i <= v@.len(),
            forall|j: int| 0 <= j < i ==> v@[j] != a && v@[j] != b,
        decreases v@.len() - i,
    {
        if v[i] == a || v[i] == b {
            proof {
                lemma_find_byte2_at(v@, i as int, a, b);
            }
            return Some(i);
        }
        i = i + 1;
    }
    proof {
        lemma_find_byte2_at(v@, v@.len() as int, a, b);
    }
    None
}

/// Decides whether every byte is a decimal digit.
pub fn all_digits_exec(v: &[u8]) -> (r: bool)
    ensures
        r == all_digits(v@),
{
    let mut i: usize = 0;
    while i < v.len()
        invariant
            i <= v@.len(),
            forall|j: int| 0 <= j < i ==> is_digit(v@[j]),
        decreases v@.len() - i,
    {
        if !(48 <= v[i] && v[i] <= 57) {
            proof {
                assert(!is_digit(v@[i as int]));
            }
            return false;
        }
        i = i + 1;
    }
    true
}

/// A well-formed mantissa: digits, or digits around one decimal point with
/// at least one digit on either side.
pub open spec fn is_mantissa(s: Seq<u8>) -> bool {
    match find_byte2(s, 0, 46, 46) {
        None => s.len() > 0 && all_digits(s),
        Some(d) => {
            let before = s.subrange(0, d);
            let after = s.subrange(d + 1, s.len() as int);
            all_digits(before) && all_digits(after) && (before.len() > 0 || after.len() > 0)
        },
    }
}

/// A well-formed exponent part: an optional sign then at least one digit.
pub open spec fn is_exp_part(s: Seq<u8>) -> bool {
    strip_sign(s).len() > 0 && all_digits(strip_sign(s))
}

/// The float literal grammar the text format accepts: an optional sign,
/// then `inf`, `infinity` or `nan` (case-insensitive), or a mantissa with an
/// optional `e`/`E` exponent.
pub open spec fn is_float_syntax(s: Seq<u8>) -> bool {
    let t = strip_sign(s);
    is_special_float(t) || match find_byte2(t, 0, 101, 69) {
        None => is_mantissa(t),
        Some(i) => is_mantissa(t.subrange(0, i)) && is_exp_part(t.subrange(i + 1, t.len() as int)),
    }
}

fn is_mantissa_exec(v: &[u8]) -> (r: bool)
    ensures
        r == is_mantissa(v@),
{
    match find_byte2_exec(v, 46, 46) {
        None => v.len() > 0 && all_digits_exec(v),
        Some(d) => {
            let n: usize = v.len();
            assert(d < n);
            let before = vstd::slice::slice_subrange(v, 0, d);
            let after = vstd::slice::slice_subrange(v, d + 1, n);
            all_digits_exec(before) && all_digits_exec(after) && (before.len() > 0 || after.len()
                > 0)
        },
    }
}

fn strip_sign_exec<'a>(v: &'a [u8]) -> (r: &'a [u8])
    ensures
        r@ == strip_sign(v@),
{
    if v.len() > 0 && (v[0] == 43 || v[0] == 45) {
        let r = vstd::slice::slice_subrange(v, 1, v.len());
        proof {
            assert(r@ =~= v@.drop_first());
        }
        r
    } else {
        v
    }
}

fn is_special_float_exec(v: &[u8]) -> (r: bool)
    ensures
        r == is_special_float(v@),
{
    if v.len() == 3 {
        (lower_byte(v[0]) == 105 && lower_byte(v[1]) == 110 && lower_byte(v[2]) == 102) || (
        lower_byte(v[0]) == 110 && lower_byte(v[1]) == 97 && lower_byte(v[2]) == 110)
    } else if v.len() == 8 {
        lower_byte(v[0]) == 105 && lower_byte(v[1]) == 110 && lower_byte(v[2]) == 102
            && lower_byte(v[3]) == 105 && lower_byte(v[4]) == 110 && lower_byte(v[5]) == 105
            && lower_byte(v[6]) == 116 && lower_byte(v[7]) == 121
    } else {
        false
    }
}

/// Decides whether a byte sequence is a well-formed float literal.
pub fn is_float_literal(v: &[u8]) -> (r: bool)
    ensures
        r == is_float_syntax(v@),
{
    let t = strip_sign_exec(v);
    if is_special_float_exec(t) {
        return true;
    }
    match find_byte2_exec(t, 101, 69) {
        None => is_mantissa_exec(t),
        Some(i) => {
            let n: usize = t.len();
            assert(i < n);
            let mant = vstd::slice::slice_subrange(t, 0, i);
            let ex = vstd::slice::slice_subrange(t, i + 1, n);
            is_mantissa_exec(mant) && {
                let es = strip_sign_exec(ex);
                es.len() > 0 && all_digits_exec(es)
            }
        },
    }
}

/// The index of the last path separator, scanning from the end.
pub open spec fn last_slash(s: Seq<char>) -> Option<int>
    decreases s.len(),
{
    if s.len() == 0 {
        None
    } else if s.last() == '/' {
        Some(s.len() - 1)
    } else {
        last_slash(s.drop_last())
    }
}

/// The parent directory of a file path: everything before the last
/// separator (the root for a top-level absolute path, empty for a bare file
/// name); an empty path has none.
pub open spec fn parent_spec(s: Seq<char>) -> Option<Seq<char>> {
    match last_slash(s) {
        Some(i) => if i == 0 {
            Some(s.subrange(0, 1))
        } else {
            Some(s.subrange(0, i))
        },
        None => if s.len() == 0 {
            None
        } else {
            Some(Seq::empty())
        },
    }
}

/// A relative path joined onto a directory.
pub open spec fn join_dir_spec(d: Seq<char>, r: Seq<char>) -> Seq<char> {
    if d.len() == 0 {
        r
    } else if d.last() == '/' {
        d + r
    } else {
        d + seq!['/'] + r
    }
}

proof fn lemma_last_slash_at(s: Seq<char>, i: int)
    requires
        0 <= i <= s.len(),
        forall|j: int| i <= j < s.len() ==> s[j] != '/',
        i > 0 ==> s[i - 1] == '/',
    ensures
        last_slash(s) == (if i > 0 {
            Some(i - 1)
        } else {
            None::<int>
        }),
    decreases s.len(),
{
    if i < s.len() {
        lemma_last_slash_at(s.drop_last(), i);
    }
}

/// The parent directory of a file path, or the path-has-no-parent failure
/// for an empty path.
pub fn parent_dir(s: &String) -> (r: Result<String, crate::error::Error>)
    ensures
        match r {
            Ok(d) => parent_spec(s@) == Some(d@),
            Err(e) => parent_spec(s@) is None && e == crate::error::Error::PathIsNotFile,
        },
{
    let n: usize = s.as_str().unicode_len();
    let mut i: usize = n;
    while i > 0
        invariant
            i <= n,
            n == s@.len(),
            forall|j: int| i <= j < s@.len() ==> s@[j] != '/',
        decreases i,
    {
        if s.as_str().get_char(i - 1) == '/' {
            proof {
                lemma_last_slash_at(s@, i as int);
            }
            if i == 1 {
                let d = s.as_str().substring_char(0, 1);
                return Ok(d.to_owned());
            }
            let d = s.as_str().substring_char(0, i - 1);
            return Ok(d.to_owned());
        }
        i = i - 1;
    }
    proof {
        lemma_last_slash_at(s@, 0);
    }
    if n == 0 {
        Err(crate::error::Error::PathIsNotFile)
    } else {
        let d = String::new();
        proof {
            assert(d@ =~= Seq::<char>::empty());
        }
        Ok(d)
    }
}

/// Joins a relative path onto a directory.
pub fn join_dir(d: &String, r: &String) -> (out: String)
    ensures
        out@ == join_dir_spec(d@, r@),
{
    let n: usize = d.as_str().unicode_len();
    if n == 0 {
        return r.clone();
    }
    let mut out: String = d.clone();
    if d.as_str().get_char(n - 1) == '/' {
        out.append(r.as_str());
        out
    } else {
        proof {
            reveal_strlit("/");
        }
        out.append("/");
        out.append(r.as_str());
        proof {
            assert(d@ + "/"@ + r@ =~= d@ + seq!['/'] + r@);
        }
        out
    }
}

/// The value of four consecutive bytes read as a little-endian unsigned
/// 32-bit integer.
pub open spec fn le_u32(b0: u8, b1: u8, b2: u8, b3: u8) -> u32 {
    (b0 + b1 * 0x100 + b2 * 0x1_0000 + b3 * 0x100_0000) as u32
}

/// Reads four bytes as a little-endian unsigned 32-bit integer.
pub fn read_le_u32(b0: u8, b1: u8, b2: u8, b3: u8) -> (r: u32)
    ensures
        r == le_u32(b0, b1, b2, b3),
{
    (b0 as u32) + (b1 as u32) * 0x100 + (b2 as u32) * 0x1_0000 + (b3 as u32) * 0x100_0000
}

} // verus!
