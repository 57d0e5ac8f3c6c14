//! Byte-level text helpers: ASCII case folding, substring search, and the
//! digit formatting and parsing the storage layout and the probe adapter need.

use vstd::prelude::*;
use vstd::string::StrSliceExecFns;

verus! {

/// ASCII case folding of one byte: upper-case letters map to lower case,
/// every other byte is unchanged.
pub open spec fn lower_byte(b: u8) -> u8 {
    if 65 <= b <= 90 {
        (b + 32) as u8
    } else {
        b
    }
}

/// ASCII case folding of a byte string.
pub open spec fn lower_bytes(s: Seq<u8>) -> Seq<u8> {
    s.map_values(|b: u8| lower_byte(b))
}

/// The UTF-8 bytes of a character string; text matching works on these.
pub open spec fn bytes_of(s: Seq<char>) -> Seq<u8> {
    vstd::utf8::encode_utf8(s)
}

/// The Unicode lower-case form of a character string, as the standard
/// library's case mapping produces it. It depends on the characters alone.
pub uninterp spec fn lower_of(s: Seq<char>) -> Seq<char>;

/// Relies on `str::to_lowercase`: the Unicode lowercase mapping of the
/// string, a function of its characters alone (no locale parameter).
#[verifier::external_body]
pub fn lowercase(s: &str) -> (r: String)
    ensures
        r@ == lower_of(s@),
{
    s.to_lowercase()
}

/// `needle` occurs in `hay` starting at position `i`.
pub open spec fn occurs_at(hay: Seq<u8>, needle: Seq<u8>, i: int) -> bool {
    &&& 0 <= i
    &&& i + needle.len() <= hay.len()
    &&& forall|j: int| 0 <= j < needle.len() ==> hay[i + j] == needle[j]
}

/// `needle` occurs somewhere in `hay` (the empty needle always occurs).
pub open spec fn contains_sub(hay: Seq<u8>, needle: Seq<u8>) -> bool {
    exists|i: int| occurs_at(hay, needle, i)
}

/// Fold a byte string to ASCII lower case.
pub fn lower_vec(v: &Vec<u8>) -> (r: Vec<u8>)
    ensures
        r@ == lower_bytes(v@),
{
    let mut out: Vec<u8> = Vec::new();
    let mut i: usize = 0;
    while i < v.len()
        invariant
            i <= v.len(),
            out@ =~= lower_bytes(v@.subrange(0, i as int)),
        decreases v.len() - i,
    {
        let b = v[i];
        if 65 <= b && b <= 90 {
            out.push(b + 32);
        } else {
            out.push(b);
        }
        proof {
            assert(out@ =~= lower_bytes(v@.subrange(0, i + 1 as int)));
        }
        i = i + 1;
    }
    proof {
        assert(v@.subrange(0, v@.len() as int) =~= v@);
    }
    out
}

/// Substring search: does `needle` occur anywhere in `hay`?
pub fn contains_bytes(hay: &Vec<u8>, needle: &Vec<u8>) -> (r: bool)
    ensures
        r == contains_sub(hay@, needle@),
{
    if needle.len() > hay.len() {
        return false;
    }
    let mut i: usize = 0;
    while i <= hay.len() - needle.len()
        invariant
            needle.len() <= hay.len(),
            i <= hay.len() - needle.len() + 1,
            forall|k: int| 0 <= k < i ==> !occurs_at(hay@, needle@, k),
        decreases hay.len() - i,
    {
        let mut j: usize = 0;
        let mut here: bool = true;
        while j < needle.len()
            invariant
                j <= needle.len(),
                i + needle.len() <= hay.len(),
                here <==> (forall|t: int| 0 <= t < j ==> hay@[i + t] == needle@[t]),
            decreases needle.len() - j,
        {
            if hay[i + j] != needle[j] {
                here = false;
                proof {
                    assert(hay@[i + j as int] != needle@[j as int]);
                }
                break;
            }
            j = j + 1;
        }
        if here {
            proof {
                assert(occurs_at(hay@, needle@, i as int));
            }
            return true;
        }
        proof {
            assert(!occurs_at(hay@, needle@, i as int));
        }
        i = i + 1;
    }
    proof {
        assert forall|k: int| !occurs_at(hay@, needle@, k) by {
            if 0 <= k && k + needle@.len() <= hay@.len() {
                assert(k < i);
            }
        }
    }
    false
}

/// The UTF-8 bytes of a string, as an owned vector.
pub fn string_bytes(s: &String) -> (r: Vec<u8>)
    ensures
        r@ == bytes_of(s@),
{
    s.as_str().as_bytes_vec()
}

/// Case-insensitive containment of `needle` in `hay`: the needle is the
/// lower-cased query's bytes, and the hay is matched in its lower-case form.
pub open spec fn contains_ci(hay: Seq<char>, needle: Seq<u8>) -> bool {
    contains_sub(bytes_of(lower_of(hay)), needle)
}

/// Does the lower-cased text of `hay` contain the (already lower-cased)
/// byte string `needle`?
pub fn contains_text_ci(hay: &String, needle: &Vec<u8>) -> (r: bool)
    ensures
        r == contains_ci(hay@, needle@),
{
    let lowered = string_bytes(&lowercase(hay.as_str()));
    contains_bytes(&lowered, needle)
}

/// The character for one digit value below sixteen, upper case.
pub open spec fn hex_char(d: u8) -> char {
    if d == 0 { '0' } else if d == 1 { '1' } else if d == 2 { '2' } else if d == 3 { '3' } else if d
        == 4 { '4' } else if d == 5 { '5' } else if d == 6 { '6' } else if d == 7 { '7' } else if d
        == 8 { '8' } else if d == 9 { '9' } else if d == 10 { 'A' } else if d == 11 { 'B' } else if d
        == 12 { 'C' } else if d == 13 { 'D' } else if d == 14 { 'E' } else { 'F' }
}

/// The upper-case hexadecimal rendering of `n`, without leading zeros.
pub open spec fn hex_seq(n: u32) -> Seq<char>
    decreases n,
{
    if n < 16 {
        seq![hex_char(n as u8)]
    } else {
        hex_seq(n / 16).push(hex_char((n % 16) as u8))
    }
}

/// One digit value below sixteen as a string slice.
pub fn hex_digit_str(d: u8) -> (r: &'static str)
    requires
        d < 16,
    ensures
        r@ =~= seq![hex_char(d)],
{
    proof {
        reveal_strlit("0");
        reveal_strlit("1");
        reveal_strlit("2");
        reveal_strlit("3");
        reveal_strlit("4");
        reveal_strlit("5");
        reveal_strlit("6");
        reveal_strlit("7");
        reveal_strlit("8");
        reveal_strlit("9");
        reveal_strlit("A");
        reveal_strlit("B");
        reveal_strlit("C");
        reveal_strlit("D");
        reveal_strlit("E");
        reveal_strlit("F");
    }
    match d {
        0 => "0",
        1 => "1",
        2 => "2",
        3 => "3",
        4 => "4",
        5 => "5",
        6 => "6",
        7 => "7",
        8 => "8",
        9 => "9",
        10 => "A",
        11 => "B",
        12 => "C",
        13 => "D",
        14 => "E",
        _ => "F",
    }
}

/// Render `n` in upper-case hexadecimal, as the storage layout writes ids.
pub fn hex_string(n: u32) -> (r: String)
    ensures
        r@ == hex_seq(n),
    decreases n,
{
    if n < 16 {
        let r = String::from_str(hex_digit_str(n as u8));
        proof {
            assert(r@ =~= hex_seq(n));
        }
        r
    } else {
        let r = hex_string(n / 16).concat(hex_digit_str((n % 16) as u8));
        proof {
            assert(r@ =~= hex_seq(n));
        }
        r
    }
}

/// The two-digit, zero-padded decimal rendering of a value below one hundred.
pub open spec fn two_digit_seq(n: u32) -> Seq<char> {
    seq![hex_char((n / 10 % 10) as u8), hex_char((n % 10) as u8)]
}

/// Render a bucket number below one hundred with exactly two digits.
pub fn two_digit_string(n: u32) -> (r: String)
    requires
        n < 100,
    ensures
        r@ == two_digit_seq(n),
{
    let r = String::from_str(hex_digit_str((n / 10) as u8)).concat(hex_digit_str((n % 10) as u8));
    proof {
        assert(r@ =~= two_digit_seq(n));
    }
    r
}

/// The decimal rendering of `n`, without leading zeros.
pub open spec fn dec_seq(n: u64) -> Seq<char>
    decreases n,
{
    if n < 10 {
        seq![hex_char(n as u8)]
    } else {
        dec_seq(n / 10).push(hex_char((n % 10) as u8))
    }
}

/// Render `n` in decimal.
pub fn dec_string(n: u64) -> (r: String)
    ensures
        r@ == dec_seq(n),
    decreases n,
{
    if n < 10 {
        let r = String::from_str(hex_digit_str(n as u8));
        proof {
            assert(r@ =~= dec_seq(n));
        }
        r
    } else {
        let r = dec_string(n / 10).concat(hex_digit_str((n % 10) as u8));
        proof {
            assert(r@ =~= dec_seq(n));
        }
        r
    }
}

/// Is the byte an ASCII decimal digit?
pub open spec fn is_digit(b: u8) -> bool {
    48 <= b <= 57
}

/// Every byte of the string is a decimal digit.
pub open spec fn all_digits(s: Seq<u8>) -> bool {
    forall|k: int| 0 <= k < s.len() ==> is_digit(#[trigger] s[k])
}

/// The value of a decimal digit string (most significant digit first).
pub open spec fn dec_val(s: Seq<u8>) -> int
    decreases s.len(),
{
    if s.len() == 0 {
        0
    } else {
        dec_val(s.drop_last()) * 10 + (s.last() - 48)
    }
}

/// A digit string's value only grows as more digits are appended.
proof fn lemma_dec_val_extend(s: Seq<u8>, i: int)
    requires
        0 <= i <= s.len(),
        all_digits(s),
    ensures
        dec_val(s.subrange(0, i)) <= dec_val(s),
    decreases s.len() - i,
{
    if i < s.len() {
        let a = s.subrange(0, i);
        let b = s.subrange(0, i + 1);
        assert(b.drop_last() =~= a);
        assert(dec_val(b) == dec_val(a) * 10 + (s[i] - 48));
        lemma_dec_val_nonneg(a);
        lemma_dec_val_extend(s, i + 1);
    } else {
        assert(s.subrange(0, i) =~= s);
    }
}

/// A digit string's value is never negative.
proof fn lemma_dec_val_nonneg(s: Seq<u8>)
    requires
        all_digits(s),
    ensures
        dec_val(s) >= 0,
    decreases s.len(),
{
    if s.len() > 0 {
        assert(all_digits(s.drop_last()));
        lemma_dec_val_nonneg(s.drop_last());
    }
}

/// Parse a non-empty decimal digit string whose value fits in 64 bits;
/// every other input is rejected.
pub fn parse_u64(s: &Vec<u8>) -> (r: Option<u64>)
    ensures
        r is Some <==> s@.len() > 0 && all_digits(s@) && dec_val(s@) <= u64::MAX,
        r is Some ==> r->0 == dec_val(s@),
{
    if s.len() == 0 {
        return None;
    }
    let mut acc: u64 = 0;
    let mut i: usize = 0;
    while i < s.len()
        invariant
            i <= s.len(),
            all_digits(s@.subrange(0, i as int)),
            acc == dec_val(s@.subrange(0, i as int)),
        decreases s.len() - i,
    {
        let b = s[i];
        if b < 48 || b > 57 {
            return None;
        }
        proof {
            assert(s@.subrange(0, i + 1 as int).drop_last() =~= s@.subrange(0, i as int));
        }
        let shifted = match acc.checked_mul(10) {
            Some(v) => v,
            None => {
                proof {
                    overflow_case(s@, i as int);
                }
                return None;
            },
        };
        acc = match shifted.checked_add((b - 48) as u64) {
            Some(v) => v,
            None => {
                proof {
                    overflow_case(s@, i as int);
                }
                return None;
            },
        };
        i = i + 1;
    }
    proof {
        assert(s@.subrange(0, s@.len() as int) =~= s@);
    }
    Some(acc)
}

/// Copy a range of a byte vector.
pub fn sub_vec(v: &Vec<u8>, a: usize, b: usize) -> (r: Vec<u8>)
    requires
        a <= b <= v@.len(),
    ensures
        r@ == v@.subrange(a as int, b as int),
{
    let mut out: Vec<u8> = Vec::new();
    let mut i: usize = a;
    while i < b
        invariant
            a <= i <= b,
            out@ =~= v@.subrange(a as int, i as int),
        decreases b - i,
    {
        out.push(v[i]);
        proof {
            assert(out@ =~= v@.subrange(a as int, i + 1 as int));
        }
        i = i + 1;
    }
    out
}

/// The string holds a decimal point somewhere.
pub open spec fn has_dot(s: Seq<u8>) -> bool {
    exists|k: int| 0 <= k < s.len() && s[k] == 46
}

/// The position of the first decimal point.
pub open spec fn dot_index(s: Seq<u8>) -> int {
    choose|k: int|
        0 <= k < s.len() && s[k] == 46 && (forall|j: int| 0 <= j < k ==> s[j] != 46)
}

/// The milliseconds contributed by a fractional-seconds digit string:
/// the first three digits, scaled; further digits are truncated away.
pub open spec fn frac_ms(f: Seq<u8>) -> int {
    if f.len() >= 3 {
        100 * (f[0] - 48) + 10 * (f[1] - 48) + (f[2] - 48)
    } else if f.len() == 2 {
        100 * (f[0] - 48) + 10 * (f[1] - 48)
    } else if f.len() == 1 {
        100 * (f[0] - 48)
    } else {
        0
    }
}

/// The integer-seconds part: everything before the first dot, or the whole
/// string when there is none.
pub open spec fn int_part(s: Seq<u8>) -> Seq<u8> {
    if has_dot(s) {
        s.subrange(0, dot_index(s))
    } else {
        s
    }
}

/// The fractional part: everything after the first dot; empty when there
/// is none.
pub open spec fn frac_part(s: Seq<u8>) -> Seq<u8> {
    if has_dot(s) {
        s.subrange(dot_index(s) + 1, s.len() as int)
    } else {
        Seq::empty()
    }
}

/// A well-formed decimal duration in seconds: digits, at most one dot,
/// not empty, and a millisecond value that fits in 64 bits.
pub open spec fn duration_wf(s: Seq<u8>) -> bool {
    &&& s.len() > 0
    &&& all_digits(int_part(s))
    &&& all_digits(frac_part(s))
    &&& duration_ms_of(s) <= u64::MAX
}

/// The whole-millisecond value of a decimal duration in seconds.
pub open spec fn duration_ms_of(s: Seq<u8>) -> int {
    dec_val(int_part(s)) * 1000 + frac_ms(frac_part(s))
}

/// Parse a decimal duration in seconds (`"12"`, `"12.345"`) into whole
/// milliseconds, truncating past the third fractional digit.
pub fn parse_duration_ms(s: &Vec<u8>) -> (r: Option<u64>)
    ensures
        r is Some <==> duration_wf(s@),
        r is Some ==> r->0 == duration_ms_of(s@),
{
    if s.len() == 0 {
        return None;
    }
    let mut dot: usize = s.len();
    let mut i: usize = 0;
    while i < s.len()
        invariant
            i <= s.len(),
            dot == s.len(),
            forall|j: int| 0 <= j < i ==> s@[j] != 46,
        decreases s.len() - i,
    {
        if s[i] == 46 {
            dot = i;
            break;
        }
        i = i + 1;
    }
    if dot == s.len() {
        proof {
            assert(!has_dot(s@));
        }
        let v = match parse_u64(s) {
            Some(v) => v,
            None => {
                return None;
            },
        };
        match v.checked_mul(1000) {
            Some(ms) => Some(ms),
            None => None,
        }
    } else {
        proof {
            assert(0 <= dot < s@.len() && s@[dot as int] == 46 && (forall|j: int|
                0 <= j < dot ==> s@[j] != 46));
            assert(has_dot(s@));
            let c = dot_index(s@);
            assert(s@[c] == 46 && (forall|j: int| 0 <= j < c ==> s@[j] != 46));
            assert(c == dot as int) by {
                if c < dot as int {
                    assert(s@[c] != 46);
                } else if c > dot as int {
                    assert(s@[dot as int] != 46);
                }
            }
        }
        let ip = sub_vec(s, 0, dot);
        let fp = sub_vec(s, dot + 1, s.len());
        let secs = if ip.len() == 0 {
            0u64
        } else {
            match parse_u64(&ip) {
                Some(v) => v,
                None => {
                    return None;
                },
            }
        };
        let mut f: u64 = 0;
        if fp.len() >= 1 {
            let b = fp[0];
            if b < 48 || b > 57 {
                return None;
            }
            f = 100 * ((b - 48) as u64);
        }
        if fp.len() >= 2 {
            let b = fp[1];
            if b < 48 || b > 57 {
                return None;
            }
            f = f + 10 * ((b - 48) as u64);
        }
        if fp.len() >= 3 {
            let b = fp[2];
            if b < 48 || b > 57 {
                return None;
            }
            f = f + ((b - 48) as u64);
        }
        let mut k: usize = 3;
        while k < fp.len()
            invariant
                3 <= k,
                k <= fp.len() || fp.len() < 3,
                forall|j: int| 0 <= j < k && j < fp@.len() ==> is_digit(#[trigger] fp@[j]),
            decreases fp.len() - k,
        {
            let b = fp[k];
            if b < 48 || b > 57 {
                return None;
            }
            k = k + 1;
        }
        proof {
            assert(all_digits(fp@));
            assert(f == frac_ms(frac_part(s@)));
        }
        let base = match secs.checked_mul(1000) {
            Some(v) => v,
            None => {
                proof {
                    lemma_dec_val_nonneg(frac_part(s@));
                    assert(frac_ms(frac_part(s@)) >= 0);
                }
                return None;
            },
        };
        match base.checked_add(f) {
            Some(ms) => Some(ms),
            None => None,
        }
    }
}

/// When one more digit overflows 64 bits, the whole string cannot be a
/// digit string with a 64-bit value.
proof fn overflow_case(s: Seq<u8>, i: int)
    requires
        0 <= i < s.len(),
        is_digit(s[i]),
        all_digits(s.subrange(0, i)),
        dec_val(s.subrange(0, i)) * 10 + (s[i] - 48) > u64::MAX,
    ensures
        !(all_digits(s) && dec_val(s) <= u64::MAX),
{
    if all_digits(s) {
        assert(s.subrange(0, i + 1).drop_last() =~= s.subrange(0, i));
        assert(dec_val(s.subrange(0, i + 1)) > u64::MAX);
        lemma_dec_val_extend(s, i + 1);
    }
}

} // verus!
