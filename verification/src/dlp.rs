//! The downloader adapter's line parser. The external downloader is started
//! with a fixed structured progress template; its stdout is consumed line by
//! line. A line either reports "downloading item N of M", or carries the
//! structured progress object, or is irrelevant and ignored.

use vstd::prelude::*;
use vstd::string::StrSliceExecFns;

verus! {

/// One structured per-item progress report, fields as the downloader
/// renders them.
pub struct DownloadProgress {
    pub progress_percentage: String,
    pub progress_total: String,
    pub eta: String,
}

/// `needle` occurs in `hay` starting at character position `i`.
pub open spec fn occ_at(hay: Seq<char>, needle: Seq<char>, i: int) -> bool {
    &&& 0 <= i
    &&& i + needle.len() <= hay.len()
    &&& forall|j: int| 0 <= j < needle.len() ==> hay[i + j] == needle[j]
}

/// `needle` occurs somewhere in `hay`.
pub open spec fn occurs(hay: Seq<char>, needle: Seq<char>) -> bool {
    exists|i: int| occ_at(hay, needle, i)
}

/// The first position where `needle` occurs.
pub open spec fn first_occ(hay: Seq<char>, needle: Seq<char>) -> int {
    choose|i: int| occ_at(hay, needle, i) && (forall|q: int| 0 <= q < i ==> !occ_at(hay, needle, q))
}

/// An ASCII decimal digit character.
pub open spec fn is_digit_c(c: char) -> bool {
    '0' <= c <= '9'
}

/// The end of the digit run starting at `a`: the first position at or after
/// `a` holding no digit.
pub open spec fn digit_run_end(s: Seq<char>, a: int) -> int
    decreases s.len() - a,
{
    if a < 0 || a >= s.len() {
        a
    } else if !is_digit_c(s[a]) {
        a
    } else {
        digit_run_end(s, a + 1)
    }
}

/// Every position of the digit run holds a digit, and the run stays inside
/// the string.
pub proof fn lemma_digit_run(s: Seq<char>, a: int)
    requires
        0 <= a <= s.len(),
    ensures
        a <= digit_run_end(s, a) <= s.len(),
        forall|k: int| a <= k < digit_run_end(s, a) ==> is_digit_c(#[trigger] s[k]),
    decreases s.len() - a,
{
    if a < s.len() && is_digit_c(s[a]) {
        lemma_digit_run(s, a + 1);
    }
}

/// The value of a run of digit characters, most significant first.
pub open spec fn dec_val_c(s: Seq<char>) -> int
    decreases s.len(),
{
    if s.len() == 0 {
        0
    } else {
        dec_val_c(s.drop_last()) * 10 + (s.last() as u32 - 48)
    }
}

/// A digit string's value only grows as more digits are appended.
proof fn lemma_dec_val_c_extend(s: Seq<char>, i: int)
    requires
        0 <= i <= s.len(),
        forall|k: int| 0 <= k < s.len() ==> is_digit_c(#[trigger] s[k]),
    ensures
        0 <= dec_val_c(s.subrange(0, i)) <= dec_val_c(s),
    decreases s.len() - i,
{
    if i == 0 {
        assert(s.subrange(0, 0) =~= Seq::empty());
        lemma_dec_val_c_nonneg(s);
    } else {
    }
    if i < s.len() {
        let a = s.subrange(0, i);
        let b = s.subrange(0, i + 1);
        assert(b.drop_last() =~= a);
        lemma_dec_val_c_nonneg_pre(s, i);
        lemma_dec_val_c_extend(s, i + 1);
    } else {
        assert(s.subrange(0, i) =~= s);
        lemma_dec_val_c_nonneg(s);
    }
}

/// A digit string's value is never negative.
proof fn lemma_dec_val_c_nonneg(s: Seq<char>)
    requires
        forall|k: int| 0 <= k < s.len() ==> is_digit_c(#[trigger] s[k]),
    ensures
        dec_val_c(s) >= 0,
    decreases s.len(),
{
    if s.len() > 0 {
        lemma_dec_val_c_nonneg(s.drop_last());
    }
}

/// The value of a digit prefix is never negative.
proof fn lemma_dec_val_c_nonneg_pre(s: Seq<char>, i: int)
    requires
        0 <= i <= s.len(),
        forall|k: int| 0 <= k < s.len() ==> is_digit_c(#[trigger] s[k]),
    ensures
        dec_val_c(s.subrange(0, i)) >= 0,
{
    lemma_dec_val_c_nonneg(s.subrange(0, i));
}

/// Find the first occurrence of `needle` in `hay`, by character position.
pub fn find_str(hay: &str, needle: &str) -> (r: Option<usize>)
    ensures
        r is Some <==> occurs(hay@, needle@),
        r is Some ==> occ_at(hay@, needle@, r->0 as int) && (forall|q: int|
            0 <= q < r->0 ==> !occ_at(hay@, needle@, q)),
        r is Some ==> r->0 as int == first_occ(hay@, needle@),
{
    let n = hay.unicode_len();
    let m = needle.unicode_len();
    if m > n {
        return None;
    }
    let mut i: usize = 0;
    while i <= n - m
        invariant
            m <= n,
            n == hay@.len(),
            m == needle@.len(),
            i <= n - m + 1,
            forall|q: int| 0 <= q < i ==> !occ_at(hay@, needle@, q),
        decreases n + 1 - i,
    {
        let mut j: usize = 0;
        let mut here: bool = true;
        while j < m
            invariant
                i + m <= n,
                n == hay@.len(),
                m == needle@.len(),
                j <= m,
                here <==> (forall|t: int| 0 <= t < j ==> hay@[i + t] == needle@[t]),
            decreases m - j,
        {
            if hay.get_char(i + j) != needle.get_char(j) {
                here = false;
                proof {
                    assert(hay@[i + j as int] != needle@[j as int]);
                }
                break;
            }
            j = j + 1;
        }
        if here {
            proof {
                assert(occ_at(hay@, needle@, i as int));
                let c = first_occ(hay@, needle@);
                assert(occ_at(hay@, needle@, c) && (forall|q: int|
                    0 <= q < c ==> !occ_at(hay@, needle@, q)));
                assert(c == i as int) by {
                    if c < i as int {
                        assert(!occ_at(hay@, needle@, c));
                    } else if c > i as int {
                        assert(!occ_at(hay@, needle@, i as int));
                    }
                }
            }
            return Some(i);
        }
        proof {
            assert(!occ_at(hay@, needle@, i as int));
        }
        i = i + 1;
    }
    proof {
        assert forall|k: int| !occ_at(hay@, needle@, k) by {
            if 0 <= k && k + needle@.len() <= hay@.len() {
                assert(k < i);
            }
        }
    }
    None
}

/// The end of the digit run starting at `a`, by scan.
pub fn digit_run(s: &str, a: usize) -> (e: usize)
    requires
        a <= s@.len(),
    ensures
        e == digit_run_end(s@, a as int),
        a <= e <= s@.len(),
{
    let n = s.unicode_len();
    let mut i: usize = a;
    while i < n
        invariant
            a <= i <= n,
            n == s@.len(),
            digit_run_end(s@, a as int) == digit_run_end(s@, i as int),
        decreases n - i,
    {
        let c = s.get_char(i);
        if !('0' <= c && c <= '9') {
            return i;
        }
        i = i + 1;
    }
    i
}

/// Parse the digit run `[a, b)` of `s` into a 32-bit number; a value over
/// `u32::MAX` is rejected.
pub fn parse_u32_digits(s: &str, a: usize, b: usize) -> (r: Option<u32>)
    requires
        a <= b <= s@.len(),
        forall|k: int| a <= k < b ==> is_digit_c(#[trigger] s@[k]),
    ensures
        r is Some <==> dec_val_c(s@.subrange(a as int, b as int)) <= u32::MAX,
        r is Some ==> r->0 == dec_val_c(s@.subrange(a as int, b as int)),
{
    let ghost whole = s@.subrange(a as int, b as int);
    let mut acc: u32 = 0;
    let mut i: usize = a;
    while i < b
        invariant
            a <= i <= b <= s@.len(),
            whole == s@.subrange(a as int, b as int),
            forall|k: int| a <= k < b ==> is_digit_c(#[trigger] s@[k]),
            acc == dec_val_c(s@.subrange(a as int, i as int)),
        decreases b - i,
    {
        let c = s.get_char(i);
        proof {
            assert(is_digit_c(s@[i as int]));
            assert(s@.subrange(a as int, i + 1 as int).drop_last() =~= s@.subrange(
                a as int,
                i as int,
            ));
            assert forall|k: int| 0 <= k < whole.len() implies is_digit_c(#[trigger] whole[k]) by {
                assert(whole[k] == s@[a + k]);
            }
        }
        let d: u32 = (c as u32) - 48;
        let shifted = match acc.checked_mul(10) {
            Some(v) => v,
            None => {
                proof {
                    assert(whole.subrange(0, (i - a) as int) =~= s@.subrange(a as int, i as int));
                    assert(whole.subrange(0, (i - a) + 1) =~= s@.subrange(a as int, i + 1 as int));
                    assert(dec_val_c(whole.subrange(0, (i - a) + 1)) > u32::MAX);
                    lemma_dec_val_c_extend(whole, (i - a) + 1);
                }
                return None;
            },
        };
        acc = match shifted.checked_add(d) {
            Some(v) => v,
            None => {
                proof {
                    assert(whole.subrange(0, (i - a) as int) =~= s@.subrange(a as int, i as int));
                    assert(whole.subrange(0, (i - a) + 1) =~= s@.subrange(a as int, i + 1 as int));
                    assert(dec_val_c(whole.subrange(0, (i - a) + 1)) > u32::MAX);
                    lemma_dec_val_c_extend(whole, (i - a) + 1);
                }
                return None;
            },
        };
        i = i + 1;
    }
    Some(acc)
}

/// The pattern announcing per-item progress of a playlist download.
pub open spec fn item_pattern() -> Seq<char> {
    "[download] Downloading item "@
}

/// A line reports "downloading item N of M": after the first occurrence of
/// the announcement comes a digit run N, the word `of`, and a digit run M,
/// each value fitting 32 bits.
pub open spec fn item_line_wf(s: Seq<char>) -> bool {
    &&& occurs(s, item_pattern())
    &&& {
        let a = first_occ(s, item_pattern()) + item_pattern().len();
        let e1 = digit_run_end(s, a);
        &&& e1 > a
        &&& dec_val_c(s.subrange(a, e1)) <= u32::MAX
        &&& occ_at(s, " of "@, e1)
        &&& {
            let b = e1 + 4;
            let e2 = digit_run_end(s, b);
            &&& e2 > b
            &&& dec_val_c(s.subrange(b, e2)) <= u32::MAX
        }
    }
}

/// The current item number of a well-formed item line.
pub open spec fn item_line_cur(s: Seq<char>) -> int {
    let a = first_occ(s, item_pattern()) + item_pattern().len();
    dec_val_c(s.subrange(a, digit_run_end(s, a)))
}

/// The item count of a well-formed item line.
pub open spec fn item_line_max(s: Seq<char>) -> int {
    let a = first_occ(s, item_pattern()) + item_pattern().len();
    let b = digit_run_end(s, a) + 4;
    dec_val_c(s.subrange(b, digit_run_end(s, b)))
}

/// Parse a "downloading item N of M" line into `(N, M)`; any line not of
/// that shape is no error, only not an item line.
pub fn parse_download_item(line: &str) -> (r: Option<(u32, u32)>)
    ensures
        r is Some <==> item_line_wf(line@),
        r is Some ==> (r->0).0 == item_line_cur(line@) && (r->0).1 == item_line_max(line@),
{
    let n = line.unicode_len();
    let p = match find_str(line, "[download] Downloading item ") {
        Some(p) => p,
        None => {
            return None;
        },
    };
    proof {
        reveal_strlit("[download] Downloading item ");
        assert(p + 28 <= n);
    }
    let a = p + 28;
    proof {
        assert(a == first_occ(line@, item_pattern()) + item_pattern().len());
        assert(a <= line@.len());
    }
    let e1 = digit_run(line, a);
    if e1 == a {
        return None;
    }
    proof {
        lemma_digit_run(line@, a as int);
    }
    let cur = match parse_u32_digits(line, a, e1) {
        Some(v) => v,
        None => {
            return None;
        },
    };
    if !find_str_at(line, " of ", e1) {
        return None;
    }
    proof {
        reveal_strlit(" of ");
        assert(e1 + 4 <= n);
    }
    let b = e1 + 4;
    let e2 = digit_run(line, b);
    if e2 == b {
        return None;
    }
    proof {
        lemma_digit_run(line@, b as int);
    }
    let max = match parse_u32_digits(line, b, e2) {
        Some(v) => v,
        None => {
            return None;
        },
    };
    Some((cur, max))
}

/// The end of the run of non-quote characters starting at `a`: the first
/// position at or after `a` holding a double quote, or the end.
pub open spec fn quote_run_end(s: Seq<char>, a: int) -> int
    decreases s.len() - a,
{
    if a < 0 || a >= s.len() {
        a
    } else if s[a] == '"' {
        a
    } else {
        quote_run_end(s, a + 1)
    }
}

/// Scan to the next double quote at or after `a`.
pub fn scan_quote(s: &str, a: usize) -> (e: usize)
    requires
        a <= s@.len(),
    ensures
        e == quote_run_end(s@, a as int),
        a <= e <= s@.len(),
{
    let n = s.unicode_len();
    let mut i: usize = a;
    while i < n
        invariant
            a <= i <= n,
            n == s@.len(),
            quote_run_end(s@, a as int) == quote_run_end(s@, i as int),
        decreases n - i,
    {
        if s.get_char(i) == '"' {
            return i;
        }
        i = i + 1;
    }
    i
}

/// The opening of the fixed progress template.
pub open spec fn tpl_open() -> Seq<char> {
    "{\"progress_percentage\":\""@
}

/// The separator before the total field.
pub open spec fn tpl_total() -> Seq<char> {
    "\",\"progress_total\":\""@
}

/// The separator before the speed field.
pub open spec fn tpl_speed() -> Seq<char> {
    "\",\"speed\":\""@
}

/// The separator before the eta field.
pub open spec fn tpl_eta() -> Seq<char> {
    "\",\"eta\":\""@
}

/// The closing of the template.
pub open spec fn tpl_close() -> Seq<char> {
    "\"}"@
}

/// The start of the percentage value.
pub open spec fn val1_start(s: Seq<char>) -> int {
    tpl_open().len() as int
}

/// The end of the percentage value.
pub open spec fn val1_end(s: Seq<char>) -> int {
    quote_run_end(s, val1_start(s))
}

/// The start of the total value.
pub open spec fn val2_start(s: Seq<char>) -> int {
    val1_end(s) + tpl_total().len()
}

/// The end of the total value.
pub open spec fn val2_end(s: Seq<char>) -> int {
    quote_run_end(s, val2_start(s))
}

/// The start of the speed value.
pub open spec fn val3_start(s: Seq<char>) -> int {
    val2_end(s) + tpl_speed().len()
}

/// The end of the speed value.
pub open spec fn val3_end(s: Seq<char>) -> int {
    quote_run_end(s, val3_start(s))
}

/// The start of the eta value.
pub open spec fn val4_start(s: Seq<char>) -> int {
    val3_end(s) + tpl_eta().len()
}

/// The end of the eta value.
pub open spec fn val4_end(s: Seq<char>) -> int {
    quote_run_end(s, val4_start(s))
}

/// A line carries the structured progress object the downloader was told to
/// print: the four fixed keys in order, each value free of double quotes,
/// and nothing after the closing brace.
pub open spec fn progress_line_wf(s: Seq<char>) -> bool {
    &&& occ_at(s, tpl_open(), 0)
    &&& occ_at(s, tpl_total(), val1_end(s))
    &&& occ_at(s, tpl_speed(), val2_end(s))
    &&& occ_at(s, tpl_eta(), val3_end(s))
    &&& occ_at(s, tpl_close(), val4_end(s))
    &&& val4_end(s) + tpl_close().len() == s.len()
}

/// Parse one line of downloader output as the structured progress object.
/// A line of any other shape is no error, only not a progress line.
pub fn parse_progress_object(line: &str) -> (r: Option<DownloadProgress>)
    ensures
        r is Some <==> progress_line_wf(line@),
        r is Some ==> {
            &&& r->0.progress_percentage@ == line@.subrange(val1_start(line@), val1_end(line@))
            &&& r->0.progress_total@ == line@.subrange(val2_start(line@), val2_end(line@))
            &&& r->0.eta@ == line@.subrange(val4_start(line@), val4_end(line@))
        },
{
    let n = line.unicode_len();
    let t_open = "{\"progress_percentage\":\"";
    let t_total = "\",\"progress_total\":\"";
    let t_speed = "\",\"speed\":\"";
    let t_eta = "\",\"eta\":\"";
    let t_close = "\"}";
    if !find_str_at(line, t_open, 0) {
        return None;
    }
    let a1 = t_open.unicode_len();
    proof {
        assert(a1 <= n);
    }
    let e1 = scan_quote(line, a1);
    if !find_str_at(line, t_total, e1) {
        return None;
    }
    let a2 = e1 + t_total.unicode_len();
    let e2 = scan_quote(line, a2);
    if !find_str_at(line, t_speed, e2) {
        return None;
    }
    let a3 = e2 + t_speed.unicode_len();
    let e3 = scan_quote(line, a3);
    if !find_str_at(line, t_eta, e3) {
        return None;
    }
    let a4 = e3 + t_eta.unicode_len();
    let e4 = scan_quote(line, a4);
    if !find_str_at(line, t_close, e4) {
        return None;
    }
    if e4 + t_close.unicode_len() != n {
        return None;
    }
    let progress_percentage = line.substring_char(a1, e1).to_owned();
    let progress_total = line.substring_char(a2, e2).to_owned();
    let eta = line.substring_char(a4, e4).to_owned();
    Some(DownloadProgress { progress_percentage, progress_total, eta })
}

/// Does `needle` stand exactly at position `at` of `hay`?
pub fn find_str_at(hay: &str, needle: &str, at: usize) -> (r: bool)
    requires
        at <= hay@.len(),
    ensures
        r == occ_at(hay@, needle@, at as int),
{
    let n = hay.unicode_len();
    let m = needle.unicode_len();
    if m > n - at {
        return false;
    }
    let mut j: usize = 0;
    while j < m
        invariant
            at + m <= n,
            n == hay@.len(),
            m == needle@.len(),
            j <= m,
            forall|t: int| 0 <= t < j ==> hay@[at + t] == needle@[t],
        decreases m - j,
    {
        if hay.get_char(at + j) != needle.get_char(j) {
            proof {
                assert(hay@[at + j as int] != needle@[j as int]);
            }
            return false;
        }
        j = j + 1;
    }
    true
}

} // verus!
