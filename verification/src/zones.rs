//! Which date texts make `dateparser` read a time-zone offset of 24 hours or more. It reads an
//! offset only in four forms, each ending in a zone of three to six characters:
//! `YYYY-MM-DD HH:MM[:SS][.fff] <zone>`, `YYYY-MM-DD<zone>`, `H:MM[:SS][ am] <zone>` and
//! `Month D[,] YYYY[,][at] HH:MM[:SS][ am] <zone>`. It hands the zone to
//! `chrono::FixedOffset::east`, which panics on an offset of 24 hours or more.

use vstd::prelude::*;
use crate::numtext::{digit_value, is_digit};
use crate::text::{is_white, white};

verus! {

/// An ASCII letter.
pub open spec fn is_ascii_letter(c: char) -> bool {
    ('a' <= c && c <= 'z') || ('A' <= c && c <= 'Z')
}

/// `s` without its leading colons.
pub open spec fn drop_colons(s: Seq<char>) -> Seq<char>
    decreases s.len(),
{
    if s.len() > 0 && s[0] == ':' {
        drop_colons(s.drop_first())
    } else {
        s
    }
}

/// `t` reads as a UTC offset of 24 hours or more: a sign, two digits of hours from 24 up,
/// possibly colons, then two digits of minutes (the first from 0 to 5).
pub open spec fn offset_out_of_range(t: Seq<char>) -> bool {
    &&& t.len() >= 3
    &&& (t[0] == '+' || t[0] == '-')
    &&& is_digit(t[1])
    &&& is_digit(t[2])
    &&& digit_value(t[1]) * 10 + digit_value(t[2]) >= 24
    &&& drop_colons(t.skip(3)).len() >= 2
    &&& '0' <= drop_colons(t.skip(3))[0] && drop_colons(t.skip(3))[0] <= '5'
    &&& is_digit(drop_colons(t.skip(3))[1])
}

/// The first position from `i` on, before `e`, that is not white space.
pub open spec fn ws_end(s: Seq<char>, e: int, i: int) -> int
    decreases e - i,
{
    if 0 <= i < e && i < s.len() && is_white(s[i]) {
        ws_end(s, e, i + 1)
    } else {
        i
    }
}

/// The start of the white space that ends at `j`.
pub open spec fn ws_start(s: Seq<char>, j: int) -> int
    decreases j,
{
    if 0 < j <= s.len() && is_white(s[j - 1]) {
        ws_start(s, j - 1)
    } else {
        j
    }
}

/// The `k` characters from `i` on lie before `e` and are digits.
pub open spec fn digits_at(s: Seq<char>, e: int, i: int, k: int) -> bool {
    &&& 0 <= i
    &&& i + k <= e
    &&& e <= s.len()
    &&& forall|j: int| i <= j < i + k ==> is_digit(#[trigger] s[j])
}

/// The end of the run of at most `max` digits from `i` on, before `e`.
pub open spec fn digit_run(s: Seq<char>, e: int, i: int, max: nat) -> int
    decreases max,
{
    if max > 0 && 0 <= i < e && e <= s.len() && is_digit(s[i]) {
        digit_run(s, e, i + 1, (max - 1) as nat)
    } else {
        i
    }
}

/// The end of the run of at most `max` ASCII letters from `i` on, before `e`.
pub open spec fn letter_run(s: Seq<char>, e: int, i: int, max: nat) -> int
    decreases max,
{
    if max > 0 && 0 <= i < e && e <= s.len() && is_ascii_letter(s[i]) {
        letter_run(s, e, i + 1, (max - 1) as nat)
    } else {
        i
    }
}

/// After a clock time ending at `i`: past `:SS` where it follows.
pub open spec fn sec_end(s: Seq<char>, e: int, i: int) -> int {
    if digits_at(s, e, i + 1, 2) && s[i] == ':' {
        i + 3
    } else {
        i
    }
}

/// `HH:MM` at `i`.
pub open spec fn clock_at(s: Seq<char>, e: int, i: int) -> bool {
    &&& digits_at(s, e, i, 2)
    &&& i + 2 < e
    &&& s[i + 2] == ':'
    &&& digits_at(s, e, i + 3, 2)
}

/// The text from `i` to `e` is `am`, `pm`, `AM` or `PM`.
pub open spec fn ampm_at(s: Seq<char>, e: int, i: int) -> bool {
    &&& 0 <= i
    &&& i + 2 == e
    &&& e <= s.len()
    &&& ((s[i] == 'a' && s[i + 1] == 'm') || (s[i] == 'p' && s[i + 1] == 'm') || (s[i] == 'A'
        && s[i + 1] == 'M') || (s[i] == 'P' && s[i + 1] == 'M'))
}

/// From `q` on there is nothing, or white space and then `am`, `pm`, `AM` or `PM`.
pub open spec fn ampm_tail(s: Seq<char>, e: int, q: int) -> bool {
    q == e || ampm_at(s, e, ws_end(s, e, q))
}

/// The text starts with `YYYY-MM-DD`.
pub open spec fn ymd_at_start(s: Seq<char>, e: int) -> bool {
    &&& digits_at(s, e, 0, 4)
    &&& s[4] == '-'
    &&& digits_at(s, e, 5, 2)
    &&& s[7] == '-'
    &&& digits_at(s, e, 8, 2)
}

/// The text before `e` is `YYYY-MM-DD`, white space, `HH:MM`, optionally `:SS`, optionally
/// `.` and one to nine digits.
pub open spec fn ymd_hms_core(s: Seq<char>, e: int) -> bool {
    let p = ws_end(s, e, 10);
    let q = sec_end(s, e, p + 5);
    &&& ymd_at_start(s, e)
    &&& p > 10
    &&& clock_at(s, e, p)
    &&& (q == e || (q < e && s[q] == '.' && 1 <= e - q - 1 <= 9 && digits_at(s, e, q + 1, e - q - 1)))
}

/// The text before `e` is `YYYY-MM-DD`.
pub open spec fn ymd_core(s: Seq<char>, e: int) -> bool {
    e == 10 && ymd_at_start(s, e)
}

/// The text before `e` is one or two digits, `:MM`, optionally `:SS`, optionally white space
/// and `am`, `pm`, `AM` or `PM`.
pub open spec fn hms_core(s: Seq<char>, e: int) -> bool {
    let d = digit_run(s, e, 0, 2);
    &&& d >= 1
    &&& d < e
    &&& s[d] == ':'
    &&& digits_at(s, e, d + 1, 2)
    &&& ampm_tail(s, e, sec_end(s, e, d + 3))
}

/// The text before `e` is a month name of three to nine letters, white space, one or two
/// digits, optionally `,`, white space, four digits, then white space with an optional `,`
/// and an optional `at` in it, `HH:MM`, optionally `:SS`, optionally white space and `am`,
/// `pm`, `AM` or `PM`.
pub open spec fn month_core(s: Seq<char>, e: int) -> bool {
    let a = letter_run(s, e, 0, 10);
    let b = ws_end(s, e, a);
    let d = digit_run(s, e, b, 2);
    let d1 = if d < e && s[d] == ',' {
        d + 1
    } else {
        d
    };
    let f = ws_end(s, e, d1);
    let g = f + 4;
    let h = ws_end(s, e, g);
    let h1 = if h < e && s[h] == ',' {
        h + 1
    } else {
        h
    };
    let h2 = if h1 + 2 <= e && s[h1] == 'a' && s[h1 + 1] == 't' {
        h1 + 2
    } else {
        h1
    };
    let h3 = ws_end(s, e, h2);
    &&& 3 <= a <= 9
    &&& b > a
    &&& d > b
    &&& f > d1
    &&& digits_at(s, e, f, 4)
    &&& (if h2 > h {
        h3 > h2
    } else {
        h > g
    })
    &&& clock_at(s, e, h3)
    &&& ampm_tail(s, e, sec_end(s, e, h3 + 5))
}

/// A character that a zone may hold: `+`, `,`, `-`, `.`, `/`, a digit, `:` or an ASCII letter.
pub open spec fn zone_char(c: char) -> bool {
    ('+' <= c && c <= ':') || is_ascii_letter(c)
}

/// The last `k` characters of `s` are a zone that reads as an offset of 24 hours or more, and
/// what comes before it is one of the four forms that end in a zone (with white space between,
/// where the form asks for it).
pub open spec fn zone_offset_panics(s: Seq<char>, k: int) -> bool {
    let n = s.len() as int;
    let u = n - k;
    let c = ws_start(s, u);
    &&& 3 <= k <= 6
    &&& k <= n
    &&& forall|j: int| u <= j < n ==> zone_char(#[trigger] s[j])
    &&& offset_out_of_range(s.skip(u))
    &&& (ymd_hms_core(s, c) || ymd_core(s, c) || (c < u && (hms_core(s, c) || month_core(s, c))))
}

/// A date text from which `dateparser` reads a time-zone offset of 24 hours or more, and so
/// panics in `chrono::FixedOffset::east`.
pub open spec fn date_offset_unreadable(s: Seq<char>) -> bool {
    exists|k: int| zone_offset_panics(s, k)
}

/// Whether `s` reads, from `start` on, as a UTC offset of 24 hours or more.
fn offset_out_of_range_at(s: &Vec<char>, start: usize) -> (r: bool)
    requires
        start + 3 <= s.len(),
    ensures
        r == offset_out_of_range(s@.skip(start as int)),
{
    let ghost t = s@.skip(start as int);
    assert(t[0] == s@[start as int] && t[1] == s@[start + 1] && t[2] == s@[start + 2]);
    let c0 = s[start];
    let c1 = s[start + 1];
    let c2 = s[start + 2];
    if !(c0 == '+' || c0 == '-') || !('0' <= c1 && c1 <= '9') || !('0' <= c2 && c2 <= '9') {
        return false;
    }
    let h: u32 = (c1 as u32 - '0' as u32) * 10 + (c2 as u32 - '0' as u32);
    if h < 24 {
        return false;
    }
    let mut j: usize = start + 3;
    assert(t.skip(3) =~= s@.skip(j as int));
    while j < s.len() && s[j] == ':'
        invariant
            start + 3 <= j <= s.len(),
            drop_colons(t.skip(3)) == drop_colons(s@.skip(j as int)),
        decreases s.len() - j,
    {
        assert(s@.skip(j as int).drop_first() =~= s@.skip(j + 1));
        j = j + 1;
    }
    assert(drop_colons(s@.skip(j as int)) == s@.skip(j as int));
    if s.len() - j < 2 {
        return false;
    }
    let m0 = s[j];
    let m1 = s[j + 1];
    assert(s@.skip(j as int)[0] == m0 && s@.skip(j as int)[1] == m1);
    '0' <= m0 && m0 <= '5' && '0' <= m1 && m1 <= '9'
}

fn ws_end_x(s: &Vec<char>, e: usize, i: usize) -> (r: usize)
    requires
        e <= s.len(),
        i <= e,
    ensures
        r as int == ws_end(s@, e as int, i as int),
        i <= r <= e,
{
    let mut j = i;
    while j < e && white(s[j])
        invariant
            e <= s.len(),
            i <= j <= e,
            ws_end(s@, e as int, i as int) == ws_end(s@, e as int, j as int),
        decreases e - j,
    {
        j = j + 1;
    }
    j
}

fn ws_start_x(s: &Vec<char>, j: usize) -> (r: usize)
    requires
        j <= s.len(),
    ensures
        r as int == ws_start(s@, j as int),
        r <= j,
{
    let mut k = j;
    while k > 0 && white(s[k - 1])
        invariant
            k <= j <= s.len(),
            ws_start(s@, j as int) == ws_start(s@, k as int),
        decreases k,
    {
        k = k - 1;
    }
    k
}

fn digit_x(c: char) -> (r: bool)
    ensures
        r == is_digit(c),
{
    '0' <= c && c <= '9'
}

fn letter_x(c: char) -> (r: bool)
    ensures
        r == is_ascii_letter(c),
{
    ('a' <= c && c <= 'z') || ('A' <= c && c <= 'Z')
}

fn digits_at_x(s: &Vec<char>, e: usize, i: usize, k: usize) -> (r: bool)
    requires
        e <= s.len(),
    ensures
        r == digits_at(s@, e as int, i as int, k as int),
{
    if i > e || k > e - i {
        return false;
    }
    let mut j = i;
    while j < i + k
        invariant
            e <= s.len(),
            i <= j <= i + k <= e,
            forall|x: int| i <= x < j ==> is_digit(#[trigger] s@[x]),
        decreases i + k - j,
    {
        if !digit_x(s[j]) {
            return false;
        }
        j = j + 1;
    }
    true
}

fn digit_run_x(s: &Vec<char>, e: usize, i: usize, max: usize) -> (r: usize)
    requires
        e <= s.len(),
        i <= e,
    ensures
        r as int == digit_run(s@, e as int, i as int, max as nat),
        i <= r <= e,
{
    let mut j = i;
    let mut m = max;
    while m > 0 && j < e && digit_x(s[j])
        invariant
            e <= s.len(),
            i <= j <= e,
            digit_run(s@, e as int, i as int, max as nat) == digit_run(s@, e as int, j as int, m as nat),
        decreases m,
    {
        j = j + 1;
        m = m - 1;
    }
    j
}

fn letter_run_x(s: &Vec<char>, e: usize, i: usize, max: usize) -> (r: usize)
    requires
        e <= s.len(),
        i <= e,
    ensures
        r as int == letter_run(s@, e as int, i as int, max as nat),
        i <= r <= e,
{
    let mut j = i;
    let mut m = max;
    while m > 0 && j < e && letter_x(s[j])
        invariant
            e <= s.len(),
            i <= j <= e,
            letter_run(s@, e as int, i as int, max as nat) == letter_run(s@, e as int, j as int, m as nat),
        decreases m,
    {
        j = j + 1;
        m = m - 1;
    }
    j
}

fn sec_end_x(s: &Vec<char>, e: usize, i: usize) -> (r: usize)
    requires
        e <= s.len(),
        i <= e,
    ensures
        r as int == sec_end(s@, e as int, i as int),
        i <= r <= e,
{
    if i < e && digits_at_x(s, e, i + 1, 2) && s[i] == ':' {
        i + 3
    } else {
        i
    }
}

fn clock_at_x(s: &Vec<char>, e: usize, i: usize) -> (r: bool)
    requires
        e <= s.len(),
        i <= e,
    ensures
        r == clock_at(s@, e as int, i as int),
{
    if e - i < 5 {
        return false;
    }
    digits_at_x(s, e, i, 2) && s[i + 2] == ':' && digits_at_x(s, e, i + 3, 2)
}

fn ampm_tail_x(s: &Vec<char>, e: usize, q: usize) -> (r: bool)
    requires
        e <= s.len(),
        q <= e,
    ensures
        r == ampm_tail(s@, e as int, q as int),
{
    if q == e {
        return true;
    }
    let i = ws_end_x(s, e, q);
    if e - i != 2 {
        return false;
    }
    let a = s[i];
    let b = s[i + 1];
    (a == 'a' && b == 'm') || (a == 'p' && b == 'm') || (a == 'A' && b == 'M') || (a == 'P' && b
        == 'M')
}

fn ymd_at_start_x(s: &Vec<char>, e: usize) -> (r: bool)
    requires
        e <= s.len(),
    ensures
        r == ymd_at_start(s@, e as int),
{
    if e < 10 {
        return false;
    }
    digits_at_x(s, e, 0, 4) && s[4] == '-' && digits_at_x(s, e, 5, 2) && s[7] == '-'
        && digits_at_x(s, e, 8, 2)
}

fn ymd_hms_core_x(s: &Vec<char>, e: usize) -> (r: bool)
    requires
        e <= s.len(),
    ensures
        r == ymd_hms_core(s@, e as int),
{
    if !ymd_at_start_x(s, e) {
        return false;
    }
    let p = ws_end_x(s, e, 10);
    if !(p > 10 && clock_at_x(s, e, p)) {
        return false;
    }
    let q = sec_end_x(s, e, p + 5);
    if q == e {
        return true;
    }
    s[q] == '.' && 1 <= e - q - 1 && e - q - 1 <= 9 && digits_at_x(s, e, q + 1, e - q - 1)
}

fn hms_core_x(s: &Vec<char>, e: usize) -> (r: bool)
    requires
        e <= s.len(),
    ensures
        r == hms_core(s@, e as int),
{
    let d = digit_run_x(s, e, 0, 2);
    if !(d >= 1 && d < e && s[d] == ':') {
        return false;
    }
    if !digits_at_x(s, e, d + 1, 2) {
        return false;
    }
    let q = sec_end_x(s, e, d + 3);
    ampm_tail_x(s, e, q)
}

fn month_core_x(s: &Vec<char>, e: usize) -> (r: bool)
    requires
        e <= s.len(),
    ensures
        r == month_core(s@, e as int),
{
    let a = letter_run_x(s, e, 0, 10);
    if !(3 <= a && a <= 9) {
        return false;
    }
    let b = ws_end_x(s, e, a);
    if !(b > a) {
        return false;
    }
    let d = digit_run_x(s, e, b, 2);
    if !(d > b) {
        return false;
    }
    let d1 = if d < e && s[d] == ',' {
        d + 1
    } else {
        d
    };
    let f = ws_end_x(s, e, d1);
    if !(f > d1 && digits_at_x(s, e, f, 4)) {
        return false;
    }
    let g = f + 4;
    let h = ws_end_x(s, e, g);
    let h1 = if h < e && s[h] == ',' {
        h + 1
    } else {
        h
    };
    let h2 = if e - h1 >= 2 && s[h1] == 'a' && s[h1 + 1] == 't' {
        h1 + 2
    } else {
        h1
    };
    let h3 = ws_end_x(s, e, h2);
    let gap = if h2 > h {
        h3 > h2
    } else {
        h > g
    };
    if !gap || !clock_at_x(s, e, h3) {
        return false;
    }
    let q = sec_end_x(s, e, h3 + 5);
    ampm_tail_x(s, e, q)
}

fn zone_offset_panics_x(s: &Vec<char>, k: usize) -> (r: bool)
    requires
        3 <= k <= 6,
    ensures
        r == zone_offset_panics(s@, k as int),
{
    let n = s.len();
    if k > n {
        return false;
    }
    let u = n - k;
    let mut j = u;
    while j < n
        invariant
            n == s.len(),
            k <= n,
            u == n - k,
            u <= j <= n,
            forall|x: int| u <= x < j ==> zone_char(#[trigger] s@[x]),
        decreases n - j,
    {
        let ch = s[j];
        if !(('+' <= ch && ch <= ':') || letter_x(ch)) {
            assert(!zone_char(s@[j as int]));
            return false;
        }
        j = j + 1;
    }
    if !offset_out_of_range_at(s, u) {
        return false;
    }
    let c = ws_start_x(s, u);
    ymd_hms_core_x(s, c) || ymd_core_x(s, c) || (c < u && (hms_core_x(s, c) || month_core_x(s, c)))
}

fn ymd_core_x(s: &Vec<char>, e: usize) -> (r: bool)
    requires
        e <= s.len(),
    ensures
        r == ymd_core(s@, e as int),
{
    e == 10 && ymd_at_start_x(s, e)
}

/// Whether the date text `raw` may be read: it is not one that `date_offset_unreadable`
/// leaves out.
pub fn date_readable(raw: &Vec<char>) -> (r: bool)
    ensures
        r == !date_offset_unreadable(raw@),
{
    let mut k: usize = 3;
    while k <= 6
        invariant
            3 <= k <= 7,
            forall|kk: int| 3 <= kk < k ==> !#[trigger] zone_offset_panics(raw@, kk),
        decreases 7 - k,
    {
        if zone_offset_panics_x(raw, k) {
            return false;
        }
        k = k + 1;
    }
    assert forall|kk: int| !#[trigger] zone_offset_panics(raw@, kk) by {
        if 3 <= kk <= 6 {
        }
    }
    true
}

} // verus!
