//! Hi-score and settings persistence: a tiny `key=value` text file, so
//! there are no extra dependencies. Lines are `hi=<u32>`, `muted=true|false`
//! and `volume=<decimal>`; blank lines, `#` comments, unknown keys and bad
//! values are ignored, leaving the defaults in place.
use vstd::prelude::*;

verus! {

/// Saved hi-score and audio settings. `volume` is a percentage, `0..=100`.
#[derive(Clone, Copy, Debug, PartialEq, Eq, Structural)]
pub struct Save {
    pub hi: u32,
    pub muted: bool,
    pub volume: u32,
}

/// The settings of a fresh install: no hi-score, sound on, volume 80%.
pub open spec fn default_save() -> Save {
    Save { hi: 0, muted: false, volume: 80 }
}

impl Default for Save {
    fn default() -> (s: Self)
        ensures
            s == default_save(),
    {
        Save { hi: 0, muted: false, volume: 80 }
    }
}

// ---- character classes ----

/// Unicode `White_Space`, the characters that `str::trim` removes.
pub open spec fn is_ws(c: char) -> bool {
    let u = c as u32;
    ||| 9 <= u <= 13
    ||| u == 32
    ||| u == 0x85
    ||| u == 0xa0
    ||| u == 0x1680
    ||| 0x2000 <= u <= 0x200a
    ||| u == 0x2028
    ||| u == 0x2029
    ||| u == 0x202f
    ||| u == 0x205f
    ||| u == 0x3000
}

fn is_ws_char(c: char) -> (r: bool)
    ensures
        r == is_ws(c),
{
    let u = c as u32;
    (9 <= u && u <= 13) || u == 32 || u == 0x85 || u == 0xa0 || u == 0x1680 || (0x2000 <= u && u
        <= 0x200a) || u == 0x2028 || u == 0x2029 || u == 0x202f || u == 0x205f || u == 0x3000
}

/// An ASCII decimal digit.
pub open spec fn is_digit(c: char) -> bool {
    48 <= c as u32 <= 57
}

/// The value of a digit character.
pub open spec fn digit_value(c: char) -> int {
    c as u32 - 48
}

/// The character of a digit value.
pub open spec fn digit_char(d: int) -> char {
    (d + 48) as char
}

/// Every character of `s` is a digit.
pub open spec fn all_digits(s: Seq<char>) -> bool {
    forall|i: int| 0 <= i < s.len() ==> is_digit(#[trigger] s[i])
}

/// The number written by the digits `s`.
pub open spec fn dec_value(s: Seq<char>) -> int
    decreases s.len(),
{
    if s.len() == 0 {
        0
    } else {
        dec_value(s.drop_last()) * 10 + digit_value(s.last())
    }
}

/// The decimal digits of `n`, without leading zeros.
pub open spec fn digits_of(n: nat) -> Seq<char>
    decreases n,
{
    if n < 10 {
        seq![digit_char(n as int)]
    } else {
        digits_of(n / 10).push(digit_char((n % 10) as int))
    }
}

// ---- trimming and splitting ----

/// `s` without leading white space.
pub open spec fn trim_start(s: Seq<char>) -> Seq<char>
    decreases s.len(),
{
    if s.len() > 0 && is_ws(s[0]) {
        trim_start(s.drop_first())
    } else {
        s
    }
}

/// `s` without trailing white space.
pub open spec fn trim_end(s: Seq<char>) -> Seq<char>
    decreases s.len(),
{
    if s.len() > 0 && is_ws(s.last()) {
        trim_end(s.drop_last())
    } else {
        s
    }
}

/// `s` without leading and trailing white space.
pub open spec fn trim(s: Seq<char>) -> Seq<char> {
    trim_end(trim_start(s))
}

/// Index of the first `c` in `s` at or after `i`, or `s.len()` if none.
pub open spec fn find_char(s: Seq<char>, c: char, i: int) -> int
    decreases s.len() - i,
{
    if i >= s.len() {
        s.len() as int
    } else if s[i] == c {
        i
    } else {
        find_char(s, c, i + 1)
    }
}

// ---- values ----

/// A `u32` as `str::parse` reads it: an optional `+`, then at least one
/// digit, and no overflow.
pub open spec fn parse_u32_spec(v: Seq<char>) -> Option<u32> {
    let d = if v.len() > 0 && v[0] == '+' {
        v.drop_first()
    } else {
        v
    };
    if d.len() > 0 && all_digits(d) && dec_value(d) <= u32::MAX {
        Some(dec_value(d) as u32)
    } else {
        None
    }
}

/// `c` with an ASCII capital made small.
pub open spec fn ascii_lower(c: char) -> char {
    let u = c as u32;
    if 65 <= u <= 90 {
        (u + 32) as char
    } else {
        c
    }
}

/// `s` spells the lower-case word `w`, ignoring ASCII case.
pub open spec fn is_word_ci(s: Seq<char>, w: Seq<char>) -> bool {
    s.len() == w.len() && forall|i: int| 0 <= i < s.len() ==> ascii_lower(#[trigger] s[i]) == w[i]
}

/// Index of the first `e` or `E` in `s` at or after `i`, or `s.len()` if none.
pub open spec fn find_exp(s: Seq<char>, i: int) -> int
    decreases s.len() - i,
{
    if i >= s.len() {
        s.len() as int
    } else if s[i] == 'e' || s[i] == 'E' {
        i
    } else {
        find_exp(s, i + 1)
    }
}

/// A decimal exponent: an optional sign, then at least one digit.
pub open spec fn exponent_spec(x: Seq<char>) -> Option<int> {
    let neg = x.len() > 0 && x[0] == '-';
    let d = if x.len() > 0 && (x[0] == '+' || x[0] == '-') {
        x.drop_first()
    } else {
        x
    };
    if d.len() > 0 && all_digits(d) {
        Some(
            if neg {
                -dec_value(d)
            } else {
                dec_value(d)
            },
        )
    } else {
        None
    }
}

/// Digit `k` of the digit string `d`, 0 outside it.
pub open spec fn digit_at(d: Seq<char>, k: int) -> int {
    if 0 <= k < d.len() {
        digit_value(d[k])
    } else {
        0
    }
}

/// The number with digits `d` and the point after the first `p` of them
/// (shifted past either end as needed) is at least 1.
pub open spec fn reaches_one(d: Seq<char>, p: int) -> bool {
    exists|j: int| 0 <= j < d.len() && j < p && #[trigger] d[j] != '0'
}

/// That number as a percentage, clamped to 100 and rounded half up.
pub open spec fn decimal_percent(d: Seq<char>, p: int) -> u32 {
    if reaches_one(d, p) {
        100
    } else {
        (10 * digit_at(d, p) + digit_at(d, p + 1) + if digit_at(d, p + 2) >= 5 {
            1int
        } else {
            0
        }) as u32
    }
}

/// A volume as `f32`'s parser reads a number (an optional sign, then
/// `inf` or `infinity` in any case, or digits with an optional point and
/// at least one digit, and an optional exponent), clamped to `0.0..=1.0`
/// and rounded half up to a whole percentage.
pub open spec fn parse_volume_spec(v: Seq<char>) -> Option<u32> {
    let signed = v.len() > 0 && (v[0] == '+' || v[0] == '-');
    let neg = v.len() > 0 && v[0] == '-';
    let body = if signed {
        v.drop_first()
    } else {
        v
    };
    if is_word_ci(body, "inf"@) || is_word_ci(body, "infinity"@) {
        Some(if neg { 0u32 } else { 100u32 })
    } else {
        let ei = find_exp(body, 0);
        let m = body.take(ei);
        let e = if ei < body.len() {
            exponent_spec(body.skip(ei + 1))
        } else {
            Some(0int)
        };
        let dot = find_char(m, '.', 0);
        let ip = m.take(dot);
        let fp = if dot < m.len() {
            m.skip(dot + 1)
        } else {
            seq![]
        };
        if !(all_digits(ip) && all_digits(fp) && ip.len() + fp.len() > 0 && e is Some) {
            None
        } else if neg {
            Some(0u32)
        } else {
            Some(decimal_percent(ip + fp, ip.len() + e.unwrap()))
        }
    }
}

/// The settings `s` after reading one line of the file.
pub open spec fn apply_line(s: Save, line: Seq<char>) -> Save {
    let l = trim(line);
    if l.len() == 0 || l[0] == '#' {
        s
    } else {
        let e = find_char(l, '=', 0);
        if e >= l.len() {
            s
        } else {
            let k = trim(l.take(e));
            let v = trim(l.skip(e + 1));
            if k == seq!['h', 'i'] {
                match parse_u32_spec(v) {
                    Some(x) => Save { hi: x, ..s },
                    None => s,
                }
            } else if k == seq!['m', 'u', 't', 'e', 'd'] {
                Save { muted: v == seq!['t', 'r', 'u', 'e'], ..s }
            } else if k == seq!['v', 'o', 'l', 'u', 'm', 'e'] {
                match parse_volume_spec(v) {
                    Some(p) => Save { volume: p, ..s },
                    None => s,
                }
            } else {
                s
            }
        }
    }
}

/// Reading `t` line by line: the settings after its complete lines, and
/// the characters of the line still open.
pub open spec fn scan(t: Seq<char>) -> (Save, Seq<char>)
    decreases t.len(),
{
    if t.len() == 0 {
        (default_save(), seq![])
    } else {
        let (s, cur) = scan(t.drop_last());
        if t.last() == '\n' {
            (apply_line(s, cur), seq![])
        } else {
            (s, cur.push(t.last()))
        }
    }
}

/// The settings that the text `t` holds, over the defaults.
pub open spec fn parse_spec(t: Seq<char>) -> Save {
    let (s, cur) = scan(t);
    apply_line(s, cur)
}

/// A read volume is a percentage.
pub proof fn lemma_volume_in_range(v: Seq<char>)
    ensures
        parse_volume_spec(v) matches Some(p) ==> p <= 100,
{
}

proof fn lemma_apply_line_volume(s: Save, line: Seq<char>)
    requires
        s.volume <= 100,
    ensures
        apply_line(s, line).volume <= 100,
{
    let l = trim(line);
    if !(l.len() == 0 || l[0] == '#') {
        let e = find_char(l, '=', 0);
        if e < l.len() {
            lemma_volume_in_range(trim(l.skip(e + 1)));
        }
    }
}

proof fn lemma_scan_volume(t: Seq<char>)
    ensures
        scan(t).0.volume <= 100,
    decreases t.len(),
{
    if t.len() > 0 {
        lemma_scan_volume(t.drop_last());
        lemma_apply_line_volume(scan(t.drop_last()).0, scan(t.drop_last()).1);
    }
}

/// Whatever the text, the settings read from it hold a volume within `0..=100`.
pub proof fn lemma_parse_volume_in_range(t: Seq<char>)
    ensures
        parse_spec(t).volume <= 100,
{
    lemma_scan_volume(t);
    lemma_apply_line_volume(scan(t).0, scan(t).1);
}

// ---- executable reading ----

fn trim_bounds(v: &Vec<char>, lo: usize, hi: usize) -> (r: (usize, usize))
    requires
        lo <= hi <= v@.len(),
    ensures
        lo <= r.0 <= r.1 <= hi,
        v@.subrange(r.0 as int, r.1 as int) == trim(v@.subrange(lo as int, hi as int)),
{
    let mut a = lo;
    while a < hi && is_ws_char(v[a])
        invariant
            lo <= a <= hi,
            hi <= v@.len(),
            trim_start(v@.subrange(lo as int, hi as int)) == trim_start(v@.subrange(a as int, hi as int)),
        decreases hi - a,
    {
        assert(v@.subrange(a as int, hi as int).drop_first() =~= v@.subrange(a + 1, hi as int));
        a += 1;
    }
    let mut b = hi;
    while b > a && is_ws_char(v[b - 1])
        invariant
            lo <= a <= b <= hi,
            hi <= v@.len(),
            trim_end(v@.subrange(a as int, hi as int)) == trim_end(v@.subrange(a as int, b as int)),
        decreases b - a,
    {
        assert(v@.subrange(a as int, b as int).drop_last() =~= v@.subrange(a as int, b - 1));
        b -= 1;
    }
    (a, b)
}

fn find_in(v: &Vec<char>, lo: usize, hi: usize, c: char) -> (r: usize)
    requires
        lo <= hi <= v@.len(),
    ensures
        lo <= r <= hi,
        r - lo == find_char(v@.subrange(lo as int, hi as int), c, 0),
{
    let ghost s = v@.subrange(lo as int, hi as int);
    let mut j = lo;
    while j < hi && v[j] != c
        invariant
            lo <= j <= hi,
            hi <= v@.len(),
            s == v@.subrange(lo as int, hi as int),
            find_char(s, c, 0) == find_char(s, c, j - lo),
        decreases hi - j,
    {
        j += 1;
    }
    j
}

fn range_is(v: &Vec<char>, lo: usize, hi: usize, w: &Vec<char>) -> (r: bool)
    requires
        lo <= hi <= v@.len(),
    ensures
        r == (v@.subrange(lo as int, hi as int) == w@),
{
    if hi - lo != w.len() {
        return false;
    }
    let mut k: usize = 0;
    while k < w.len()
        invariant
            hi - lo == w@.len(),
            hi <= v@.len(),
            k <= w@.len(),
            forall|j: int| 0 <= j < k ==> v@[lo + j] == w@[j],
        decreases w@.len() - k,
    {
        if v[lo + k] != w[k] {
            assert(v@.subrange(lo as int, hi as int)[k as int] != w@[k as int]);
            return false;
        }
        k += 1;
    }
    assert(v@.subrange(lo as int, hi as int) =~= w@);
    true
}

fn all_digits_in(v: &Vec<char>, lo: usize, hi: usize) -> (r: bool)
    requires
        lo <= hi <= v@.len(),
    ensures
        r == all_digits(v@.subrange(lo as int, hi as int)),
{
    let mut j = lo;
    while j < hi
        invariant
            lo <= j <= hi,
            hi <= v@.len(),
            forall|k: int| lo <= k < j ==> is_digit(#[trigger] v@[k]),
        decreases hi - j,
    {
        let u = v[j] as u32;
        if !(48 <= u && u <= 57) {
            assert(!is_digit(v@.subrange(lo as int, hi as int)[j - lo]));
            return false;
        }
        j += 1;
    }
    assert forall|i: int| 0 <= i < hi - lo implies is_digit(#[trigger] v@.subrange(lo as int, hi as int)[i]) by {
        assert(v@.subrange(lo as int, hi as int)[i] == v@[lo + i]);
    }
    true
}

fn parse_u32_in(v: &Vec<char>, lo: usize, hi: usize) -> (r: Option<u32>)
    requires
        lo <= hi <= v@.len(),
    ensures
        r == parse_u32_spec(v@.subrange(lo as int, hi as int)),
{
    let ghost s = v@.subrange(lo as int, hi as int);
    let start = if lo < hi && v[lo] == '+' {
        lo + 1
    } else {
        lo
    };
    let ghost d = v@.subrange(start as int, hi as int);
    assert(d =~= (if s.len() > 0 && s[0] == '+' {
        s.drop_first()
    } else {
        s
    }));
    if start == hi {
        return None;
    }
    let mut acc: u64 = 0;
    let mut j = start;
    while j < hi
        invariant
            lo <= start <= j <= hi,
            hi <= v@.len(),
            d == v@.subrange(start as int, hi as int),
            s == v@.subrange(lo as int, hi as int),
            d == (if s.len() > 0 && s[0] == '+' {
                s.drop_first()
            } else {
                s
            }),
            all_digits(v@.subrange(start as int, j as int)),
            acc == dec_value(v@.subrange(start as int, j as int)),
            acc <= u32::MAX,
        decreases hi - j,
    {
        let u = v[j] as u32;
        if !(48 <= u && u <= 57) {
            assert(d[j - start] == v@[j as int]);
            assert(!is_digit(d[j - start]));
            assert(!all_digits(d));
            return None;
        }
        assert(v@.subrange(start as int, j + 1).drop_last() =~= v@.subrange(start as int, j as int));
        acc = acc * 10 + (u - 48) as u64;
        if acc > u32::MAX as u64 {
            proof {
                assert(d.take(j + 1 - start) =~= v@.subrange(start as int, j + 1));
                if all_digits(d) {
                    lemma_dec_value_grows(d, j + 1 - start);
                }
            }
            return None;
        }
        j += 1;
    }
    assert(v@.subrange(start as int, hi as int) =~= d);
    Some(acc as u32)
}

/// Reading more digits never makes a number smaller.
proof fn lemma_dec_value_grows(d: Seq<char>, k: int)
    requires
        0 <= k <= d.len(),
        all_digits(d),
    ensures
        dec_value(d.take(k)) <= dec_value(d),
    decreases d.len() - k,
{
    if k < d.len() {
        lemma_dec_value_grows(d, k + 1);
        assert(d.take(k + 1).drop_last() =~= d.take(k));
        lemma_dec_value_nonneg(d.take(k));
    } else {
        assert(d.take(k) =~= d);
    }
}

proof fn lemma_dec_value_nonneg(d: Seq<char>)
    requires
        all_digits(d),
    ensures
        0 <= dec_value(d),
    decreases d.len(),
{
    if d.len() > 0 {
        lemma_dec_value_nonneg(d.drop_last());
    }
}

fn word_ci_in(v: &Vec<char>, lo: usize, hi: usize, w: &Vec<char>) -> (r: bool)
    requires
        lo <= hi <= v@.len(),
    ensures
        r == is_word_ci(v@.subrange(lo as int, hi as int), w@),
{
    let ghost s = v@.subrange(lo as int, hi as int);
    if hi - lo != w.len() {
        return false;
    }
    let mut k: usize = 0;
    while k < w.len()
        invariant
            hi - lo == w@.len(),
            hi <= v@.len(),
            k <= w@.len(),
            s == v@.subrange(lo as int, hi as int),
            forall|j: int| 0 <= j < k ==> ascii_lower(#[trigger] s[j]) == w@[j],
        decreases w@.len() - k,
    {
        let c = v[lo + k];
        let u = c as u32;
        let l = if 65 <= u && u <= 90 {
            ((u + 32) as u8) as char
        } else {
            c
        };
        assert(s[k as int] == c);
        if l != w[k] {
            return false;
        }
        k += 1;
    }
    true
}

fn find_exp_in(v: &Vec<char>, lo: usize, hi: usize) -> (r: usize)
    requires
        lo <= hi <= v@.len(),
    ensures
        lo <= r <= hi,
        r - lo == find_exp(v@.subrange(lo as int, hi as int), 0),
{
    let ghost s = v@.subrange(lo as int, hi as int);
    let mut j = lo;
    while j < hi && v[j] != 'e' && v[j] != 'E'
        invariant
            lo <= j <= hi,
            hi <= v@.len(),
            s == v@.subrange(lo as int, hi as int),
            find_exp(s, 0) == find_exp(s, j - lo),
        decreases hi - j,
    {
        j += 1;
    }
    j
}

/// `e` clamped to `-cap..=cap`.
pub open spec fn clamp_exp(e: int, cap: int) -> int {
    if e > cap {
        cap
    } else if e < -cap {
        -cap
    } else {
        e
    }
}

fn exponent_in(v: &Vec<char>, lo: usize, hi: usize, cap: u128) -> (r: Option<i128>)
    requires
        lo <= hi <= v@.len(),
        cap <= 36893488147419103232u128,
    ensures
        r is Some == exponent_spec(v@.subrange(lo as int, hi as int)) is Some,
        r matches Some(e) ==> e == clamp_exp(
            exponent_spec(v@.subrange(lo as int, hi as int)).unwrap(),
            cap as int,
        ),
{
    let ghost x = v@.subrange(lo as int, hi as int);
    let neg = lo < hi && v[lo] == '-';
    let start = if lo < hi && (v[lo] == '+' || v[lo] == '-') {
        lo + 1
    } else {
        lo
    };
    let ghost d = v@.subrange(start as int, hi as int);
    assert(d =~= (if x.len() > 0 && (x[0] == '+' || x[0] == '-') {
        x.drop_first()
    } else {
        x
    }));
    if start == hi || !all_digits_in(v, start, hi) {
        return None;
    }
    let mut acc: u128 = 0;
    let mut j = start;
    while j < hi
        invariant
            lo <= start <= j <= hi,
            hi <= v@.len(),
            d == v@.subrange(start as int, hi as int),
            all_digits(d),
            dec_value(v@.subrange(start as int, j as int)) <= cap ==> acc == dec_value(
                v@.subrange(start as int, j as int),
            ),
            dec_value(v@.subrange(start as int, j as int)) > cap ==> acc > cap,
            acc <= 10 * (cap as int) + 9,
            cap <= 36893488147419103232u128,
        decreases hi - j,
    {
        let ghost pre = v@.subrange(start as int, j as int);
        assert(v@.subrange(start as int, j + 1).drop_last() =~= pre);
        assert(v@.subrange(start as int, j + 1).last() == d[j - start]);
        proof {
            lemma_dec_value_nonneg(pre);
        }
        let u = v[j] as u32;
        assert(d[j - start] == v@[j as int]);
        assert(48 <= u <= 57);
        if acc <= cap {
            assert(acc * 10 <= cap * 10) by (nonlinear_arith)
                requires
                    acc <= cap,
            ;
            acc = acc * 10 + (u - 48) as u128;
        }
        j += 1;
    }
    assert(v@.subrange(start as int, hi as int) =~= d);
    let m: i128 = if acc > cap {
        cap as i128
    } else {
        acc as i128
    };
    Some(
        if neg {
            -m
        } else {
            m
        },
    )
}

fn percent_of_digits(d: &Vec<char>, p: i128) -> (r: u32)
    requires
        all_digits(d@),
        -1267650600228229401496703205376 <= p <= 1267650600228229401496703205376,
    ensures
        r == decimal_percent(d@, p as int),
{
    let n = d.len();
    let mut j: usize = 0;
    while j < n && (j as i128) < p
        invariant
            n == d@.len(),
            j <= n,
            all_digits(d@),
            forall|k: int| 0 <= k < j ==> #[trigger] d@[k] == '0',
        decreases n - j,
    {
        if d[j] != '0' {
            assert(d@[j as int] != '0');
            assert(reaches_one(d@, p as int));
            return 100;
        }
        j += 1;
    }
    assert(!reaches_one(d@, p as int));
    let a = digit_at_exec(d, p);
    let b = digit_at_exec(d, p + 1);
    let c = digit_at_exec(d, p + 2);
    10 * a + b + if c >= 5 {
        1
    } else {
        0
    }
}

fn digit_at_exec(d: &Vec<char>, k: i128) -> (r: u32)
    requires
        all_digits(d@),
    ensures
        r == digit_at(d@, k as int),
        r <= 9,
{
    if 0 <= k && k < d.len() as i128 {
        let c = d[k as usize];
        assert(is_digit(d@[k as int]));
        c as u32 - 48
    } else {
        0
    }
}

/// Past both ends of the digits the point's position no longer matters.
proof fn lemma_percent_far(d: Seq<char>, p: int, q: int)
    requires
        all_digits(d),
        (p >= d.len() + 3 && q >= d.len() + 3) || (p <= -3 && q <= -3),
    ensures
        decimal_percent(d, p) == decimal_percent(d, q),
{
    if p >= d.len() + 3 {
        assert(reaches_one(d, p) == reaches_one(d, q)) by {
            if reaches_one(d, p) {
                let j = choose|j: int| 0 <= j < d.len() && j < p && #[trigger] d[j] != '0';
                assert(j < q);
            }
            if reaches_one(d, q) {
                let j = choose|j: int| 0 <= j < d.len() && j < q && #[trigger] d[j] != '0';
                assert(j < p);
            }
        }
    }
}

#[verifier::rlimit(60)]
fn parse_volume_in(v: &Vec<char>, lo: usize, hi: usize) -> (r: Option<u32>)
    requires
        lo <= hi <= v@.len(),
    ensures
        r == parse_volume_spec(v@.subrange(lo as int, hi as int)),
{
    let ghost s = v@.subrange(lo as int, hi as int);
    let signed = lo < hi && (v[lo] == '+' || v[lo] == '-');
    let neg = lo < hi && v[lo] == '-';
    let start = if signed {
        lo + 1
    } else {
        lo
    };
    let ghost body = v@.subrange(start as int, hi as int);
    assert(body =~= (if signed {
        s.drop_first()
    } else {
        s
    }));
    let w_inf = vec!['i', 'n', 'f'];
    let w_infinity = vec!['i', 'n', 'f', 'i', 'n', 'i', 't', 'y'];
    proof {
        reveal_strlit("inf");
        reveal_strlit("infinity");
    }
    assert(w_inf@ =~= "inf"@);
    assert(w_infinity@ =~= "infinity"@);
    if word_ci_in(v, start, hi, &w_inf) || word_ci_in(v, start, hi, &w_infinity) {
        return Some(if neg {
            0
        } else {
            100
        });
    }
    let ei = find_exp_in(v, start, hi);
    let ghost m = body.take(ei - start);
    assert(v@.subrange(start as int, ei as int) =~= m);
    let dot = find_in(v, start, ei, '.');
    let frac_start = if dot < ei {
        dot + 1
    } else {
        ei
    };
    assert(v@.subrange(start as int, dot as int) =~= m.take(dot - start));
    assert(v@.subrange(frac_start as int, ei as int) =~= (if dot - start < m.len() {
        m.skip(dot - start + 1)
    } else {
        seq![]
    }));
    let ip_ok = all_digits_in(v, start, dot);
    let fp_ok = all_digits_in(v, frac_start, ei);
    let cap: u128 = (dot - start) as u128 + (ei - frac_start) as u128 + 3;
    let e: Option<i128> = if ei < hi {
        assert(v@.subrange(ei + 1, hi as int) =~= body.skip(ei - start + 1));
        exponent_in(v, ei + 1, hi, cap)
    } else {
        Some(0)
    };
    if !(ip_ok && fp_ok && (dot - start) + (ei - frac_start) > 0 && e.is_some()) {
        return None;
    }
    if neg {
        return Some(0);
    }
    let ghost e_real = if ei < hi {
        exponent_spec(body.skip(ei - start + 1)).unwrap()
    } else {
        0int
    };
    Some(percent_in(v, start, dot, frac_start, ei, e.unwrap(), cap, Ghost(e_real)))
}

fn percent_in(
    v: &Vec<char>,
    start: usize,
    dot: usize,
    frac_start: usize,
    ei: usize,
    ev: i128,
    cap: u128,
    Ghost(e_real): Ghost<int>,
) -> (r: u32)
    requires
        start <= dot <= frac_start <= ei <= v@.len(),
        frac_start == (if dot < ei {
            dot + 1
        } else {
            ei as int
        }),
        all_digits(v@.subrange(start as int, dot as int)),
        all_digits(v@.subrange(frac_start as int, ei as int)),
        cap == (dot - start) + (ei - frac_start) + 3,
        ev == clamp_exp(e_real, cap as int),
    ensures
        r == decimal_percent(
            v@.subrange(start as int, dot as int) + v@.subrange(frac_start as int, ei as int),
            (dot - start) + e_real,
        ),
{
    let mut digits: Vec<char> = Vec::new();
    let mut k = start;
    while k < dot
        invariant
            start <= k <= dot,
            dot <= ei,
            ei <= v@.len(),
            digits@ == v@.subrange(start as int, k as int),
        decreases dot - k,
    {
        digits.push(v[k]);
        assert(v@.subrange(start as int, k + 1) =~= v@.subrange(start as int, k as int).push(v@[k as int]));
        k += 1;
    }
    let mut k = frac_start;
    while k < ei
        invariant
            frac_start <= k <= ei,
            ei <= v@.len(),
            start <= dot,
            digits@ == v@.subrange(start as int, dot as int) + v@.subrange(frac_start as int, k as int),
        decreases ei - k,
    {
        digits.push(v[k]);
        assert(v@.subrange(frac_start as int, k + 1) =~= v@.subrange(frac_start as int, k as int).push(v@[k as int]));
        k += 1;
    }
    let ghost ip = v@.subrange(start as int, dot as int);
    let ghost fp = v@.subrange(frac_start as int, ei as int);
    assert(digits@ =~= ip + fp);
    assert(all_digits(digits@)) by {
        assert forall|i: int| 0 <= i < digits@.len() implies is_digit(#[trigger] digits@[i]) by {
            if i < ip.len() {
                assert(digits@[i] == ip[i]);
            } else {
                assert(digits@[i] == fp[i - ip.len()]);
            }
        }
    }
    let p: i128 = (dot - start) as i128 + ev;
    proof {
        let c = cap as int;
        if e_real > c {
            lemma_percent_far(digits@, ip.len() + e_real, ip.len() + c);
        } else if e_real < -c {
            lemma_percent_far(digits@, ip.len() + e_real, ip.len() - c);
        }
    }
    percent_of_digits(&digits, p)
}

fn apply_line_in(s: Save, v: &Vec<char>, lo: usize, hi: usize) -> (r: Save)
    requires
        lo <= hi <= v@.len(),
    ensures
        r == apply_line(s, v@.subrange(lo as int, hi as int)),
{
    let (a, b) = trim_bounds(v, lo, hi);
    let ghost l = v@.subrange(a as int, b as int);
    if a == b || v[a] == '#' {
        return s;
    }
    let e = find_in(v, a, b, '=');
    if e >= b {
        return s;
    }
    assert(v@.subrange(a as int, e as int) =~= l.take(e - a));
    assert(v@.subrange(e + 1, b as int) =~= l.skip(e - a + 1));
    let (ka, kb) = trim_bounds(v, a, e);
    let (va, vb) = trim_bounds(v, e + 1, b);
    let w_hi = vec!['h', 'i'];
    let w_muted = vec!['m', 'u', 't', 'e', 'd'];
    let w_volume = vec!['v', 'o', 'l', 'u', 'm', 'e'];
    let w_true = vec!['t', 'r', 'u', 'e'];
    assert(w_hi@ =~= seq!['h', 'i']);
    assert(w_muted@ =~= seq!['m', 'u', 't', 'e', 'd']);
    assert(w_volume@ =~= seq!['v', 'o', 'l', 'u', 'm', 'e']);
    assert(w_true@ =~= seq!['t', 'r', 'u', 'e']);
    if range_is(v, ka, kb, &w_hi) {
        match parse_u32_in(v, va, vb) {
            Some(x) => Save { hi: x, ..s },
            None => s,
        }
    } else if range_is(v, ka, kb, &w_muted) {
        let m = range_is(v, va, vb, &w_true);
        Save { muted: m, ..s }
    } else if range_is(v, ka, kb, &w_volume) {
        match parse_volume_in(v, va, vb) {
            Some(p) => Save { volume: p, ..s },
            None => s,
        }
    } else {
        s
    }
}

/// The characters of `text`.
fn chars_of(text: &str) -> (v: Vec<char>)
    ensures
        v@ == text@,
{
    let mut v: Vec<char> = Vec::new();
    for c in it: text.chars()
        invariant
            v@ == it.seq().take(it.index() as int),
            it.seq() == text@,
    {
        v.push(c);
    }
    v
}

// ---- writing ----

/// The comment that heads a save file.
pub open spec fn header_line() -> Seq<char> {
    "# shell-shooter save (hi-score + settings)"@
}

/// `true` or `false`.
pub open spec fn bool_text(b: bool) -> Seq<char> {
    if b {
        seq!['t', 'r', 'u', 'e']
    } else {
        seq!['f', 'a', 'l', 's', 'e']
    }
}

/// A percentage written as a decimal fraction with two places (`0.80`).
pub open spec fn volume_text(p: nat) -> Seq<char> {
    digits_of(p / 100) + seq!['.', digit_char(((p % 100) / 10) as int), digit_char((p % 10) as int)]
}

/// The text of a save file.
pub open spec fn render_spec(s: Save) -> Seq<char> {
    header_line() + seq!['\n'] + seq!['h', 'i', '='] + digits_of(s.hi as nat) + seq!['\n']
        + seq!['m', 'u', 't', 'e', 'd', '='] + bool_text(s.muted) + seq!['\n']
        + seq!['v', 'o', 'l', 'u', 'm', 'e', '='] + volume_text(s.volume as nat) + seq!['\n']
}

/// Append `c` to `s` (`String::push`).
#[verifier::external_body]
pub(crate) fn push_char(s: &mut String, c: char)
    ensures
        final(s)@ == old(s)@.push(c),
{
    s.push(c);
}

fn digit_to_char(d: u32) -> (c: char)
    requires
        d < 10,
    ensures
        c == digit_char(d as int),
        is_digit(c),
        digit_value(c) == d,
{
    ((48 + d) as u8) as char
}

pub(crate) fn push_decimal(out: &mut String, n: u32)
    ensures
        final(out)@ == old(out)@ + digits_of(n as nat),
    decreases n,
{
    if n >= 10 {
        push_decimal(out, n / 10);
    }
    let c = digit_to_char(n % 10);
    push_char(out, c);
    assert(final(out)@ =~= old(out)@ + digits_of(n as nat)) by {
        if n >= 10 {
            assert(digits_of(n as nat) == digits_of((n / 10) as nat).push(digit_char((n % 10) as int)));
        }
    }
}

// ---- the round trip ----

/// `l` holds no line break.
pub open spec fn one_line(l: Seq<char>) -> bool {
    forall|i: int| 0 <= i < l.len() ==> #[trigger] l[i] != '\n'
}

proof fn lemma_scan_line(t: Seq<char>, l: Seq<char>)
    requires
        one_line(l),
    ensures
        scan(t + l) == (scan(t).0, scan(t).1 + l),
    decreases l.len(),
{
    if l.len() == 0 {
        assert(t + l =~= t);
        assert(scan(t).1 + l =~= scan(t).1);
    } else {
        lemma_scan_line(t, l.drop_last());
        assert((t + l).drop_last() =~= t + l.drop_last());
        assert((t + l).last() == l.last());
        assert((scan(t).1 + l.drop_last()).push(l.last()) =~= scan(t).1 + l);
    }
}

proof fn lemma_scan_line_end(t: Seq<char>, l: Seq<char>)
    requires
        one_line(l),
    ensures
        scan(t + l + seq!['\n']) == (apply_line(scan(t).0, scan(t).1 + l), Seq::<char>::empty()),
{
    lemma_scan_line(t, l);
    assert((t + l + seq!['\n']).drop_last() =~= t + l);
}

proof fn lemma_trim_same(x: Seq<char>)
    requires
        x.len() > 0,
        !is_ws(x[0]),
        !is_ws(x.last()),
    ensures
        trim(x) == x,
{
}

proof fn lemma_digit_char(k: int)
    requires
        0 <= k < 10,
    ensures
        digit_value(digit_char(k)) == k,
        is_digit(digit_char(k)),
{
}

proof fn lemma_digits(n: nat)
    ensures
        digits_of(n).len() >= 1,
        all_digits(digits_of(n)),
        dec_value(digits_of(n)) == n,
    decreases n,
{
    lemma_digit_char((n % 10) as int);
    if n < 10 {
        assert(digits_of(n).drop_last() =~= Seq::<char>::empty());
        assert(digits_of(n).last() == digit_char(n as int));
        assert(dec_value(Seq::<char>::empty()) == 0);
        assert(dec_value(digits_of(n)) == dec_value(Seq::<char>::empty()) * 10 + digit_value(digit_char(n as int)));
        assert(dec_value(digits_of(n)) == n);
    }
    if n >= 10 {
        lemma_digits(n / 10);
        let d = digits_of(n / 10);
        assert(digits_of(n).drop_last() =~= d);
        assert(digits_of(n).last() == digit_char((n % 10) as int));
        assert(dec_value(digits_of(n)) == dec_value(d) * 10 + digit_value(digit_char((n % 10) as int)));
        assert(dec_value(digits_of(n)) == n);
        assert forall|i: int| 0 <= i < digits_of(n).len() implies is_digit(#[trigger] digits_of(n)[i]) by {
            if i < d.len() {
                assert(digits_of(n)[i] == d[i]);
            }
        }
    }
}

proof fn lemma_digit_not_special(c: char)
    requires
        is_digit(c),
    ensures
        !is_ws(c),
        c != '\n',
        c != '.',
        c != '=',
        c != '+',
        c != '-',
        c != '#',
{
}

/// A line `hi=<n>`, `n` in decimal, sets the hi-score to `n` and nothing else.
pub proof fn lemma_hi_line(s: Save, n: u32)
    ensures
        apply_line(s, seq!['h', 'i', '='] + digits_of(n as nat)) == (Save { hi: n, ..s }),
        one_line(seq!['h', 'i', '='] + digits_of(n as nat)),
{
    let d = digits_of(n as nat);
    lemma_digits(n as nat);
    let l = seq!['h', 'i', '='] + d;
    lemma_digit_not_special(d[0]);
    lemma_digit_not_special(d.last());
    assert(l.last() == d.last());
    lemma_trim_same(l);
    assert(find_char(l, '=', 2) == 2);
    assert(find_char(l, '=', 1) == 2);
    assert(find_char(l, '=', 0) == 2);
    assert(l.take(2) =~= seq!['h', 'i']);
    lemma_trim_same(seq!['h', 'i']);
    assert(l.skip(3) =~= d);
    lemma_trim_same(d);
    assert forall|i: int| 0 <= i < l.len() implies #[trigger] l[i] != '\n' by {
        if i >= 3 {
            assert(l[i] == d[i - 3]);
            lemma_digit_not_special(d[i - 3]);
        }
    }
}

/// A line `muted=true` or `muted=false` sets mute accordingly and nothing else.
pub proof fn lemma_muted_line(s: Save, b: bool)
    ensures
        apply_line(s, seq!['m', 'u', 't', 'e', 'd', '='] + bool_text(b)) == (Save { muted: b, ..s }),
        one_line(seq!['m', 'u', 't', 'e', 'd', '='] + bool_text(b)),
{
    let v = bool_text(b);
    let l = seq!['m', 'u', 't', 'e', 'd', '='] + v;
    assert(l.last() == v.last());
    lemma_trim_same(l);
    assert(find_char(l, '=', 5) == 5);
    assert(find_char(l, '=', 4) == 5);
    assert(find_char(l, '=', 3) == 5);
    assert(find_char(l, '=', 2) == 5);
    assert(find_char(l, '=', 1) == 5);
    assert(find_char(l, '=', 0) == 5);
    assert(l.take(5) =~= seq!['m', 'u', 't', 'e', 'd']);
    lemma_trim_same(seq!['m', 'u', 't', 'e', 'd']);
    assert(l.skip(6) =~= v);
    lemma_trim_same(v);
    assert(seq!['m', 'u', 't', 'e', 'd'].len() != seq!['h', 'i'].len());
    assert((v == seq!['t', 'r', 'u', 'e']) == b) by {
        if !b {
            assert(v.len() != seq!['t', 'r', 'u', 'e'].len());
        }
    }
    assert forall|i: int| 0 <= i < l.len() implies #[trigger] l[i] != '\n' by {
        if i >= 6 {
            assert(l[i] == v[i - 6]);
        }
    }
}

/// A line `volume=<p/100>`, written with two decimals, sets the volume to
/// `p` percent and nothing else.
pub proof fn lemma_volume_line(s: Save, p: u32)
    requires
        p <= 100,
    ensures
        apply_line(s, seq!['v', 'o', 'l', 'u', 'm', 'e', '='] + volume_text(p as nat)) == (Save { volume: p, ..s }),
        one_line(seq!['v', 'o', 'l', 'u', 'm', 'e', '='] + volume_text(p as nat)),
{
    let w = p / 100;
    assert(digits_of(w as nat) =~= seq![digit_char(w as int)]);
    let c0 = digit_char(w as int);
    let c1 = digit_char(((p % 100) / 10) as int);
    let c2 = digit_char((p % 10) as int);
    let v = volume_text(p as nat);
    assert(v =~= seq![c0, '.', c1, c2]);
    lemma_digit_not_special(c0);
    lemma_digit_not_special(c1);
    lemma_digit_not_special(c2);
    let l = seq!['v', 'o', 'l', 'u', 'm', 'e', '='] + v;
    assert(l.last() == c2);
    lemma_trim_same(l);
    assert(find_char(l, '=', 6) == 6);
    assert(find_char(l, '=', 5) == 6);
    assert(find_char(l, '=', 4) == 6);
    assert(find_char(l, '=', 3) == 6);
    assert(find_char(l, '=', 2) == 6);
    assert(find_char(l, '=', 1) == 6);
    assert(find_char(l, '=', 0) == 6);
    assert(l.take(6) =~= seq!['v', 'o', 'l', 'u', 'm', 'e']);
    lemma_trim_same(seq!['v', 'o', 'l', 'u', 'm', 'e']);
    assert(l.skip(7) =~= v);
    lemma_trim_same(v);
    assert(seq!['v', 'o', 'l', 'u', 'm', 'e'].len() != seq!['h', 'i'].len());
    assert(seq!['v', 'o', 'l', 'u', 'm', 'e'].len() != seq!['m', 'u', 't', 'e', 'd'].len());
    // reading the value back
    reveal_strlit("inf");
    reveal_strlit("infinity");
    assert(!is_word_ci(v, "inf"@));
    assert(!is_word_ci(v, "infinity"@));
    assert(find_exp(v, 4) == 4);
    assert(find_exp(v, 3) == 4);
    assert(find_exp(v, 2) == 4);
    assert(find_exp(v, 1) == 4);
    assert(find_exp(v, 0) == 4);
    assert(v.take(4) =~= v);
    assert(find_char(v, '.', 1) == 1);
    assert(find_char(v, '.', 0) == 1);
    assert(v.take(1) =~= seq![c0]);
    assert(v.skip(2) =~= seq![c1, c2]);
    assert(all_digits(seq![c0]));
    assert(all_digits(seq![c1, c2]));
    let d = seq![c0] + seq![c1, c2];
    assert(d =~= seq![c0, c1, c2]);
    if w == 1 {
        assert(d[0] != '0');
        assert(reaches_one(d, 1));
    } else {
        assert(!reaches_one(d, 1));
        assert(digit_at(d, 3) == 0);
    }
    assert forall|i: int| 0 <= i < l.len() implies #[trigger] l[i] != '\n' by {
        if i >= 7 {
            assert(l[i] == v[i - 7]);
        }
    }
}

/// Reading back what `render` wrote gives the same settings.
#[verifier::rlimit(60)]
pub proof fn lemma_save_round_trip(s: Save)
    requires
        s.volume <= 100,
    ensures
        parse_spec(render_spec(s)) == s,
{
    let l0 = header_line();
    let l1 = seq!['h', 'i', '='] + digits_of(s.hi as nat);
    let l2 = seq!['m', 'u', 't', 'e', 'd', '='] + bool_text(s.muted);
    let l3 = seq!['v', 'o', 'l', 'u', 'm', 'e', '='] + volume_text(s.volume as nat);
    let nl = seq!['\n'];
    reveal_strlit("# shell-shooter save (hi-score + settings)");
    assert(one_line(l0));
    lemma_trim_same(l0);
    let e = Seq::<char>::empty();
    lemma_scan_line_end(e, l0);
    assert(e + l0 =~= l0);
    let t1 = e + l0 + nl;
    assert(scan(t1) == (default_save(), e));
    lemma_hi_line(default_save(), s.hi);
    lemma_scan_line_end(t1, l1);
    assert(e + l1 =~= l1);
    let s1 = Save { hi: s.hi, ..default_save() };
    let t2 = t1 + l1 + nl;
    assert(scan(t2) == (s1, e));
    lemma_muted_line(s1, s.muted);
    lemma_scan_line_end(t2, l2);
    assert(e + l2 =~= l2);
    let s2 = Save { muted: s.muted, ..s1 };
    let t3 = t2 + l2 + nl;
    assert(scan(t3) == (s2, e));
    lemma_volume_line(s2, s.volume);
    lemma_scan_line_end(t3, l3);
    assert(e + l3 =~= l3);
    let t4 = t3 + l3 + nl;
    assert(scan(t4) == (s, e));
    assert(t4 =~= render_spec(s));
    assert(trim(e) =~= e);
}

impl Save {
    /// The text of the save file that holds these settings.
    pub fn render(&self) -> (text: String)
        ensures
            text@ == render_spec(*self),
    {
        let mut out = String::new();
        out.append("# shell-shooter save (hi-score + settings)");
        out.append("\nhi=");
        push_decimal(&mut out, self.hi);
        out.append("\nmuted=");
        if self.muted {
            out.append("true");
        } else {
            out.append("false");
        }
        out.append("\nvolume=");
        push_decimal(&mut out, self.volume / 100);
        push_char(&mut out, '.');
        let d1 = digit_to_char((self.volume % 100) / 10);
        push_char(&mut out, d1);
        let d2 = digit_to_char(self.volume % 10);
        push_char(&mut out, d2);
        push_char(&mut out, '\n');
        proof {
            reveal_strlit("\nhi=");
            reveal_strlit("\nmuted=");
            reveal_strlit("true");
            reveal_strlit("false");
            reveal_strlit("\nvolume=");
        }
        assert(out@ =~= render_spec(*self));
        out
    }

    /// The settings that `text` holds, over the defaults.
    pub fn parse(text: &str) -> (s: Save)
        ensures
            s == parse_spec(text@),
            s.volume <= 100,
    {
        proof {
            lemma_parse_volume_in_range(text@);
        }
        let v = chars_of(text);
        let mut s = Save::default();
        let mut start: usize = 0;
        let mut i: usize = 0;
        while i < v.len()
            invariant
                start <= i <= v@.len(),
                v@ == text@,
                scan(v@.take(i as int)) == (s, v@.subrange(start as int, i as int)),
            decreases v@.len() - i,
        {
            assert(v@.take(i + 1).drop_last() =~= v@.take(i as int));
            if v[i] == '\n' {
                s = apply_line_in(s, &v, start, i);
                start = i + 1;
                assert(v@.subrange(start as int, (i + 1) as int) =~= seq![]);
            } else {
                assert(v@.subrange(start as int, (i + 1) as int) =~= v@.subrange(start as int, i as int).push(v@[i as int]));
            }
            i += 1;
        }
        assert(v@.take(v@.len() as int) =~= v@);
        apply_line_in(s, &v, start, v.len())
    }
}

} // verus!
