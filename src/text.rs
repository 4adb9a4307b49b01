//! Character-level helpers shared by the parsers: whitespace trimming,
//! runs of ASCII digits and their decimal values.
use vstd::prelude::*;
use vstd::string::*;

verus! {

/// The text of an optional string.
pub open spec fn opt_text(o: Option<String>) -> Option<Seq<char>> {
    match o {
        Some(s) => Some(s@),
        None => None,
    }
}

/// The texts of a list of strings.
pub open spec fn texts(v: Seq<String>) -> Seq<Seq<char>> {
    v.map_values(|s: String| s@)
}

/// Unicode `White_Space`, the set that `char::is_whitespace` and `str::trim` use.
pub open spec fn is_white(c: char) -> bool {
    ('\u{9}' <= c && c <= '\u{d}') || c == ' ' || c == '\u{85}' || c == '\u{a0}'
        || c == '\u{1680}' || ('\u{2000}' <= c && c <= '\u{200a}') || c == '\u{2028}'
        || c == '\u{2029}' || c == '\u{202f}' || c == '\u{205f}' || c == '\u{3000}'
}

pub open spec fn trim_start(s: Seq<char>) -> Seq<char>
    decreases s.len(),
{
    if s.len() > 0 && is_white(s[0]) {
        trim_start(s.drop_first())
    } else {
        s
    }
}

pub open spec fn trim_end(s: Seq<char>) -> Seq<char>
    decreases s.len(),
{
    if s.len() > 0 && is_white(s.last()) {
        trim_end(s.drop_last())
    } else {
        s
    }
}

/// The text with leading and trailing whitespace removed.
pub open spec fn trimmed(s: Seq<char>) -> Seq<char> {
    trim_end(trim_start(s))
}

/// Neither end of the text is whitespace.
pub open spec fn is_trimmed(s: Seq<char>) -> bool {
    s.len() > 0 ==> !is_white(s[0]) && !is_white(s.last())
}

pub fn is_white_char(c: char) -> (r: bool)
    ensures
        r == is_white(c),
{
    ('\u{9}' <= c && c <= '\u{d}') || c == ' ' || c == '\u{85}' || c == '\u{a0}'
        || c == '\u{1680}' || ('\u{2000}' <= c && c <= '\u{200a}') || c == '\u{2028}'
        || c == '\u{2029}' || c == '\u{202f}' || c == '\u{205f}' || c == '\u{3000}'
}

proof fn lemma_trim_start_skip(s: Seq<char>, i: int)
    requires
        0 <= i < s.len(),
        is_white(s[i]),
    ensures
        trim_start(s.subrange(i, s.len() as int)) == trim_start(s.subrange(i + 1, s.len() as int)),
{
    assert(s.subrange(i, s.len() as int).drop_first() =~= s.subrange(i + 1, s.len() as int));
}

proof fn lemma_trim_end_skip(t: Seq<char>, j: int)
    requires
        0 < j <= t.len(),
        is_white(t[j - 1]),
    ensures
        trim_end(t.subrange(0, j)) == trim_end(t.subrange(0, j - 1)),
{
    assert(t.subrange(0, j).drop_last() =~= t.subrange(0, j - 1));
}

/// A text whose ends are not whitespace is its own trim.
pub proof fn lemma_trimmed_fixed(s: Seq<char>)
    requires
        is_trimmed(s),
    ensures
        trimmed(s) == s,
{
    assert(trim_start(s) == s);
    assert(trim_end(s) == s);
}

/// The trim of any text has no whitespace at either end.
pub proof fn lemma_trimmed_is_trimmed(s: Seq<char>)
    ensures
        is_trimmed(trimmed(s)),
    decreases s.len(),
{
    lemma_trim_start_head(s);
    lemma_trim_end_shape(trim_start(s));
}

proof fn lemma_trim_start_head(s: Seq<char>)
    ensures
        trim_start(s).len() > 0 ==> !is_white(trim_start(s)[0]),
    decreases s.len(),
{
    if s.len() > 0 && is_white(s[0]) {
        lemma_trim_start_head(s.drop_first());
    }
}

proof fn lemma_trim_end_shape(t: Seq<char>)
    requires
        t.len() > 0 ==> !is_white(t[0]),
    ensures
        is_trimmed(trim_end(t)),
        trim_end(t).len() <= t.len(),
        trim_end(t) =~= t.subrange(0, trim_end(t).len() as int),
    decreases t.len(),
{
    if t.len() > 0 && is_white(t.last()) {
        lemma_trim_end_shape(t.drop_last());
        let r = trim_end(t.drop_last());
        assert(r =~= t.subrange(0, r.len() as int));
    }
}

/// Leading and trailing whitespace removed, as `str::trim` does.
pub fn trim_text(s: &str) -> (r: String)
    ensures
        r@ == trimmed(s@),
{
    let n = s.unicode_len();
    let mut a: usize = 0;
    assert(s@.subrange(0, n as int) =~= s@);
    while a < n && is_white_char(s.get_char(a))
        invariant
            0 <= a <= n,
            n == s@.len(),
            trim_start(s@) == trim_start(s@.subrange(a as int, n as int)),
        decreases n - a,
    {
        proof {
            lemma_trim_start_skip(s@, a as int);
        }
        a = a + 1;
    }
    let ghost t = s@.subrange(a as int, n as int);
    assert(trim_start(t) == t);
    assert(s@.subrange(0, n as int) =~= s@);
    let mut b: usize = n;
    while b > a && is_white_char(s.get_char(b - 1))
        invariant
            a <= b <= n,
            n == s@.len(),
            t == s@.subrange(a as int, n as int),
            trim_end(t) == trim_end(s@.subrange(a as int, b as int)),
        decreases b,
    {
        proof {
            assert(t.subrange(0, (b - a) as int) =~= s@.subrange(a as int, b as int));
            assert(t.subrange(0, (b - a - 1) as int) =~= s@.subrange(a as int, b - 1));
            lemma_trim_end_skip(t, (b - a) as int);
        }
        b = b - 1;
    }
    let r = s.substring_char(a, b).to_owned();
    assert(trim_end(s@.subrange(a as int, b as int)) == s@.subrange(a as int, b as int));
    r
}

pub open spec fn is_digit(c: char) -> bool {
    '0' <= c && c <= '9'
}

pub open spec fn digit_value(c: char) -> nat {
    (c as int - '0' as int) as nat
}

pub open spec fn all_digits(s: Seq<char>) -> bool {
    forall|i: int| 0 <= i < s.len() ==> is_digit(#[trigger] s[i])
}

/// Decimal value of a run of ASCII digits.
pub open spec fn digits_value(s: Seq<char>) -> nat
    decreases s.len(),
{
    if s.len() == 0 {
        0
    } else {
        digits_value(s.drop_last()) * 10 + digit_value(s.last())
    }
}

/// The end of the run of ASCII digits that starts at `from`.
pub open spec fn digit_run(s: Seq<char>, from: int) -> int
    decreases s.len() - from,
{
    if 0 <= from < s.len() && is_digit(s[from]) {
        digit_run(s, from + 1)
    } else {
        from
    }
}

pub proof fn lemma_digit_run_bounds(s: Seq<char>, from: int)
    requires
        0 <= from <= s.len(),
    ensures
        from <= digit_run(s, from) <= s.len(),
        all_digits(s.subrange(from, digit_run(s, from))),
        digit_run(s, from) < s.len() ==> !is_digit(s[digit_run(s, from)]),
    decreases s.len() - from,
{
    if from < s.len() && is_digit(s[from]) {
        lemma_digit_run_bounds(s, from + 1);
        let e = digit_run(s, from);
        assert forall|i: int| 0 <= i < e - from implies is_digit(#[trigger] s.subrange(from, e)[i]) by {
            if i > 0 {
                assert(s.subrange(from, e)[i] == s.subrange(from + 1, e)[i - 1]);
            }
        }
    }
}

proof fn lemma_digits_value_grows(s: Seq<char>, i: int)
    requires
        0 <= i <= s.len(),
    ensures
        digits_value(s.subrange(0, i)) <= digits_value(s),
    decreases s.len() - i,
{
    if i == s.len() {
        assert(s.subrange(0, i) =~= s);
    } else {
        lemma_digits_value_grows(s.drop_last(), i);
        assert(s.drop_last().subrange(0, i) =~= s.subrange(0, i));
    }
}

pub fn is_digit_char(c: char) -> (r: bool)
    ensures
        r == is_digit(c),
{
    '0' <= c && c <= '9'
}

/// End of the run of ASCII digits of `s` that starts at char index `from`.
pub fn scan_digits(s: &str, from: usize) -> (r: usize)
    requires
        from <= s@.len(),
    ensures
        r as int == digit_run(s@, from as int),
        from <= r <= s@.len(),
{
    let n = s.unicode_len();
    let mut i = from;
    while i < n && is_digit_char(s.get_char(i))
        invariant
            from <= i <= n,
            n == s@.len(),
            digit_run(s@, from as int) == digit_run(s@, i as int),
        decreases n - i,
    {
        i = i + 1;
    }
    i
}

/// Value of the digits of `s` between char indices `from` and `to`, when it fits in a `u64`.
pub fn digits_to_u64(s: &str, from: usize, to: usize) -> (r: Option<u64>)
    requires
        from <= to <= s@.len(),
        all_digits(s@.subrange(from as int, to as int)),
    ensures
        r == (if digits_value(s@.subrange(from as int, to as int)) <= u64::MAX {
            Some(digits_value(s@.subrange(from as int, to as int)) as u64)
        } else {
            None::<u64>
        }),
{
    let ghost t = s@.subrange(from as int, to as int);
    let mut v: u64 = 0;
    let mut i = from;
    assert(t.subrange(0, 0) =~= Seq::<char>::empty());
    while i < to
        invariant
            from <= i <= to <= s@.len(),
            t == s@.subrange(from as int, to as int),
            all_digits(t),
            v as nat == digits_value(t.subrange(0, i - from)),
        decreases to - i,
    {
        let c = s.get_char(i);
        assert(t[i - from] == c);
        assert(is_digit(c));
        let d = (c as u32 - '0' as u32) as u64;
        let w: u128 = v as u128 * 10 + d as u128;
        assert(t.subrange(0, i + 1 - from).drop_last() =~= t.subrange(0, i - from));
        if w > u64::MAX as u128 {
            proof {
                lemma_digits_value_grows(t, i + 1 - from);
            }
            return None;
        }
        v = w as u64;
        i = i + 1;
    }
    assert(t.subrange(0, to - from) =~= t);
    Some(v)
}

pub open spec fn pow10(n: nat) -> nat
    decreases n,
{
    if n == 0 {
        1
    } else {
        10 * pow10((n - 1) as nat)
    }
}

/// A value of the model narrowed to `u64`: `None` when absent or too large.
pub open spec fn fit_u64(v: Option<nat>) -> Option<u64> {
    match v {
        Some(x) => if x <= u64::MAX {
            Some(x as u64)
        } else {
            None
        },
        None => None,
    }
}

pub open spec fn is_decimal_separator(c: char, comma: bool) -> bool {
    c == '.' || (comma && c == ',')
}

pub open spec fn min_nat(a: nat, b: nat) -> nat {
    if a <= b {
        a
    } else {
        b
    }
}

/// A decimal number `D+` or `D+ . D+` (also `D+ , D+` when `comma`), read in
/// units of `10^-places`; fraction digits past `places` are dropped.
pub open spec fn fixed_point_value(s: Seq<char>, places: nat, comma: bool) -> Option<nat> {
    let a = digit_run(s, 0);
    let whole = digits_value(s.subrange(0, a)) * pow10(places);
    if a == 0 {
        None
    } else if a == s.len() {
        Some(whole)
    } else if is_decimal_separator(s[a], comma) {
        let e = digit_run(s, a + 1);
        if e == s.len() && e > a + 1 {
            let k = min_nat((e - (a + 1)) as nat, places);
            Some(whole + digits_value(s.subrange(a + 1, a + 1 + k)) * pow10((places - k) as nat))
        } else {
            None
        }
    } else {
        None
    }
}

proof fn lemma_pow10_bound(n: nat)
    requires
        n <= 9,
    ensures
        1 <= pow10(n) <= 1_000_000_000,
    decreases n,
{
    if n > 0 {
        lemma_pow10_bound((n - 1) as nat);
        assert(pow10(n) == 10 * pow10((n - 1) as nat));
        assert(pow10((n - 1) as nat) <= 100_000_000) by {
            lemma_pow10_mono((n - 1) as nat, 8);
            reveal_with_fuel(pow10, 9);
        }
    }
}

proof fn lemma_pow10_mono(a: nat, b: nat)
    requires
        a <= b,
    ensures
        pow10(a) <= pow10(b),
    decreases b,
{
    if a < b {
        lemma_pow10_mono(a, (b - 1) as nat);
        lemma_pow10_pos((b - 1) as nat);
    }
}

proof fn lemma_pow10_pos(n: nat)
    ensures
        pow10(n) >= 1,
    decreases n,
{
    if n > 0 {
        lemma_pow10_pos((n - 1) as nat);
    }
}

proof fn lemma_digits_value_below(s: Seq<char>)
    requires
        all_digits(s),
    ensures
        digits_value(s) < pow10(s.len()),
    decreases s.len(),
{
    if s.len() > 0 {
        let t = s.drop_last();
        assert(all_digits(t)) by {
            assert forall|i: int| 0 <= i < t.len() implies is_digit(#[trigger] t[i]) by {
                assert(t[i] == s[i]);
            }
        }
        lemma_digits_value_below(t);
        assert(is_digit(s[s.len() - 1]));
        assert(pow10(s.len()) == 10 * pow10((s.len() - 1) as nat));
    }
}

pub fn pow10_u64(n: u32) -> (r: u64)
    requires
        n <= 9,
    ensures
        r as nat == pow10(n as nat),
{
    let mut r: u64 = 1;
    let mut i: u32 = 0;
    while i < n
        invariant
            i <= n <= 9,
            r as nat == pow10(i as nat),
        decreases n - i,
    {
        proof {
            lemma_pow10_bound((i + 1) as nat);
        }
        r = r * 10;
        i = i + 1;
    }
    r
}

/// Reads `s` as [`fixed_point_value`] does, when the value fits in a `u64`.
pub fn parse_fixed_point(s: &str, places: u32, comma: bool) -> (r: Option<u64>)
    requires
        places <= 9,
    ensures
        r == fit_u64(fixed_point_value(s@, places as nat, comma)),
{
    let n = s.unicode_len();
    let a = scan_digits(s, 0);
    proof {
        lemma_digit_run_bounds(s@, 0);
        lemma_pow10_bound(places as nat);
    }
    if a == 0 {
        return None;
    }
    let whole = match digits_to_u64(s, 0, a) {
        Some(v) => v,
        None => {
            proof {
                let w = digits_value(s@.subrange(0, a as int));
                let p = pow10(places as nat);
                assert(w * p >= w) by (nonlinear_arith)
                    requires
                        p >= 1,
                ;
            }
            return None;
        },
    };
    let scale = pow10_u64(places);
    assert(whole as int * scale as int <= u64::MAX as int * 1_000_000_000) by (nonlinear_arith)
        requires
            whole <= u64::MAX,
            scale <= 1_000_000_000,
    ;
    let whole_scaled: u128 = whole as u128 * scale as u128;
    if a == n {
        if whole_scaled > u64::MAX as u128 {
            return None;
        }
        return Some(whole_scaled as u64);
    }
    let c = s.get_char(a);
    if !(c == '.' || (comma && c == ',')) {
        return None;
    }
    let e = scan_digits(s, a + 1);
    proof {
        lemma_digit_run_bounds(s@, a + 1);
    }
    if e != n || e <= a + 1 {
        return None;
    }
    let k: usize = if e - (a + 1) < places as usize {
        e - (a + 1)
    } else {
        places as usize
    };
    proof {
        let f = s@.subrange(a + 1, e as int);
        assert(s@.subrange(a + 1, a + 1 + k) =~= f.subrange(0, k as int));
        assert(all_digits(s@.subrange(a + 1, a + 1 + k)));
        lemma_digits_value_below(s@.subrange(a + 1, a + 1 + k));
        lemma_pow10_mono(k as nat, places as nat);
        lemma_pow10_bound((places - k) as nat);
    }
    let frac = match digits_to_u64(s, a + 1, a + 1 + k) {
        Some(v) => v,
        None => {
            return None;
        },
    };
    let rest = pow10_u64(places - k as u32);
    assert(frac as int * rest as int <= 1_000_000_000 * 1_000_000_000) by (nonlinear_arith)
        requires
            frac <= 1_000_000_000,
            rest <= 1_000_000_000,
    ;
    let total: u128 = whole_scaled + frac as u128 * rest as u128;
    if total > u64::MAX as u128 {
        return None;
    }
    Some(total as u64)
}

/// Whether the two texts hold the same characters.
pub fn same_text(a: &str, b: &str) -> (r: bool)
    ensures
        r == (a@ == b@),
{
    let n = a.unicode_len();
    if n != b.unicode_len() {
        return false;
    }
    let mut i: usize = 0;
    while i < n
        invariant
            i <= n,
            n == a@.len(),
            n == b@.len(),
            forall|k: int| 0 <= k < i ==> a@[k] == b@[k],
        decreases n - i,
    {
        if a.get_char(i) != b.get_char(i) {
            return false;
        }
        i = i + 1;
    }
    assert(a@ =~= b@);
    true
}

/// Whether `s` begins with `p`.
pub fn starts_with_text(s: &str, p: &str) -> (r: bool)
    ensures
        r == (p@.len() <= s@.len() && s@.subrange(0, p@.len() as int) == p@),
{
    let m = p.unicode_len();
    if m > s.unicode_len() {
        return false;
    }
    same_text(s.substring_char(0, m), p)
}

/// Whether `s` ends with `p`.
pub fn ends_with_text(s: &str, p: &str) -> (r: bool)
    ensures
        r == (p@.len() <= s@.len() && s@.subrange(s@.len() - p@.len(), s@.len() as int) == p@),
{
    let m = p.unicode_len();
    let n = s.unicode_len();
    if m > n {
        return false;
    }
    same_text(s.substring_char(n - m, n), p)
}

/// Every non-overlapping occurrence of `from`, scanning left to right,
/// replaced by `to`, as `str::replace` does for a non-empty pattern.
pub open spec fn replace_all(s: Seq<char>, from: Seq<char>, to: Seq<char>) -> Seq<char>
    decreases s.len(),
{
    if from.len() == 0 || s.len() == 0 {
        s
    } else if from.len() <= s.len() && s.subrange(0, from.len() as int) == from {
        to + replace_all(s.subrange(from.len() as int, s.len() as int), from, to)
    } else {
        seq![s[0]] + replace_all(s.drop_first(), from, to)
    }
}

/// `s` with every occurrence of `from` replaced by `to`.
pub fn replace_text(s: &str, from: &str, to: &str) -> (r: String)
    requires
        from@.len() > 0,
    ensures
        r@ == replace_all(s@, from@, to@),
{
    let n = s.unicode_len();
    let m = from.unicode_len();
    let mut out = String::new();
    let mut i: usize = 0;
    assert(s@.subrange(0, n as int) =~= s@);
    while i < n
        invariant
            i <= n,
            n == s@.len(),
            m == from@.len(),
            m > 0,
            out@ + replace_all(s@.subrange(i as int, n as int), from@, to@) == replace_all(
                s@,
                from@,
                to@,
            ),
        decreases n - i,
    {
        let ghost rest = s@.subrange(i as int, n as int);
        if m <= n - i && same_text(s.substring_char(i, i + m), from) {
            assert(rest.subrange(0, m as int) =~= s@.subrange(i as int, i + m));
            assert(rest.subrange(m as int, rest.len() as int) =~= s@.subrange(i + m, n as int));
            out.append(to);
            i = i + m;
            assert(out@ + replace_all(s@.subrange(i as int, n as int), from@, to@) =~= replace_all(
                s@,
                from@,
                to@,
            ));
        } else {
            proof {
                if m <= n - i {
                    assert(rest.subrange(0, m as int) =~= s@.subrange(i as int, i + m));
                }
            }
            assert(rest.drop_first() =~= s@.subrange(i + 1, n as int));
            assert(seq![rest[0]] =~= s@.subrange(i as int, i + 1));
            out.append(s.substring_char(i, i + 1));
            i = i + 1;
            assert(out@ + replace_all(s@.subrange(i as int, n as int), from@, to@) =~= replace_all(
                s@,
                from@,
                to@,
            ));
        }
    }
    assert(s@.subrange(n as int, n as int) =~= Seq::<char>::empty());
    assert(out@ =~= replace_all(s@, from@, to@));
    out
}

/// The text in lower case, as `str::to_lowercase` forms it.
pub uninterp spec fn lower_of(s: Seq<char>) -> Seq<char>;

/// Relies on str::to_lowercase: the lower-case form of the text, a function
/// of its characters alone.
#[verifier::external_body]
pub(crate) fn to_lower(s: &str) -> (r: String)
    ensures
        r@ == lower_of(s@),
{
    s.to_lowercase()
}

} // verus!
