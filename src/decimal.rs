use vstd::prelude::*;

verus! {

pub open spec fn is_digit(c: char) -> bool {
    '0' <= c && c <= '9'
}

pub open spec fn digit_value(c: char) -> int {
    c as int - '0' as int
}

pub open spec fn all_digits(s: Seq<char>) -> bool {
    forall|i: int| 0 <= i < s.len() ==> is_digit(#[trigger] s[i])
}

/// The number that a string of decimal digits spells.
pub open spec fn digits_value(s: Seq<char>) -> int
    decreases s.len(),
{
    if s.len() == 0 {
        0
    } else {
        digits_value(s.drop_last()) * 10 + digit_value(s.last())
    }
}

/// Digits that a decimal may have in its exponent.
pub const MAX_EXPONENT_DIGITS: usize = 4;

pub open spec fn is_marker(c: char) -> bool {
    c == 'e' || c == 'E'
}

/// Index of the first exponent marker of `s`, or its length.
pub open spec fn marker_pos(s: Seq<char>) -> nat
    decreases s.len(),
{
    if s.len() == 0 || is_marker(s[0]) {
        0
    } else {
        1 + marker_pos(s.drop_first())
    }
}

/// The digits of a mantissa, its point taken out.
pub open spec fn strip_point(s: Seq<char>) -> Seq<char>
    decreases s.len(),
{
    if s.len() == 0 {
        Seq::empty()
    } else if s.last() == '.' {
        strip_point(s.drop_last())
    } else {
        strip_point(s.drop_last()).push(s.last())
    }
}

/// How many digits of a mantissa stand before its point (all, without one).
pub open spec fn whole_len(s: Seq<char>) -> nat
    decreases s.len(),
{
    if s.len() == 0 {
        0
    } else if s.last() == '.' || has_point(s.drop_last()) {
        whole_len(s.drop_last())
    } else {
        whole_len(s.drop_last()) + 1
    }
}

pub open spec fn has_point(s: Seq<char>) -> bool {
    exists|j: int| 0 <= j < s.len() && #[trigger] s[j] == '.'
}

/// A mantissa: digits with at most one point, and at least one digit.
pub open spec fn mantissa_ok(s: Seq<char>) -> bool {
    &&& forall|j: int| 0 <= j < s.len() ==> is_digit(#[trigger] s[j]) || s[j] == '.'
    &&& forall|a: int, b: int| 0 <= a < b < s.len() ==> !(#[trigger] s[a] == '.' && #[trigger] s[b] == '.')
    &&& strip_point(s).len() >= 1
}

/// The exponent that the part of a decimal from its marker on gives: zero
/// without one; else an optional sign and one to `MAX_EXPONENT_DIGITS` digits.
pub open spec fn exponent_of(tail: Seq<char>) -> Option<int> {
    if tail.len() == 0 {
        Some(0)
    } else {
        let x = tail.drop_first();
        let ds = signless(x);
        if 1 <= ds.len() <= MAX_EXPONENT_DIGITS && all_digits(ds) {
            Some(if x[0] == '-' { -digits_value(ds) } else { digits_value(ds) })
        } else {
            None
        }
    }
}

/// The number that the first `k` digits of `d` spell, zeros added past its end.
pub open spec fn shifted(d: Seq<char>, k: int) -> int
    decreases k - d.len(),
{
    if k <= 0 {
        0
    } else if k <= d.len() {
        digits_value(d.subrange(0, k))
    } else {
        shifted(d, k - 1) * 10
    }
}

/// A decimal without its sign, if it has one.
pub open spec fn signless(s: Seq<char>) -> Seq<char> {
    if s.len() > 0 && (s[0] == '-' || s[0] == '+') {
        s.drop_first()
    } else {
        s
    }
}

/// The value in thousandths, rounded toward zero, of a decimal: an optional
/// sign, a mantissa with an optional point, and an optional exponent (`2.5e-3`);
/// `None` for anything else, or for a value whose magnitude does not fit in an `i64`.
pub open spec fn decimal_milli(s: Seq<char>) -> Option<int> {
    let neg = s.len() > 0 && s[0] == '-';
    let body = signless(s);
    let m = marker_pos(body) as int;
    let mant = body.subrange(0, m);
    match exponent_of(body.subrange(m, body.len() as int)) {
        Some(e) => if mantissa_ok(mant) {
            let v = shifted(strip_point(mant), whole_len(mant) + e + 3);
            if v <= i64::MAX {
                Some(if neg { -v } else { v })
            } else {
                None
            }
        } else {
            None
        },
        None => None,
    }
}

proof fn lemma_marker_pos(s: Seq<char>, k: int)
    requires
        0 <= k <= s.len(),
        forall|j: int| 0 <= j < k ==> !is_marker(#[trigger] s[j]),
        k == s.len() || is_marker(s[k]),
    ensures
        marker_pos(s) == k,
    decreases k,
{
    if k > 0 {
        let t = s.drop_first();
        assert forall|j: int| 0 <= j < k - 1 implies !is_marker(#[trigger] t[j]) by {
            assert(t[j] == s[j + 1]);
        }
        if k < s.len() {
            assert(t[k - 1] == s[k]);
        }
        lemma_marker_pos(t, k - 1);
    }
}

proof fn lemma_digits_step(s: Seq<char>, i: int)
    requires
        0 <= i < s.len(),
    ensures
        digits_value(s.subrange(0, i + 1)) == digits_value(s.subrange(0, i)) * 10 + digit_value(s[i]),
{
    assert(s.subrange(0, i + 1).drop_last() =~= s.subrange(0, i));
}

proof fn lemma_digits_nonneg(s: Seq<char>)
    requires
        all_digits(s),
    ensures
        digits_value(s) >= 0,
    decreases s.len(),
{
    if s.len() > 0 {
        assert(all_digits(s.drop_last())) by {
            assert forall|i: int| 0 <= i < s.drop_last().len() implies is_digit(#[trigger] s.drop_last()[i]) by {
                assert(s.drop_last()[i] == s[i]);
            }
        }
        lemma_digits_nonneg(s.drop_last());
        assert(is_digit(s[s.len() - 1]));
    }
}

/// Longer digit prefixes spell numbers at least as large.
proof fn lemma_digits_prefix_le(s: Seq<char>, i: int, j: int)
    requires
        0 <= i <= j <= s.len(),
        all_digits(s.subrange(0, j)),
    ensures
        digits_value(s.subrange(0, i)) <= digits_value(s.subrange(0, j)),
    decreases j - i,
{
    if i < j {
        assert(all_digits(s.subrange(0, j - 1))) by {
            assert forall|k: int| 0 <= k < j - 1 implies is_digit(#[trigger] s.subrange(0, j - 1)[k]) by {
                assert(s.subrange(0, j - 1)[k] == s.subrange(0, j)[k]);
            }
        }
        lemma_digits_prefix_le(s, i, j - 1);
        lemma_digits_step(s, j - 1);
        assert(is_digit(s.subrange(0, j)[j - 1]));
        lemma_digits_nonneg(s.subrange(0, j - 1));
    }
}


proof fn lemma_all_digits_prefix(d: Seq<char>, k: int)
    requires
        all_digits(d),
        0 <= k <= d.len(),
    ensures
        all_digits(d.subrange(0, k)),
{
    assert forall|j: int| 0 <= j < k implies is_digit(#[trigger] d.subrange(0, k)[j]) by {
        assert(d.subrange(0, k)[j] == d[j]);
    }
}

proof fn lemma_shifted_nonneg(d: Seq<char>, k: int)
    requires
        all_digits(d),
    ensures
        shifted(d, k) >= 0,
    decreases k - d.len(),
{
    if k > d.len() {
        lemma_shifted_nonneg(d, k - 1);
    } else if k > 0 {
        lemma_all_digits_prefix(d, k);
        lemma_digits_nonneg(d.subrange(0, k));
    }
}

proof fn lemma_shifted_mono(d: Seq<char>, j: int, k: int)
    requires
        all_digits(d),
        j <= k,
    ensures
        shifted(d, j) <= shifted(d, k),
    decreases k - j,
{
    if j < k {
        lemma_shifted_mono(d, j, k - 1);
        lemma_shifted_nonneg(d, k - 1);
        lemma_shifted_nonneg(d, k);
        if 0 < k - 1 && k <= d.len() {
            lemma_all_digits_prefix(d, k);
            lemma_digits_prefix_le(d, k - 1, k);
        }
    }
}

fn is_digit_char(c: char) -> (r: bool)
    ensures
        r == is_digit(c),
{
    '0' <= c && c <= '9'
}

/// The number that `s[from..to]` spells, if it is all digits.
fn small_digits_value(s: &str, from: usize, to: usize) -> (r: Option<i64>)
    requires
        from <= to <= s@.len(),
        to - from <= MAX_EXPONENT_DIGITS,
    ensures
        match r {
            Some(v) => all_digits(s@.subrange(from as int, to as int)) && v == digits_value(
                s@.subrange(from as int, to as int),
            ) && 0 <= v < 10000,
            None => !all_digits(s@.subrange(from as int, to as int)),
        },
{
    let ghost x = s@.subrange(from as int, to as int);
    let mut i: usize = from;
    let mut v: i64 = 0;
    while i < to
        invariant
            from <= i <= to,
            to <= s@.len(),
            to - from <= MAX_EXPONENT_DIGITS,
            x == s@.subrange(from as int, to as int),
            forall|j: int| 0 <= j < i - from ==> is_digit(#[trigger] x[j]),
            0 <= v < 10000,
            i - from == 0 ==> v == 0,
            i - from == 1 ==> v < 10,
            i - from == 2 ==> v < 100,
            i - from == 3 ==> v < 1000,
            v == digits_value(x.subrange(0, i - from)),
        decreases to - i,
    {
        let c = s.get_char(i);
        assert(x[i - from] == c);
        if !is_digit_char(c) {
            return None;
        }
        proof {
            lemma_digits_step(x, i - from);
        }
        v = v * 10 + (c as u32 - '0' as u32) as i64;
        i = i + 1;
    }
    assert(x.subrange(0, x.len() as int) =~= x);
    Some(v)
}

/// Reads the mantissa of a decimal from `start` up to an exponent marker or the end.
fn scan_mantissa(s: &str, start: usize) -> (r: Option<(usize, Vec<char>, usize)>)
    requires
        start <= s@.len(),
    ensures
        ({
            let body = s@.subrange(start as int, s@.len() as int);
            let mant = body.subrange(0, marker_pos(body) as int);
            match r {
                Some((i, d, w)) => {
                    &&& start <= i <= s@.len()
                    &&& marker_pos(body) == i - start
                    &&& mantissa_ok(mant)
                    &&& d@ == strip_point(mant)
                    &&& w == whole_len(mant)
                    &&& all_digits(d@)
                    &&& w <= i - start
                },
                None => !mantissa_ok(mant),
            }
        }),
{
    let n = s.unicode_len();
    let ghost body = s@.subrange(start as int, n as int);
    let mut i: usize = start;
    let mut d: Vec<char> = Vec::new();
    let mut point = false;
    let mut w: usize = 0;
    loop
        invariant
            start <= i <= n,
            n == s@.len(),
            body == s@.subrange(start as int, n as int),
            forall|j: int| start <= j < i ==> !is_marker(#[trigger] s@[j]),
            forall|j: int| start <= j < i ==> is_digit(#[trigger] s@[j]) || s@[j] == '.',
            forall|a: int, b: int| start <= a < b < i ==> !(#[trigger] s@[a] == '.' && #[trigger] s@[b] == '.'),
            point == has_point(s@.subrange(start as int, i as int)),
            d@ == strip_point(s@.subrange(start as int, i as int)),
            w == whole_len(s@.subrange(start as int, i as int)),
            all_digits(d@),
            w <= i - start,
        ensures
            start <= i <= n,
            i == n || is_marker(s@[i as int]),
            forall|j: int| start <= j < i ==> !is_marker(#[trigger] s@[j]),
            forall|j: int| start <= j < i ==> is_digit(#[trigger] s@[j]) || s@[j] == '.',
            forall|a: int, b: int| start <= a < b < i ==> !(#[trigger] s@[a] == '.' && #[trigger] s@[b] == '.'),
            d@ == strip_point(s@.subrange(start as int, i as int)),
            w == whole_len(s@.subrange(start as int, i as int)),
            all_digits(d@),
            w <= i - start,
        decreases n - i,
    {
        if i >= n {
            break;
        }
        let c = s.get_char(i);
        if c == 'e' || c == 'E' {
            break;
        }
        let ghost pre = s@.subrange(start as int, i as int);
        let ghost cur = s@.subrange(start as int, i + 1);
        assert(cur.drop_last() =~= pre);
        assert(cur.last() == c);
        if c == '.' {
            if point {
                proof {
                    let a = choose|a: int| 0 <= a < pre.len() && #[trigger] pre[a] == '.';
                    lemma_marker_pos_at_least(body, start, i, s@);
                    let m = marker_pos(body) as int;
                    let mant = body.subrange(0, m);
                    assert(pre[a] == s@[start + a]);
                    assert(mant[a] == '.' && mant[i - start] == '.');
                }
                return None;
            }
            assert forall|a: int| start <= a < i implies s@[a] != '.' by {
                assert(pre[a - start] == s@[a]);
            }
            point = true;
            assert(has_point(cur)) by {
                assert(cur[i - start] == '.');
            }
        } else if is_digit_char(c) {
            let ghost d0 = d@;
            d.push(c);
            if !point {
                w = w + 1;
            }
            assert(has_point(cur) == has_point(pre)) by {
                if has_point(cur) {
                    let a = choose|a: int| 0 <= a < cur.len() && #[trigger] cur[a] == '.';
                    assert(pre[a] == '.');
                }
                if has_point(pre) {
                    let a = choose|a: int| 0 <= a < pre.len() && #[trigger] pre[a] == '.';
                    assert(cur[a] == '.');
                }
            }
            assert(all_digits(d@)) by {
                assert forall|j: int| 0 <= j < d@.len() implies is_digit(#[trigger] d@[j]) by {
                    if j < d0.len() {
                        assert(d@[j] == d0[j]);
                    }
                }
            }
        } else {
            proof {
                lemma_marker_pos_at_least(body, start, i, s@);
                let m = marker_pos(body) as int;
                let mant = body.subrange(0, m);
                assert(mant[i - start] == c);
            }
            return None;
        }
        i = i + 1;
    }
    proof {
        assert forall|j: int| 0 <= j < i - start implies !is_marker(#[trigger] body[j]) by {
            assert(body[j] == s@[start + j]);
        }
        if i < n {
            assert(body[i - start] == s@[i as int]);
        }
        lemma_marker_pos(body, i - start);
    }
    let ghost mant = s@.subrange(start as int, i as int);
    assert(body.subrange(0, i - start) =~= mant);
    if d.len() == 0 {
        return None;
    }
    assert(mantissa_ok(mant)) by {
        assert forall|j: int| 0 <= j < mant.len() implies is_digit(#[trigger] mant[j]) || mant[j] == '.' by {
            assert(mant[j] == s@[start + j]);
        }
        assert forall|a: int, b: int| 0 <= a < b < mant.len() implies !(#[trigger] mant[a] == '.' && #[trigger] mant[b]
            == '.') by {
            assert(mant[a] == s@[start + a] && mant[b] == s@[start + b]);
        }
    }
    Some((i, d, w))
}

/// Reads the exponent part of a decimal, from its marker at `i` (or the end) on.
fn scan_exponent(s: &str, i: usize) -> (r: Option<i64>)
    requires
        i <= s@.len(),
        i == s@.len() || is_marker(s@[i as int]),
    ensures
        match r {
            Some(e) => exponent_of(s@.subrange(i as int, s@.len() as int)) == Some(e as int) && -10000 < e < 10000,
            None => exponent_of(s@.subrange(i as int, s@.len() as int)) is None,
        },
{
    let n = s.unicode_len();
    let ghost tail = s@.subrange(i as int, n as int);
    if i == n {
        return Some(0);
    }
    let ghost x = tail.drop_first();
    assert(x =~= s@.subrange(i + 1, n as int));
    let mut es = i + 1;
    let mut eneg = false;
    if es < n {
        let c = s.get_char(es);
        assert(x[0] == c);
        if c == '-' || c == '+' {
            eneg = c == '-';
            es = es + 1;
        }
    }
    let ghost ds = signless(x);
    assert(ds =~= s@.subrange(es as int, n as int));
    if es == n || n - es > MAX_EXPONENT_DIGITS {
        return None;
    }
    match small_digits_value(s, es, n) {
        Some(v) => Some(if eneg { -v } else { v }),
        None => None,
    }
}

/// The number that the first `k` digits of `d` spell, zeros added past its
/// end, if it fits in an `i64`.
fn shifted_value(d: &Vec<char>, k: i128) -> (r: Option<i64>)
    requires
        all_digits(d@),
        -0x1_0000_0000_0000_0000_0000 < k < 0x1_0000_0000_0000_0000_0000,
    ensures
        match r {
            Some(v) => v == shifted(d@, k as int) && v >= 0,
            None => shifted(d@, k as int) > i64::MAX,
        },
{
    let ghost dd = d@;
    let len = d.len();
    let lim: usize = if k <= 0 {
        0
    } else if k < len as i128 {
        k as usize
    } else {
        len
    };
    let mut acc: i128 = 0;
    let mut j: usize = 0;
    while j < lim
        invariant
            j <= lim <= len,
            lim <= k || lim == 0,
            len == d@.len(),
            dd == d@,
            all_digits(dd),
            0 <= acc <= i64::MAX,
            acc == digits_value(dd.subrange(0, j as int)),
        decreases lim - j,
    {
        proof {
            lemma_digits_step(dd, j as int);
        }
        assert(is_digit(dd[j as int]));
        let next = acc * 10 + (d[j] as u32 - '0' as u32) as i128;
        if next > i64::MAX as i128 {
            proof {
                lemma_all_digits_prefix(dd, j + 1);
                assert(shifted(dd, j + 1) == next);
                lemma_shifted_mono(dd, j + 1, k as int);
            }
            return None;
        }
        acc = next;
        j = j + 1;
    }
    assert(acc == shifted(dd, lim as int)) by {
        if lim == 0 {
            assert(dd.subrange(0, 0) =~= Seq::<char>::empty());
        }
    }
    if k <= len as i128 {
        assert(acc == shifted(dd, k as int));
        return Some(acc as i64);
    }
    let mut t: i128 = len as i128;
    while t < k
        invariant
            len as int <= t <= k,
            len == dd.len(),
            dd == d@,
            all_digits(dd),
            0 <= acc <= i64::MAX,
            acc == shifted(dd, t as int),
        decreases k - t,
    {
        let next = acc * 10;
        assert(shifted(dd, t + 1) == shifted(dd, t as int) * 10);
        if next > i64::MAX as i128 {
            proof {
                lemma_shifted_mono(dd, t + 1, k as int);
            }
            return None;
        }
        acc = next;
        t = t + 1;
    }
    Some(acc as i64)
}

/// Reads a decimal such as `-12.5`, `.25` or `2.5e-3` into thousandths of its
/// value, rounded toward zero. `None` for anything else, or for a value whose
/// magnitude does not fit in an `i64`.
pub fn parse_decimal_milli(s: &str) -> (r: Option<i64>)
    ensures
        match r {
            Some(v) => decimal_milli(s@) == Some(v as int),
            None => decimal_milli(s@) is None,
        },
{
    let n = s.unicode_len();
    let mut start: usize = 0;
    let mut neg = false;
    if n > 0 {
        let c = s.get_char(0);
        if c == '-' || c == '+' {
            neg = c == '-';
            start = 1;
        }
    }
    let ghost body = s@.subrange(start as int, n as int);
    assert(body =~= signless(s@));
    let (i, d, w) = match scan_mantissa(s, start) {
        Some(t) => t,
        None => {
            return None;
        },
    };
    assert(body.subrange(i - start, body.len() as int) =~= s@.subrange(i as int, n as int));
    proof {
        lemma_marker_pos_props(body);
        if i < n {
            assert(body[i - start] == s@[i as int]);
        }
    }
    let e = match scan_exponent(s, i) {
        Some(e) => e,
        None => {
            return None;
        },
    };
    let k: i128 = w as i128 + e as i128 + 3;
    match shifted_value(&d, k) {
        Some(v) => if neg {
            Some(-v)
        } else {
            Some(v)
        },
        None => None,
    }
}

proof fn lemma_marker_pos_at_least(body: Seq<char>, start: usize, i: usize, s: Seq<char>)
    requires
        start <= i < s.len(),
        body == s.subrange(start as int, s.len() as int),
        forall|j: int| start <= j <= i ==> !is_marker(#[trigger] s[j]),
    ensures
        marker_pos(body) > i - start,
        marker_pos(body) <= body.len(),
{
    lemma_marker_pos_props(body);
    if marker_pos(body) <= i - start {
        assert(body[marker_pos(body) as int] == s[start + marker_pos(body)]);
    }
}

proof fn lemma_marker_pos_props(s: Seq<char>)
    ensures
        marker_pos(s) <= s.len(),
        marker_pos(s) < s.len() ==> is_marker(s[marker_pos(s) as int]),
    decreases s.len(),
{
    if s.len() > 0 && !is_marker(s[0]) {
        let t = s.drop_first();
        lemma_marker_pos_props(t);
        if marker_pos(s) < s.len() {
            assert(s[marker_pos(s) as int] == t[marker_pos(t) as int]);
        }
    }
}


/// Whether text holds a digit other than zero.
pub open spec fn has_nonzero_digit(t: Seq<char>) -> bool {
    exists|j: int| 0 <= j < t.len() && '1' <= #[trigger] t[j] && t[j] <= '9'
}

/// The mantissa of a decimal: after its sign, before its exponent marker.
pub open spec fn mantissa_of(s: Seq<char>) -> Seq<char> {
    signless(s).subrange(0, marker_pos(signless(s)) as int)
}

/// Whether the mantissa of `s` holds a digit other than zero, so that a
/// decimal written with it is not zero.
pub fn mantissa_has_nonzero_digit(s: &str) -> (r: bool)
    ensures
        r == has_nonzero_digit(mantissa_of(s@)),
{
    let n = s.unicode_len();
    let mut start: usize = 0;
    if n > 0 {
        let c = s.get_char(0);
        if c == '-' || c == '+' {
            start = 1;
        }
    }
    let ghost body = s@.subrange(start as int, n as int);
    assert(body =~= signless(s@));
    let mut i: usize = start;
    while i < n
        invariant
            start <= i <= n,
            n == s@.len(),
            body == s@.subrange(start as int, n as int),
            body == signless(s@),
            forall|j: int| start <= j < i ==> !is_marker(#[trigger] s@[j]),
            forall|j: int| start <= j < i ==> !('1' <= #[trigger] s@[j] && s@[j] <= '9'),
        ensures
            start <= i <= n,
            i == n || is_marker(s@[i as int]),
            forall|j: int| start <= j < i ==> !is_marker(#[trigger] s@[j]),
            forall|j: int| start <= j < i ==> !('1' <= #[trigger] s@[j] && s@[j] <= '9'),
        decreases n - i,
    {
        let c = s.get_char(i);
        if c == 'e' || c == 'E' {
            break;
        }
        if '1' <= c && c <= '9' {
            proof {
                lemma_marker_pos_at_least(body, start, i, s@);
                let mant = body.subrange(0, marker_pos(body) as int);
                assert(mant[i - start] == c);
                assert(mant == mantissa_of(s@));
                assert(has_nonzero_digit(mant));
            }
            return true;
        }
        i = i + 1;
    }
    proof {
        assert forall|j: int| 0 <= j < i - start implies !is_marker(#[trigger] body[j]) by {
            assert(body[j] == s@[start + j]);
        }
        if i < n {
            assert(body[i - start] == s@[i as int]);
        }
        lemma_marker_pos(body, i - start);
        let mant = body.subrange(0, i - start);
        assert(mant == mantissa_of(s@));
        assert forall|j: int| 0 <= j < mant.len() implies !('1' <= #[trigger] mant[j] && mant[j] <= '9') by {
            assert(mant[j] == s@[start + j]);
        }
    }
    false
}

} // verus!
