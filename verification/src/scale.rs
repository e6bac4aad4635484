//! Scale profiles: threshold generation (linear, fibonacci) and bucketing.

use vstd::prelude::*;

use crate::strings::{chars_of, occurs_at, occurs_at_exec, string_of};

verus! {

/// The bucket a value falls in: 0 for no activity, otherwise the 1-based
/// position of the first threshold that is at least the value, or the last
/// bucket when the value exceeds every threshold.
pub open spec fn spec_bucket(thresholds: Seq<u64>, value: u64) -> int {
    if value == 0 {
        0
    } else {
        first_at_least(thresholds, value, 0)
    }
}

/// Index (1-based) of the first threshold at position `from` or later that
/// is at least `value`, or the length of the sequence when none is.
pub open spec fn first_at_least(thresholds: Seq<u64>, value: u64, from: int) -> int
    decreases thresholds.len() - from,
{
    if from >= thresholds.len() {
        thresholds.len() as int
    } else if value <= thresholds[from] {
        from + 1
    } else {
        first_at_least(thresholds, value, from + 1)
    }
}

proof fn lemma_first_at_least_facts(t: Seq<u64>, value: u64, from: int)
    requires
        0 <= from <= t.len(),
    ensures
        from <= first_at_least(t, value, from) <= t.len(),
        from < t.len() ==> from + 1 <= first_at_least(t, value, from),
        forall|k: int| from <= k < first_at_least(t, value, from) - 1 ==> #[trigger] t[k] < value,
        first_at_least(t, value, from) < t.len() ==> value <= t[first_at_least(t, value, from) - 1],
        first_at_least(t, value, from) == t.len() && t.len() > from ==> (value <= t[t.len() - 1]
            || forall|k: int| from <= k < t.len() ==> #[trigger] t[k] < value),
    decreases t.len() - from,
{
    if from < t.len() && value > t[from] {
        lemma_first_at_least_facts(t, value, from + 1);
    }
}

/// The law of bucketing: a positive value lands in the bucket of the first
/// threshold that is at least the value, after every threshold below it; a
/// value above all thresholds lands in the last bucket.
pub proof fn lemma_bucket_position(thresholds: Seq<u64>, value: u64)
    requires
        value > 0,
        thresholds.len() > 0,
    ensures
        1 <= spec_bucket(thresholds, value) <= thresholds.len(),
        forall|k: int| 0 <= k < spec_bucket(thresholds, value) - 1 ==> #[trigger] thresholds[k] < value,
        spec_bucket(thresholds, value) < thresholds.len() ==> value <= thresholds[spec_bucket(thresholds, value) - 1],
        (forall|k: int| 0 <= k < thresholds.len() ==> #[trigger] thresholds[k] < value) ==> spec_bucket(thresholds, value) == thresholds.len(),
{
    lemma_first_at_least_facts(thresholds, value, 0);
}

/// A larger value never lands in a lower bucket.
pub proof fn lemma_bucket_monotone(thresholds: Seq<u64>, low: u64, high: u64)
    requires
        low <= high,
    ensures
        spec_bucket(thresholds, low) <= spec_bucket(thresholds, high),
{
    lemma_first_at_least_facts(thresholds, high, 0);
    if low > 0 {
        lemma_first_at_least_monotone(thresholds, low, high, 0);
    }
}

proof fn lemma_first_at_least_monotone(t: Seq<u64>, low: u64, high: u64, from: int)
    requires
        low <= high,
        0 <= from <= t.len(),
    ensures
        first_at_least(t, low, from) <= first_at_least(t, high, from),
    decreases t.len() - from,
{
    lemma_first_at_least_facts(t, low, from);
    lemma_first_at_least_facts(t, high, from);
    if from < t.len() && high > t[from] {
        lemma_first_at_least_monotone(t, low, high, from + 1);
    }
}

/// Create buckets from thresholds and return the bucket index.
/// Returns 0 if value is 0, otherwise returns 1..=thresholds.len().
pub fn bucket_for_value(thresholds: &[u64], input_value: u64) -> (bucket: usize)
    ensures
        bucket == spec_bucket(thresholds@, input_value),
        bucket <= thresholds@.len(),
        input_value == 0 ==> bucket == 0,
        input_value > 0 && thresholds@.len() > 0 ==> 1 <= bucket,
{
    proof {
        lemma_first_at_least_facts(thresholds@, input_value, 0);
    }
    if input_value == 0 {
        return 0;
    }
    let mut index: usize = 0;
    while index < thresholds.len()
        invariant
            0 <= index <= thresholds@.len(),
            input_value != 0,
            first_at_least(thresholds@, input_value, 0) == first_at_least(thresholds@, input_value, index as int),
        decreases thresholds@.len() - index,
    {
        if input_value <= thresholds[index] {
            assert(first_at_least(thresholds@, input_value, index as int) == index + 1);
            return index + 1;
        }
        index += 1;
    }
    thresholds.len()
}


/// A scale profile with named thresholds.
#[derive(Debug, Clone)]
pub struct ScaleProfile {
    pub thresholds: Vec<u64>,
}

// ---------------------------------------------------------------------------
// Threshold generation
// ---------------------------------------------------------------------------

/// The thresholds 1, 2, ..., max_value.
pub open spec fn linear_spec(max_value: u64) -> Seq<u64> {
    Seq::new(max_value as nat, |i: int| (i + 1) as u64)
}

/// Generate linear thresholds from 1 to max_value.
pub fn linear_thresholds(max_value: u64) -> (r: Vec<u64>)
    ensures
        r@ == linear_spec(max_value),
{
    let mut out: Vec<u64> = Vec::new();
    let mut v: u64 = 0;
    while v < max_value
        invariant
            v <= max_value,
            out@ == linear_spec(v),
        decreases max_value - v,
    {
        v += 1;
        out.push(v);
        assert(out@ == linear_spec(v));
    }
    out
}

/// The sums that continue a Fibonacci-style run whose last two values are
/// `a` and `b`, for as long as they stay within `max_value`.
pub open spec fn fib_continuation(a: nat, b: nat, max_value: nat) -> Seq<u64>
    decreases max_value - b,
{
    if a == 0 || a + b > max_value {
        Seq::empty()
    } else {
        seq![(a + b) as u64] + fib_continuation(b, a + b, max_value)
    }
}

/// Fibonacci-ish thresholds: 1, 2, 3, 5, 8, ... up to `max_value`, closed
/// with `max_value` itself when the run does not end on it.
pub open spec fn fibonacci_spec(max_value: u64) -> Seq<u64> {
    if max_value <= 1 {
        seq![1u64]
    } else {
        let run = seq![1u64, 2u64] + fib_continuation(1, 2, max_value as nat);
        if run.last() == max_value {
            run
        } else {
            run.push(max_value)
        }
    }
}

/// Every value of a continuation is above `b`, at most `max_value`, and the
/// values increase strictly.
proof fn lemma_fib_continuation_shape(a: nat, b: nat, max_value: nat)
    requires
        1 <= a < b,
        max_value <= u64::MAX,
    ensures
        ({
            let c = fib_continuation(a, b, max_value);
            &&& forall|i: int| 0 <= i < c.len() ==> b < #[trigger] c[i] <= max_value
            &&& forall|i: int, j: int| 0 <= i < j < c.len() ==> c[i] < c[j]
        }),
    decreases max_value - b,
{
    if a + b <= max_value {
        lemma_fib_continuation_shape(b, a + b, max_value);
        let c = fib_continuation(a, b, max_value);
        let rest = fib_continuation(b, a + b, max_value);
        assert(c == seq![(a + b) as u64] + rest);
        assert(((a + b) as u64) as nat == a + b);
        assert forall|i: int| 0 <= i < c.len() implies b < #[trigger] c[i] <= max_value by {
            if i > 0 {
                assert(c[i] == rest[i - 1]);
            }
        }
        assert forall|i: int, j: int| 0 <= i < j < c.len() implies c[i] < c[j] by {
            assert(c[j] == rest[j - 1]);
            if i > 0 {
                assert(c[i] == rest[i - 1]);
            }
        }
    }
}

/// Generate Fibonacci-ish thresholds up to max_value.
pub fn fibonacci_thresholds(max_value: u64) -> (r: Vec<u64>)
    ensures
        r@ == fibonacci_spec(max_value),
{
    if max_value <= 1 {
        return vec![1];
    }
    let mut thresholds: Vec<u64> = vec![1, 2];
    let mut a: u64 = 1;
    let mut b: u64 = 2;
    assert(thresholds@ == seq![1u64, 2u64]);
    loop
        invariant_except_break
            1 <= a < b <= max_value,
            thresholds@.len() >= 2,
            thresholds@.last() == b,
            thresholds@ + fib_continuation(a as nat, b as nat, max_value as nat) == seq![1u64, 2u64]
                + fib_continuation(1, 2, max_value as nat),
        ensures
            thresholds@ == seq![1u64, 2u64] + fib_continuation(1, 2, max_value as nat),
            thresholds@.len() >= 2,
        decreases max_value - b,
    {
        let next = a.checked_add(b);
        match next {
            Some(n) if n <= max_value => {
                let ghost before = thresholds@;
                thresholds.push(n);
                assert(fib_continuation(a as nat, b as nat, max_value as nat) == seq![n]
                    + fib_continuation(b as nat, n as nat, max_value as nat));
                assert(thresholds@ + fib_continuation(b as nat, n as nat, max_value as nat)
                    == before + fib_continuation(a as nat, b as nat, max_value as nat));
                a = b;
                b = n;
            },
            _ => {
                assert(fib_continuation(a as nat, b as nat, max_value as nat) == Seq::<u64>::empty());
                assert(thresholds@ + Seq::<u64>::empty() == thresholds@);
                break;
            },
        }
    }
    if thresholds[thresholds.len() - 1] != max_value {
        thresholds.push(max_value);
    }
    thresholds
}

/// Each threshold multiplied by `multiplier`, and never below 1.
pub open spec fn scaled_spec(thresholds: Seq<u64>, multiplier: u32) -> Seq<u64> {
    thresholds.map_values(|v: u64| if v * multiplier == 0 { 1u64 } else { (v * multiplier) as u64 })
}

/// Scale threshold values by the configured multiplier.
pub fn scale_thresholds(thresholds: &[u64], multiplier: u32) -> (r: Vec<u64>)
    requires
        forall|i: int| 0 <= i < thresholds@.len() ==> #[trigger] thresholds@[i] * multiplier <= u64::MAX,
    ensures
        r@ == scaled_spec(thresholds@, multiplier),
{
    let mut out: Vec<u64> = Vec::new();
    let n = thresholds.len();
    let mut i: usize = 0;
    while i < n
        invariant
            n == thresholds@.len(),
            0 <= i <= n,
            forall|k: int| 0 <= k < thresholds@.len() ==> #[trigger] thresholds@[k] * multiplier <= u64::MAX,
            out@ == scaled_spec(thresholds@.subrange(0, i as int), multiplier),
        decreases n - i,
    {
        let v = thresholds[i];
        assert(v * multiplier <= u64::MAX);
        let p: u64 = v * (multiplier as u64);
        let scaled: u64 = if p == 0 { 1 } else { p };
        out.push(scaled);
        assert(thresholds@.subrange(0, i + 1) == thresholds@.subrange(0, i as int).push(v));
        i += 1;
    }
    assert(thresholds@.subrange(0, n as int) == thresholds@);
    out
}


/// The laws of the Fibonacci-style thresholds: they start at 1, increase
/// strictly, and for a positive `max_value` never exceed it and end on it.
pub proof fn lemma_fibonacci_thresholds_shape(max_value: u64)
    ensures
        ({
            let t = fibonacci_spec(max_value);
            &&& t.len() >= 1
            &&& t[0] == 1
            &&& forall|i: int, j: int| 0 <= i < j < t.len() ==> t[i] < t[j]
            &&& max_value >= 1 ==> t.last() == max_value
            &&& max_value >= 1 ==> forall|i: int| 0 <= i < t.len() ==> #[trigger] t[i] <= max_value
        }),
{
    if max_value > 1 {
        let c = fib_continuation(1, 2, max_value as nat);
        lemma_fib_continuation_shape(1, 2, max_value as nat);
        let run = seq![1u64, 2u64] + c;
        assert forall|i: int| 0 <= i < run.len() implies #[trigger] run[i] <= max_value by {
            if i >= 2 {
                assert(run[i] == c[i - 2]);
            }
        }
        assert forall|i: int, j: int| 0 <= i < j < run.len() implies run[i] < run[j] by {
            if j >= 2 {
                assert(run[j] == c[j - 2]);
            }
            if i >= 2 {
                assert(run[i] == c[i - 2]);
            }
        }
        let t = fibonacci_spec(max_value);
        if run.last() != max_value {
            assert(t == run.push(max_value));
            assert(run.last() < max_value);
            assert forall|i: int, j: int| 0 <= i < j < t.len() implies t[i] < t[j] by {
                if j < run.len() {
                    assert(t[i] == run[i] && t[j] == run[j]);
                } else {
                    assert(t[i] == run[i]);
                    assert(run[i] <= run.last());
                }
            }
        }
    }
}

/// The laws of the linear thresholds: 1, 2, ..., `max_value`, so there are
/// `max_value` of them and, for a positive `max_value`, the last one is it.
pub proof fn lemma_linear_thresholds_shape(max_value: u64)
    ensures
        linear_spec(max_value).len() == max_value,
        forall|i: int| 0 <= i < max_value ==> #[trigger] linear_spec(max_value)[i] == i + 1,
        max_value >= 1 ==> linear_spec(max_value).last() == max_value,
{
}

// ---------------------------------------------------------------------------
// Profile names
// ---------------------------------------------------------------------------

/// The two families of scale profiles.
#[derive(Debug, Clone, Copy, PartialEq, Eq)]
pub enum ScaleKind {
    Linear,
    Fibonacci,
}

/// The message for a profile name outside the `KIND-N-plus` grammar.
pub const INVALID_SCALE_PROFILE: &'static str =
    "Invalid scale profile. Use names like linear-5-plus, linear-10-plus, fibonacci-8-plus, or fibonacci-21-plus.";

pub open spec fn is_ascii_digit(c: char) -> bool {
    '0' <= c && c <= '9'
}

/// The number that a run of ASCII digits denotes.
pub open spec fn digits_value(ds: Seq<char>) -> nat
    decreases ds.len(),
{
    if ds.len() == 0 {
        0
    } else {
        digits_value(ds.drop_last()) * 10 + ((ds.last() as u32) - ('0' as u32)) as nat
    }
}

/// The kind word at the start of a profile name, and where its number begins.
pub open spec fn profile_kind_prefix(name: Seq<char>) -> Option<(ScaleKind, int)> {
    if occurs_at(name, "linear-"@, 0) {
        Some((ScaleKind::Linear, "linear-"@.len() as int))
    } else if occurs_at(name, "fibonacci-"@, 0) {
        Some((ScaleKind::Fibonacci, "fibonacci-"@.len() as int))
    } else if occurs_at(name, "fibnacci-"@, 0) {
        Some((ScaleKind::Fibonacci, "fibnacci-"@.len() as int))
    } else {
        None
    }
}

/// A profile name in the grammar `(linear|fibonacci|fibnacci)-[1-9][0-9]*-plus`,
/// read as its kind and its maximum value.
pub open spec fn parse_profile_name(name: Seq<char>) -> Option<(ScaleKind, nat)> {
    match profile_kind_prefix(name) {
        None => None,
        Some((kind, start)) => {
            let end = name.len() - "-plus"@.len();
            if start < end && occurs_at(name, "-plus"@, end) && name[start] != '0' && (forall|
                i: int,
            | start <= i < end ==> #[trigger] is_ascii_digit(name[i])) {
                Some((kind, digits_value(name.subrange(start, end))))
            } else {
                None
            }
        },
    }
}

/// The thresholds of a profile kind before scaling.
pub open spec fn base_thresholds(kind: ScaleKind, max_value: u64) -> Seq<u64> {
    match kind {
        ScaleKind::Linear => linear_spec(max_value),
        ScaleKind::Fibonacci => fibonacci_spec(max_value),
    }
}

proof fn lemma_digits_value_grows(ds: Seq<char>, k: int)
    requires
        0 <= k <= ds.len(),
        forall|i: int| 0 <= i < ds.len() ==> #[trigger] is_ascii_digit(ds[i]),
    ensures
        digits_value(ds.subrange(0, k)) <= digits_value(ds),
    decreases ds.len() - k,
{
    if k < ds.len() {
        lemma_digits_value_grows(ds, k + 1);
        assert(ds.subrange(0, k + 1).drop_last() == ds.subrange(0, k));
    } else {
        assert(ds.subrange(0, k) == ds);
    }
}

/// Reads the ASCII digits `chars[start..end]` as a number, or `None` when it
/// does not fit in a `u64`.
pub fn read_number(chars: &Vec<char>, start: usize, end: usize) -> (r: Option<u64>)
    requires
        start <= end <= chars@.len(),
        forall|i: int| start <= i < end ==> #[trigger] is_ascii_digit(chars@[i]),
    ensures
        digits_value(chars@.subrange(start as int, end as int)) <= u64::MAX ==> r == Some(
            digits_value(chars@.subrange(start as int, end as int)) as u64,
        ),
        digits_value(chars@.subrange(start as int, end as int)) > u64::MAX ==> r is None,
{
    let ghost ds = chars@.subrange(start as int, end as int);
    let mut acc: u64 = 0;
    let mut i: usize = start;
    while i < end
        invariant
            start <= i <= end <= chars@.len(),
            ds == chars@.subrange(start as int, end as int),
            forall|k: int| start <= k < end ==> #[trigger] is_ascii_digit(chars@[k]),
            acc == digits_value(ds.subrange(0, i - start)),
        decreases end - i,
    {
        let c = chars[i];
        assert(is_ascii_digit(chars@[i as int]));
        let d: u64 = (c as u32 - '0' as u32) as u64;
        assert(ds.subrange(0, i + 1 - start).drop_last() == ds.subrange(0, i - start));
        assert(ds.subrange(0, i + 1 - start).last() == c);
        match acc.checked_mul(10) {
            Some(m) => match m.checked_add(d) {
                Some(v) => {
                    acc = v;
                },
                None => {
                    proof {
                        lemma_digits_value_grows(ds, i + 1 - start);
                    }
                    return None;
                },
            },
            None => {
                proof {
                    lemma_digits_value_grows(ds, i + 1 - start);
                }
                return None;
            },
        }
        i += 1;
    }
    assert(ds.subrange(0, end - start) == ds);
    Some(acc)
}

/// Whether the characters of `lit` stand in `chars` at position `at`.
fn literal_at(chars: &Vec<char>, lit: &str, at: usize) -> (r: bool)
    ensures
        r == occurs_at(chars@, lit@, at as int),
{
    let l = chars_of(lit);
    if at > chars.len() || l.len() > chars.len() - at {
        return false;
    }
    occurs_at_exec(chars, &l, at)
}

/// Reads a profile name in the `KIND-N-plus` grammar; `None` when the name is
/// outside it or its number does not fit in a `u64`.
pub fn parse_profile_name_exec(name: &str) -> (r: Option<(ScaleKind, u64)>)
    ensures
        match parse_profile_name(name@) {
            Some((kind, v)) => if v <= u64::MAX {
                r == Some((kind, v as u64))
            } else {
                r is None
            },
            None => r is None,
        },
{
    let chars = chars_of(name);
    let kind: ScaleKind;
    let start: usize;
    if literal_at(&chars, "linear-", 0) {
        kind = ScaleKind::Linear;
        start = chars_of("linear-").len();
    } else if literal_at(&chars, "fibonacci-", 0) {
        kind = ScaleKind::Fibonacci;
        start = chars_of("fibonacci-").len();
    } else if literal_at(&chars, "fibnacci-", 0) {
        kind = ScaleKind::Fibonacci;
        start = chars_of("fibnacci-").len();
    } else {
        return None;
    }
    let suffix_len = chars_of("-plus").len();
    if suffix_len > chars.len() {
        return None;
    }
    let end = chars.len() - suffix_len;
    if start >= end || !literal_at(&chars, "-plus", end) || chars[start] == '0' {
        return None;
    }
    let mut i: usize = start;
    while i < end
        invariant
            start <= i <= end <= chars@.len(),
            chars@ == name@,
            profile_kind_prefix(name@) == Some((kind, start as int)),
            end == name@.len() - "-plus"@.len(),
            forall|k: int| start <= k < i ==> #[trigger] is_ascii_digit(chars@[k]),
        decreases end - i,
    {
        if !('0' <= chars[i] && chars[i] <= '9') {
            assert(!is_ascii_digit(chars@[i as int]));
            return None;
        }
        i += 1;
    }
    match read_number(&chars, start, end) {
        Some(v) => Some((kind, v)),
        None => None,
    }
}

/// Parse a scale profile name into concrete thresholds.
pub fn parse_scale_profile(profile_name: &str, multiplier: u32) -> (r: Result<ScaleProfile, String>)
    requires
        parse_profile_name(profile_name@) matches Some((_, v)) ==> (v <= u64::MAX ==> v * multiplier
            <= u64::MAX),
    ensures
        match parse_profile_name(profile_name@) {
            Some((kind, v)) if v <= u64::MAX => r matches Ok(p) && p.thresholds@ == scaled_spec(
                base_thresholds(kind, v as u64),
                multiplier,
            ),
            _ => r matches Err(e) && e@ == INVALID_SCALE_PROFILE@,
        },
{
    match parse_profile_name_exec(profile_name) {
        None => Err(string_of(INVALID_SCALE_PROFILE)),
        Some((kind, max_value)) => {
            let base = match kind {
                ScaleKind::Linear => linear_thresholds(max_value),
                ScaleKind::Fibonacci => fibonacci_thresholds(max_value),
            };
            proof {
                lemma_fibonacci_thresholds_shape(max_value);
                assert(max_value >= 1) by {
                    let name = profile_name@;
                    let (_, start) = profile_kind_prefix(name).unwrap();
                    let end = name.len() - "-plus"@.len();
                    let ds = name.subrange(start, end);
                    assert(ds[0] == name[start]);
                    assert forall|i: int| 0 <= i < ds.len() implies #[trigger] is_ascii_digit(ds[i]) by {
                        assert(ds[i] == name[start + i]);
                        assert(is_ascii_digit(name[start + i]));
                    }
                    lemma_digits_value_grows(ds, 1);
                    let one = ds.subrange(0, 1);
                    assert(one.drop_last() == Seq::<char>::empty());
                    assert(one.last() == ds[0]);
                    assert(digits_value(one.drop_last()) == 0);
                    assert(is_ascii_digit(ds[0]));
                    assert((ds[0] as u32) > ('0' as u32));
                    assert(digits_value(one) >= 1);
                }
                assert forall|i: int| 0 <= i < base@.len() implies #[trigger] base@[i] * multiplier
                    <= u64::MAX by {
                    assert(base@[i] <= max_value);
                    assert(base@[i] * multiplier <= max_value * multiplier) by (nonlinear_arith)
                        requires
                            base@[i] <= max_value,
                    ;
                }
            }
            let thresholds = scale_thresholds(&base, multiplier);
            Ok(ScaleProfile { thresholds })
        },
    }
}

} // verus!
