//! Exact parsers for the numeric syntax the command lines and log protocol
//! use, specified over the raw bytes.

use vstd::prelude::*;

use crate::types::SCALE;
use vstd::string::StringSliceAdditionalSpecFns;

verus! {

pub open spec fn is_digit(b: u8) -> bool {
    48 <= b <= 57
}

pub open spec fn is_space(b: u8) -> bool {
    b == 32 || b == 9 || b == 10 || b == 13
}

pub open spec fn all_digits(s: Seq<u8>) -> bool {
    forall|i: int| 0 <= i < s.len() ==> is_digit(#[trigger] s[i])
}

/// Value of a digit string, most significant first.
pub open spec fn spec_digits_val(s: Seq<u8>) -> int
    decreases s.len(),
{
    if s.len() == 0 {
        0
    } else {
        spec_digits_val(s.drop_last()) * 10 + (s.last() - 48)
    }
}

pub open spec fn pow10(n: nat) -> int
    decreases n,
{
    if n == 0 {
        1
    } else {
        10 * pow10((n - 1) as nat)
    }
}

proof fn lemma_pow10_pos(a: nat)
    ensures
        1 <= pow10(a),
    decreases a,
{
    if a > 0 {
        lemma_pow10_pos((a - 1) as nat);
    }
}

proof fn lemma_pow10_mono(a: nat, b: nat)
    requires
        a <= b,
    ensures
        pow10(a) <= pow10(b),
        1 <= pow10(a),
    decreases b,
{
    if a == b {
        lemma_pow10_pos(a);
    } else {
        lemma_pow10_mono(a, (b - 1) as nat);
        assert(pow10(b) == 10 * pow10((b - 1) as nat));
        lemma_pow10_pos((b - 1) as nat);
    }
}

/// A digit string's value is below `10^len`.
pub proof fn lemma_digits_bound(s: Seq<u8>)
    requires
        all_digits(s),
    ensures
        0 <= spec_digits_val(s) < pow10(s.len()),
    decreases s.len(),
{
    if s.len() > 0 {
        assert(all_digits(s.drop_last())) by {
            assert(forall|i: int| 0 <= i < s.len() - 1 ==> s.drop_last()[i] == #[trigger] s[i]);
        }
        lemma_digits_bound(s.drop_last());
        assert(spec_digits_val(s.drop_last()) * 10 + (s.last() - 48) < pow10(s.len()))
            by (nonlinear_arith)
            requires
                0 <= spec_digits_val(s.drop_last()) < pow10((s.len() - 1) as nat),
                0 <= s.last() - 48 <= 9,
                pow10(s.len()) == 10 * pow10((s.len() - 1) as nat);
    }
}

/// Parse the digit run `b[from..to]` (one to eighteen digits).
fn parse_digits(b: &[u8], from: usize, to: usize) -> (r: Option<i64>)
    requires
        from <= to <= b@.len(),
    ensures
        (1 <= to - from <= 18 && all_digits(b@.subrange(from as int, to as int))) ==> (0
            <= spec_digits_val(b@.subrange(from as int, to as int)) < 1_000_000_000_000_000_000
            && r == Some((spec_digits_val(b@.subrange(from as int, to as int))) as i64)),
        !(1 <= to - from <= 18 && all_digits(b@.subrange(from as int, to as int))) ==> r
            is None,
        (r matches Some(v) ==> 0 <= v < 1_000_000_000_000_000_000),
{
    if to - from < 1 || to - from > 18 {
        return None;
    }
    proof {
        reveal_with_fuel(pow10, 20);
    }
    let mut acc: i64 = 0;
    let mut i: usize = from;
    while i < to
        invariant
            from <= i <= to <= b@.len(),
            1 <= to - from <= 18,
            all_digits(b@.subrange(from as int, i as int)),
            acc == spec_digits_val(b@.subrange(from as int, i as int)),
            0 <= acc < pow10((i - from) as nat),
            pow10(18) == 1_000_000_000_000_000_000,
        decreases to - i,
    {
        let d = b[i];
        if d < 48 || d > 57 {
            proof {
                assert(b@.subrange(from as int, to as int)[i - from] == b@[i as int]);
            }
            return None;
        }
        proof {
            let pre = b@.subrange(from as int, i as int);
            let post = b@.subrange(from as int, i + 1int);
            assert(post.drop_last() =~= pre);
            assert(post.last() == b@[i as int]);
            assert(acc * 10 + (d - 48) < pow10((i + 1 - from) as nat)) by (nonlinear_arith)
                requires
                    0 <= acc < pow10((i - from) as nat),
                    0 <= d - 48 <= 9,
                    pow10((i + 1 - from) as nat) == 10 * pow10((i - from) as nat);
            lemma_pow10_mono((i + 1 - from) as nat, 18);
            reveal_with_fuel(pow10, 20);
        }
        acc = acc * 10 + ((d - 48) as i64);
        i = i + 1;
    }
    proof {
        assert(b@.subrange(from as int, to as int) =~= b@.subrange(from as int, i as int));
        lemma_digits_bound(b@.subrange(from as int, to as int));
        lemma_pow10_mono((to - from) as nat, 18);
        reveal_with_fuel(pow10, 20);
    }
    Some(acc)
}

/// An integer literal this library accepts: an optional sign followed by
/// one to eighteen digits.
pub open spec fn spec_parse_i64(s: Seq<u8>) -> Option<int> {
    let sign: int = if s.len() > 0 && (s[0] == 45 || s[0] == 43) { if s[0] == 45 { -1 } else { 1 } } else { 1 };
    let digits: Seq<u8> = if s.len() > 0 && (s[0] == 45 || s[0] == 43) { s.skip(1) } else { s };
    if 1 <= digits.len() <= 18 && all_digits(digits) {
        Some(sign * spec_digits_val(digits))
    } else {
        None
    }
}

/// Parse a signed integer from the byte range `b[from..to]`.
pub fn parse_i64_range(b: &[u8], from: usize, to: usize) -> (r: Option<i64>)
    requires
        from <= to <= b@.len(),
    ensures
        (match spec_parse_i64(b@.subrange(from as int, to as int)) {
            Some(v) => r == Some(v as i64),
            None => r is None,
        }),
{
    let ghost seg = b@.subrange(from as int, to as int);
    if from == to {
        return None;
    }
    let first = b[from];
    proof {
        assert(seg[0] == b@[from as int]);
    }
    if first == 45 {
        proof {
            assert(seg.skip(1) =~= b@.subrange(from + 1int, to as int));
        }
        match parse_digits(b, from + 1, to) {
            Some(v) => {
                proof {
                    let digits = seg.skip(1);
                    assert(1 <= digits.len() <= 18 && all_digits(digits));
                    assert(v == spec_digits_val(digits));
                    assert(spec_parse_i64(seg) == Some(-1 * spec_digits_val(digits)));
                    assert(-1 * spec_digits_val(digits) == -(v as int)) by (nonlinear_arith)
                        requires v == spec_digits_val(digits);
                }
                Some(0 - v)
            }
            None => None,
        }
    } else if first == 43 {
        proof {
            assert(seg.skip(1) =~= b@.subrange(from + 1int, to as int));
        }
        parse_digits(b, from + 1, to)
    } else {
        parse_digits(b, from, to)
    }
}

/// Parse a signed integer from a whole string.
pub fn parse_i64_str(s: &str) -> (r: Option<i64>)
    ensures
        (match spec_parse_i64(s.spec_bytes()) {
            Some(v) => r == Some(v as i64),
            None => r is None,
        }),
{
    let b = s.as_bytes();
    proof {
        assert(b@.subrange(0, b@.len() as int) =~= b@);
    }
    parse_i64_range(b, 0, b.len())
}

/// Index of the first occurrence of `target` in `s`, or `s.len()` if none.
pub open spec fn spec_find(s: Seq<u8>, target: u8, from: int) -> int
    decreases s.len() - from,
{
    if from < 0 || from >= s.len() {
        s.len() as int
    } else if s[from] == target {
        from
    } else {
        spec_find(s, target, from + 1)
    }
}

/// A decimal literal scaled to fixed point: an optional sign, one to twelve
/// integer digits, and optionally a point with one to six fraction digits.
pub open spec fn spec_parse_fixed(s: Seq<u8>) -> Option<int> {
    let sign: int = if s.len() > 0 && (s[0] == 45 || s[0] == 43) { if s[0] == 45 { -1 } else { 1 } } else { 1 };
    let body: Seq<u8> = if s.len() > 0 && (s[0] == 45 || s[0] == 43) { s.skip(1) } else { s };
    let dot = spec_find(body, 46, 0);
    if dot == body.len() {
        if 1 <= body.len() <= 12 && all_digits(body) {
            Some(sign * (spec_digits_val(body) * SCALE))
        } else {
            None
        }
    } else {
        let ip = body.subrange(0, dot);
        let fp = body.subrange(dot + 1, body.len() as int);
        if 1 <= ip.len() <= 12 && all_digits(ip) && 1 <= fp.len() <= 6 && all_digits(fp) {
            Some(
                sign * (spec_digits_val(ip) * SCALE + spec_digits_val(fp) * pow10(
                    (6 - fp.len()) as nat,
                )),
            )
        } else {
            None
        }
    }
}

/// Find `target` within `b[from..to)`, returning `to` if absent.
pub fn find_byte_bounded(b: &[u8], target: u8, from: usize, to: usize) -> (r: usize)
    requires
        from <= to <= b@.len(),
    ensures
        from <= r <= to,
        r < to ==> b@[r as int] == target,
        forall|k: int| from <= k < r ==> b@[k] != target,
{
    let mut i: usize = from;
    while i < to
        invariant
            from <= i <= to,
            to <= b@.len(),
            forall|k: int| from <= k < i ==> b@[k] != target,
        decreases to - i,
    {
        if b[i] == target {
            return i;
        }
        i = i + 1;
    }
    i
}

/// A bounded find agrees with the clamped unbounded one: the result is the
/// first occurrence at or after `from`, clamped at `to`.
pub proof fn lemma_find_agrees_bounded(s: Seq<u8>, target: u8, from: int, to: int, r: int)
    requires
        0 <= from <= to <= s.len(),
        from <= r <= to,
        r < to ==> s[r] == target,
        forall|k: int| from <= k < r ==> s[k] != target,
    ensures
        r == ({
            let u = spec_find(s, target, from);
            if u < to {
                u
            } else {
                to
            }
        }),
{
    if r < to {
        lemma_find_first_from_eq(s, target, from, r);
    } else {
        lemma_find_at_least(s, target, from, to);
    }
}

/// When the target occurs at `m` with none before, the find returns `m`.
proof fn lemma_find_first_from_eq(s: Seq<u8>, target: u8, from: int, m: int)
    requires
        0 <= from <= m < s.len(),
        s[m] == target,
        forall|k: int| from <= k < m ==> s[k] != target,
    ensures
        spec_find(s, target, from) == m,
    decreases m - from,
{
    if from < m {
        lemma_find_first_from_eq(s, target, from + 1, m);
    }
}

/// The find never lands before its start.
proof fn lemma_find_ge(s: Seq<u8>, target: u8, from: int)
    requires
        0 <= from <= s.len(),
    ensures
        spec_find(s, target, from) >= from,
    decreases s.len() - from,
{
    if from < s.len() && s[from] != target {
        lemma_find_ge(s, target, from + 1);
    }
}

/// When no occurrence lies in `[from, to)`, the find lands at or past `to`.
proof fn lemma_find_at_least(s: Seq<u8>, target: u8, from: int, to: int)
    requires
        0 <= from <= to <= s.len(),
        forall|k: int| from <= k < to ==> s[k] != target,
    ensures
        spec_find(s, target, from) >= to,
    decreases to - from,
{
    if from < to {
        lemma_find_at_least(s, target, from + 1, to);
    } else {
        lemma_find_ge(s, target, from);
    }
}

/// `spec_find` is pinned by a prefix free of the target.
proof fn lemma_find_first(s: Seq<u8>, target: u8, m: int)
    requires
        0 <= m <= s.len(),
        forall|k: int| 0 <= k < m ==> s[k] != target,
        m < s.len() ==> s[m] == target,
    ensures
        spec_find(s, target, 0) == if m < s.len() { m } else { s.len() as int },
{
    lemma_find_first_from(s, target, 0, m);
}

proof fn lemma_find_first_from(s: Seq<u8>, target: u8, from: int, m: int)
    requires
        0 <= from <= m <= s.len(),
        forall|k: int| from <= k < m ==> s[k] != target,
        m < s.len() ==> s[m] == target,
    ensures
        spec_find(s, target, from) == if m < s.len() { m } else { s.len() as int },
    decreases m - from,
{
    if from < m {
        lemma_find_first_from(s, target, from + 1, m);
    }
}

/// Parse a fixed-point decimal from the byte range `b[from..to]`.
#[verifier::rlimit(100)]
pub fn parse_fixed_range(b: &[u8], from: usize, to: usize) -> (r: Option<i64>)
    requires
        from <= to <= b@.len(),
    ensures
        (match spec_parse_fixed(b@.subrange(from as int, to as int)) {
            Some(v) => -2_000_000_000_000_000_000 < v < 2_000_000_000_000_000_000 && r
                == Some(v as i64),
            None => r is None,
        }),
{
    let ghost seg = b@.subrange(from as int, to as int);
    if from == to {
        return None;
    }
    let first = b[from];
    proof {
        assert(seg[0] == b@[from as int]);
    }
    let neg: bool = first == 45;
    let bstart: usize = if first == 45 || first == 43 { from + 1 } else { from };
    let ghost body = b@.subrange(bstart as int, to as int);
    proof {
        if first == 45 || first == 43 {
            assert(seg.skip(1) =~= body);
        } else {
            assert(seg =~= body);
        }
    }
    let dot = find_byte_bounded(b, 46, bstart, to);
    proof {
        assert(forall|k: int| 0 <= k < dot - bstart ==> body[k] == #[trigger] b@[k + bstart]);
        if dot < to {
            assert(body[dot - bstart] == b@[dot as int]);
        }
        lemma_find_first(body, 46, dot - bstart);
        reveal_with_fuel(pow10, 20);
    }
    if dot == to {
        let v = match parse_digits(b, bstart, to) {
            Some(v) => v,
            None => {
                return None;
            }
        };
        if to - bstart > 12 {
            return None;
        }
        proof {
            lemma_digits_bound(body);
            lemma_pow10_mono((to - bstart) as nat, 12);
            reveal_with_fuel(pow10, 14);
            assert(v == spec_digits_val(body));
            assert(spec_digits_val(body) < 1_000_000_000_000);
            assert(spec_parse_fixed(seg) == Some(
                (if neg { -1int } else { 1int }) * (spec_digits_val(body) * SCALE),
            ));
            assert((-1int) * (spec_digits_val(body) * SCALE) == -(spec_digits_val(body) * SCALE))
                by (nonlinear_arith);
            assert((1int) * (spec_digits_val(body) * SCALE) == spec_digits_val(body) * SCALE)
                by (nonlinear_arith);
        }
        let scaled = v * SCALE;
        if neg {
            Some(0 - scaled)
        } else {
            Some(scaled)
        }
    } else {
        let ghost ip_s = b@.subrange(bstart as int, dot as int);
        let ghost fp_s = b@.subrange(dot + 1int, to as int);
        proof {
            assert(ip_s =~= body.subrange(0, dot - bstart));
            assert(fp_s =~= body.subrange(dot - bstart + 1, body.len() as int));
        }
        let ip = match parse_digits(b, bstart, dot) {
            Some(v) => v,
            None => {
                return None;
            }
        };
        if dot - bstart > 12 {
            return None;
        }
        let frac_len = to - (dot + 1);
        if frac_len < 1 || frac_len > 6 {
            return None;
        }
        let frac = match parse_digits(b, dot + 1, to) {
            Some(v) => v,
            None => {
                return None;
            }
        };
        let scale_fix: i64 = if frac_len == 6 {
            1
        } else if frac_len == 5 {
            10
        } else if frac_len == 4 {
            100
        } else if frac_len == 3 {
            1_000
        } else if frac_len == 2 {
            10_000
        } else {
            100_000
        };
        proof {
            lemma_digits_bound(ip_s);
            lemma_pow10_mono((dot - bstart) as nat, 12);
            lemma_digits_bound(fp_s);
            lemma_pow10_mono((to - dot - 1) as nat, 6);
            assert(scale_fix == pow10((6 - (to - dot - 1)) as nat)) by {
                reveal_with_fuel(pow10, 8);
            }
            assert(pow10((to - dot - 1) as nat) * pow10((6 - (to - dot - 1)) as nat)
                == 1_000_000) by {
                lemma_pow10_product((to - dot - 1) as nat, (6 - (to - dot - 1)) as nat);
                reveal_with_fuel(pow10, 8);
            }
            assert(frac * scale_fix < 1_000_000) by (nonlinear_arith)
                requires
                    0 <= frac < pow10((to - dot - 1) as nat),
                    scale_fix == pow10((6 - (to - dot - 1)) as nat),
                    pow10((to - dot - 1) as nat) * pow10((6 - (to - dot - 1)) as nat)
                        == 1_000_000,
                    0 < scale_fix;
            assert(0 <= frac * scale_fix) by (nonlinear_arith)
                requires 0 <= frac, 0 < scale_fix;
        }
        proof {
            let val = spec_digits_val(ip_s) * SCALE + spec_digits_val(fp_s) * pow10(
                (6 - fp_s.len()) as nat,
            );
            assert(ip == spec_digits_val(ip_s));
            assert(frac == spec_digits_val(fp_s));
            assert(spec_parse_fixed(seg) == Some((if neg { -1int } else { 1int }) * val));
            assert((-1int) * val == -val) by (nonlinear_arith);
            assert((1int) * val == val) by (nonlinear_arith);
            assert(spec_digits_val(ip_s) < 1_000_000_000_000) by {
                reveal_with_fuel(pow10, 14);
            }
            assert(0 <= val < 2_000_000_000_000_000_000);
        }
        let scaled = ip * SCALE + frac * scale_fix;
        if neg {
            Some(0 - scaled)
        } else {
            Some(scaled)
        }
    }
}

/// `10^a * 10^b == 10^(a+b)`.
proof fn lemma_pow10_product(a: nat, b: nat)
    ensures
        pow10(a) * pow10(b) == pow10(a + b),
    decreases a,
{
    if a == 0 {
        assert(pow10(0) * pow10(b) == pow10(b)) by (nonlinear_arith)
            requires pow10(0) == 1;
    } else {
        lemma_pow10_product((a - 1) as nat, b);
        assert(pow10(a) * pow10(b) == 10 * (pow10((a - 1) as nat) * pow10(b)))
            by (nonlinear_arith)
            requires pow10(a) == 10 * pow10((a - 1) as nat);
    }
}

/// Parse a fixed-point decimal from a whole string.
pub fn parse_fixed_str(s: &str) -> (r: Option<i64>)
    ensures
        (match spec_parse_fixed(s.spec_bytes()) {
            Some(v) => r == Some(v as i64),
            None => r is None,
        }),
{
    let b = s.as_bytes();
    proof {
        assert(b@.subrange(0, b@.len() as int) =~= b@);
    }
    parse_fixed_range(b, 0, b.len())
}

/// Leading spaces removed.
pub open spec fn spec_trim_front(s: Seq<u8>) -> Seq<u8>
    decreases s.len(),
{
    if s.len() > 0 && is_space(s[0]) {
        spec_trim_front(s.skip(1))
    } else {
        s
    }
}

/// Trailing spaces removed.
pub open spec fn spec_trim_back(s: Seq<u8>) -> Seq<u8>
    decreases s.len(),
{
    if s.len() > 0 && is_space(s.last()) {
        spec_trim_back(s.drop_last())
    } else {
        s
    }
}

/// Surrounding spaces removed.
pub open spec fn spec_trim(s: Seq<u8>) -> Seq<u8> {
    spec_trim_back(spec_trim_front(s))
}

/// Tighten `[from, to)` to the trimmed extent of the segment.
pub fn trim_range(b: &[u8], from: usize, to: usize) -> (r: (usize, usize))
    requires
        from <= to <= b@.len(),
    ensures
        from <= r.0 <= r.1 <= to,
        b@.subrange(r.0 as int, r.1 as int) == spec_trim(b@.subrange(from as int, to as int)),
        forall|k: int| from <= k < r.0 ==> is_space(#[trigger] b@[k]),
        r.0 == to || !is_space(b@[r.0 as int]),
        forall|k: int| r.1 < k <= to ==> is_space(#[trigger] b@[k - 1]),
        r.1 == r.0 || !is_space(b@[r.1 - 1]),
{
    let mut f = from;
    while f < to && (b[f] == 32 || b[f] == 9 || b[f] == 10 || b[f] == 13)
        invariant
            from <= f <= to <= b@.len(),
            spec_trim_front(b@.subrange(from as int, to as int)) == spec_trim_front(
                b@.subrange(f as int, to as int),
            ),
            forall|k: int| from <= k < f ==> is_space(#[trigger] b@[k]),
        decreases to - f,
    {
        proof {
            let cur = b@.subrange(f as int, to as int);
            assert(cur[0] == b@[f as int]);
            assert(cur.skip(1) =~= b@.subrange(f + 1int, to as int));
        }
        f = f + 1;
    }
    proof {
        let cur = b@.subrange(f as int, to as int);
        if cur.len() > 0 {
            assert(cur[0] == b@[f as int]);
        }
        assert(spec_trim_front(cur) == cur);
    }
    let mut t = to;
    while t > f && (b[t - 1] == 32 || b[t - 1] == 9 || b[t - 1] == 10 || b[t - 1] == 13)
        invariant
            from <= f <= t <= to <= b@.len(),
            spec_trim_front(b@.subrange(from as int, to as int)) == b@.subrange(
                f as int,
                to as int,
            ),
            spec_trim_back(b@.subrange(f as int, to as int)) == spec_trim_back(
                b@.subrange(f as int, t as int),
            ),
            forall|k: int| t < k <= to ==> is_space(#[trigger] b@[k - 1]),
        decreases t,
    {
        proof {
            let cur = b@.subrange(f as int, t as int);
            assert(cur.last() == b@[t - 1int]);
            assert(cur.drop_last() =~= b@.subrange(f as int, t - 1int));
        }
        t = t - 1;
    }
    proof {
        let cur = b@.subrange(f as int, t as int);
        if cur.len() > 0 {
            assert(cur.last() == b@[t - 1int]);
        }
        assert(spec_trim_back(cur) == cur);
    }
    (f, t)
}

/// The comma-separated fixed-point list from `s`: `None` on any segment that
/// neither trims to empty nor parses; empty segments are skipped.
pub open spec fn spec_fixed_list(s: Seq<u8>) -> Option<Seq<int>>
    decreases s.len(),
{
    let i0 = spec_find(s, 44, 0);
    let i = if 0 <= i0 < s.len() { i0 } else { s.len() as int };
    let seg = spec_trim(s.subrange(0, i));
    let head: Option<Option<int>> = if seg.len() == 0 {
        None
    } else {
        Some(spec_parse_fixed(seg))
    };
    if i == s.len() {
        match head {
            None => Some(Seq::empty()),
            Some(None) => None,
            Some(Some(v)) => Some(seq![v]),
        }
    } else {
        let rest = spec_fixed_list(s.skip(i + 1));
        match head {
            None => rest,
            Some(None) => None,
            Some(Some(v)) => match rest {
                None => None,
                Some(vs) => Some(seq![v] + vs),
            },
        }
    }
}

/// Parse a comma-separated list of decimals to fixed point. `None` when a
/// value is malformed or the list holds no values.
#[verifier::rlimit(100)]
pub fn parse_num_list(s: &str) -> (r: Option<Vec<i64>>)
    ensures
        (match spec_fixed_list(s.spec_bytes()) {
            Some(vs) => if vs.len() > 0 {
                r matches Some(out) && out@.map_values(|x: i64| x as int) =~= vs
            } else {
                r is None
            },
            None => r is None,
        }),
{
    let b = s.as_bytes();
    let n = b.len();
    let mut out: Vec<i64> = Vec::new();
    let mut st: usize = 0;
    let mut done = false;
    proof {
        assert(b@.subrange(0, n as int) =~= b@);
    }
    while !done
        invariant
            0 <= st <= n,
            n == b@.len(),
            s.spec_bytes() == b@,
            !done ==> (match spec_fixed_list(b@) {
                Some(vs) => (match spec_fixed_list(b@.subrange(st as int, n as int)) {
                    Some(rest) => vs =~= out@.map_values(|x: i64| x as int) + rest,
                    None => false,
                }),
                None => spec_fixed_list(b@.subrange(st as int, n as int)) is None,
            }),
            done ==> (match spec_fixed_list(b@) {
                Some(vs) => out@.map_values(|x: i64| x as int) =~= vs,
                None => false,
            }),
        decreases (if done { 0int } else { 1int }) + n - st,
    {
        let i = find_byte_bounded(b, 44, st, n);
        let ghost suffix = b@.subrange(st as int, n as int);
        let ghost old_out = out@;
        proof {
            assert(forall|k: int| 0 <= k < i - st ==> suffix[k] == #[trigger] b@[k + st]);
            if i < n {
                assert(suffix[i - st] == b@[i as int]);
            }
            lemma_find_first(suffix, 44, i - st);
            assert(suffix.subrange(0, i - st) =~= b@.subrange(st as int, i as int));
            if i < n {
                assert(suffix.skip(i - st + 1) =~= b@.subrange(i + 1int, n as int));
            }
        }
        let (f, t) = trim_range(b, st, i);
        let ghost seg = spec_trim(suffix.subrange(0, i - st));
        proof {
            assert(b@.subrange(f as int, t as int) == seg);
        }
        if f == t {
            proof {
                assert(seg.len() == 0);
            }
        } else {
            match parse_fixed_range(b, f, t) {
                Some(v) => {
                    out.push(v);
                    proof {
                        assert(seg.len() > 0);
                        assert(spec_parse_fixed(seg) == Some(v as int));
                        assert(out@.map_values(|x: i64| x as int) =~= old_out.map_values(
                            |x: i64| x as int,
                        ).push(v as int));
                        assert(old_out.map_values(|x: i64| x as int) + seq![v as int]
                            =~= out@.map_values(|x: i64| x as int));
                    }
                }
                None => {
                    proof {
                        assert(seg.len() > 0);
                        assert(spec_parse_fixed(seg) is None);
                        assert(spec_fixed_list(suffix) is None);
                        assert(spec_fixed_list(b@.subrange(st as int, n as int)) is None);
                        assert(spec_fixed_list(b@) is None);
                        assert(s.spec_bytes() == b@);
                    }
                    return None;
                }
            }
        }
        if i == n {
            proof {
                let vsm = out@.map_values(|x: i64| x as int);
                if seg.len() == 0 {
                    assert(spec_fixed_list(suffix) == Some(Seq::<int>::empty()));
                    assert(old_out.map_values(|x: i64| x as int) + Seq::<int>::empty()
                        =~= old_out.map_values(|x: i64| x as int));
                } else {
                    assert(spec_fixed_list(suffix) == Some(seq![spec_parse_fixed(seg)->0]));
                }
            }
            done = true;
        } else {
            proof {
                let rest_suffix = b@.subrange(i + 1int, n as int);
                if seg.len() == 0 {
                    assert(spec_fixed_list(suffix) == spec_fixed_list(rest_suffix));
                } else {
                    match spec_fixed_list(rest_suffix) {
                        Some(vs2) => {
                            assert(spec_fixed_list(suffix) == Some(
                                seq![spec_parse_fixed(seg)->0] + vs2,
                            ));
                            assert((old_out.map_values(|x: i64| x as int) + (seq![
                                spec_parse_fixed(seg)->0,
                            ] + vs2)) =~= (out@.map_values(|x: i64| x as int) + vs2));
                        }
                        None => {
                            assert(spec_fixed_list(suffix) is None);
                        }
                    }
                }
            }
            st = i + 1;
        }
    }
    if out.len() == 0 {
        return None;
    }
    Some(out)
}

/// Convert a fixed-point list to whole numbers: every value must be a
/// non-negative integer (an exact multiple of the scale).
pub fn fixed_list_to_ints(v: &Vec<i64>) -> (r: Option<Vec<i64>>)
    ensures
        (r matches Some(out) ==> out@.len() == v@.len() && (forall|i: int|
            0 <= i < v@.len() ==> (#[trigger] out@[i]) * SCALE == v@[i] && out@[i] >= 0)),
        (r is None <==> exists|i: int| 0 <= i < v@.len() && !(#[trigger] v@[i] >= 0
            && (v@[i] as int) % (SCALE as int) == 0)),
{
    let mut out: Vec<i64> = Vec::new();
    let mut i: usize = 0;
    while i < v.len()
        invariant
            0 <= i <= v@.len(),
            out@.len() == i,
            forall|k: int| 0 <= k < i ==> (#[trigger] out@[k]) * SCALE == v@[k] && out@[k] >= 0,
            forall|k: int| 0 <= k < i ==> v@[k] >= 0 && (v@[k] as int) % (SCALE as int) == 0,
        decreases v@.len() - i,
    {
        let x = v[i];
        if x < 0 {
            return None;
        }
        let q = crate::types::div_count(x, SCALE as u64);
        proof {
            assert(q * SCALE <= x) by (nonlinear_arith)
                requires q == x as int / (SCALE as int), 0 <= x, 0 < SCALE;
            assert((q * SCALE == x) == (x as int % (SCALE as int) == 0)) by (nonlinear_arith)
                requires q == x as int / (SCALE as int), 0 <= x, 0 < SCALE;
        }
        if q * SCALE != x {
            return None;
        }
        out.push(q);
        i = i + 1;
    }
    Some(out)
}

/// A parsed integer literal is below `10^18` in magnitude.
pub proof fn lemma_parse_i64_bound(s: Seq<u8>)
    requires
        spec_parse_i64(s) is Some,
    ensures
        -1_000_000_000_000_000_000 < spec_parse_i64(s)->0 < 1_000_000_000_000_000_000,
{
    let digits: Seq<u8> = if s.len() > 0 && (s[0] == 45 || s[0] == 43) { s.skip(1) } else { s };
    lemma_digits_bound(digits);
    lemma_pow10_mono(digits.len(), 18);
    reveal_with_fuel(pow10, 20);
    let sign: int = if s.len() > 0 && (s[0] == 45 || s[0] == 43) { if s[0] == 45 { -1 } else { 1 } } else { 1 };
    assert(spec_parse_i64(s)->0 == sign * spec_digits_val(digits));
    assert((-1int) * spec_digits_val(digits) == -spec_digits_val(digits)) by (nonlinear_arith);
    assert((1int) * spec_digits_val(digits) == spec_digits_val(digits)) by (nonlinear_arith);
}

/// Milliseconds per interval string: the interval is whole minutes and must
/// be positive (and small enough that the conversion cannot overflow).
pub open spec fn spec_interval_ms(s: Seq<u8>) -> Option<int> {
    match spec_parse_i64(s) {
        Some(mins) => if 0 < mins <= 15_000_000 {
            Some(mins * 60_000)
        } else {
            None
        },
        None => None,
    }
}

/// Parse an interval given in minutes into milliseconds.
pub fn parse_interval_ms(s: &str) -> (r: Option<i64>)
    ensures
        (match spec_interval_ms(s.spec_bytes()) {
            Some(v) => r == Some(v as i64),
            None => r is None,
        }),
{
    proof {
        if spec_parse_i64(s.spec_bytes()) is Some {
            lemma_parse_i64_bound(s.spec_bytes());
        }
    }
    match parse_i64_str(s) {
        Some(mins) => {
            if 0 < mins && mins <= 15_000_000 {
                Some(mins * 60_000)
            } else {
                None
            }
        }
        None => None,
    }
}


/// Whether every byte of `b[from..to]` is a digit.
pub fn digits_only(b: &[u8], from: usize, to: usize) -> (r: bool)
    requires
        from <= to <= b@.len(),
    ensures
        r == all_digits(b@.subrange(from as int, to as int)),
        r == digits_in(b@, from as int, to as int),
{
    let mut i: usize = from;
    while i < to
        invariant
            from <= i <= to <= b@.len(),
            forall|k: int| from <= k < i ==> is_digit(#[trigger] b@[k]),
        decreases to - i,
    {
        let d = b[i];
        if d < 48 || d > 57 {
            proof {
                assert(b@.subrange(from as int, to as int)[i - from] == b@[i as int]);
            }
            return false;
        }
        i = i + 1;
    }
    proof {
        assert(forall|k: int| 0 <= k < to - from ==> b@.subrange(from as int, to as int)[k]
            == #[trigger] b@[k + from]);
    }
    true
}

/// All bytes of `s[a..b]` are digits.
pub open spec fn digits_in(s: Seq<u8>, a: int, b: int) -> bool {
    forall|i: int| a <= i < b ==> is_digit(#[trigger] s[i])
}

/// A numeric literal of this library's grammar, over absolute positions
/// `[from, to)` of `s`: an optional sign, a digit run with at most one
/// point (digits on at least one side of it), and an optional exponent
/// part (`e` or `E`, an optional sign, digits). Non-finite spellings are
/// not numeric.
pub open spec fn spec_is_numeric(s: Seq<u8>, from: int, to: int) -> bool {
    from < to && ({
        let f = if s[from] == 45 || s[from] == 43 { from + 1 } else { from };
        f < to && ({
            let e1 = spec_find(s, 101, f);
            let e2 = spec_find(s, 69, f);
            let m0 = if e1 <= e2 { e1 } else { e2 };
            let me = if m0 < to { m0 } else { to };
            f < me && ({
                let d0 = spec_find(s, 46, f);
                let dot = if d0 < me { d0 } else { me };
                let mant_ok = if dot == me {
                    digits_in(s, f, me)
                } else {
                    digits_in(s, f, dot) && digits_in(s, dot + 1, me) && !(dot == f && dot + 1
                        == me)
                };
                mant_ok && (me == to || ({
                    let x0 = me + 1;
                    let xf = if x0 < to && (s[x0] == 45 || s[x0] == 43) { x0 + 1 } else { x0 };
                    xf < to && digits_in(s, xf, to)
                }))
            })
        })
    })
}

/// Whether `s[from..to]` is a numeric literal of this library's grammar.
pub fn is_numeric_literal(b: &[u8], from: usize, to: usize) -> (r: bool)
    requires
        from <= to <= b@.len(),
    ensures
        r == spec_is_numeric(b@, from as int, to as int),
{
    if from == to {
        return false;
    }
    let mut f = from;
    if b[f] == 45 || b[f] == 43 {
        f = f + 1;
    }
    if f == to {
        return false;
    }
    // split mantissa and exponent
    let e1 = find_byte_bounded(b, 101, f, to);
    let e2 = find_byte_bounded(b, 69, f, to);
    let me = if e1 <= e2 { e1 } else { e2 };
    proof {
        lemma_find_agrees_bounded(b@, 101, f as int, to as int, e1 as int);
        lemma_find_agrees_bounded(b@, 69, f as int, to as int, e2 as int);
    }
    // mantissa: digits with at most one point, digits on some side
    if f == me {
        return false;
    }
    let dot = find_byte_bounded(b, 46, f, me);
    proof {
        lemma_find_agrees_bounded(b@, 46, f as int, me as int, dot as int);
    }
    if dot == me {
        if !digits_only(b, f, me) {
            proof {
                assert(!digits_in(b@, f as int, me as int)) by {
                    assert(b@.subrange(f as int, me as int).len() == me - f);
                    assert(exists|i: int| 0 <= i < me - f
                        && !is_digit(#[trigger] b@.subrange(f as int, me as int)[i]));
                    let i = choose|i: int| 0 <= i < me - f
                        && !is_digit(#[trigger] b@.subrange(f as int, me as int)[i]);
                    assert(b@.subrange(f as int, me as int)[i] == b@[f + i]);
                }
            }
            return false;
        }
        proof {
            assert(digits_in(b@, f as int, me as int)) by {
                assert(forall|i: int| f <= i < me ==> b@.subrange(f as int, me as int)[
                    i - f
                ] == #[trigger] b@[i]);
            }
        }
    } else {
        if !(digits_only(b, f, dot) && digits_only(b, dot + 1, me)) {
            return false;
        }
        if dot == f && dot + 1 == me {
            return false;
        }
    }
    // exponent, if present
    if me < to {
        let mut xf = me + 1;
        if xf < to && (b[xf] == 45 || b[xf] == 43) {
            xf = xf + 1;
        }
        if xf == to {
            return false;
        }
        if !digits_only(b, xf, to) {
            return false;
        }
    }
    true
}

/// Case-insensitive ASCII byte equality.
pub open spec fn spec_lower_byte(b: u8) -> u8 {
    if 65 <= b <= 90 {
        (b + 32) as u8
    } else {
        b
    }
}

pub open spec fn spec_eq_ci(a: Seq<u8>, b: Seq<u8>) -> bool {
    a.len() == b.len() && forall|i: int| 0 <= i < a.len() ==> spec_lower_byte(#[trigger] a[i])
        == spec_lower_byte(b[i])
}

/// Compare `b[f..t]` to `lit`, ignoring ASCII case on the left.
fn eq_ignore_case(b: &[u8], f: usize, t: usize, lit: &[u8]) -> (r: bool)
    requires
        f <= t <= b@.len(),
    ensures
        r == spec_eq_ci(b@.subrange(f as int, t as int), lit@),
{
    if t - f != lit.len() {
        return false;
    }
    let mut i: usize = 0;
    while i < lit.len()
        invariant
            0 <= i <= lit@.len(),
            t - f == lit@.len(),
            f <= t <= b@.len(),
            forall|m: int| 0 <= m < i ==> spec_lower_byte(#[trigger] b@[f + m])
                == spec_lower_byte(lit@[m]),
        decreases lit@.len() - i,
    {
        let mut c = b[f + i];
        if 65 <= c && c <= 90 {
            c = c + 32;
        }
        let mut l = lit[i];
        if 65 <= l && l <= 90 {
            l = l + 32;
        }
        if c != l {
            proof {
                assert(spec_lower_byte(b@[f + i]) != spec_lower_byte(lit@[i as int]));
                assert(b@.subrange(f as int, t as int)[i as int] == b@[f + i]);
            }
            return false;
        }
        i = i + 1;
    }
    proof {
        assert forall|m: int| 0 <= m < t - f implies spec_lower_byte(
            #[trigger] b@.subrange(f as int, t as int)[m],
        ) == spec_lower_byte(lit@[m]) by {
            assert(b@.subrange(f as int, t as int)[m] == b@[f + m]);
        }
    }
    true
}

/// Which gate a (trimmed) token names, ignoring ASCII case.
pub open spec fn spec_gate_of(s: Seq<u8>) -> Option<crate::trend_backtest::EntryGate> {
    if spec_eq_ci(s, "trend".spec_bytes()) {
        Some(crate::trend_backtest::EntryGate::Trend)
    } else if spec_eq_ci(s, "trend-bos".spec_bytes()) {
        Some(crate::trend_backtest::EntryGate::TrendBos)
    } else if spec_eq_ci(s, "trend-bos-pullback".spec_bytes()) {
        Some(crate::trend_backtest::EntryGate::TrendBosPullback)
    } else {
        None
    }
}

/// The comma-separated gate list: `None` on any segment that neither trims
/// to empty nor names a gate; empty segments are skipped.
pub open spec fn spec_gate_list(s: Seq<u8>) -> Option<Seq<crate::trend_backtest::EntryGate>>
    decreases s.len(),
{
    let i0 = spec_find(s, 44, 0);
    let i = if 0 <= i0 < s.len() { i0 } else { s.len() as int };
    let seg = spec_trim(s.subrange(0, i));
    let head: Option<Option<crate::trend_backtest::EntryGate>> = if seg.len() == 0 {
        None
    } else {
        Some(spec_gate_of(seg))
    };
    if i == s.len() {
        match head {
            None => Some(Seq::empty()),
            Some(None) => None,
            Some(Some(g)) => Some(seq![g]),
        }
    } else {
        let rest = spec_gate_list(s.skip(i + 1));
        match head {
            None => rest,
            Some(None) => None,
            Some(Some(g)) => match rest {
                None => None,
                Some(gs) => Some(seq![g] + gs),
            },
        }
    }
}

/// Parse a comma-separated list of entry gates (`trend`, `trend-bos`,
/// `trend-bos-pullback`, case-insensitive). `None` when a segment is not a
/// gate or the list is empty; blank segments around commas are skipped.
#[verifier::rlimit(100)]
pub fn parse_gate_list(s: &str) -> (r: Option<
    Vec<crate::trend_backtest::EntryGate>,
>)
    ensures
        (match spec_gate_list(s.spec_bytes()) {
            Some(gs) => if gs.len() > 0 {
                r matches Some(out) && out@ =~= gs
            } else {
                r is None
            },
            None => r is None,
        }),
{
    let b = s.as_bytes();
    let n = b.len();
    let mut out: Vec<crate::trend_backtest::EntryGate> = Vec::new();
    let mut st: usize = 0;
    let mut done = false;
    proof {
        assert(b@.subrange(0, n as int) =~= b@);
    }
    while !done
        invariant
            0 <= st <= n,
            n == b@.len(),
            s.spec_bytes() == b@,
            !done ==> (match spec_gate_list(b@) {
                Some(gs) => (match spec_gate_list(b@.subrange(st as int, n as int)) {
                    Some(rest) => gs =~= out@ + rest,
                    None => false,
                }),
                None => spec_gate_list(b@.subrange(st as int, n as int)) is None,
            }),
            done ==> (match spec_gate_list(b@) {
                Some(gs) => out@ =~= gs,
                None => false,
            }),
        decreases (if done { 0int } else { 1int }) + n - st,
    {
        let i = find_byte_bounded(b, 44, st, n);
        let ghost suffix = b@.subrange(st as int, n as int);
        let ghost old_out = out@;
        proof {
            assert(forall|k: int| 0 <= k < i - st ==> suffix[k] == #[trigger] b@[k + st]);
            if i < n {
                assert(suffix[i - st] == b@[i as int]);
            }
            lemma_find_first(suffix, 44, i - st);
            assert(suffix.subrange(0, i - st) =~= b@.subrange(st as int, i as int));
            if i < n {
                assert(suffix.skip(i - st + 1) =~= b@.subrange(i + 1int, n as int));
            }
        }
        let (f, t) = trim_range(b, st, i);
        let ghost seg = spec_trim(suffix.subrange(0, i - st));
        proof {
            assert(b@.subrange(f as int, t as int) == seg);
        }
        if f == t {
            proof {
                assert(seg.len() == 0);
            }
        } else {
            let g = if eq_ignore_case(b, f, t, "trend".as_bytes()) {
                Some(crate::trend_backtest::EntryGate::Trend)
            } else if eq_ignore_case(b, f, t, "trend-bos".as_bytes()) {
                Some(crate::trend_backtest::EntryGate::TrendBos)
            } else if eq_ignore_case(b, f, t, "trend-bos-pullback".as_bytes()) {
                Some(crate::trend_backtest::EntryGate::TrendBosPullback)
            } else {
                None
            };
            proof {
                assert(g == spec_gate_of(seg));
            }
            match g {
                Some(gate) => {
                    out.push(gate);
                    proof {
                        assert(old_out + seq![gate] =~= out@);
                    }
                }
                None => {
                    proof {
                        assert(spec_gate_list(suffix) is None);
                        assert(spec_gate_list(b@) is None);
                    }
                    return None;
                }
            }
        }
        if i == n {
            proof {
                if seg.len() == 0 {
                    assert(spec_gate_list(suffix)
                        == Some(Seq::<crate::trend_backtest::EntryGate>::empty()));
                    assert(old_out + Seq::<crate::trend_backtest::EntryGate>::empty()
                        =~= old_out);
                } else {
                    assert(spec_gate_list(suffix) == Some(seq![spec_gate_of(seg)->0]));
                }
            }
            done = true;
        } else {
            proof {
                let rest_suffix = b@.subrange(i + 1int, n as int);
                if seg.len() == 0 {
                    assert(spec_gate_list(suffix) == spec_gate_list(rest_suffix));
                } else {
                    match spec_gate_list(rest_suffix) {
                        Some(gs2) => {
                            assert(spec_gate_list(suffix) == Some(
                                seq![spec_gate_of(seg)->0] + gs2,
                            ));
                            assert((old_out + (seq![spec_gate_of(seg)->0] + gs2)) =~= (out@
                                + gs2));
                        }
                        None => {
                            assert(spec_gate_list(suffix) is None);
                        }
                    }
                }
            }
            st = i + 1;
        }
    }
    if out.len() == 0 {
        return None;
    }
    Some(out)
}

} // verus!
