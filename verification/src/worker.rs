//! The worker's pure logic: the line-oriented metric and artifact
//! extractor, the persistence model and its idempotence, and the chart
//! sampling helpers.

use vstd::prelude::*;

use crate::textnum::find_byte_bounded;
use crate::textnum::is_numeric_literal;
use crate::textnum::spec_eq_ci;
use crate::textnum::spec_lower_byte;
use vstd::string::StringSliceAdditionalSpecFns;

verus! {

/// A parsed metric value: a numeric literal (kept as its text) or free
/// text.
#[derive(Clone, Debug)]
pub enum MetricValue {
    Num(String),
    Text(String),
}

/// One registered artifact.
#[derive(Clone, Debug)]
pub struct ArtifactEntry {
    pub kind: String,
    pub path: String,
}

/// Key-to-value metric map with overwrite-on-repeat semantics.
#[derive(Debug)]
pub struct MetricsMap {
    pub entries: Vec<(String, MetricValue)>,
}

/// The byte view of a metric value: a numeric flag and the text's bytes.
pub open spec fn mv_view(v: MetricValue) -> (bool, Seq<u8>) {
    match v {
        MetricValue::Num(t) => (true, vstd::utf8::encode_utf8(t@)),
        MetricValue::Text(t) => (false, vstd::utf8::encode_utf8(t@)),
    }
}

/// The byte view of the whole map, in insertion order.
pub open spec fn map_view(s: Seq<(String, MetricValue)>) -> Seq<(Seq<u8>, (bool, Seq<u8>))> {
    Seq::new(s.len(), |i: int| (vstd::utf8::encode_utf8(s[i].0@), mv_view(s[i].1)))
}

pub open spec fn keys_unique(s: Seq<(String, MetricValue)>) -> bool {
    forall|i: int, j: int| 0 <= i < j < s.len() ==> vstd::utf8::encode_utf8(
        (#[trigger] s[i]).0@,
    ) != vstd::utf8::encode_utf8((#[trigger] s[j]).0@)
}

/// Insert-or-overwrite on the byte view, first match kept in place.
pub open spec fn spec_upsert(
    m: Seq<(Seq<u8>, (bool, Seq<u8>))>,
    key: Seq<u8>,
    val: (bool, Seq<u8>),
) -> Seq<(Seq<u8>, (bool, Seq<u8>))> {
    if exists|i: int| 0 <= i < m.len() && (#[trigger] m[i]).0 == key {
        m.map(|i: int, e: (Seq<u8>, (bool, Seq<u8>))| if e.0 == key { (key, val) } else { e })
    } else {
        m.push((key, val))
    }
}

impl MetricsMap {
    /// An empty map.
    pub fn new() -> (r: Self)
        ensures
            r.entries@.len() == 0,
            keys_unique(r.entries@),
    {
        MetricsMap { entries: Vec::new() }
    }

    /// Insert or overwrite: an existing key (by its bytes) keeps its place
    /// with the new value; a new key is appended.
    pub fn upsert(&mut self, key: String, value: MetricValue)
        requires
            keys_unique(old(self).entries@),
        ensures
            keys_unique(final(self).entries@),
            map_view(final(self).entries@) == spec_upsert(
                map_view(old(self).entries@),
                vstd::utf8::encode_utf8(key@),
                mv_view(value),
            ),
    {
        let ghost kb = vstd::utf8::encode_utf8(key@);
        let mut i: usize = 0;
        while i < self.entries.len()
            invariant
                0 <= i <= self.entries@.len(),
                keys_unique(self.entries@),
                self.entries@ == old(self).entries@,
                kb == vstd::utf8::encode_utf8(key@),
                forall|k: int| 0 <= k < i ==> vstd::utf8::encode_utf8(
                    (#[trigger] self.entries@[k]).0@,
                ) != kb,
            decreases self.entries@.len() - i,
        {
            if crate::orchestrator::bytes_eq(
                self.entries[i].0.as_str().as_bytes(),
                key.as_str().as_bytes(),
            ) {
                proof {
                    assert(vstd::utf8::encode_utf8(self.entries@[i as int].0@) == kb);
                }
                let e = (key, value);
                self.entries.set(i, e);
                proof {
                    let old_v = map_view(old(self).entries@);
                    assert(old_v[i as int].0 == kb);
                    assert(exists|j: int| 0 <= j < old_v.len() && (#[trigger] old_v[j]).0
                        == kb);
                    assert forall|k: int| 0 <= k < old_v.len() && k != i implies (#[trigger]
                        old_v[k]).0 != kb by {
                        assert(old_v[k].0 == vstd::utf8::encode_utf8(
                            old(self).entries@[k].0@,
                        ));
                        if k < i {
                            assert(vstd::utf8::encode_utf8(old(self).entries@[k].0@)
                                != vstd::utf8::encode_utf8(old(self).entries@[i as int].0@));
                        } else {
                            assert(vstd::utf8::encode_utf8(old(self).entries@[i as int].0@)
                                != vstd::utf8::encode_utf8(old(self).entries@[k].0@));
                        }
                    }
                    let target = spec_upsert(old_v, kb, mv_view(self.entries@[i as int].1));
                    assert forall|k: int| 0 <= k < old_v.len() implies map_view(
                        self.entries@,
                    )[k] == target[k] by {
                        if k != i {
                            assert(self.entries@[k] == old(self).entries@[k]);
                        }
                    }
                    assert(map_view(self.entries@) =~= target);
                }
                return;
            }
            i = i + 1;
        }
        self.entries.push((key, value));
        proof {
            assert(forall|k: int| 0 <= k < old(self).entries@.len()
                ==> (#[trigger] map_view(old(self).entries@)[k]).0 == vstd::utf8::encode_utf8(
                old(self).entries@[k].0@,
            ));
            assert(map_view(self.entries@) =~= spec_upsert(
                map_view(old(self).entries@),
                kb,
                mv_view(self.entries@[self.entries@.len() - 1].1),
            ));
        }
    }
}

/// The store a run's results land in: one replaceable metrics payload and a
/// replaced-as-a-set artifact list (views only; the record store itself is
/// an external collaborator).
pub open spec fn spec_persist(
    store: (Option<Seq<(Seq<char>, Seq<char>)>>, Seq<(Seq<char>, Seq<char>)>),
    metrics: Seq<(Seq<char>, Seq<char>)>,
    artifacts: Seq<(Seq<char>, Seq<char>)>,
) -> (Option<Seq<(Seq<char>, Seq<char>)>>, Seq<(Seq<char>, Seq<char>)>) {
    (
        if metrics.len() > 0 {
            Some(metrics)
        } else {
            store.0
        },
        if artifacts.len() > 0 {
            artifacts
        } else {
            store.1
        },
    )
}

/// Law: persistence is idempotent — re-persisting the same parsed metrics
/// and artifacts after completion leaves the store exactly as the first
/// pass did, so re-processing a finished run is safe.
pub proof fn lemma_persist_idempotent(
    store: (Option<Seq<(Seq<char>, Seq<char>)>>, Seq<(Seq<char>, Seq<char>)>),
    metrics: Seq<(Seq<char>, Seq<char>)>,
    artifacts: Seq<(Seq<char>, Seq<char>)>,
)
    ensures
        spec_persist(spec_persist(store, metrics, artifacts), metrics, artifacts)
            == spec_persist(store, metrics, artifacts),
{
}

/// Take `s[f..t]` as an owned string, when both ends sit on character
/// boundaries.
pub fn substring(s: &str, f: usize, t: usize) -> (r: Option<String>)
    requires
        f <= t,
        t <= s.spec_bytes().len(),
    ensures
        (r is Some) == (vstd::utf8::is_char_boundary(s.spec_bytes(), f as int)
            && vstd::utf8::is_char_boundary(
            s.spec_bytes().subrange(f as int, s.spec_bytes().len() as int),
            t - f,
        )),
        (r matches Some(v) ==> vstd::utf8::encode_utf8(v@) == s.spec_bytes().subrange(
            f as int,
            t as int,
        )),
{
    if !s.is_char_boundary(f) {
        return None;
    }
    let (_, tail) = s.split_at(f);
    if !tail.is_char_boundary(t - f) {
        return None;
    }
    let (mid, _) = tail.split_at(t - f);
    let owned = mid.to_owned();
    proof {
        assert(vstd::utf8::encode_utf8(owned@) =~= s.spec_bytes().subrange(f as int, t as int));
    }
    Some(owned)
}


/// First index at or after `from` holding an ASCII space byte.
pub open spec fn spec_find_space(s: Seq<u8>, from: int) -> int
    decreases s.len() - from,
{
    if from < 0 || from >= s.len() {
        s.len() as int
    } else if crate::textnum::is_space(s[from]) {
        from
    } else {
        spec_find_space(s, from + 1)
    }
}

/// First index at or after `from` holding a metric separator byte
/// (whitespace, comma or semicolon).
pub open spec fn is_msep(b: u8) -> bool {
    crate::textnum::is_space(b) || b == 44 || b == 59
}

pub open spec fn spec_find_msep(s: Seq<u8>, from: int) -> int
    decreases s.len() - from,
{
    if from < 0 || from >= s.len() {
        s.len() as int
    } else if is_msep(s[from]) {
        from
    } else {
        spec_find_msep(s, from + 1)
    }
}

/// Strip trailing `t` bytes off `[lo, hi)`, not below `lo`.
pub open spec fn spec_strip_tail(s: Seq<u8>, lo: int, hi: int, t: u8) -> int
    decreases hi - lo,
{
    if hi > lo && 0 <= hi - 1 < s.len() && s[hi - 1] == t {
        spec_strip_tail(s, lo, hi - 1, t)
    } else {
        hi
    }
}

/// Strip leading `t` bytes off `[lo, hi)`, not past `hi`.
pub open spec fn spec_strip_head(s: Seq<u8>, lo: int, hi: int, t: u8) -> int
    decreases hi - lo,
{
    if lo < hi && 0 <= lo < s.len() && s[lo] == t {
        spec_strip_head(s, lo + 1, hi, t)
    } else {
        lo
    }
}

/// Both cut points of `s[f..t]` sit on character boundaries, so the
/// substring can be taken.
pub open spec fn sub_ok(s: Seq<u8>, f: int, t: int) -> bool {
    vstd::utf8::is_char_boundary(s, f) && vstd::utf8::is_char_boundary(
        s.subrange(f, s.len() as int),
        t - f,
    )
}

/// The artifact `kind=path` pairs of the text after the `artifacts:`
/// prefix: whitespace-separated tokens with an interior `=`, trailing
/// commas stripped off the path, both parts non-empty and cuttable.
pub open spec fn spec_artifact_pairs(s: Seq<u8>, p: int) -> Seq<(Seq<u8>, Seq<u8>)>
    decreases s.len() - p,
{
    if !(0 <= p < s.len()) {
        Seq::empty()
    } else if crate::textnum::is_space(s[p]) {
        spec_artifact_pairs(s, p + 1)
    } else {
        let te0 = spec_find_space(s, p);
        let te = if p < te0 && te0 <= s.len() { te0 } else { p + 1 };
        let rest = spec_artifact_pairs(s, te);
        let eq0 = crate::textnum::spec_find(s, 61, p);
        let eq = if eq0 < te { eq0 } else { te };
        if eq < te && eq > p {
            let pe = spec_strip_tail(s, eq + 1, te, 44);
            if pe > eq + 1 && sub_ok(s, p, eq) && sub_ok(s, eq + 1, pe) {
                seq![(s.subrange(p, eq), s.subrange(eq + 1, pe))] + rest
            } else {
                rest
            }
        } else {
            rest
        }
    }
}

/// The metric updates of a line: `k=v` tokens split on whitespace, commas
/// and semicolons; quotes and trailing commas stripped off the value; a
/// value that is numeric once trailing percent signs are stripped stores
/// the stripped text as a number, anything else the unstripped text.
pub open spec fn spec_metric_ops(s: Seq<u8>, p: int) -> Seq<(Seq<u8>, (bool, Seq<u8>))>
    decreases s.len() - p,
{
    if !(0 <= p < s.len()) {
        Seq::empty()
    } else if is_msep(s[p]) {
        spec_metric_ops(s, p + 1)
    } else {
        let te0 = spec_find_msep(s, p);
        let te = if p < te0 && te0 <= s.len() { te0 } else { p + 1 };
        let rest = spec_metric_ops(s, te);
        let eq0 = crate::textnum::spec_find(s, 61, p);
        let eq = if eq0 < te { eq0 } else { te };
        if eq < te && eq > p {
            let vs = spec_strip_head(s, eq + 1, te, 34);
            let ve1 = spec_strip_tail(s, vs, te, 34);
            let ve = spec_strip_tail(s, vs, ve1, 44);
            if ve > vs && sub_ok(s, p, eq) {
                let pe = spec_strip_tail(s, vs, ve, 37);
                if pe > vs {
                    if crate::textnum::spec_is_numeric(s, vs, pe) {
                        if sub_ok(s, vs, pe) {
                            seq![(s.subrange(p, eq), (true, s.subrange(vs, pe)))] + rest
                        } else {
                            rest
                        }
                    } else {
                        if sub_ok(s, vs, ve) {
                            seq![(s.subrange(p, eq), (false, s.subrange(vs, ve)))] + rest
                        } else {
                            rest
                        }
                    }
                } else {
                    if sub_ok(s, vs, ve) {
                        seq![(s.subrange(p, eq), (false, s.subrange(vs, ve)))] + rest
                    } else {
                        rest
                    }
                }
            } else {
                rest
            }
        } else {
            rest
        }
    }
}

/// Apply the updates to the map view in order.
pub open spec fn spec_apply_ops(
    m: Seq<(Seq<u8>, (bool, Seq<u8>))>,
    ops: Seq<(Seq<u8>, (bool, Seq<u8>))>,
) -> Seq<(Seq<u8>, (bool, Seq<u8>))>
    decreases ops.len(),
{
    if ops.len() == 0 {
        m
    } else {
        spec_apply_ops(spec_upsert(m, ops[0].0, ops[0].1), ops.drop_first())
    }
}

/// The byte views of a run of artifact entries.
pub open spec fn artifact_views(s: Seq<ArtifactEntry>) -> Seq<(Seq<u8>, Seq<u8>)> {
    Seq::new(
        s.len(),
        |i: int| (
            vstd::utf8::encode_utf8(s[i].kind@),
            vstd::utf8::encode_utf8(s[i].path@),
        ),
    )
}

/// Whether the line opens with the artifact prefix.
pub open spec fn spec_has_artifact_prefix(s: Seq<u8>) -> bool {
    let pfx = "artifacts:".spec_bytes();
    s.len() >= pfx.len() && s.subrange(0, pfx.len() as int) == pfx
}

/// The strip results are pinned by their endpoint facts.
proof fn lemma_strip_tail_eq(s: Seq<u8>, lo: int, hi: int, t: u8, r: int)
    requires
        0 <= lo <= r <= hi <= s.len(),
        forall|k: int| r < k <= hi ==> #[trigger] s[k - 1] == t,
        r == lo || s[r - 1] != t,
    ensures
        spec_strip_tail(s, lo, hi, t) == r,
    decreases hi - lo,
{
    if hi > lo && s[hi - 1] == t {
        lemma_strip_tail_eq(s, lo, hi - 1, t, r);
    }
}

proof fn lemma_strip_head_eq(s: Seq<u8>, lo: int, hi: int, t: u8, r: int)
    requires
        0 <= lo <= r <= hi <= s.len(),
        forall|k: int| lo <= k < r ==> #[trigger] s[k] == t,
        r == hi || s[r] != t,
    ensures
        spec_strip_head(s, lo, hi, t) == r,
    decreases hi - lo,
{
    if lo < hi && s[lo] == t {
        lemma_strip_head_eq(s, lo + 1, hi, t, r);
    }
}

/// The space and separator scans are pinned by their endpoint facts.
proof fn lemma_find_space_eq(s: Seq<u8>, from: int, r: int)
    requires
        0 <= from <= r <= s.len(),
        forall|k: int| from <= k < r ==> !crate::textnum::is_space(#[trigger] s[k]),
        r < s.len() ==> crate::textnum::is_space(s[r]),
    ensures
        spec_find_space(s, from) == if r < s.len() { r } else { s.len() as int },
    decreases r - from,
{
    if from < r {
        lemma_find_space_eq(s, from + 1, r);
    }
}

proof fn lemma_find_msep_eq(s: Seq<u8>, from: int, r: int)
    requires
        0 <= from <= r <= s.len(),
        forall|k: int| from <= k < r ==> !is_msep(#[trigger] s[k]),
        r < s.len() ==> is_msep(s[r]),
    ensures
        spec_find_msep(s, from) == if r < s.len() { r } else { s.len() as int },
    decreases r - from,
{
    if from < r {
        lemma_find_msep_eq(s, from + 1, r);
    }
}

/// Run the metric and artifact extractor over one log line.
///
/// The new artifacts are exactly the `kind=path` pairs of an
/// `artifacts:`-prefixed line ([`spec_artifact_pairs`]), appended in order;
/// the metric map becomes exactly the in-order application of the line's
/// `k=v` updates ([`spec_metric_ops`]): numeric values (per the library's
/// literal grammar, trailing percent signs stripped) stored as numbers,
/// everything else as text, later tokens overwriting earlier keys. A
/// malformed token yields nothing and never fails the line.
#[verifier::rlimit(100)]
pub fn collect_results_from_line(
    line: &str,
    metrics: &mut MetricsMap,
    artifacts: &mut Vec<ArtifactEntry>,
)
    requires
        keys_unique(old(metrics).entries@),
    ensures
        keys_unique(final(metrics).entries@),
        map_view(final(metrics).entries@) == spec_apply_ops(
            map_view(old(metrics).entries@),
            spec_metric_ops(line.spec_bytes(), 0),
        ),
        final(artifacts)@.len() >= old(artifacts)@.len(),
        forall|i: int| 0 <= i < old(artifacts)@.len() ==> final(artifacts)@[i] == old(
            artifacts,
        )@[i],
        artifact_views(
            final(artifacts)@.subrange(
                old(artifacts)@.len() as int,
                final(artifacts)@.len() as int,
            ),
        ) == (if spec_has_artifact_prefix(line.spec_bytes()) {
            spec_artifact_pairs(line.spec_bytes(), "artifacts:".spec_bytes().len() as int)
        } else {
            Seq::<(Seq<u8>, Seq<u8>)>::empty()
        }),
        forall|i: int| old(artifacts)@.len() <= i < final(artifacts)@.len() ==> (#[trigger]
            final(artifacts)@[i]).kind@.len() > 0 && final(artifacts)@[i].path@.len() > 0,
{
    let b = line.as_bytes();
    let n = b.len();
    let ghost base_len = artifacts@.len();

    // artifacts: kind=path tokens after the prefix
    let prefix = "artifacts:".as_bytes();
    let pl = prefix.len();
    let mut has_prefix = n >= pl;
    if has_prefix {
        let mut k: usize = 0;
        while k < pl
            invariant
                0 <= k <= pl,
                pl == prefix@.len() <= n == b@.len(),
                has_prefix ==> forall|m: int| 0 <= m < k ==> b@[m] == prefix@[m],
                !has_prefix ==> b@.subrange(0, pl as int) != prefix@,
            decreases pl - k,
        {
            if has_prefix && b[k] != prefix[k] {
                proof {
                    assert(b@.subrange(0, pl as int)[k as int] == b@[k as int]);
                }
                has_prefix = false;
            }
            k = k + 1;
        }
        proof {
            if has_prefix {
                assert(b@.subrange(0, pl as int) =~= prefix@);
                assert(spec_has_artifact_prefix(line.spec_bytes()));
            }
        }
    }
    if has_prefix {
        let mut p: usize = pl;
        while p < n
            invariant
                pl <= p <= n,
                n == b@.len(),
                b@ == line.spec_bytes(),
                artifacts@.len() >= base_len,
                base_len == old(artifacts)@.len(),
                forall|i: int| 0 <= i < base_len ==> artifacts@[i] == old(artifacts)@[i],
                forall|i: int| base_len <= i < artifacts@.len() ==> (#[trigger]
                    artifacts@[i]).kind@.len() > 0 && artifacts@[i].path@.len() > 0,
                artifact_views(artifacts@.subrange(base_len as int, artifacts@.len() as int))
                    + spec_artifact_pairs(b@, p as int) == spec_artifact_pairs(b@, pl as int),
            decreases n - p,
        {
            let c = b[p];
            if c == 32 || c == 9 || c == 10 || c == 13 {
                p = p + 1;
            } else {
                let ghost emitted0 = artifacts@.subrange(base_len as int, artifacts@.len() as int);
                // token [p, te)
                let mut te = p;
                while te < n && !(b[te] == 32 || b[te] == 9 || b[te] == 10 || b[te] == 13)
                    invariant
                        p <= te <= n,
                        n == b@.len(),
                        forall|m: int| p <= m < te ==> !crate::textnum::is_space(
                            #[trigger] b@[m],
                        ),
                    decreases n - te,
                {
                    te = te + 1;
                }
                proof {
                    lemma_find_space_eq(b@, p as int, te as int);
                }
                let eq = find_byte_bounded(b, 61, p, te);
                proof {
                    crate::textnum::lemma_find_agrees_bounded(
                        b@,
                        61,
                        p as int,
                        te as int,
                        eq as int,
                    );
                }
                if eq < te && eq > p {
                    // strip trailing commas off the path
                    let mut pe = te;
                    while pe > eq + 1 && b[pe - 1] == 44
                        invariant
                            eq + 1 <= pe <= te <= n,
                            n == b@.len(),
                            forall|m: int| pe < m <= te ==> #[trigger] b@[m - 1] == 44,
                        decreases pe,
                    {
                        pe = pe - 1;
                    }
                    proof {
                        lemma_strip_tail_eq(b@, eq + 1, te as int, 44, pe as int);
                    }
                    if pe > eq + 1 {
                        match substring(line, p, eq) {
                            Some(kind) => match substring(line, eq + 1, pe) {
                                Some(path) => {
                                    proof {
                                        lemma_nonempty_bytes(&kind);
                                        lemma_nonempty_bytes(&path);
                                    }
                                    artifacts.push(ArtifactEntry { kind, path });
                                    proof {
                                        let emitted = artifacts@.subrange(
                                            base_len as int,
                                            artifacts@.len() as int,
                                        );
                                        assert(emitted =~= emitted0.push(
                                            artifacts@[artifacts@.len() - 1],
                                        ));
                                        assert(artifact_views(emitted) =~= artifact_views(
                                            emitted0,
                                        ).push((b@.subrange(p as int, eq as int), b@.subrange(
                                            eq + 1int,
                                            pe as int,
                                        ))));
                                        assert(artifact_views(emitted0).push((b@.subrange(
                                            p as int,
                                            eq as int,
                                        ), b@.subrange(eq + 1int, pe as int)))
                                            + spec_artifact_pairs(b@, te as int)
                                            =~= artifact_views(emitted0) + (seq![(b@.subrange(
                                            p as int,
                                            eq as int,
                                        ), b@.subrange(eq + 1int, pe as int))]
                                            + spec_artifact_pairs(b@, te as int)));
                                    }
                                }
                                None => {}
                            },
                            None => {}
                        }
                    }
                }
                p = te;
            }
        }
        proof {
            assert(spec_artifact_pairs(b@, n as int) =~= Seq::<(Seq<u8>, Seq<u8>)>::empty());
            assert(artifact_views(artifacts@.subrange(base_len as int, artifacts@.len() as int))
                + Seq::<(Seq<u8>, Seq<u8>)>::empty() =~= artifact_views(artifacts@.subrange(
                base_len as int,
                artifacts@.len() as int,
            )));
        }
    } else {
        proof {
            assert(artifacts@.subrange(base_len as int, artifacts@.len() as int)
                =~= Seq::<ArtifactEntry>::empty());
            assert(artifact_views(Seq::<ArtifactEntry>::empty())
                =~= Seq::<(Seq<u8>, Seq<u8>)>::empty());
        }
    }

    // k=v metric tokens
    let ghost m0 = map_view(metrics.entries@);
    let mut p: usize = 0;
    while p < n
        invariant
            0 <= p <= n,
            n == b@.len(),
            b@ == line.spec_bytes(),
            keys_unique(metrics.entries@),
            spec_apply_ops(map_view(metrics.entries@), spec_metric_ops(b@, p as int))
                == spec_apply_ops(m0, spec_metric_ops(b@, 0)),
            artifacts@.len() >= base_len,
            base_len == old(artifacts)@.len(),
            forall|i: int| 0 <= i < base_len ==> artifacts@[i] == old(artifacts)@[i],
            forall|i: int| base_len <= i < artifacts@.len() ==> (#[trigger]
                artifacts@[i]).kind@.len() > 0 && artifacts@[i].path@.len() > 0,
            artifact_views(artifacts@.subrange(base_len as int, artifacts@.len() as int))
                == (if spec_has_artifact_prefix(line.spec_bytes()) {
                spec_artifact_pairs(b@, "artifacts:".spec_bytes().len() as int)
            } else {
                Seq::<(Seq<u8>, Seq<u8>)>::empty()
            }),
        decreases n - p,
    {
        let c = b[p];
        if c == 32 || c == 9 || c == 10 || c == 13 || c == 44 || c == 59 {
            p = p + 1;
        } else {
            let mut te = p;
            while te < n && !(b[te] == 32 || b[te] == 9 || b[te] == 10 || b[te] == 13 || b[te]
                == 44 || b[te] == 59)
                invariant
                    p <= te <= n,
                    n == b@.len(),
                    forall|m: int| p <= m < te ==> !is_msep(#[trigger] b@[m]),
                decreases n - te,
            {
                te = te + 1;
            }
            proof {
                lemma_find_msep_eq(b@, p as int, te as int);
            }
            let eq = find_byte_bounded(b, 61, p, te);
            proof {
                crate::textnum::lemma_find_agrees_bounded(
                    b@,
                    61,
                    p as int,
                    te as int,
                    eq as int,
                );
            }
            if eq < te && eq > p {
                // value: strip surrounding quotes, then trailing commas
                let mut vs = eq + 1;
                let mut ve = te;
                while vs < ve && b[vs] == 34
                    invariant
                        eq + 1 <= vs <= ve <= te <= n,
                        n == b@.len(),
                        ve == te,
                        forall|m: int| eq + 1 <= m < vs ==> #[trigger] b@[m] == 34,
                    decreases ve - vs,
                {
                    vs = vs + 1;
                }
                proof {
                    lemma_strip_head_eq(b@, eq + 1, te as int, 34, vs as int);
                }
                while ve > vs && b[ve - 1] == 34
                    invariant
                        eq + 1 <= vs <= ve <= te <= n,
                        n == b@.len(),
                        forall|m: int| ve < m <= te ==> #[trigger] b@[m - 1] == 34,
                    decreases ve,
                {
                    ve = ve - 1;
                }
                let ghost ve1 = ve;
                proof {
                    lemma_strip_tail_eq(b@, vs as int, te as int, 34, ve as int);
                }
                while ve > vs && b[ve - 1] == 44
                    invariant
                        vs <= ve <= ve1 <= n,
                        n == b@.len(),
                        forall|m: int| ve < m <= ve1 ==> #[trigger] b@[m - 1] == 44,
                    decreases ve,
                {
                    ve = ve - 1;
                }
                proof {
                    lemma_strip_tail_eq(b@, vs as int, ve1 as int, 44, ve as int);
                }
                if ve > vs {
                    // numeric once a trailing percent sign is stripped
                    let mut pe = ve;
                    while pe > vs && b[pe - 1] == 37
                        invariant
                            vs <= pe <= ve <= n,
                            n == b@.len(),
                            forall|m: int| pe < m <= ve ==> #[trigger] b@[m - 1] == 37,
                        decreases pe,
                    {
                        pe = pe - 1;
                    }
                    proof {
                        lemma_strip_tail_eq(b@, vs as int, ve as int, 37, pe as int);
                    }
                    match substring(line, p, eq) {
                        Some(key) => {
                            let ghost mv_before = map_view(metrics.entries@);
                            if pe > vs {
                                if is_numeric_literal(b, vs, pe) {
                                    match substring(line, vs, pe) {
                                        Some(stripped) => {
                                            metrics.upsert(key, MetricValue::Num(stripped));
                                        }
                                        None => {}
                                    }
                                } else {
                                    match substring(line, vs, ve) {
                                        Some(full) => {
                                            metrics.upsert(key, MetricValue::Text(full));
                                        }
                                        None => {}
                                    }
                                }
                            } else {
                                match substring(line, vs, ve) {
                                    Some(full) => {
                                        metrics.upsert(key, MetricValue::Text(full));
                                    }
                                    None => {}
                                }
                            }
                            proof {
                                let ops_here = spec_metric_ops(b@, p as int);
                                let ops_next = spec_metric_ops(b@, te as int);
                                if ops_here != ops_next {
                                    assert(ops_here.drop_first() =~= ops_next);
                                }
                            }
                        }
                        None => {}
                    }
                }
            }
            p = te;
        }
    }
    proof {
        assert(spec_metric_ops(b@, n as int)
            =~= Seq::<(Seq<u8>, (bool, Seq<u8>))>::empty());
    }
}

/// A string with bytes has characters.
pub proof fn lemma_nonempty_bytes(s: &String)
    requires
        vstd::utf8::encode_utf8(s@).len() > 0,
    ensures
        s@.len() > 0,
{
    if s@.len() == 0 {
        assert(vstd::utf8::encode_utf8(s@) =~= Seq::<u8>::empty());
    }
}

/// Evenly sample at most `max_points` of the points, first and last kept.
pub fn sample_evenly<T: Copy>(points: &Vec<T>, max_points: usize) -> (r: Vec<T>)
    requires
        points@.len() <= 100_000_000,

    ensures
        points@.len() <= max_points ==> r@ == points@,
        points@.len() > max_points && max_points < 2 ==> r@ =~= seq![points@.last()],
        points@.len() > max_points && max_points >= 2 ==> r@.len() == max_points && (forall|
            i: int,
        |
            0 <= i < max_points ==> r@[i] == points@[
                i * ((points@.len() - 1) as int) / ((max_points - 1) as int)
            ]),
{
    let n = points.len();
    if n <= max_points {
        let mut out: Vec<T> = Vec::new();
        let mut i: usize = 0;
        while i < n
            invariant
                0 <= i <= n,
                n == points@.len(),
                out@ =~= points@.subrange(0, i as int),
            decreases n - i,
        {
            out.push(points[i]);
            i = i + 1;
        }
        proof {
            assert(points@.subrange(0, n as int) =~= points@);
        }
        return out;
    }
    if max_points < 2 {
        let mut out: Vec<T> = Vec::new();
        out.push(points[n - 1]);
        return out;
    }
    let span = n - 1;
    let mut out: Vec<T> = Vec::new();
    let mut i: usize = 0;
    while i < max_points
        invariant
            0 <= i <= max_points,
            2 <= max_points < n == points@.len(),
            n <= 100_000_000,
            span == n - 1,
            out@.len() == i,
            forall|k: int| 0 <= k < i ==> out@[k] == points@[
                k * ((n - 1) as int) / ((max_points - 1) as int)
            ],
        decreases max_points - i,
    {
        proof {
            assert((i as int) * ((n - 1) as int) <= 100_000_000 * 100_000_000)
                by (nonlinear_arith)
                requires 0 <= i < n <= 100_000_000;
            assert((i as int) * ((n - 1) as int) / ((max_points - 1) as int) <= ((max_points
                - 1) as int) * ((n - 1) as int) / ((max_points - 1) as int))
                by (nonlinear_arith)
                requires 0 <= i <= max_points - 1, 0 <= n - 1, 1 <= max_points - 1;
            assert(((max_points - 1) as int) * ((n - 1) as int) / ((max_points - 1) as int)
                == n - 1) by (nonlinear_arith)
                requires 1 <= max_points - 1;
            assert(0 <= (i as int) * ((n - 1) as int) / ((max_points - 1) as int))
                by (nonlinear_arith)
                requires 0 <= i, 0 <= n - 1, 1 <= max_points - 1;
        }
        proof {
            assert((i as int) * (span as int) == (i as int) * ((n - 1) as int))
                by (nonlinear_arith)
                requires span == n - 1;
        }
        let wide: u64 = ((i as u64) * (span as u64)) / ((max_points - 1) as u64);
        let idx = wide as usize;
        proof {
            assert(idx < n);
        }
        out.push(points[idx]);
        i = i + 1;
    }
    out
}

/// Resolve an artifact path against the workspace root: an absolute path
/// stands; a relative one is joined under the root.
pub fn resolve_artifact_path(workspace_root: &str, raw: &str) -> (r: String)
    ensures
        (raw.spec_bytes().len() > 0 && raw.spec_bytes()[0] == 47) ==> r@ == raw@,
        !(raw.spec_bytes().len() > 0 && raw.spec_bytes()[0] == 47) ==> r@ == workspace_root@
            + "/"@ + raw@,
{
    let b = raw.as_bytes();
    if b.len() > 0 && b[0] == 47 {
        raw.to_owned()
    } else {
        let mut out = workspace_root.to_owned();
        out.append("/");
        out.append(raw);
        out
    }
}

/// Whether two byte strings are equal ignoring ASCII case.
pub fn bytes_eq_ci(a: &[u8], b: &[u8]) -> (r: bool)
    ensures
        r == spec_eq_ci(a@, b@),
{
    if a.len() != b.len() {
        return false;
    }
    let mut i: usize = 0;
    while i < a.len()
        invariant
            0 <= i <= a@.len(),
            a@.len() == b@.len(),
            forall|k: int| 0 <= k < i ==> spec_lower_byte(#[trigger] a@[k]) == spec_lower_byte(
                b@[k],
            ),
        decreases a@.len() - i,
    {
        let mut x = a[i];
        let mut y = b[i];
        if 65 <= x && x <= 90 {
            x = x + 32;
        }
        if 65 <= y && y <= 90 {
            y = y + 32;
        }
        if x != y {
            return false;
        }
        i = i + 1;
    }
    true
}

/// A header matches one of the candidate names, ignoring ASCII case.
pub open spec fn spec_header_matches(h: Seq<char>, names: Seq<String>) -> bool {
    exists|j: int| 0 <= j < names.len() && spec_eq_ci(
        vstd::utf8::encode_utf8(h),
        vstd::utf8::encode_utf8(names[j]@),
    )
}

/// The first header column whose name matches one of the candidates
/// (ignoring ASCII case), if any.
pub fn find_header_idx(headers: &Vec<String>, names: &Vec<String>) -> (r: Option<usize>)
    ensures
        (r matches Some(ix) ==> ix < headers@.len() && spec_header_matches(
            headers@[ix as int]@,
            names@,
        ) && (forall|k: int| 0 <= k < ix ==> !spec_header_matches(
            (#[trigger] headers@[k])@,
            names@,
        ))),
        r is None ==> (forall|k: int| 0 <= k < headers@.len() ==> !spec_header_matches(
            (#[trigger] headers@[k])@,
            names@,
        )),
{
    let mut i: usize = 0;
    while i < headers.len()
        invariant
            0 <= i <= headers@.len(),
            forall|k: int| 0 <= k < i ==> !spec_header_matches(
                (#[trigger] headers@[k])@,
                names@,
            ),
        decreases headers@.len() - i,
    {
        let h = &headers[i];
        let mut j: usize = 0;
        while j < names.len()
            invariant
                0 <= j <= names@.len(),
                i < headers@.len(),
                h == &headers@[i as int],
                forall|k: int| 0 <= k < i ==> !spec_header_matches(
                    (#[trigger] headers@[k])@,
                    names@,
                ),
                forall|k: int| 0 <= k < j ==> !spec_eq_ci(
                    vstd::utf8::encode_utf8(headers@[i as int]@),
                    vstd::utf8::encode_utf8((#[trigger] names@[k])@),
                ),
            decreases names@.len() - j,
        {
            if bytes_eq_ci(h.as_str().as_bytes(), names[j].as_str().as_bytes()) {
                proof {
                    assert(spec_eq_ci(
                        vstd::utf8::encode_utf8(headers@[i as int]@),
                        vstd::utf8::encode_utf8(names@[j as int]@),
                    ));
                    assert(spec_header_matches(headers@[i as int]@, names@));
                }
                return Some(i);
            }
            j = j + 1;
        }
        proof {
            assert(!spec_header_matches(headers@[i as int]@, names@));
        }
        i = i + 1;
    }
    None
}

/// One equity chart point: the timestamp, and the numeric cells kept as
/// their text.
#[derive(Clone, Debug)]
pub struct EquityPoint {
    pub ts: i64,
    pub equity: String,
    pub close: Option<String>,
}

/// One trade chart point.
#[derive(Clone, Debug)]
pub struct TradePoint {
    pub ts: i64,
    pub side: String,
    pub price: String,
    pub qty: Option<String>,
    pub pnl: Option<String>,
}


/// First index of space-trimming from the left.
pub open spec fn spec_trim_lo(s: Seq<u8>, lo: int, hi: int) -> int
    decreases hi - lo,
{
    if lo < hi && 0 <= lo < s.len() && crate::textnum::is_space(s[lo]) {
        spec_trim_lo(s, lo + 1, hi)
    } else {
        lo
    }
}

/// Last bound of space-trimming from the right.
pub open spec fn spec_trim_hi(s: Seq<u8>, lo: int, hi: int) -> int
    decreases hi - lo,
{
    if hi > lo && 0 <= hi - 1 < s.len() && crate::textnum::is_space(s[hi - 1]) {
        spec_trim_hi(s, lo, hi - 1)
    } else {
        hi
    }
}

proof fn lemma_trim_lo_eq(s: Seq<u8>, lo: int, hi: int, r: int)
    requires
        0 <= lo <= r <= hi <= s.len(),
        forall|k: int| lo <= k < r ==> crate::textnum::is_space(#[trigger] s[k]),
        r == hi || !crate::textnum::is_space(s[r]),
    ensures
        spec_trim_lo(s, lo, hi) == r,
    decreases hi - lo,
{
    if lo < hi && crate::textnum::is_space(s[lo]) {
        lemma_trim_lo_eq(s, lo + 1, hi, r);
    }
}

proof fn lemma_trim_hi_eq(s: Seq<u8>, lo: int, hi: int, r: int)
    requires
        0 <= lo <= r <= hi <= s.len(),
        forall|k: int| r < k <= hi ==> crate::textnum::is_space(#[trigger] s[k - 1]),
        r == lo || !crate::textnum::is_space(s[r - 1]),
    ensures
        spec_trim_hi(s, lo, hi) == r,
    decreases hi - lo,
{
    if hi > lo && crate::textnum::is_space(s[hi - 1]) {
        lemma_trim_hi_eq(s, lo, hi - 1, r);
    }
}

/// The trimmed bytes of cell `idx`, when present and cuttable.
pub open spec fn spec_cell(rec: Seq<String>, idx: int) -> Option<Seq<u8>> {
    if !(0 <= idx < rec.len()) {
        None
    } else {
        let bytes = vstd::utf8::encode_utf8(rec[idx]@);
        let lo = spec_trim_lo(bytes, 0, bytes.len() as int);
        let hi = spec_trim_hi(bytes, lo, bytes.len() as int);
        if sub_ok(bytes, lo, hi) {
            Some(bytes.subrange(lo, hi))
        } else {
            None
        }
    }
}

/// The trimmed cell when it is a numeric literal.
pub open spec fn spec_num_cell(rec: Seq<String>, idx: int) -> Option<Seq<u8>> {
    match spec_cell(rec, idx) {
        Some(bs) => if crate::textnum::spec_is_numeric(bs, 0, bs.len() as int) {
            Some(bs)
        } else {
            None
        },
        None => None,
    }
}

/// A trimmed copy of cell `idx` of the record, when present.
fn cell_trimmed(rec: &Vec<String>, idx: usize) -> (r: Option<String>)
    ensures
        (match spec_cell(rec@, idx as int) {
            Some(bs) => r matches Some(v) && vstd::utf8::encode_utf8(v@) == bs,
            None => r is None,
        }),
{
    if idx >= rec.len() {
        return None;
    }
    let s = rec[idx].as_str();
    let b = s.as_bytes();
    let (f, t) = crate::textnum::trim_range(b, 0, b.len());
    proof {
        lemma_trim_lo_eq(b@, 0, b@.len() as int, f as int);
        lemma_trim_hi_eq(b@, f as int, b@.len() as int, t as int);
    }
    substring(s, f, t)
}

/// A trimmed numeric cell, when present and numeric.
fn numeric_cell(rec: &Vec<String>, idx: usize) -> (r: Option<String>)
    ensures
        (match spec_num_cell(rec@, idx as int) {
            Some(bs) => r matches Some(v) && vstd::utf8::encode_utf8(v@) == bs,
            None => r is None,
        }),
{
    match cell_trimmed(rec, idx) {
        Some(v) => {
            let b = v.as_str().as_bytes();
            if is_numeric_literal(b, 0, b.len()) {
                Some(v)
            } else {
                None
            }
        }
        None => None,
    }
}



/// The header name lists the chart selectors look for.
pub open spec fn ts_header_names() -> Seq<Seq<char>> {
    seq!["ts"@, "timestamp"@]
}

pub open spec fn equity_header_names() -> Seq<Seq<char>> {
    seq!["equity"@, "final_equity"@]
}

pub open spec fn close_header_names() -> Seq<Seq<char>> {
    seq!["close"@, "price"@]
}

pub open spec fn side_header_names() -> Seq<Seq<char>> {
    seq!["side"@]
}

pub open spec fn price_header_names() -> Seq<Seq<char>> {
    seq!["price"@, "fill_price"@, "mid_price"@]
}

pub open spec fn qty_header_names() -> Seq<Seq<char>> {
    seq!["qty"@, "quantity"@]
}

pub open spec fn pnl_header_names() -> Seq<Seq<char>> {
    seq!["realized_pnl"@, "trade_pnl"@, "pnl"@]
}

/// Identity probe used as an existential trigger.
pub open spec fn spec_ci_probe(c: Option<int>) -> Option<int> {
    c
}

/// A header list contains a case-insensitive match among the names.
pub open spec fn spec_headers_have(headers: Seq<String>, names: Seq<Seq<char>>) -> bool {
    exists|i: int, j: int| 0 <= i < headers.len() && 0 <= j < names.len() && spec_eq_ci(
        vstd::utf8::encode_utf8((#[trigger] headers[i])@),
        vstd::utf8::encode_utf8(#[trigger] names[j]),
    )
}

/// `ix` is the first header matching one of the names.
pub open spec fn spec_first_header(headers: Seq<String>, names: Seq<Seq<char>>, ix: int) -> bool {
    &&& 0 <= ix < headers.len()
    &&& (exists|j: int| 0 <= j < names.len() && spec_eq_ci(
        vstd::utf8::encode_utf8(headers[ix]@),
        vstd::utf8::encode_utf8(#[trigger] names[j]),
    ))
    &&& (forall|k: int, j: int| 0 <= k < ix && 0 <= j < names.len() ==> !spec_eq_ci(
        vstd::utf8::encode_utf8((#[trigger] headers[k])@),
        vstd::utf8::encode_utf8(#[trigger] names[j]),
    ))
}

/// A row usable as an equity point: a parseable timestamp and a numeric
/// equity cell.
pub open spec fn spec_equity_row_ok(row: Vec<String>, ti: int, ei: int) -> bool {
    &&& (match spec_cell(row@, ti) {
        Some(t) => crate::textnum::spec_parse_i64(t) is Some,
        None => false,
    })
    &&& spec_num_cell(row@, ei) is Some
}

/// The indices of the usable rows among the first `n` records.
pub open spec fn spec_kept_equity(records: Seq<Vec<String>>, ti: int, ei: int, n: int) -> Seq<
    int,
>
    decreases n,
{
    if n <= 0 {
        Seq::empty()
    } else {
        let prev = spec_kept_equity(records, ti, ei, n - 1);
        if spec_equity_row_ok(records[n - 1], ti, ei) {
            prev.push(n - 1)
        } else {
            prev
        }
    }
}

/// The evenly sampled subsequence of the kept indices.
pub open spec fn spec_sample_idx(kept: Seq<int>, max_points: int) -> Seq<int> {
    if kept.len() <= max_points {
        kept
    } else if max_points < 2 {
        seq![kept.last()]
    } else {
        Seq::new(
            max_points as nat,
            |i: int| kept[i * ((kept.len() - 1) as int) / ((max_points - 1) as int)],
        )
    }
}

/// What an emitted equity point must hold for its source row.
pub open spec fn spec_equity_point_matches(
    p: EquityPoint,
    row: Vec<String>,
    ti: int,
    ei: int,
    ci: Option<int>,
) -> bool {
    &&& (match spec_cell(row@, ti) {
        Some(t) => crate::textnum::spec_parse_i64(t) == Some(p.ts as int),
        None => false,
    })
    &&& (match spec_num_cell(row@, ei) {
        Some(bs) => vstd::utf8::encode_utf8(p.equity@) == bs,
        None => false,
    })
    &&& (match ci {
        Some(c) => (match spec_num_cell(row@, c) {
            Some(bs) => p.close matches Some(cl) && vstd::utf8::encode_utf8(cl@) == bs,
            None => p.close is None,
        }),
        None => p.close is None,
    })
}

/// A row usable as a trade point: parseable timestamp, non-blank side,
/// numeric price.
pub open spec fn spec_trade_row_ok(row: Vec<String>, ti: int, si: int, pi: int) -> bool {
    &&& (match spec_cell(row@, ti) {
        Some(t) => crate::textnum::spec_parse_i64(t) is Some,
        None => false,
    })
    &&& (match spec_cell(row@, si) {
        Some(sd) => sd.len() > 0,
        None => false,
    })
    &&& spec_num_cell(row@, pi) is Some
}

pub open spec fn spec_kept_trade(
    records: Seq<Vec<String>>,
    ti: int,
    si: int,
    pi: int,
    n: int,
) -> Seq<int>
    decreases n,
{
    if n <= 0 {
        Seq::empty()
    } else {
        let prev = spec_kept_trade(records, ti, si, pi, n - 1);
        if spec_trade_row_ok(records[n - 1], ti, si, pi) {
            prev.push(n - 1)
        } else {
            prev
        }
    }
}

/// What an emitted trade point must hold for its source row.
pub open spec fn spec_trade_point_matches(
    p: TradePoint,
    row: Vec<String>,
    ti: int,
    si: int,
    pi: int,
    qi: Option<int>,
    pli: Option<int>,
) -> bool {
    &&& (match spec_cell(row@, ti) {
        Some(t) => crate::textnum::spec_parse_i64(t) == Some(p.ts as int),
        None => false,
    })
    &&& (match spec_cell(row@, si) {
        Some(bs) => vstd::utf8::encode_utf8(p.side@) == bs,
        None => false,
    })
    &&& (match spec_num_cell(row@, pi) {
        Some(bs) => vstd::utf8::encode_utf8(p.price@) == bs,
        None => false,
    })
    &&& (match qi {
        Some(c) => (match spec_num_cell(row@, c) {
            Some(bs) => p.qty matches Some(q) && vstd::utf8::encode_utf8(q@) == bs,
            None => p.qty is None,
        }),
        None => p.qty is None,
    })
    &&& (match pli {
        Some(c) => (match spec_num_cell(row@, c) {
            Some(bs) => p.pnl matches Some(q) && vstd::utf8::encode_utf8(q@) == bs,
            None => p.pnl is None,
        }),
        None => p.pnl is None,
    })
}

/// Select the equity chart points from a parsed CSV: columns addressed by
/// header name (`ts`/`timestamp`, `equity`/`final_equity`, optional
/// `close`/`price`), rows without a parseable timestamp or numeric equity
/// skipped, the rest evenly sampled down to `max_points`.
#[verifier::rlimit(100)]
pub fn select_equity_points(
    headers: &Vec<String>,
    records: &Vec<Vec<String>>,
    max_points: usize,
) -> (r: Option<Vec<EquityPoint>>)
    requires
        records@.len() <= 50_000_000,
    ensures
        (r is Some) == (spec_headers_have(headers@, ts_header_names())
            && spec_headers_have(headers@, equity_header_names())),
        (r matches Some(pts) ==> exists|ti: int, ei: int, ci: Option<int>| {
            &&& #[trigger] spec_first_header(headers@, ts_header_names(), ti)
            &&& #[trigger] spec_first_header(headers@, equity_header_names(), ei)
            &&& (match #[trigger] spec_ci_probe(ci) {
                Some(c) => spec_first_header(headers@, close_header_names(), c),
                None => !spec_headers_have(headers@, close_header_names()),
            })
            &&& ({
                let kept = spec_kept_equity(records@, ti, ei, records@.len() as int);
                let sampled = spec_sample_idx(kept, max_points as int);
                pts@.len() == sampled.len() && (forall|k: int| 0 <= k < sampled.len() ==> 0
                    <= sampled[k] < records@.len() && spec_equity_point_matches(
                    #[trigger] pts@[k],
                    records@[sampled[k]],
                    ti,
                    ei,
                    ci,
                ))
            })
        }),
{
    let mut ts_names: Vec<String> = Vec::new();
    ts_names.push("ts".to_owned());
    ts_names.push("timestamp".to_owned());
    let mut eq_names: Vec<String> = Vec::new();
    eq_names.push("equity".to_owned());
    eq_names.push("final_equity".to_owned());
    let mut close_names: Vec<String> = Vec::new();
    close_names.push("close".to_owned());
    close_names.push("price".to_owned());
    proof {
        lemma_name_views(ts_names@, ts_header_names());
        lemma_name_views(eq_names@, equity_header_names());
        lemma_name_views(close_names@, close_header_names());
    }

    let ts_idx = match find_header_idx(headers, &ts_names) {
        Some(i) => i,
        None => {
            return None;
        }
    };
    let eq_idx = match find_header_idx(headers, &eq_names) {
        Some(i) => i,
        None => {
            return None;
        }
    };
    let close_idx = find_header_idx(headers, &close_names);
    let ghost ti = ts_idx as int;
    let ghost ei = eq_idx as int;
    let ghost ci: Option<int> = match close_idx {
        Some(c) => Some(c as int),
        None => None,
    };

    let mut kept: Vec<usize> = Vec::new();
    let mut i: usize = 0;
    while i < records.len()
        invariant
            0 <= i <= records@.len(),
            records@.len() <= 50_000_000,
            ti == ts_idx as int,
            ei == eq_idx as int,
            kept@.len() <= i,
            kept@.map_values(|x: usize| x as int) =~= spec_kept_equity(records@, ti, ei, i as int),
            forall|k: int| 0 <= k < kept@.len() ==> (#[trigger] kept@[k]) < records@.len()
                && spec_equity_row_ok(records@[kept@[k] as int], ti, ei),
        decreases records@.len() - i,
    {
        let rec = &records[i];
        let ts_ok = match cell_trimmed(rec, ts_idx) {
            Some(t) => matches!(crate::textnum::parse_i64_str(t.as_str()), Some(_)),
            None => false,
        };
        let eq_ok = matches!(numeric_cell(rec, eq_idx), Some(_));
        if ts_ok && eq_ok {
            kept.push(i);
        }
        proof {
            assert(kept@.map_values(|x: usize| x as int) =~= spec_kept_equity(
                records@,
                ti,
                ei,
                i + 1int,
            ));
        }
        i = i + 1;
    }
    let ghost kept_spec = kept@.map_values(|x: usize| x as int);

    let sampled = sample_evenly(&kept, max_points);
    proof {
        lemma_sample_corresponds(kept@, sampled@, max_points as int);
        assert forall|m: int| 0 <= m < sampled@.len() implies ((#[trigger] sampled@[m])
            < records@.len() && spec_equity_row_ok(records@[sampled@[m] as int], ti, ei)) by {
            lemma_sample_member(kept@, sampled@, max_points as int, m);
            let j = choose|j: int| 0 <= j < kept@.len() && sampled@[m] == kept@[j];
        }
    }
    let mut out: Vec<EquityPoint> = Vec::new();
    let mut k: usize = 0;
    while k < sampled.len()
        invariant
            0 <= k <= sampled@.len(),
            out@.len() == k,
            ti == ts_idx as int,
            ei == eq_idx as int,
            ci == (match close_idx {
                Some(c) => Some(c as int),
                None => None::<int>,
            }),
            forall|m: int| 0 <= m < sampled@.len() ==> (#[trigger] sampled@[m])
                < records@.len() && spec_equity_row_ok(records@[sampled@[m] as int], ti, ei),
            forall|m: int| 0 <= m < k ==> spec_equity_point_matches(
                #[trigger] out@[m],
                records@[sampled@[m] as int],
                ti,
                ei,
                ci,
            ),
        decreases sampled@.len() - k,
    {
        let row = &records[sampled[k]];
        let tcell = match cell_trimmed(row, ts_idx) {
            Some(t) => t,
            None => vstd::pervasive::unreached(),
        };
        let ts = match crate::textnum::parse_i64_str(tcell.as_str()) {
            Some(v) => v,
            None => vstd::pervasive::unreached(),
        };
        let eqv = match numeric_cell(row, eq_idx) {
            Some(v) => v,
            None => vstd::pervasive::unreached(),
        };
        let close = match close_idx {
            Some(cix) => numeric_cell(row, cix),
            None => None,
        };
        proof {
            match spec_cell(records@[sampled@[k as int] as int]@, ti) {
                Some(tb) => {
                    crate::textnum::lemma_parse_i64_bound(tb);
                }
                None => {}
            }
        }
        out.push(EquityPoint { ts, equity: eqv, close });
        proof {
            assert(spec_equity_point_matches(
                out@[k as int],
                records@[sampled@[k as int] as int],
                ti,
                ei,
                ci,
            ));
        }
        k = k + 1;
    }
    proof {
        lemma_sample_len(kept@, sampled@, max_points as int);
        assert(spec_first_header(headers@, ts_header_names(), ti));
        assert(spec_first_header(headers@, equity_header_names(), ei));
        match ci {
            Some(c) => {
                assert(spec_first_header(headers@, close_header_names(), c));
            }
            None => {
                assert(!spec_headers_have(headers@, close_header_names()));
            }
        }
        assert(kept_spec =~= spec_kept_equity(records@, ti, ei, records@.len() as int));
        assert(sampled@.map_values(|x: usize| x as int) =~= spec_sample_idx(
            kept_spec,
            max_points as int,
        ));
        assert forall|k2: int| 0 <= k2 < spec_sample_idx(kept_spec, max_points as int).len()
            implies 0 <= spec_sample_idx(kept_spec, max_points as int)[k2] < records@.len()
            && spec_equity_point_matches(
            #[trigger] out@[k2],
            records@[spec_sample_idx(kept_spec, max_points as int)[k2]],
            ti,
            ei,
            ci,
        ) by {
            assert(spec_sample_idx(kept_spec, max_points as int)[k2] == sampled@[k2] as int);
        }
        assert(spec_ci_probe(ci) == ci);
    }
    Some(out)
}

/// Select the trade chart points from a parsed CSV: columns `ts`, `side`,
/// `price`/`fill_price`/`mid_price`, optional `qty`/`quantity` and
/// `realized_pnl`/`trade_pnl`/`pnl`; rows without a parseable timestamp,
/// a non-blank side or a numeric price skipped; sampled down to
/// `max_points`.
#[verifier::rlimit(100)]
pub fn select_trade_points(
    headers: &Vec<String>,
    records: &Vec<Vec<String>>,
    max_points: usize,
) -> (r: Option<Vec<TradePoint>>)
    requires
        records@.len() <= 50_000_000,
    ensures
        (r is Some) == (spec_headers_have(headers@, ts_header_names())
            && spec_headers_have(headers@, side_header_names()) && spec_headers_have(
            headers@,
            price_header_names(),
        )),
        (r matches Some(pts) ==> exists|ti: int, si: int, pi: int| {
            &&& #[trigger] spec_first_header(headers@, ts_header_names(), ti)
            &&& #[trigger] spec_first_header(headers@, side_header_names(), si)
            &&& #[trigger] spec_first_header(headers@, price_header_names(), pi)
            &&& exists|qi: Option<int>, pli: Option<int>| {
                &&& (match #[trigger] spec_ci_probe(qi) {
                    Some(c) => spec_first_header(headers@, qty_header_names(), c),
                    None => !spec_headers_have(headers@, qty_header_names()),
                })
                &&& (match #[trigger] spec_ci_probe(pli) {
                    Some(c) => spec_first_header(headers@, pnl_header_names(), c),
                    None => !spec_headers_have(headers@, pnl_header_names()),
                })
                &&& ({
                    let kept = spec_kept_trade(records@, ti, si, pi, records@.len() as int);
                    let sampled = spec_sample_idx(kept, max_points as int);
                    pts@.len() == sampled.len() && (forall|k: int| 0 <= k < sampled.len()
                        ==> 0 <= sampled[k] < records@.len() && spec_trade_point_matches(
                        #[trigger] pts@[k],
                        records@[sampled[k]],
                        ti,
                        si,
                        pi,
                        qi,
                        pli,
                    ))
                })
            }
        }),
{
    let mut ts_names: Vec<String> = Vec::new();
    ts_names.push("ts".to_owned());
    ts_names.push("timestamp".to_owned());
    let mut side_names: Vec<String> = Vec::new();
    side_names.push("side".to_owned());
    let mut price_names: Vec<String> = Vec::new();
    price_names.push("price".to_owned());
    price_names.push("fill_price".to_owned());
    price_names.push("mid_price".to_owned());
    let mut qty_names: Vec<String> = Vec::new();
    qty_names.push("qty".to_owned());
    qty_names.push("quantity".to_owned());
    let mut pnl_names: Vec<String> = Vec::new();
    pnl_names.push("realized_pnl".to_owned());
    pnl_names.push("trade_pnl".to_owned());
    pnl_names.push("pnl".to_owned());
    proof {
        lemma_name_views(ts_names@, ts_header_names());
        lemma_name_views(side_names@, side_header_names());
        lemma_name_views(price_names@, price_header_names());
        lemma_name_views(qty_names@, qty_header_names());
        lemma_name_views(pnl_names@, pnl_header_names());
    }

    let ts_idx = match find_header_idx(headers, &ts_names) {
        Some(i) => i,
        None => {
            return None;
        }
    };
    let side_idx = match find_header_idx(headers, &side_names) {
        Some(i) => i,
        None => {
            return None;
        }
    };
    let price_idx = match find_header_idx(headers, &price_names) {
        Some(i) => i,
        None => {
            return None;
        }
    };
    let qty_idx = find_header_idx(headers, &qty_names);
    let pnl_idx = find_header_idx(headers, &pnl_names);
    let ghost ti = ts_idx as int;
    let ghost si = side_idx as int;
    let ghost pi = price_idx as int;
    let ghost qi: Option<int> = match qty_idx {
        Some(c) => Some(c as int),
        None => None,
    };
    let ghost pli: Option<int> = match pnl_idx {
        Some(c) => Some(c as int),
        None => None,
    };

    let mut kept: Vec<usize> = Vec::new();
    let mut i: usize = 0;
    while i < records.len()
        invariant
            0 <= i <= records@.len(),
            records@.len() <= 50_000_000,
            ti == ts_idx as int,
            si == side_idx as int,
            pi == price_idx as int,
            kept@.len() <= i,
            kept@.map_values(|x: usize| x as int) =~= spec_kept_trade(
                records@,
                ti,
                si,
                pi,
                i as int,
            ),
            forall|k: int| 0 <= k < kept@.len() ==> (#[trigger] kept@[k]) < records@.len()
                && spec_trade_row_ok(records@[kept@[k] as int], ti, si, pi),
        decreases records@.len() - i,
    {
        let rec = &records[i];
        let ts_ok = match cell_trimmed(rec, ts_idx) {
            Some(t) => matches!(crate::textnum::parse_i64_str(t.as_str()), Some(_)),
            None => false,
        };
        let side_ok = match cell_trimmed(rec, side_idx) {
            Some(sd) => sd.as_str().as_bytes().len() > 0,
            None => false,
        };
        let price_ok = matches!(numeric_cell(rec, price_idx), Some(_));
        if ts_ok && side_ok && price_ok {
            kept.push(i);
        }
        proof {
            assert(kept@.map_values(|x: usize| x as int) =~= spec_kept_trade(
                records@,
                ti,
                si,
                pi,
                i + 1int,
            ));
        }
        i = i + 1;
    }
    let ghost kept_spec = kept@.map_values(|x: usize| x as int);

    let sampled = sample_evenly(&kept, max_points);
    proof {
        lemma_sample_corresponds(kept@, sampled@, max_points as int);
        assert forall|m: int| 0 <= m < sampled@.len() implies ((#[trigger] sampled@[m])
            < records@.len() && spec_trade_row_ok(records@[sampled@[m] as int], ti, si, pi)) by {
            lemma_sample_member(kept@, sampled@, max_points as int, m);
            let j = choose|j: int| 0 <= j < kept@.len() && sampled@[m] == kept@[j];
        }
    }
    let mut out: Vec<TradePoint> = Vec::new();
    let mut k: usize = 0;
    while k < sampled.len()
        invariant
            0 <= k <= sampled@.len(),
            out@.len() == k,
            ti == ts_idx as int,
            si == side_idx as int,
            pi == price_idx as int,
            qi == (match qty_idx {
                Some(c) => Some(c as int),
                None => None::<int>,
            }),
            pli == (match pnl_idx {
                Some(c) => Some(c as int),
                None => None::<int>,
            }),
            forall|m: int| 0 <= m < sampled@.len() ==> (#[trigger] sampled@[m])
                < records@.len() && spec_trade_row_ok(records@[sampled@[m] as int], ti, si, pi),
            forall|m: int| 0 <= m < k ==> spec_trade_point_matches(
                #[trigger] out@[m],
                records@[sampled@[m] as int],
                ti,
                si,
                pi,
                qi,
                pli,
            ),
        decreases sampled@.len() - k,
    {
        let row = &records[sampled[k]];
        let tcell = match cell_trimmed(row, ts_idx) {
            Some(t) => t,
            None => vstd::pervasive::unreached(),
        };
        let ts = match crate::textnum::parse_i64_str(tcell.as_str()) {
            Some(v) => v,
            None => vstd::pervasive::unreached(),
        };
        let side = match cell_trimmed(row, side_idx) {
            Some(v) => v,
            None => vstd::pervasive::unreached(),
        };
        let price = match numeric_cell(row, price_idx) {
            Some(v) => v,
            None => vstd::pervasive::unreached(),
        };
        let qty = match qty_idx {
            Some(qix) => numeric_cell(row, qix),
            None => None,
        };
        let pnl = match pnl_idx {
            Some(pix) => numeric_cell(row, pix),
            None => None,
        };
        proof {
            match spec_cell(records@[sampled@[k as int] as int]@, ti) {
                Some(tb) => {
                    crate::textnum::lemma_parse_i64_bound(tb);
                }
                None => {}
            }
        }
        out.push(TradePoint { ts, side, price, qty, pnl });
        proof {
            assert(spec_trade_point_matches(
                out@[k as int],
                records@[sampled@[k as int] as int],
                ti,
                si,
                pi,
                qi,
                pli,
            ));
        }
        k = k + 1;
    }
    proof {
        lemma_sample_len(kept@, sampled@, max_points as int);
        assert(spec_first_header(headers@, ts_header_names(), ti));
        assert(spec_first_header(headers@, side_header_names(), si));
        assert(spec_first_header(headers@, price_header_names(), pi));
        match qi {
            Some(c) => {
                assert(spec_first_header(headers@, qty_header_names(), c));
            }
            None => {
                assert(!spec_headers_have(headers@, qty_header_names()));
            }
        }
        match pli {
            Some(c) => {
                assert(spec_first_header(headers@, pnl_header_names(), c));
            }
            None => {
                assert(!spec_headers_have(headers@, pnl_header_names()));
            }
        }
        assert(kept_spec =~= spec_kept_trade(records@, ti, si, pi, records@.len() as int));
        assert(sampled@.map_values(|x: usize| x as int) =~= spec_sample_idx(
            kept_spec,
            max_points as int,
        ));
        assert forall|k2: int| 0 <= k2 < spec_sample_idx(kept_spec, max_points as int).len()
            implies 0 <= spec_sample_idx(kept_spec, max_points as int)[k2] < records@.len()
            && spec_trade_point_matches(
            #[trigger] out@[k2],
            records@[spec_sample_idx(kept_spec, max_points as int)[k2]],
            ti,
            si,
            pi,
            qi,
            pli,
        ) by {
            assert(spec_sample_idx(kept_spec, max_points as int)[k2] == sampled@[k2] as int);
        }
        assert(spec_ci_probe(qi) == qi);
        assert(spec_ci_probe(pli) == pli);
    }
    Some(out)
}

/// The exec name list views equal the fixed name views.
proof fn lemma_name_views(names: Seq<String>, lits: Seq<Seq<char>>)
    requires
        names.len() == lits.len(),
        forall|j: int| 0 <= j < names.len() ==> (#[trigger] names[j])@ == lits[j],
    ensures
        forall|h: Seq<char>| spec_header_matches(h, names) == (exists|j: int|
            0 <= j < lits.len() && spec_eq_ci(
                vstd::utf8::encode_utf8(h),
                vstd::utf8::encode_utf8(#[trigger] lits[j]),
            )),
{
    assert forall|h: Seq<char>| spec_header_matches(h, names) == (exists|j: int|
        0 <= j < lits.len() && spec_eq_ci(
            vstd::utf8::encode_utf8(h),
            vstd::utf8::encode_utf8(#[trigger] lits[j]),
        )) by {
        if spec_header_matches(h, names) {
            let j = choose|j: int| 0 <= j < names.len() && spec_eq_ci(
                vstd::utf8::encode_utf8(h),
                vstd::utf8::encode_utf8((#[trigger] names[j])@),
            );
            assert(names[j]@ == lits[j]);
        }
        if exists|j: int| 0 <= j < lits.len() && spec_eq_ci(
            vstd::utf8::encode_utf8(h),
            vstd::utf8::encode_utf8(#[trigger] lits[j]),
        ) {
            let j = choose|j: int| 0 <= j < lits.len() && spec_eq_ci(
                vstd::utf8::encode_utf8(h),
                vstd::utf8::encode_utf8(#[trigger] lits[j]),
            );
            assert(names[j]@ == lits[j]);
            assert(spec_eq_ci(
                vstd::utf8::encode_utf8(h),
                vstd::utf8::encode_utf8(names[j]@),
            ));
        }
    }
}

/// The sample's integer view equals the sampling of the kept view.
proof fn lemma_sample_corresponds(kept: Seq<usize>, sampled: Seq<usize>, max_points: int)
    requires
        0 <= max_points,
        kept.len() <= max_points ==> sampled == kept,
        kept.len() > max_points && max_points < 2 ==> sampled =~= seq![kept.last()],
        kept.len() > max_points && max_points >= 2 ==> sampled.len() == max_points && (forall|
            i: int,
        |
            0 <= i < max_points ==> sampled[i] == kept[
                i * ((kept.len() - 1) as int) / ((max_points - 1) as int)
            ]),
    ensures
        sampled.map_values(|x: usize| x as int) =~= spec_sample_idx(
            kept.map_values(|x: usize| x as int),
            max_points,
        ),
{
    let ki = kept.map_values(|x: usize| x as int);
    let si = sampled.map_values(|x: usize| x as int);
    if kept.len() <= max_points {
    } else if max_points < 2 {
        assert(si.len() == 1);
        assert(si[0] == sampled[0] as int);
        assert(sampled[0] == kept[kept.len() - 1]);
        assert(ki.last() == kept[kept.len() - 1] as int);
        assert(si =~= seq![ki.last()]);
    } else {
        assert forall|i: int| 0 <= i < max_points implies si[i] == spec_sample_idx(
            ki,
            max_points,
        )[i] by {
            let idx = i * ((kept.len() - 1) as int) / ((max_points - 1) as int);
            assert(0 <= idx < kept.len()) by (nonlinear_arith)
                requires
                    0 <= i <= max_points - 1,
                    1 <= max_points - 1,
                    0 <= kept.len() - 1,
                    idx == i * ((kept.len() - 1) as int) / ((max_points - 1) as int);
        }
    }
}

/// Every sampled element is one of the kept ones.
proof fn lemma_sample_member(kept: Seq<usize>, sampled: Seq<usize>, max_points: int, m: int)
    requires
        0 <= max_points,
        0 <= m < sampled.len(),
        kept.len() <= max_points ==> sampled == kept,
        kept.len() > max_points && max_points < 2 ==> sampled =~= seq![kept.last()],
        kept.len() > max_points && max_points >= 2 ==> sampled.len() == max_points && (forall|
            i: int,
        |
            0 <= i < max_points ==> sampled[i] == kept[
                i * ((kept.len() - 1) as int) / ((max_points - 1) as int)
            ]),
    ensures
        exists|j: int| 0 <= j < kept.len() && sampled[m] == kept[j],
{
    if kept.len() <= max_points {
        assert(0 <= m < kept.len() && sampled[m] == kept[m]);
    } else if max_points < 2 {
        assert(kept.len() >= 1);
        assert(0 <= kept.len() - 1 < kept.len() && sampled[m] == kept[kept.len() - 1]);
    } else {
        let idx = m * ((kept.len() - 1) as int) / ((max_points - 1) as int);
        assert(0 <= idx < kept.len()) by (nonlinear_arith)
            requires
                0 <= m <= max_points - 1,
                1 <= max_points - 1,
                0 <= kept.len() - 1,
                idx == m * ((kept.len() - 1) as int) / ((max_points - 1) as int);
        assert(sampled[m] == kept[idx]);
    }
}

/// The sample's length equals the specified one.
proof fn lemma_sample_len(kept: Seq<usize>, sampled: Seq<usize>, max_points: int)
    requires
        0 <= max_points,
        kept.len() <= max_points ==> sampled == kept,
        kept.len() > max_points && max_points < 2 ==> sampled =~= seq![kept.last()],
        kept.len() > max_points && max_points >= 2 ==> sampled.len() == max_points,
    ensures
        sampled.len() == spec_sample_idx(kept.map_values(|x: usize| x as int), max_points).len(),
{
}

} // verus!
