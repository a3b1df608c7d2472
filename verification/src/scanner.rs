//! Model discovery: which files found under the scan roots count as models,
//! in what order they are listed, where the scan looks, and when a cached
//! scan may be reused. Walking the directories and reading the files is the
//! caller's part.

use std::path::PathBuf;

use vstd::prelude::*;

use crate::model::{format_named, ModelFormat, ModelFormatView};
use crate::text::{chars_equal, chars_of, lower_text};

verus! {

broadcast use vstd::string::group_string_axioms;

/// How long a cached scan stays valid: six hours.
pub const CACHE_TTL_SECS: u64 = 21600;

/// Files smaller than 10 MiB are not models.
pub const MIN_MODEL_SIZE: u64 = 10485760;

/// Discovers and catalogs local model files; the scan results are cached in
/// one JSON file.
pub struct ModelScanner {
    scan_cache_path: PathBuf,
}

impl ModelScanner {
    /// A scanner whose cache is the file `scan_cache_path` (the cache
    /// directory's `model_scan.json`).
    pub fn new(scan_cache_path: PathBuf) -> (r: ModelScanner)
        ensures
            r.cache_path() == scan_cache_path,
    {
        ModelScanner { scan_cache_path }
    }

    pub closed spec fn cache_path(&self) -> PathBuf {
        self.scan_cache_path
    }

    /// The file the scan results are cached in.
    pub fn scan_cache_path(&self) -> (r: &PathBuf)
        ensures
            *r == self.cache_path(),
    {
        &self.scan_cache_path
    }
}

/// Whether a cached scan of the given age (whole seconds and the nanoseconds
/// beyond them) may still be used: it is at most six hours old.
pub open spec fn spec_cache_fresh(age_secs: u64, age_nanos: u32) -> bool {
    age_secs < CACHE_TTL_SECS || (age_secs == CACHE_TTL_SECS && age_nanos == 0)
}

pub fn cache_is_fresh(age_secs: u64, age_nanos: u32) -> (r: bool)
    ensures
        r == spec_cache_fresh(age_secs, age_nanos),
{
    !(age_secs > CACHE_TTL_SECS || (age_secs == CACHE_TTL_SECS && age_nanos > 0))
}

/// What the scan knows of one file it walked over.
pub struct ScanEntry {
    /// The file's extension as text (lossily decoded; empty when it has none).
    pub extension: String,
    /// The file's length in bytes (0 when its metadata could not be read).
    pub size: u64,
    /// The bytes of the file's canonical path, when it could be resolved.
    pub canonical: Option<Vec<u8>>,
}

/// A model file: a GGUF, SafeTensors or PyTorch `.bin` extension (in any
/// case) and at least 10 MiB.
pub open spec fn model_file(e: ScanEntry) -> bool {
    !(format_named(lower_text(e.extension@)) is Unknown) && e.size >= MIN_MODEL_SIZE
}

/// Both entries resolve to the same canonical path.
pub open spec fn same_file(a: ScanEntry, b: ScanEntry) -> bool {
    a.canonical matches Some(x) && b.canonical matches Some(y) && x@ == y@
}

/// Entry `i` is listed: it is a model file, and no model file before it
/// resolves to the same canonical path (entries whose path could not be
/// resolved are always listed).
pub open spec fn first_copy(es: Seq<ScanEntry>, i: int) -> bool {
    &&& model_file(es[i])
    &&& (es[i].canonical is None || forall|j: int| 0 <= j < i && model_file(#[trigger] es[j]) ==> !same_file(es[j], es[i]))
}

pub open spec fn indices(n: nat) -> Seq<usize> {
    Seq::new(n, |i: int| i as usize)
}

/// The listed entries, in walk order.
pub open spec fn listed(es: Seq<ScanEntry>) -> Seq<usize> {
    indices(es.len()).filter(|i: usize| first_copy(es, i as int))
}

/// The extension is exactly `gguf` (this comparison is case-sensitive).
pub open spec fn gguf_extension(e: ScanEntry) -> bool {
    e.extension@ == "gguf"@
}

/// `s` with `x` put in after every entry at least as large as it and before
/// the smaller ones that follow them (inserting into a list already sorted by
/// size, largest first, keeps equal sizes in the order they came).
pub open spec fn insert_by_size(es: Seq<ScanEntry>, s: Seq<usize>, x: usize) -> Seq<usize>
    decreases s.len(),
{
    if s.len() == 0 {
        seq![x]
    } else if es[s.last() as int].size >= es[x as int].size {
        s.push(x)
    } else {
        insert_by_size(es, s.drop_last(), x).push(s.last())
    }
}

/// The entries of `s` by size, largest first; entries of equal size keep
/// their order in `s`.
pub open spec fn by_size(es: Seq<ScanEntry>, s: Seq<usize>) -> Seq<usize>
    decreases s.len(),
{
    if s.len() == 0 {
        Seq::empty()
    } else {
        insert_by_size(es, by_size(es, s.drop_last()), s.last())
    }
}

/// The order models are reported in: GGUF files first, then the others;
/// within each group by size, largest first (equal sizes in walk order).
pub open spec fn scan_order(es: Seq<ScanEntry>) -> Seq<usize> {
    by_size(es, listed(es).filter(|i: usize| gguf_extension(es[i as int])))
        + by_size(es, listed(es).filter(|i: usize| !gguf_extension(es[i as int])))
}

/// Entries of `s` are in order of size, largest first.
pub open spec fn size_descending(es: Seq<ScanEntry>, s: Seq<usize>) -> bool {
    forall|j: int, k: int| 0 <= j < k < s.len() ==> es[#[trigger] s[j] as int].size >= es[#[trigger] s[k] as int].size
}

proof fn lemma_insert_at(es: Seq<ScanEntry>, s: Seq<usize>, x: usize, j: int)
    requires
        0 <= j <= s.len(),
        forall|t: int| j <= t < s.len() ==> es[#[trigger] s[t] as int].size < es[x as int].size,
        j == 0 || es[s[j - 1] as int].size >= es[x as int].size,
    ensures
        insert_by_size(es, s, x) == s.insert(j, x),
    decreases s.len(),
{
    if s.len() == 0 {
        assert(s.insert(j, x) =~= seq![x]);
    } else if j == s.len() {
        assert(s.insert(j, x) =~= s.push(x));
    } else {
        let d = s.drop_last();
        assert forall|t: int| j <= t < d.len() implies es[#[trigger] d[t] as int].size < es[x as int].size by {
            assert(d[t] == s[t]);
        }
        lemma_insert_at(es, d, x, j);
        assert(s.insert(j, x) =~= d.insert(j, x).push(s.last()));
    }
}

proof fn lemma_insert_by_size(es: Seq<ScanEntry>, s: Seq<usize>, x: usize)
    ensures
        insert_by_size(es, s, x).len() == s.len() + 1,
        forall|k: int| 0 <= k < insert_by_size(es, s, x).len() ==> #[trigger] insert_by_size(es, s, x)[k] == x
            || s.contains(insert_by_size(es, s, x)[k]),
        insert_by_size(es, s, x).contains(x),
        forall|i: int| 0 <= i < s.len() ==> insert_by_size(es, s, x).contains(#[trigger] s[i]),
        s.no_duplicates() && !s.contains(x) ==> insert_by_size(es, s, x).no_duplicates(),
        size_descending(es, s) ==> size_descending(es, insert_by_size(es, s, x)),
    decreases s.len(),
{
    let r = insert_by_size(es, s, x);
    if s.len() == 0 {
        assert(r[0] == x);
    } else if es[s.last() as int].size >= es[x as int].size {
        assert(r[s.len() as int] == x);
        assert forall|i: int| 0 <= i < s.len() implies r.contains(#[trigger] s[i]) by {
            assert(r[i] == s[i]);
        }
        if size_descending(es, s) {
            assert forall|j: int, k: int| 0 <= j < k < r.len() implies es[#[trigger] r[j] as int].size >= es[#[trigger] r[k] as int].size by {
                if k == s.len() {
                    assert(r[j] == s[j]);
                    if j < s.len() - 1 {
                        assert(es[s[j] as int].size >= es[s[s.len() - 1] as int].size);
                    }
                } else {
                    assert(r[j] == s[j] && r[k] == s[k]);
                }
            }
        }
        if s.no_duplicates() && !s.contains(x) {
            assert forall|j: int, k: int| 0 <= j < r.len() && 0 <= k < r.len() && j != k implies r[j] != r[k] by {
                if j == s.len() {
                    assert(r[k] == s[k]);
                } else if k == s.len() {
                    assert(r[j] == s[j]);
                } else {
                    assert(r[j] == s[j] && r[k] == s[k]);
                }
            }
        }
    } else {
        let d = s.drop_last();
        let l = s.last();
        lemma_insert_by_size(es, d, x);
        let q = insert_by_size(es, d, x);
        assert(r == q.push(l));
        assert forall|k: int| 0 <= k < r.len() implies #[trigger] r[k] == x || s.contains(r[k]) by {
            if k < q.len() {
                assert(r[k] == q[k]);
                if q[k] != x {
                    let t = choose|t: int| 0 <= t < d.len() && d[t] == q[k];
                    assert(s[t] == d[t]);
                }
            } else {
                assert(s[s.len() - 1] == r[k]);
            }
        }
        let ix = choose|t: int| 0 <= t < q.len() && q[t] == x;
        assert(r[ix] == x);
        assert forall|i: int| 0 <= i < s.len() implies r.contains(#[trigger] s[i]) by {
            if i < s.len() - 1 {
                assert(d[i] == s[i]);
                assert(q.contains(d[i]));
                let t = choose|t: int| 0 <= t < q.len() && q[t] == d[i];
                assert(r[t] == s[i]);
            } else {
                assert(r[q.len() as int] == s[i]);
            }
        }
        if size_descending(es, s) {
            assert(size_descending(es, d)) by {
                assert forall|j: int, k: int| 0 <= j < k < d.len() implies es[#[trigger] d[j] as int].size >= es[#[trigger] d[k] as int].size by {
                    assert(d[j] == s[j] && d[k] == s[k]);
                }
            }
            assert forall|j: int, k: int| 0 <= j < k < r.len() implies es[#[trigger] r[j] as int].size >= es[#[trigger] r[k] as int].size by {
                if k == q.len() {
                    assert(r[j] == q[j]);
                    if q[j] != x {
                        let t = choose|t: int| 0 <= t < d.len() && d[t] == q[j];
                        assert(s[t] == d[t]);
                        assert(es[s[t] as int].size >= es[s[s.len() - 1] as int].size);
                    }
                } else {
                    assert(r[j] == q[j] && r[k] == q[k]);
                }
            }
        }
        if s.no_duplicates() && !s.contains(x) {
            assert(d.no_duplicates()) by {
                assert forall|j: int, k: int| 0 <= j < d.len() && 0 <= k < d.len() && j != k implies d[j] != d[k] by {
                    assert(d[j] == s[j] && d[k] == s[k]);
                }
            }
            assert(!d.contains(x)) by {
                if d.contains(x) {
                    let t = choose|t: int| 0 <= t < d.len() && d[t] == x;
                    assert(s[t] == x);
                }
            }
            assert forall|j: int, k: int| 0 <= j < r.len() && 0 <= k < r.len() && j != k implies r[j] != r[k] by {
                if j < q.len() && k < q.len() {
                    assert(r[j] == q[j] && r[k] == q[k]);
                } else if j == q.len() {
                    assert(r[k] == q[k]);
                    assert(r[j] == s[s.len() - 1]);
                    if q[k] == x {
                        assert(s[s.len() - 1] != x) by {
                            if s[s.len() - 1] == x {
                                assert(s.contains(s[s.len() - 1]));
                            }
                        }
                    } else {
                        let t = choose|t: int| 0 <= t < d.len() && d[t] == q[k];
                        assert(s[t] == d[t]);
                    }
                } else {
                    assert(r[j] == q[j]);
                    assert(r[k] == s[s.len() - 1]);
                    if q[j] == x {
                        assert(s[s.len() - 1] != x) by {
                            if s[s.len() - 1] == x {
                                assert(s.contains(s[s.len() - 1]));
                            }
                        }
                    } else {
                        let t = choose|t: int| 0 <= t < d.len() && d[t] == q[j];
                        assert(s[t] == d[t]);
                    }
                }
            }
        }
    }
}

/// Sorting by size keeps the same entries, each once when they were, and
/// puts them largest first.
proof fn lemma_by_size(es: Seq<ScanEntry>, s: Seq<usize>)
    ensures
        by_size(es, s).len() == s.len(),
        forall|k: int| 0 <= k < by_size(es, s).len() ==> s.contains(#[trigger] by_size(es, s)[k]),
        forall|i: int| 0 <= i < s.len() ==> by_size(es, s).contains(#[trigger] s[i]),
        s.no_duplicates() ==> by_size(es, s).no_duplicates(),
        size_descending(es, by_size(es, s)),
    decreases s.len(),
{
    if s.len() > 0 {
        let d = s.drop_last();
        let x = s.last();
        lemma_by_size(es, d);
        let b = by_size(es, d);
        lemma_insert_by_size(es, b, x);
        let r = by_size(es, s);
        assert(r == insert_by_size(es, b, x));
        assert forall|k: int| 0 <= k < r.len() implies s.contains(#[trigger] r[k]) by {
            if r[k] == x {
                assert(s[s.len() - 1] == x);
            } else {
                let t = choose|t: int| 0 <= t < b.len() && b[t] == r[k];
                assert(d.contains(b[t]));
                let u = choose|u: int| 0 <= u < d.len() && d[u] == b[t];
                assert(s[u] == d[u]);
            }
        }
        assert forall|i: int| 0 <= i < s.len() implies r.contains(#[trigger] s[i]) by {
            if i < s.len() - 1 {
                assert(d[i] == s[i]);
                assert(b.contains(d[i]));
                let t = choose|t: int| 0 <= t < b.len() && b[t] == d[i];
                assert(r.contains(b[t]));
            }
        }
        if s.no_duplicates() {
            assert(d.no_duplicates()) by {
                assert forall|j: int, k: int| 0 <= j < d.len() && 0 <= k < d.len() && j != k implies d[j] != d[k] by {
                    assert(d[j] == s[j] && d[k] == s[k]);
                }
            }
            assert(!b.contains(x)) by {
                if b.contains(x) {
                    let t = choose|t: int| 0 <= t < b.len() && b[t] == x;
                    assert(d.contains(b[t]));
                    let u = choose|u: int| 0 <= u < d.len() && d[u] == x;
                    assert(s[u] == d[u]);
                    assert(s[u] == s[s.len() - 1]);
                }
            }
        }
    }
}

/// The positions of `group`, ordered by the sizes of their entries, largest
/// first (equal sizes keep their order).
fn sort_by_size(entries: &[ScanEntry], group: &Vec<usize>) -> (r: Vec<usize>)
    requires
        forall|k: int| 0 <= k < group@.len() ==> #[trigger] group@[k] < entries@.len(),
    ensures
        r@ == by_size(entries@, group@),
{
    let ghost es = entries@;
    let mut sorted: Vec<usize> = Vec::new();
    let mut k: usize = 0;
    assert(group@.take(0) =~= Seq::<usize>::empty());
    while k < group.len()
        invariant
            k <= group@.len(),
            es == entries@,
            forall|t: int| 0 <= t < group@.len() ==> #[trigger] group@[t] < es.len(),
            sorted@ == by_size(es, group@.take(k as int)),
        decreases group@.len() - k,
    {
        let x = group[k];
        proof {
            lemma_by_size(es, group@.take(k as int));
            assert forall|t: int| 0 <= t < sorted@.len() implies #[trigger] sorted@[t] < es.len() by {
                assert(group@.take(k as int).contains(sorted@[t]));
            }
        }
        let ghost s0 = sorted@;
        let mut j: usize = sorted.len();
        while j > 0 && entries[sorted[j - 1]].size < entries[x].size
            invariant
                j <= sorted@.len(),
                sorted@ == s0,
                x < es.len(),
                es == entries@,
                forall|t: int| 0 <= t < sorted@.len() ==> #[trigger] sorted@[t] < es.len(),
                forall|t: int| j <= t < sorted@.len() ==> es[#[trigger] sorted@[t] as int].size < es[x as int].size,
            decreases j,
        {
            j = j - 1;
        }
        proof {
            lemma_insert_at(es, s0, x, j as int);
            assert(group@.take(k + 1).drop_last() =~= group@.take(k as int));
            assert(group@.take(k + 1).last() == x);
        }
        sorted.insert(j, x);
        k = k + 1;
    }
    assert(group@.take(group@.len() as int) =~= group@);
    sorted
}

fn is_model_file(e: &ScanEntry) -> (r: bool)
    ensures
        r == model_file(*e),
{
    let f = ModelFormat::from_extension(e.extension.as_str());
    let known = match f {
        ModelFormat::Unknown(_) => false,
        _ => true,
    };
    known && e.size >= MIN_MODEL_SIZE
}

fn bytes_equal(a: &Vec<u8>, b: &Vec<u8>) -> (r: bool)
    ensures
        r == (a@ == b@),
{
    if a.len() != b.len() {
        return false;
    }
    let mut i: usize = 0;
    while i < a.len()
        invariant
            i <= a@.len(),
            a@.len() == b@.len(),
            forall|j: int| 0 <= j < i ==> a@[j] == b@[j],
        decreases a@.len() - i,
    {
        if a[i] != b[i] {
            return false;
        }
        i = i + 1;
    }
    assert(a@ =~= b@);
    true
}

fn resolves_same(a: &ScanEntry, b: &ScanEntry) -> (r: bool)
    ensures
        r == same_file(*a, *b),
{
    match (&a.canonical, &b.canonical) {
        (Some(x), Some(y)) => bytes_equal(x, y),
        _ => false,
    }
}

/// The positions of the model files among the walked entries, without
/// second copies of a file: GGUF files first, then the others, each group
/// by size, largest first (equal sizes in walk order).
pub fn order_models(entries: &[ScanEntry]) -> (r: Vec<usize>)
    ensures
        r@ == scan_order(entries@),
{
    let ghost es = entries@;
    let n = entries.len();
    let mut is_model: Vec<bool> = Vec::new();
    let mut i: usize = 0;
    while i < n
        invariant
            i <= n,
            n == es.len(),
            es == entries@,
            is_model@.len() == i,
            forall|j: int| 0 <= j < i ==> is_model@[j] == model_file(es[j]),
        decreases n - i,
    {
        is_model.push(is_model_file(&entries[i]));
        i = i + 1;
    }
    let ghost keep = |k: usize| first_copy(es, k as int);
    let mut kept: Vec<usize> = Vec::new();
    i = 0;
    assert(indices(0).filter(keep) =~= Seq::<usize>::empty()) by {
        reveal(Seq::filter);
    }
    while i < n
        invariant
            i <= n,
            n == es.len(),
            es == entries@,
            is_model@.len() == n,
            forall|j: int| 0 <= j < n ==> is_model@[j] == model_file(es[j]),
            keep == (|k: usize| first_copy(es, k as int)),
            kept@ == indices(i as nat).filter(keep),
            forall|t: int| 0 <= t < kept@.len() ==> kept@[t] < i,
        decreases n - i,
    {
        assert(indices((i + 1) as nat).drop_last() =~= indices(i as nat));
        assert(indices((i + 1) as nat).last() == i);
        assert(indices((i + 1) as nat).filter(keep) == (if keep(i) {
            indices(i as nat).filter(keep).push(i)
        } else {
            indices(i as nat).filter(keep)
        })) by {
            reveal(Seq::filter);
        }
        if is_model[i] {
            let mut dup = false;
            if entries[i].canonical.is_some() {
                let mut j: usize = 0;
                while j < i
                    invariant
                        j <= i < n,
                        n == es.len(),
                        es == entries@,
                        is_model@.len() == n,
                        forall|t: int| 0 <= t < n ==> is_model@[t] == model_file(es[t]),
                        es[i as int].canonical is Some,
                        dup == exists|t: int| 0 <= t < j && model_file(#[trigger] es[t]) && same_file(es[t], es[i as int]),
                    decreases i - j,
                {
                    if is_model[j] && resolves_same(&entries[j], &entries[i]) {
                        dup = true;
                    }
                    j = j + 1;
                }
            }
            assert(keep(i) == !dup);
            if !dup {
                kept.push(i);
            }
        } else {
            assert(!keep(i));
        }
        i = i + 1;
    }
    assert(indices(n as nat) =~= indices(es.len()));
    let ghost all = kept@;
    let ghost g = |k: usize| gguf_extension(es[k as int]);
    let ghost ng = |k: usize| !gguf_extension(es[k as int]);
    let gguf = chars_of("gguf");
    let mut first: Vec<usize> = Vec::new();
    let mut rest: Vec<usize> = Vec::new();
    let mut k: usize = 0;
    assert(all.take(0).filter(g) =~= Seq::<usize>::empty() && all.take(0).filter(ng) =~= Seq::<usize>::empty()) by {
        reveal(Seq::filter);
    }
    while k < kept.len()
        invariant
            k <= all.len(),
            all == kept@,
            all == listed(es),
            es == entries@,
            gguf@ == "gguf"@,
            forall|t: int| 0 <= t < all.len() ==> all[t] < es.len(),
            g == (|k: usize| gguf_extension(es[k as int])),
            ng == (|k: usize| !gguf_extension(es[k as int])),
            first@ == all.take(k as int).filter(g),
            rest@ == all.take(k as int).filter(ng),
        decreases all.len() - k,
    {
        assert(all.take(k + 1).drop_last() =~= all.take(k as int));
        assert(all.take(k + 1).last() == all[k as int]);
        assert(all.take(k + 1).filter(g) == (if g(all[k as int]) {
            all.take(k as int).filter(g).push(all[k as int])
        } else {
            all.take(k as int).filter(g)
        })) by {
            reveal(Seq::filter);
        }
        assert(all.take(k + 1).filter(ng) == (if ng(all[k as int]) {
            all.take(k as int).filter(ng).push(all[k as int])
        } else {
            all.take(k as int).filter(ng)
        })) by {
            reveal(Seq::filter);
        }
        let idx = kept[k];
        let ext = chars_of(entries[idx].extension.as_str());
        assert(g(idx) == (ext@ == gguf@));
        if chars_equal(ext.as_slice(), gguf.as_slice()) {
            first.push(idx);
        } else {
            rest.push(idx);
        }
        k = k + 1;
    }
    assert(all.take(all.len() as int) =~= all);
    proof {
        lemma_filter_facts(all, g);
        lemma_filter_facts(all, ng);
    }
    assert forall|t: int| 0 <= t < first@.len() implies #[trigger] first@[t] < entries@.len() by {
        assert(all.contains(first@[t]));
    }
    assert forall|t: int| 0 <= t < rest@.len() implies #[trigger] rest@[t] < entries@.len() by {
        assert(all.contains(rest@[t]));
    }
    let first = sort_by_size(entries, &first);
    let rest = sort_by_size(entries, &rest);
    let mut out = first;
    let mut j: usize = 0;
    let ghost f0 = out@;
    while j < rest.len()
        invariant
            j <= rest@.len(),
            out@ == f0 + rest@.take(j as int),
        decreases rest@.len() - j,
    {
        out.push(rest[j]);
        assert(rest@.take(j + 1) =~= rest@.take(j as int).push(rest@[j as int]));
        j = j + 1;
    }
    assert(rest@.take(rest@.len() as int) =~= rest@);
    out
}


/// The directory a scan root is found under.
#[derive(Clone, Copy, Debug, PartialEq, Eq, Structural)]
pub enum RootBase {
    /// The engine's own models directory.
    MarkusModels,
    /// The user's cache directory.
    Cache,
    /// The user's home directory.
    Home,
    /// The user's data directory.
    Data,
    /// The file-system root: the path is absolute.
    Absolute,
}

/// A directory the scan walks: a path relative to a base directory.
pub struct ScanRoot {
    pub base: RootBase,
    pub relative: &'static str,
}

/// The scan roots, in the order they are walked: the engine's own store,
/// the HuggingFace hub caches, Ollama, LM Studio, the user's model
/// directories and the usual system-wide places.
pub open spec fn scan_root_table() -> Seq<(RootBase, Seq<char>)> {
    seq![
        (RootBase::MarkusModels, ""@),
        (RootBase::Cache, "huggingface/hub"@),
        (RootBase::Home, ".cache/huggingface/hub"@),
        (RootBase::Home, ".ollama/models"@),
        (RootBase::Home, ".lmstudio/models"@),
        (RootBase::Home, ".cache/lm-studio/models"@),
        (RootBase::Data, "lm-studio/models"@),
        (RootBase::Home, "models"@),
        (RootBase::Home, "Models"@),
        (RootBase::Home, "AI/models"@),
        (RootBase::Absolute, "/opt/models"@),
        (RootBase::Absolute, "/srv/models"@),
        (RootBase::Absolute, "/data/models"@),
    ]
}

pub fn scan_roots() -> (r: Vec<ScanRoot>)
    ensures
        r@.len() == scan_root_table().len(),
        forall|i: int| 0 <= i < r@.len() ==> (#[trigger] r@[i].base, r@[i].relative@) == scan_root_table()[i],
{
    let r = vec![
        ScanRoot { base: RootBase::MarkusModels, relative: "" },
        ScanRoot { base: RootBase::Cache, relative: "huggingface/hub" },
        ScanRoot { base: RootBase::Home, relative: ".cache/huggingface/hub" },
        ScanRoot { base: RootBase::Home, relative: ".ollama/models" },
        ScanRoot { base: RootBase::Home, relative: ".lmstudio/models" },
        ScanRoot { base: RootBase::Home, relative: ".cache/lm-studio/models" },
        ScanRoot { base: RootBase::Data, relative: "lm-studio/models" },
        ScanRoot { base: RootBase::Home, relative: "models" },
        ScanRoot { base: RootBase::Home, relative: "Models" },
        ScanRoot { base: RootBase::Home, relative: "AI/models" },
        ScanRoot { base: RootBase::Absolute, relative: "/opt/models" },
        ScanRoot { base: RootBase::Absolute, relative: "/srv/models" },
        ScanRoot { base: RootBase::Absolute, relative: "/data/models" },
    ];
    assert forall|i: int| 0 <= i < r@.len() implies (#[trigger] r@[i].base, r@[i].relative@) == scan_root_table()[i] by {
        assert(0 <= i < 13);
    }
    r
}

} // verus!

verus! {

pub open spec fn increasing(s: Seq<usize>) -> bool {
    forall|j: int, k: int| 0 <= j < k < s.len() ==> s[j] < s[k]
}

/// What filtering keeps: elements of the sequence that pass; order stays.
proof fn lemma_filter_facts(s: Seq<usize>, p: spec_fn(usize) -> bool)
    ensures
        forall|k: int| 0 <= k < s.filter(p).len() ==> p(#[trigger] s.filter(p)[k]) && s.contains(s.filter(p)[k]),
        forall|i: int| 0 <= i < s.len() && p(#[trigger] s[i]) ==> s.filter(p).contains(s[i]),
        increasing(s) ==> increasing(s.filter(p)),
    decreases s.len(),
{
    reveal(Seq::filter);
    if s.len() > 0 {
        let d = s.drop_last();
        lemma_filter_facts(d, p);
        let f = s.filter(p);
        assert(f == if p(s.last()) { d.filter(p).push(s.last()) } else { d.filter(p) });
        assert forall|k: int| 0 <= k < f.len() implies p(#[trigger] f[k]) && s.contains(f[k]) by {
            if k < d.filter(p).len() {
                assert(f[k] == d.filter(p)[k]);
                let j = choose|j: int| 0 <= j < d.len() && d[j] == f[k];
                assert(s[j] == f[k]);
            } else {
                assert(f[k] == s.last());
                assert(s[s.len() - 1] == f[k]);
            }
        }
        assert forall|i: int| 0 <= i < s.len() && p(#[trigger] s[i]) implies f.contains(s[i]) by {
            if i < s.len() - 1 {
                assert(d[i] == s[i]);
                assert(d.filter(p).contains(d[i]));
                let k = choose|k: int| 0 <= k < d.filter(p).len() && d.filter(p)[k] == d[i];
                assert(f[k] == s[i]);
            } else {
                assert(f[f.len() - 1] == s[i]);
            }
        }
        if increasing(s) {
            assert(increasing(d));
            assert forall|j: int, k: int| 0 <= j < k < f.len() implies f[j] < f[k] by {
                if k == f.len() - 1 && p(s.last()) {
                    assert(d.filter(p).contains(f[j]));
                    assert(d.contains(f[j]));
                    let t = choose|t: int| 0 <= t < d.len() && d[t] == f[j];
                    assert(s[t] == f[j]);
                }
            }
        }
    }
}

/// A model file is listed, or resolves to the same file as a listed entry before it.
proof fn lemma_first_copy_exists(es: Seq<ScanEntry>, i: int)
    requires
        0 <= i < es.len(),
        model_file(es[i]),
    ensures
        exists|m: int| 0 <= m <= i && first_copy(es, m) && (m == i || same_file(es[m], es[i])),
    decreases i,
{
    if !first_copy(es, i) {
        let j = choose|j: int| 0 <= j < i && model_file(#[trigger] es[j]) && same_file(es[j], es[i]);
        lemma_first_copy_exists(es, j);
        let m = choose|m: int| 0 <= m <= j && first_copy(es, m) && (m == j || same_file(es[m], es[j]));
        assert(first_copy(es, m) && same_file(es[m], es[i]));
    } else {
        assert(first_copy(es, i));
    }
}

/// The scan lists every model file exactly once: each listed entry is a
/// model file, no entry is listed twice and no two listed entries resolve
/// to the same file, every model file found is listed or resolves to a
/// listed file, GGUF files come before all others, and within each group
/// larger files come first.
pub proof fn law_each_model_listed_once(es: Seq<ScanEntry>)
    requires
        es.len() <= usize::MAX,
    ensures
        forall|k: int| 0 <= k < scan_order(es).len() ==> {
            &&& #[trigger] scan_order(es)[k] < es.len()
            &&& model_file(es[scan_order(es)[k] as int])
        },
        forall|j: int, k: int| 0 <= j < k < scan_order(es).len() ==> {
            &&& #[trigger] scan_order(es)[j] != #[trigger] scan_order(es)[k]
            &&& !same_file(es[scan_order(es)[j] as int], es[scan_order(es)[k] as int])
        },
        forall|i: int| 0 <= i < es.len() && #[trigger] model_file(es[i]) ==> exists|k: int| {
            &&& 0 <= k < scan_order(es).len()
            &&& (scan_order(es)[k] == i || same_file(es[#[trigger] scan_order(es)[k] as int], es[i]))
        },
        forall|j: int, k: int| 0 <= j < k < scan_order(es).len() && gguf_extension(es[#[trigger] scan_order(es)[k] as int])
            ==> gguf_extension(es[#[trigger] scan_order(es)[j] as int]),
        forall|j: int, k: int| 0 <= j < k < scan_order(es).len()
            && gguf_extension(es[#[trigger] scan_order(es)[j] as int]) == gguf_extension(es[#[trigger] scan_order(es)[k] as int])
            ==> es[scan_order(es)[j] as int].size >= es[scan_order(es)[k] as int].size,
{
    let n = es.len();
    let all = indices(n);
    let keep = |k: usize| first_copy(es, k as int);
    let g = |k: usize| gguf_extension(es[k as int]);
    let ng = |k: usize| !gguf_extension(es[k as int]);
    let l = listed(es);
    assert(l == all.filter(keep));
    assert forall|j: int, k: int| 0 <= j < k < all.len() implies all[j] < all[k] by {
        assert(all[j] == j as usize && all[k] == k as usize);
    }
    assert(increasing(all));
    lemma_filter_facts(all, keep);
    lemma_filter_facts(l, g);
    lemma_filter_facts(l, ng);
    let gs = l.filter(g);
    let rs = l.filter(ng);
    assert(gs.no_duplicates()) by {
        assert forall|j: int, k: int| 0 <= j < gs.len() && 0 <= k < gs.len() && j != k implies gs[j] != gs[k] by {
            if j < k { assert(gs[j] < gs[k]); } else { assert(gs[k] < gs[j]); }
        }
    }
    assert(rs.no_duplicates()) by {
        assert forall|j: int, k: int| 0 <= j < rs.len() && 0 <= k < rs.len() && j != k implies rs[j] != rs[k] by {
            if j < k { assert(rs[j] < rs[k]); } else { assert(rs[k] < rs[j]); }
        }
    }
    lemma_by_size(es, gs);
    lemma_by_size(es, rs);
    let bg = by_size(es, gs);
    let br = by_size(es, rs);
    let o = scan_order(es);
    assert(o == bg + br);
    // every element comes from the listed ones, in its group
    assert forall|k: int| 0 <= k < o.len() implies l.contains(#[trigger] o[k]) && (k < bg.len() <==> g(o[k])) by {
        if k < bg.len() {
            assert(o[k] == bg[k]);
            assert(gs.contains(bg[k]));
        } else {
            assert(o[k] == br[k - bg.len()]);
            assert(rs.contains(br[k - bg.len()]));
        }
    }
    assert forall|k: int| 0 <= k < o.len() implies {
        &&& #[trigger] o[k] < es.len()
        &&& model_file(es[o[k] as int])
        &&& first_copy(es, o[k] as int)
    } by {
        assert(l.contains(o[k]));
        let t = choose|t: int| 0 <= t < l.len() && l[t] == o[k];
        assert(keep(l[t]));
        assert(all.contains(l[t]));
    }
    assert forall|j: int, k: int| 0 <= j < k < o.len() implies {
        &&& #[trigger] o[j] != #[trigger] o[k]
        &&& !same_file(es[o[j] as int], es[o[k] as int])
    } by {
        if j < bg.len() && k < bg.len() {
            assert(o[j] == bg[j] && o[k] == bg[k]);
        } else if j >= bg.len() && k >= bg.len() {
            assert(o[j] == br[j - bg.len()] && o[k] == br[k - bg.len()]);
        } else {
            assert(g(o[j]) != g(o[k]));
        }
        let a = o[j] as int;
        let b = o[k] as int;
        assert(first_copy(es, a) && first_copy(es, b));
        if a < b {
            assert(model_file(es[a]));
        } else {
            assert(model_file(es[b]));
        }
    }
    assert forall|i: int| 0 <= i < es.len() && #[trigger] model_file(es[i]) implies exists|k: int| {
        &&& 0 <= k < o.len()
        &&& (o[k] == i || same_file(es[#[trigger] o[k] as int], es[i]))
    } by {
        lemma_first_copy_exists(es, i);
        let m = choose|m: int| 0 <= m <= i && first_copy(es, m) && (m == i || same_file(es[m], es[i]));
        assert(all[m] == m as usize);
        assert(keep(all[m]));
        assert(l.contains(all[m]));
        let t = choose|t: int| 0 <= t < l.len() && l[t] == all[m];
        if g(l[t]) {
            assert(gs.contains(l[t]));
            let u = choose|u: int| 0 <= u < gs.len() && gs[u] == l[t];
            assert(bg.contains(gs[u]));
            let k = choose|k: int| 0 <= k < bg.len() && bg[k] == gs[u];
            assert(o[k] == m);
        } else {
            assert(ng(l[t]));
            assert(rs.contains(l[t]));
            let u = choose|u: int| 0 <= u < rs.len() && rs[u] == l[t];
            assert(br.contains(rs[u]));
            let k = choose|k: int| 0 <= k < br.len() && br[k] == rs[u];
            assert(o[bg.len() + k] == m);
        }
    }
    assert forall|j: int, k: int| 0 <= j < k < o.len() && gguf_extension(es[#[trigger] o[k] as int])
        implies gguf_extension(es[#[trigger] o[j] as int]) by {
        assert(g(o[k]));
        assert(k < bg.len());
        assert(g(o[j]));
    }
    assert forall|j: int, k: int| 0 <= j < k < o.len()
        && gguf_extension(es[#[trigger] o[j] as int]) == gguf_extension(es[#[trigger] o[k] as int])
        implies es[o[j] as int].size >= es[o[k] as int].size by {
        assert(g(o[j]) == g(o[k]));
        if k < bg.len() {
            assert(o[j] == bg[j] && o[k] == bg[k]);
        } else {
            assert(j >= bg.len());
            assert(o[j] == br[j - bg.len()] && o[k] == br[k - bg.len()]);
        }
    }
}

} // verus!
