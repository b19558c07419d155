//! Published package metadata, and the bundle manifests that a resolver has
//! loaded, kept by filename in filename order.
use crate::text::{
    string_texts, lemma_text_less_asymmetric, lemma_text_less_irreflexive,
    lemma_text_less_total, lemma_text_less_transitive, str_eq, str_less, text_less,
};
use vstd::prelude::*;

verus! {

/// One package of a published bundle, as the resolver reads it.
///
/// `contract_supported` says whether this build supports the package's data
/// contract.
#[derive(Clone, Debug, PartialEq, Eq)]
pub struct BundlePackageArtifact {
    pub id: String,
    pub family_id: String,
    pub contract_id: String,
    pub contract_supported: bool,
    pub filename: String,
    pub relative_path: String,
    pub cycle: Option<String>,
    pub cycle_version: Option<String>,
    pub effective_date: Option<String>,
    pub expiration_date: Option<String>,
    pub warning_text: Option<String>,
}

/// The packages that a bundle publishes.
#[derive(Clone, Debug, PartialEq, Eq)]
pub struct BundleManifest {
    pub packages: Vec<BundlePackageArtifact>,
}

/// Whether the keys of an association list strictly increase.
pub open spec fn keys_increase(entries: Seq<(String, BundleManifest)>) -> bool {
    forall|i: int, j: int|
        0 <= i < j < entries.len() ==> text_less(#[trigger] entries[i].0@, #[trigger] entries[j].0@)
}

/// Whether some entry has this key.
pub open spec fn has_key(entries: Seq<(String, BundleManifest)>, key: Seq<char>) -> bool {
    exists|i: int| 0 <= i < entries.len() && #[trigger] entries[i].0@ == key
}

/// `entries` with `(key, value)` put in key order, replacing an entry with the
/// same key.
pub open spec fn sorted_insert(
    entries: Seq<(String, BundleManifest)>,
    key: String,
    value: BundleManifest,
) -> Seq<(String, BundleManifest)>
    decreases entries.len(),
{
    if entries.len() == 0 {
        seq![(key, value)]
    } else if entries[0].0@ == key@ {
        seq![(key, value)] + entries.drop_first()
    } else if text_less(key@, entries[0].0@) {
        seq![(key, value)] + entries
    } else {
        seq![entries[0]] + sorted_insert(entries.drop_first(), key, value)
    }
}

/// The entries whose key is in `keep`, in order.
pub open spec fn retained(entries: Seq<(String, BundleManifest)>, keep: Seq<Seq<char>>) -> Seq<
    (String, BundleManifest),
>
    decreases entries.len(),
{
    if entries.len() == 0 {
        Seq::empty()
    } else if keep.contains(entries.last().0@) {
        retained(entries.drop_last(), keep).push(entries.last())
    } else {
        retained(entries.drop_last(), keep)
    }
}

/// Every package of every entry, in entry order.
pub open spec fn all_packages(entries: Seq<(String, BundleManifest)>) -> Seq<BundlePackageArtifact>
    decreases entries.len(),
{
    if entries.len() == 0 {
        Seq::empty()
    } else {
        all_packages(entries.drop_last()) + entries.last().1.packages@
    }
}

/// A copy of an optional string.
pub fn duplicate_text(s: &Option<String>) -> (r: Option<String>)
    ensures
        r == *s,
{
    match s {
        Some(x) => Some(x.clone()),
        None => None,
    }
}

impl BundlePackageArtifact {
    /// A copy of this package.
    pub fn duplicate(&self) -> (r: BundlePackageArtifact)
        ensures
            r == *self,
    {
        BundlePackageArtifact {
            id: self.id.clone(),
            family_id: self.family_id.clone(),
            contract_id: self.contract_id.clone(),
            contract_supported: self.contract_supported,
            filename: self.filename.clone(),
            relative_path: self.relative_path.clone(),
            cycle: duplicate_text(&self.cycle),
            cycle_version: duplicate_text(&self.cycle_version),
            effective_date: duplicate_text(&self.effective_date),
            expiration_date: duplicate_text(&self.expiration_date),
            warning_text: duplicate_text(&self.warning_text),
        }
    }
}

impl BundleManifest {
    /// A copy of this manifest.
    pub fn duplicate(&self) -> (r: BundleManifest)
        ensures
            r.packages@ == self.packages@,
    {
        let mut packages: Vec<BundlePackageArtifact> = Vec::new();
        let mut i: usize = 0;
        while i < self.packages.len()
            invariant
                i <= self.packages@.len(),
                packages@ == self.packages@.take(i as int),
            decreases self.packages@.len() - i,
        {
            packages.push(self.packages[i].duplicate());
            assert(packages@ =~= self.packages@.take(i + 1));
            i = i + 1;
        }
        assert(packages@ =~= self.packages@);
        BundleManifest { packages }
    }
}

/// Two entry lists with the same keys and the same packages, entry by entry.
pub open spec fn same_entries(a: Seq<(String, BundleManifest)>, b: Seq<(String, BundleManifest)>) -> bool {
    &&& a.len() == b.len()
    &&& forall|i: int| 0 <= i < a.len() ==> #[trigger] a[i].0 == b[i].0 && a[i].1.packages@ == b[i].1.packages@
}

/// Entry lists with the same packages have the same packages overall.
pub proof fn lemma_same_entries_packages(a: Seq<(String, BundleManifest)>, b: Seq<(String, BundleManifest)>)
    requires
        same_entries(a, b),
    ensures
        all_packages(a) == all_packages(b),
    decreases a.len(),
{
    if a.len() > 0 {
        assert(same_entries(a.drop_last(), b.drop_last())) by {
            assert forall|i: int| 0 <= i < a.drop_last().len() implies #[trigger] a.drop_last()[i].0 == b.drop_last()[i].0 && a.drop_last()[i].1.packages@ == b.drop_last()[i].1.packages@ by {
                assert(a.drop_last()[i] == a[i]);
                assert(b.drop_last()[i] == b[i]);
            }
        }
        lemma_same_entries_packages(a.drop_last(), b.drop_last());
        assert(a[a.len() - 1].0 == b[a.len() - 1].0);
    }
}

/// `all_packages` of a concatenation is the concatenation.
pub proof fn lemma_all_packages_append(a: Seq<(String, BundleManifest)>, b: Seq<(String, BundleManifest)>)
    ensures
        all_packages(a + b) == all_packages(a) + all_packages(b),
    decreases b.len(),
{
    if b.len() == 0 {
        assert(a + b =~= a);
        assert(all_packages(a) + all_packages(b) =~= all_packages(a));
    } else {
        lemma_all_packages_append(a, b.drop_last());
        assert((a + b).drop_last() =~= a + b.drop_last());
        assert((a + b).last() == b.last());
        assert(all_packages(a + b) =~= all_packages(a) + all_packages(b));
    }
}

/// Bundle manifests by filename, in filename order.
#[derive(Debug, PartialEq, Eq)]
pub struct BundleManifestMap {
    entries: Vec<(String, BundleManifest)>,
}

proof fn lemma_retained_from(entries: Seq<(String, BundleManifest)>, keep: Seq<Seq<char>>)
    ensures
        forall|k: int|
            0 <= k < retained(entries, keep).len() ==> exists|i: int|
                0 <= i < entries.len() && #[trigger] retained(entries, keep)[k] == entries[i],
        forall|k: int|
            0 <= k < retained(entries, keep).len() ==> keep.contains(
                #[trigger] retained(entries, keep)[k].0@,
            ),
    decreases entries.len(),
{
    if entries.len() > 0 {
        let prev = entries.drop_last();
        lemma_retained_from(prev, keep);
        let r = retained(entries, keep);
        let rp = retained(prev, keep);
        assert forall|k: int| 0 <= k < r.len() implies exists|i: int|
            0 <= i < entries.len() && #[trigger] r[k] == entries[i] by {
            if k < rp.len() {
                assert(r[k] == rp[k]);
                let i = choose|i: int| 0 <= i < prev.len() && #[trigger] rp[k] == prev[i];
                assert(entries[i] == prev[i]);
            } else {
                assert(r[k] == entries[entries.len() - 1]);
            }
        }
        assert forall|k: int| 0 <= k < r.len() implies keep.contains(#[trigger] r[k].0@) by {
            if k < rp.len() {
                assert(r[k] == rp[k]);
            }
        }
    }
}

proof fn lemma_retained_increase(entries: Seq<(String, BundleManifest)>, keep: Seq<Seq<char>>)
    requires
        keys_increase(entries),
    ensures
        keys_increase(retained(entries, keep)),
    decreases entries.len(),
{
    if entries.len() > 0 {
        let prev = entries.drop_last();
        assert(keys_increase(prev)) by {
            assert forall|i: int, j: int| 0 <= i < j < prev.len() implies text_less(
                #[trigger] prev[i].0@,
                #[trigger] prev[j].0@,
            ) by {
                assert(prev[i] == entries[i]);
                assert(prev[j] == entries[j]);
            }
        }
        lemma_retained_increase(prev, keep);
        lemma_retained_from(prev, keep);
        let r = retained(entries, keep);
        let rp = retained(prev, keep);
        if keep.contains(entries.last().0@) {
            assert forall|i: int, j: int| 0 <= i < j < r.len() implies text_less(
                #[trigger] r[i].0@,
                #[trigger] r[j].0@,
            ) by {
                if j < rp.len() {
                    assert(r[i] == rp[i]);
                    assert(r[j] == rp[j]);
                } else {
                    assert(r[i] == rp[i]);
                    let m = choose|m: int| 0 <= m < prev.len() && #[trigger] rp[i] == prev[m];
                    assert(prev[m] == entries[m]);
                    assert(r[j] == entries[entries.len() - 1]);
                }
            }
        }
    }
}

proof fn lemma_sorted_insert_prefix(
    entries: Seq<(String, BundleManifest)>,
    key: String,
    value: BundleManifest,
    p: int,
)
    requires
        0 <= p <= entries.len(),
        forall|k: int| 0 <= k < p ==> text_less(#[trigger] entries[k].0@, key@),
    ensures
        sorted_insert(entries, key, value) == entries.take(p) + sorted_insert(
            entries.skip(p),
            key,
            value,
        ),
    decreases p,
{
    if p == 0 {
        assert(entries.take(0) + sorted_insert(entries.skip(0), key, value) =~= sorted_insert(
            entries,
            key,
            value,
        )) by {
            assert(entries.skip(0) =~= entries);
        }
    } else {
        let rest = entries.drop_first();
        assert forall|k: int| 0 <= k < p - 1 implies text_less(#[trigger] rest[k].0@, key@) by {
            assert(rest[k] == entries[k + 1]);
        }
        lemma_sorted_insert_prefix(rest, key, value, p - 1);
        lemma_text_less_asymmetric(entries[0].0@, key@);
        lemma_text_less_irreflexive(key@);
        assert(entries[0].0@ != key@);
        assert(!text_less(key@, entries[0].0@));
        assert(rest.take(p - 1) =~= entries.take(p).drop_first());
        assert(rest.skip(p - 1) =~= entries.skip(p));
        assert(seq![entries[0]] + rest.take(p - 1) =~= entries.take(p));
    }
}

impl BundleManifestMap {
    /// The keys strictly increase.
    #[verifier::type_invariant]
    pub open spec fn keys_in_order(self) -> bool {
        keys_increase(self.entries())
    }

    /// The entries, in key order.
    pub closed spec fn entries(self) -> Seq<(String, BundleManifest)> {
        self.entries@
    }

    /// An empty map.
    pub fn new() -> (r: BundleManifestMap)
        ensures
            r.entries() == Seq::<(String, BundleManifest)>::empty(),
    {
        BundleManifestMap { entries: Vec::new() }
    }

    /// A copy of this map.
    pub fn duplicate(&self) -> (r: BundleManifestMap)
        ensures
            same_entries(r.entries(), self.entries()),
    {
        proof {
            use_type_invariant(self);
        }
        let mut entries: Vec<(String, BundleManifest)> = Vec::new();
        let mut i: usize = 0;
        while i < self.entries.len()
            invariant
                i <= self.entries@.len(),
                same_entries(entries@, self.entries@.take(i as int)),
            decreases self.entries@.len() - i,
        {
            let key = self.entries[i].0.clone();
            let value = self.entries[i].1.duplicate();
            let ghost before = entries@;
            entries.push((key, value));
            proof {
                let t = self.entries@.take(i + 1);
                assert forall|k: int| 0 <= k < entries@.len() implies #[trigger] entries@[k].0 == t[k].0 && entries@[k].1.packages@ == t[k].1.packages@ by {
                    if k < i {
                        assert(entries@[k] == before[k]);
                        assert(t[k] == self.entries@.take(i as int)[k]);
                    }
                }
            }
            i = i + 1;
        }
        assert(self.entries@.take(self.entries@.len() as int) =~= self.entries@);
        proof {
            assert forall|i: int, j: int| 0 <= i < j < entries@.len() implies text_less(#[trigger] entries@[i].0@, #[trigger] entries@[j].0@) by {
                assert(text_less(self.entries@[i].0@, self.entries@[j].0@));
            }
        }
        BundleManifestMap { entries }
    }

    /// The number of entries.
    pub fn len(&self) -> (r: usize)
        ensures
            r == self.entries().len(),
    {
        self.entries.len()
    }

    /// The entries, in key order.
    pub fn entry_list(&self) -> (r: &Vec<(String, BundleManifest)>)
        ensures
            r@ == self.entries(),
    {
        &self.entries
    }

    /// Whether some entry has this key.
    pub fn contains_key(&self, key: &str) -> (r: bool)
        ensures
            r == has_key(self.entries(), key@),
    {
        let mut i: usize = 0;
        while i < self.entries.len()
            invariant
                i <= self.entries@.len(),
                forall|k: int| 0 <= k < i ==> self.entries@[k].0@ != key@,
            decreases self.entries@.len() - i,
        {
            if str_eq(self.entries[i].0.as_str(), key) {
                assert(self.entries@[i as int].0@ == key@);
                return true;
            }
            i = i + 1;
        }
        false
    }

    /// Puts `value` under `key`, replacing what the key held.
    pub fn insert(&mut self, key: String, value: BundleManifest)
        ensures
            final(self).entries() == sorted_insert(old(self).entries(), key, value),
    {
        proof {
            use_type_invariant(&*self);
        }
        let ghost old_entries = self.entries@;
        let n = self.entries.len();
        let mut p: usize = 0;
        while p < n
            invariant
                n == old_entries.len(),
                self.entries@ == old_entries,
                p <= n,
                forall|k: int| 0 <= k < p ==> text_less(#[trigger] old_entries[k].0@, key@),
            ensures
                self.entries@ == old_entries,
                p <= n,
                forall|k: int| 0 <= k < p ==> text_less(#[trigger] old_entries[k].0@, key@),
                p < n ==> !text_less(old_entries[p as int].0@, key@),
            decreases n - p,
        {
            if !str_less(self.entries[p].0.as_str(), key.as_str()) {
                break;
            }
            p = p + 1;
        }
        proof {
            lemma_sorted_insert_prefix(old_entries, key, value, p as int);
        }
        let ghost tail = old_entries.skip(p as int);
        let mut entries = Vec::new();
        std::mem::swap(&mut entries, &mut self.entries);
        assert(entries@ == old_entries);
        if p < n && str_eq(entries[p].0.as_str(), key.as_str()) {
            proof {
                assert(tail[0] == old_entries[p as int]);
                assert(tail.drop_first() =~= old_entries.skip(p + 1));
                assert(sorted_insert(old_entries, key, value) =~= old_entries.take(p as int) + seq![
                    (key, value),
                ] + old_entries.skip(p + 1));
                assert forall|i: int, j: int|
                    0 <= i < j < old_entries.len() implies text_less(
                    #[trigger] old_entries.update(p as int, (key, value))[i].0@,
                    #[trigger] old_entries.update(p as int, (key, value))[j].0@,
                ) by {
                    assert(text_less(old_entries[i].0@, old_entries[j].0@));
                }
            }
            entries.set(p, (key, value));
            proof {
                assert(entries@ =~= sorted_insert(old_entries, key, value));
            }
            self.entries = entries;
        } else {
            proof {
                if p < n {
                    assert(!text_less(old_entries[p as int].0@, key@));
                    assert(old_entries[p as int].0@ != key@);
                    lemma_text_less_total(old_entries[p as int].0@, key@);
                    assert(tail[0] == old_entries[p as int]);
                    assert(sorted_insert(old_entries, key, value) =~= old_entries.take(p as int)
                        + seq![(key, value)] + old_entries.skip(p as int));
                } else {
                    assert(tail =~= Seq::<(String, BundleManifest)>::empty());
                    assert(sorted_insert(old_entries, key, value) =~= old_entries.take(p as int)
                        + seq![(key, value)] + old_entries.skip(p as int));
                }
            }
            let ghost new_entries = old_entries.insert(p as int, (key, value));
            proof {
                assert forall|i: int, j: int|
                    0 <= i < j < new_entries.len() implies text_less(
                    #[trigger] new_entries[i].0@,
                    #[trigger] new_entries[j].0@,
                ) by {
                    if j < p {
                        assert(text_less(old_entries[i].0@, old_entries[j].0@));
                    } else if j == p {
                        assert(new_entries[j] == (key, value));
                        assert(new_entries[i] == old_entries[i]);
                    } else if i == p {
                        assert(new_entries[j] == old_entries[j - 1]);
                        if j - 1 > p {
                            assert(text_less(old_entries[p as int].0@, old_entries[j - 1].0@));
                            lemma_text_less_transitive(
                                key@,
                                old_entries[p as int].0@,
                                old_entries[j - 1].0@,
                            );
                        }
                    } else if i < p {
                        assert(new_entries[j] == old_entries[j - 1]);
                        assert(text_less(old_entries[i].0@, old_entries[j - 1].0@));
                    } else {
                        assert(new_entries[i] == old_entries[i - 1]);
                        assert(new_entries[j] == old_entries[j - 1]);
                        assert(text_less(old_entries[i - 1].0@, old_entries[j - 1].0@));
                    }
                }
            }
            entries.insert(p, (key, value));
            proof {
                assert(entries@ =~= new_entries);
                assert(new_entries =~= sorted_insert(old_entries, key, value));
            }
            self.entries = entries;
        }
    }

    /// Keeps the entries whose key is in `keep`.
    pub fn retain_keys(&mut self, keep: &Vec<String>)
        ensures
            final(self).entries() == retained(
                old(self).entries(),
                string_texts(keep@),
            ),
    {
        proof {
            use_type_invariant(&*self);
        }
        let ghost keep_text = string_texts(keep@);
        let ghost old_entries = self.entries@;
        let mut entries = Vec::new();
        std::mem::swap(&mut entries, &mut self.entries);
        let mut kept: Vec<(String, BundleManifest)> = Vec::new();
        let n = entries.len();
        let mut i: usize = 0;
        while i < n
            invariant
                n == old_entries.len(),
                i <= n,
                entries@ == old_entries.skip(i as int),
                kept@ == retained(old_entries.take(i as int), keep_text),
                keep_text == string_texts(keep@),
            decreases n - i,
        {
            assert(old_entries.take(i + 1).drop_last() =~= old_entries.take(i as int));
            assert(entries@[0] == old_entries[i as int]);
            let entry = entries.remove(0);
            assert(entries@ =~= old_entries.skip(i + 1));
            let mut found = false;
            let mut k: usize = 0;
            while k < keep.len()
                invariant
                    k <= keep@.len(),
                    keep_text == string_texts(keep@),
                    found == keep_text.take(k as int).contains(entry.0@),
                decreases keep@.len() - k,
            {
                let ghost x = entry.0@;
                assert(keep_text.take(k + 1) =~= keep_text.take(k as int).push(keep@[k as int]@));
                if str_eq(keep[k].as_str(), entry.0.as_str()) {
                    found = true;
                    assert(keep_text.take(k + 1)[k as int] == x);
                } else {
                    assert(keep_text.take(k + 1).contains(x) ==> keep_text.take(k as int).contains(x)) by {
                        if keep_text.take(k + 1).contains(x) {
                            let j = choose|j: int| 0 <= j < k + 1 && #[trigger] keep_text.take(k + 1)[j] == x;
                            assert(keep_text.take(k as int)[j] == x);
                        }
                    }
                    assert(keep_text.take(k as int).contains(x) ==> keep_text.take(k + 1).contains(x)) by {
                        if keep_text.take(k as int).contains(x) {
                            let j = choose|j: int| 0 <= j < k && #[trigger] keep_text.take(k as int)[j] == x;
                            assert(keep_text.take(k + 1)[j] == x);
                        }
                    }
                }
                k = k + 1;
            }
            assert(keep_text.take(keep@.len() as int) =~= keep_text);
            if found {
                kept.push(entry);
                assert(kept@ =~= retained(old_entries.take(i + 1), keep_text));
            }
            i = i + 1;
        }
        assert(old_entries.take(old_entries.len() as int) =~= old_entries);
        proof {
            lemma_retained_increase(old_entries, keep_text);
        }
        self.entries = kept;
    }
}

} // verus!
