//! The release index: the canonical, sorted, deduplicated collection of
//! release records that every ingestion strategy funnels into.

use vstd::prelude::*;

use crate::release::{lemma_key_determines_order, lemma_version_lt_trans, lemma_version_order,
    Release, Version};

verus! {

/// A release sequence is strictly ascending by version: no two entries
/// compare equal.
pub open spec fn strictly_sorted(s: Seq<Release>) -> bool {
    forall|i: int, j: int|
        0 <= i < j < s.len() ==> (#[trigger] s[i]).version.spec_lt((#[trigger] s[j]).version)
}

/// Whether some release in the sequence carries the given version:
/// carries one whose key (numeric triple and pre-release text) is the
/// given version's key.
pub open spec fn contains_version(s: Seq<Release>, v: Version) -> bool {
    exists|i: int| 0 <= i < s.len() && (#[trigger] s[i]).version.key() == v.key()
}

/// The canonical, ordered, deduplicated collection of releases, sorted
/// ascending by version. Once constructed it is immutable; all lookups are
/// read-only.
#[derive(Debug, PartialEq, Eq)]
pub struct ReleaseIndex {
    releases: Vec<Release>,
}

impl View for ReleaseIndex {
    type V = Seq<Release>;

    closed spec fn view(&self) -> Seq<Release> {
        self.releases@
    }
}

impl ReleaseIndex {
    #[verifier::type_invariant]
    spec fn type_inv(self) -> bool {
        strictly_sorted(self@)
    }

    /// Builds the index from an arbitrary collection of releases: the result
    /// is sorted strictly ascending by version, holds a version if and only
    /// if the input held it, and is therefore independent of the input's
    /// order and of duplicate multiplicity.
    pub fn from_releases(releases: Vec<Release>) -> (r: ReleaseIndex)
        ensures
            strictly_sorted(r@),
            forall|v: Version| contains_version(r@, v) <==> contains_version(releases@, v),
    {
        let mut out: Vec<Release> = Vec::new();
        let mut i: usize = 0;
        while i < releases.len()
            invariant
                i <= releases.len(),
                strictly_sorted(out@),
                forall|v: Version|
                    contains_version(out@, v) <==> contains_version(
                        releases@.take(i as int),
                        v,
                    ),
            decreases releases.len() - i,
        {
            insert_unique(&mut out, releases[i].duplicate());
            proof {
                assert(releases@.take(i + 1 as int) =~= releases@.take(i as int).push(
                    releases@[i as int],
                ));
                assert forall|v: Version|
                    contains_version(out@, v) <==> contains_version(
                        releases@.take(i + 1 as int),
                        v,
                    ) by {
                    lemma_contains_version_push(releases@.take(i as int), releases@[i as int], v);
                }
            }
            i += 1;
        }
        proof {
            assert(releases@.take(releases@.len() as int) =~= releases@);
        }
        ReleaseIndex { releases: out }
    }

    /// All releases of the index, ascending by version.
    pub fn releases(&self) -> (r: &Vec<Release>)
        ensures
            r@ == self@,
            strictly_sorted(self@),
    {
        proof {
            use_type_invariant(self);
        }
        &self.releases
    }

    /// The number of releases in the index.
    pub fn len(&self) -> (n: usize)
        ensures
            n == self@.len(),
    {
        self.releases.len()
    }

    /// The release at the given position, counted from the lowest version.
    pub fn get(&self, i: usize) -> (r: Option<&Release>)
        ensures
            i < self@.len() ==> r == Some(&self@[i as int]),
            i >= self@.len() ==> r is None,
    {
        if i < self.releases.len() {
            Some(&self.releases[i])
        } else {
            None
        }
    }

    /// Whether the index holds a release with the given version.
    pub fn contains(&self, v: &Version) -> (r: bool)
        ensures
            r == contains_version(self@, *v),
    {
        let mut i: usize = 0;
        while i < self.releases.len()
            invariant
                i <= self.releases@.len(),
                forall|k: int|
                    0 <= k < i ==> (#[trigger] self.releases@[k]).version.key() != v.key(),
            decreases self.releases@.len() - i,
        {
            if self.releases[i].version == *v {
                return true;
            }
            i += 1;
        }
        false
    }

    /// The most recent release: the one with the highest version, absent
    /// only from an empty index.
    pub fn most_recent(&self) -> (r: Option<&Release>)
        ensures
            r is Some <==> self@.len() > 0,
            r matches Some(rel) ==> *rel == self@[self@.len() - 1] && (forall|i: int|
                0 <= i < self@.len() ==> !rel.version.spec_lt((#[trigger] self@[i]).version)),
    {
        proof {
            use_type_invariant(self);
        }
        if self.releases.len() > 0 {
            proof {
                let last = self.releases@[self.releases@.len() - 1];
                assert forall|i: int|
                    0 <= i < self@.len() implies !last.version.spec_lt(
                    (#[trigger] self@[i]).version,
                ) by {
                    if i < self@.len() - 1 {
                        lemma_version_order(self@[i].version, last.version);
                    } else {
                        lemma_version_order(last.version, last.version);
                    }
                }
            }
            Some(&self.releases[self.releases.len() - 1])
        } else {
            None
        }
    }
}

/// Membership in a pushed sequence is membership in the base or the pushed
/// release's version.
proof fn lemma_contains_version_push(s: Seq<Release>, r: Release, v: Version)
    ensures
        contains_version(s.push(r), v) <==> (contains_version(s, v) || r.version.key()
            == v.key()),
{
    if contains_version(s, v) {
        let i = choose|i: int| 0 <= i < s.len() && (#[trigger] s[i]).version.key() == v.key();
        assert(s.push(r)[i].version.key() == v.key());
    }
    if r.version.key() == v.key() {
        assert(s.push(r)[s.len() as int].version.key() == v.key());
    }
    if contains_version(s.push(r), v) {
        let i = choose|i: int|
            0 <= i < s.push(r).len() && (#[trigger] s.push(r)[i]).version.key() == v.key();
        if i < s.len() {
            assert(s[i].version.key() == v.key());
        }
    }
}

/// Inserts a release into a strictly sorted sequence, keeping it strictly
/// sorted; a release whose version is already present is dropped.
fn insert_unique(out: &mut Vec<Release>, r: Release)
    requires
        strictly_sorted(old(out)@),
    ensures
        strictly_sorted(final(out)@),
        forall|v: Version|
            contains_version(final(out)@, v) <==> (contains_version(old(out)@, v)
                || r.version.key() == v.key()),
{
    let ghost orig = out@;
    let mut j: usize = 0;
    loop
        invariant
            strictly_sorted(out@),
            out@ == orig,
            j <= out@.len(),
            forall|k: int| 0 <= k < j ==> (#[trigger] out@[k]).version.spec_lt(r.version),
        ensures
            out@ == orig,
            j <= out@.len(),
            forall|k: int| 0 <= k < j ==> (#[trigger] out@[k]).version.spec_lt(r.version),
            j < out@.len() ==> !out@[j as int].version.spec_lt(r.version),
        decreases out@.len() - j,
    {
        if j == out.len() {
            break ;
        }
        if !out[j].version.lt(&r.version) {
            break ;
        }
        j += 1;
    }
    // here: every entry before j is strictly below r's version, and, if j is
    // in range, the entry at j is not below it.
    if j < out.len() && out[j].version == r.version {
        // the version is already present: the insert deduplicates.
        assert(contains_version(out@, r.version));
        return ;
    }
    assert(j < out@.len() ==> r.version.spec_lt(out@[j as int].version)) by {
        if j < out@.len() {
            let a = r.version;
            let b = out@[j as int].version;
            lemma_version_order(a, b);
            assert(!b.spec_lt(a) && b.key() != a.key());
        }
    }
    out.insert(j, r);
    proof {
        let s = out@;
        assert forall|i: int, k: int| 0 <= i < k < s.len() implies (#[trigger] s[i]).version.spec_lt(
            (#[trigger] s[k]).version,
        ) by {
            if i < j && k > j {
                assert(orig[i].version.spec_lt(orig[k - 1].version));
            }
            if i == j && k > j + 1 {
                assert(orig[j as int].version.spec_lt(orig[k - 1].version));
                lemma_version_lt_trans(r.version, orig[j as int].version, orig[k - 1].version);
            }
        }
        assert forall|v: Version|
            contains_version(s, v) <==> (contains_version(orig, v) || r.version.key()
                == v.key()) by {
            if contains_version(s, v) {
                let i = choose|i: int|
                    0 <= i < s.len() && (#[trigger] s[i]).version.key() == v.key();
                if i < j {
                    assert(orig[i].version.key() == v.key());
                } else if i > j {
                    assert(orig[i - 1].version.key() == v.key());
                }
            }
            if contains_version(orig, v) {
                let i = choose|i: int|
                    0 <= i < orig.len() && (#[trigger] orig[i]).version.key() == v.key();
                if i < j {
                    assert(s[i].version.key() == v.key());
                } else {
                    assert(s[i + 1].version.key() == v.key());
                }
            }
            if r.version.key() == v.key() {
                assert(s[j as int].version.key() == v.key());
            }
        }
    }
}

/// Two strictly sorted release sequences that hold the same versions hold
/// the same version at every position: the index built from a release
/// collection is canonical, whatever order the collection presented its
/// releases in.
pub proof fn lemma_sorted_same_versions_equal(a: Seq<Release>, b: Seq<Release>)
    requires
        strictly_sorted(a),
        strictly_sorted(b),
        forall|v: Version| contains_version(a, v) <==> contains_version(b, v),
    ensures
        a.len() == b.len(),
        forall|i: int|
            0 <= i < a.len() ==> (#[trigger] a[i]).version.key() == (#[trigger] b[i]).version.key(),
    decreases a.len(),
{
    if a.len() == 0 {
        if b.len() > 0 {
            assert(b[0].version.key() == b[0].version.key());
            assert(contains_version(b, b[0].version));
            assert(contains_version(a, b[0].version));
        }
    } else {
        // the last entries carry the same version: each sequence's last
        // version is its maximum, and each is contained in the other.
        let la = a.last().version;
        let lb = b.last().version;
        assert(a[a.len() - 1].version.key() == la.key());
        assert(contains_version(a, la));
        assert(contains_version(b, la));
        assert(b.len() > 0);
        assert(b[b.len() - 1].version.key() == lb.key());
        assert(contains_version(b, lb));
        assert(contains_version(a, lb));
        let ia = choose|i: int| 0 <= i < a.len() && (#[trigger] a[i]).version.key() == lb.key();
        let ib = choose|i: int| 0 <= i < b.len() && (#[trigger] b[i]).version.key() == la.key();
        assert(la.key() == lb.key()) by {
            if ia < a.len() - 1 {
                assert(a[ia].version.spec_lt(a[a.len() - 1].version));
                lemma_key_determines_order(a[ia].version, lb, la);
            }
            if ib < b.len() - 1 {
                assert(b[ib].version.spec_lt(b[b.len() - 1].version));
                lemma_key_determines_order(b[ib].version, la, lb);
            }
            lemma_version_order(la, lb);
        }
        assert forall|v: Version|
            contains_version(a.drop_last(), v) <==> contains_version(b.drop_last(), v) by {
            lemma_contains_version_drop_last(a, v);
            lemma_contains_version_drop_last(b, v);
            lemma_key_determines_order(a.last().version, b.last().version, v);
        }
        lemma_sorted_same_versions_equal(a.drop_last(), b.drop_last());
        assert(a.len() == b.len());
        assert forall|i: int|
            0 <= i < a.len() implies (#[trigger] a[i]).version.key() == (
        #[trigger] b[i]).version.key() by {
            if i < a.len() - 1 {
                assert(a.drop_last()[i].version.key() == b.drop_last()[i].version.key());
            }
        }
    }
}

/// In a strictly sorted sequence, the versions of the prefix without the
/// last entry are exactly the contained versions below the last version.
proof fn lemma_contains_version_drop_last(s: Seq<Release>, v: Version)
    requires
        strictly_sorted(s),
        s.len() > 0,
    ensures
        contains_version(s.drop_last(), v) <==> (contains_version(s, v) && v.spec_lt(
            s.last().version,
        )),
{
    if contains_version(s.drop_last(), v) {
        let i = choose|i: int|
            0 <= i < s.drop_last().len() && (#[trigger] s.drop_last()[i]).version.key() == v.key();
        assert(s[i].version.key() == v.key());
        assert(s[i].version.spec_lt(s.last().version));
        lemma_key_determines_order(s[i].version, v, s.last().version);
    }
    if contains_version(s, v) && v.spec_lt(s.last().version) {
        let i = choose|i: int| 0 <= i < s.len() && (#[trigger] s[i]).version.key() == v.key();
        lemma_key_determines_order(s[i].version, v, s.last().version);
        assert(i < s.len() - 1) by {
            if i == s.len() - 1 {
                lemma_version_order(s[i].version, s.last().version);
            }
        }
        assert(s.drop_last()[i].version.key() == v.key());
    }
}

} // verus!
