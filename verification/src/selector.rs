//! Selecting, per requested distribution, the applicable subset of a
//! package pool: family filtering first, then version-exactness refinement
//! with a family-wide fallback.

use vstd::prelude::*;

use crate::package::{Dist, Package, Type};

verus! {

/// A package of type `t` serves the family of `d`: Ubuntu and Debian both
/// take Debian artifacts, Fedora takes RPM artifacts.
pub open spec fn family_matches(t: Type, d: Dist) -> bool {
    match d {
        Dist::Ubuntu(_) => t is Deb,
        Dist::Debian(_) => t is Deb,
        Dist::Fedora(_) => t is Rpm,
    }
}

/// The family is refined by version exactness; Debian intentionally is not.
pub open spec fn version_sensitive(d: Dist) -> bool {
    d is Ubuntu || d is Fedora
}

/// The subsequence of `pool` whose packaging type serves `d`'s family.
pub open spec fn spec_family_filter(pool: Seq<Package>, d: Dist) -> Seq<Package>
    decreases pool.len(),
{
    if pool.len() == 0 {
        Seq::empty()
    } else {
        let rest = spec_family_filter(pool.drop_last(), d);
        if family_matches(pool.last().tipe, d) {
            rest + seq![pool.last()]
        } else {
            rest
        }
    }
}

/// The subsequence of `pool` whose distribution is exactly `d` (family and
/// version both equal).
pub open spec fn spec_exact_filter(pool: Seq<Package>, d: Dist) -> Seq<Package>
    decreases pool.len(),
{
    if pool.len() == 0 {
        Seq::empty()
    } else {
        let rest = spec_exact_filter(pool.drop_last(), d);
        if pool.last().dist == Some(d) {
            rest + seq![pool.last()]
        } else {
            rest
        }
    }
}

/// What selection returns: the exact matches when the request is
/// version-sensitive and any exist, otherwise the family-filtered set.
pub open spec fn spec_select(pool: Seq<Package>, d: Dist) -> Seq<Package> {
    let fam = spec_family_filter(pool, d);
    let exact = if version_sensitive(d) {
        spec_exact_filter(fam, d)
    } else {
        Seq::<Package>::empty()
    };
    if exact.len() > 0 {
        exact
    } else {
        fam
    }
}

fn family_matches_exec(t: Type, d: &Dist) -> (r: bool)
    ensures
        r == family_matches(t, *d),
{
    match d {
        Dist::Ubuntu(_) => matches!(t, Type::Deb),
        Dist::Debian(_) => matches!(t, Type::Deb),
        Dist::Fedora(_) => matches!(t, Type::Rpm),
    }
}

fn dist_some_eq(pd: &Option<Dist>, d: &Dist) -> (r: bool)
    ensures
        r == (*pd == Some(*d)),
{
    match pd {
        Option::None => false,
        Option::Some(x) => x == d,
    }
}

/// Selects from `from` the packages applicable to `dist`: the family subset,
/// narrowed to exact distribution matches when the request is
/// version-sensitive and the pool has any, order preserved throughout.
pub fn select_packages<'p>(from: &'p [Package], dist: Dist) -> (r: Vec<&'p Package>)
    ensures
        r@.map_values(|p: &Package| *p) == spec_select(from@, dist),
{
    let n: usize = from.len();
    let mut packages: Vec<&'p Package> = Vec::new();
    let mut i: usize = 0;
    proof {
        assert(from@.take(0) =~= Seq::<Package>::empty());
        assert(packages@.map_values(|p: &Package| *p) =~= spec_family_filter(
            from@.take(0),
            dist,
        ));
    }
    while i < n
        invariant
            0 <= i <= n,
            n == from@.len(),
            packages@.map_values(|p: &Package| *p) == spec_family_filter(
                from@.take(i as int),
                dist,
            ),
        decreases n - i,
    {
        let p: &Package = &from[i];
        proof {
            assert(from@.take(i + 1).drop_last() =~= from@.take(i as int));
            assert(from@.take(i + 1).last() == from@[i as int]);
        }
        if family_matches_exec(p.tipe, &dist) {
            packages.push(p);
        }
        proof {
            assert(packages@.map_values(|p: &Package| *p) =~= spec_family_filter(
                from@.take(i + 1),
                dist,
            ));
        }
        i = i + 1;
    }
    proof {
        assert(from@.take(n as int) =~= from@);
    }
    let ghost fam: Seq<Package> = spec_family_filter(from@, dist);

    let mut selective: Vec<&'p Package> = Vec::new();
    let sensitive = match &dist {
        Dist::Ubuntu(_) => true,
        Dist::Fedora(_) => true,
        Dist::Debian(_) => false,
    };
    if sensitive {
        let m: usize = packages.len();
        let mut j: usize = 0;
        proof {
            assert(fam.take(0) =~= Seq::<Package>::empty());
            assert(selective@.map_values(|p: &Package| *p) =~= spec_exact_filter(
                fam.take(0),
                dist,
            ));
        }
        while j < m
            invariant
                0 <= j <= m,
                m == packages@.len(),
                packages@.map_values(|p: &Package| *p) == fam,
                selective@.map_values(|p: &Package| *p) == spec_exact_filter(
                    fam.take(j as int),
                    dist,
                ),
            decreases m - j,
        {
            let p: &Package = packages[j];
            proof {
                assert(fam.take(j + 1).drop_last() =~= fam.take(j as int));
                assert(fam.take(j + 1).last() == fam[j as int]);
                assert(fam[j as int] == packages@.map_values(|p: &Package| *p)[j as int]);
            }
            if dist_some_eq(&p.dist, &dist) {
                selective.push(p);
            }
            proof {
                assert(selective@.map_values(|p: &Package| *p) =~= spec_exact_filter(
                    fam.take(j + 1),
                    dist,
                ));
            }
            j = j + 1;
        }
        proof {
            assert(fam.take(m as int) =~= fam);
        }
    }

    // If we have selective packages, then return them.
    if selective.len() > 0 {
        return selective;
    }
    proof {
        assert(selective@.map_values(|p: &Package| *p).len() == 0);
    }
    packages
}

/// As long as any package of the requested family is in the pool, selection
/// never comes back empty: an absent or unparsable version falls back to the
/// family subset.
pub proof fn lemma_selection_fallback(pool: Seq<Package>, d: Dist)
    requires
        spec_family_filter(pool, d).len() > 0,
    ensures
        spec_select(pool, d).len() > 0,
{
}

/// When a version-sensitive request has exact matches in the pool, selection
/// returns exactly those, and nothing else.
pub proof fn lemma_selection_exact(pool: Seq<Package>, d: Dist)
    requires
        version_sensitive(d),
        spec_exact_filter(spec_family_filter(pool, d), d).len() > 0,
    ensures
        spec_select(pool, d) == spec_exact_filter(spec_family_filter(pool, d), d),
{
}

proof fn lemma_family_filter_members(pool: Seq<Package>, d: Dist, j: int)
    requires
        0 <= j < spec_family_filter(pool, d).len(),
    ensures
        exists|i: int|
            0 <= i < pool.len() && pool[i] == spec_family_filter(pool, d)[j],
    decreases pool.len(),
{
    if pool.len() > 0 {
        let fam = spec_family_filter(pool, d);
        let rest = spec_family_filter(pool.drop_last(), d);
        if j < rest.len() {
            lemma_family_filter_members(pool.drop_last(), d, j);
            let i = choose|i: int|
                0 <= i < pool.drop_last().len() && pool.drop_last()[i] == rest[j];
            assert(pool[i] == fam[j]);
        } else {
            assert(pool[pool.len() - 1] == fam[j]);
        }
    }
}

proof fn lemma_exact_filter_empty(s: Seq<Package>, d: Dist)
    requires
        forall|i: int| 0 <= i < s.len() ==> (#[trigger] s[i]).dist != Some(d),
    ensures
        spec_exact_filter(s, d).len() == 0,
    decreases s.len(),
{
    if s.len() > 0 {
        lemma_exact_filter_empty(s.drop_last(), d);
    }
}

/// Requesting a version absent from the pool falls back to the whole family
/// subset.
pub proof fn lemma_selection_version_absent(pool: Seq<Package>, d: Dist)
    requires
        forall|i: int| 0 <= i < pool.len() ==> (#[trigger] pool[i]).dist != Some(d),
    ensures
        spec_select(pool, d) == spec_family_filter(pool, d),
{
    let fam = spec_family_filter(pool, d);
    assert forall|j: int| 0 <= j < fam.len() implies (#[trigger] fam[j]).dist != Some(d) by {
        lemma_family_filter_members(pool, d, j);
    }
    if version_sensitive(d) {
        lemma_exact_filter_empty(fam, d);
    }
}

} // verus!

