use vstd::prelude::*;
use crate::catalog::{Catalog, EntityType};

verus! {

/// The entity type name the remote source does not actually serve even
/// though the catalog lists it: fetching it only returns errors, so no
/// cycle schedules it.
pub fn excluded_entity_names() -> (r: Vec<String>)
    ensures
        r@.len() == 1,
        r@[0]@ == "Sambehandlinger"@,
{
    let mut v: Vec<String> = Vec::new();
    v.push("Sambehandlinger".to_owned());
    v
}

/// The texts of a sequence of strings.
pub open spec fn views_of(v: Seq<String>) -> Seq<Seq<char>> {
    v.map_values(|s: String| s@)
}

/// The names of a sequence of entity types, in order.
pub open spec fn names_of(entities: Seq<EntityType>) -> Seq<Seq<char>> {
    entities.map_values(|e: EntityType| e.name@)
}

/// The names one cycle schedules: every catalog entity type, in catalog
/// order, except exactly those excluded.
pub open spec fn eligible_names(entities: Seq<EntityType>, excluded: Seq<Seq<char>>) -> Seq<
    Seq<char>,
> {
    names_of(entities).filter(|n: Seq<char>| !excluded.contains(n))
}

/// Filtering decides element by element, from the back.
proof fn lemma_filter_push<A>(s: Seq<A>, x: A, p: spec_fn(A) -> bool)
    ensures
        s.push(x).filter(p) == (if p(x) {
            s.filter(p).push(x)
        } else {
            s.filter(p)
        }),
{
    reveal(Seq::filter);
    assert(s.push(x).drop_last() =~= s);
    assert(s.push(x).last() == x);
}

/// Whether some string of `v` has the text of `s`.
pub fn contains_string(v: &Vec<String>, s: &String) -> (r: bool)
    ensures
        r == views_of(v@).contains(s@),
{
    let n = v.len();
    let mut i: usize = 0;
    while i < n
        invariant
            n == v@.len(),
            0 <= i <= n,
            forall|j: int| 0 <= j < i ==> views_of(v@)[j] != s@,
        decreases n - i,
    {
        if v[i] == *s {
            proof {
                assert(views_of(v@)[i as int] == s@);
            }
            return true;
        }
        i = i + 1;
    }
    proof {
        assert(forall|j: int| 0 <= j < views_of(v@).len() ==> views_of(v@)[j] != s@);
    }
    false
}

/// Plans one synchronization cycle: one mirror worker per catalog entity
/// type, in catalog order, skipping exactly the excluded names. A name on
/// the exclusion list is never scheduled, whatever the catalog holds.
pub fn plan_cycle(catalog: &Catalog, excluded: &Vec<String>) -> (r: Vec<String>)
    ensures
        views_of(r@) == eligible_names(catalog.entities@, views_of(excluded@)),
{
    let ghost ex: Seq<Seq<char>> = views_of(excluded@);
    let ghost p = |n: Seq<char>| !ex.contains(n);
    let mut out: Vec<String> = Vec::new();
    let n = catalog.entities.len();
    let mut i: usize = 0;
    proof {
        assert(names_of(catalog.entities@.take(0)) =~= Seq::<Seq<char>>::empty());
        assert(views_of(out@) =~= names_of(catalog.entities@.take(0)).filter(p));
    }
    while i < n
        invariant
            n == catalog.entities@.len(),
            0 <= i <= n,
            ex == views_of(excluded@),
            p == (|n: Seq<char>| !ex.contains(n)),
            views_of(out@) == names_of(catalog.entities@.take(i as int)).filter(p),
        decreases n - i,
    {
        let name = &catalog.entities[i].name;
        let ghost prefix = names_of(catalog.entities@.take(i as int));
        proof {
            assert(names_of(catalog.entities@.take(i as int + 1)) =~= prefix.push(name@));
            lemma_filter_push(prefix, name@, p);
        }
        if !contains_string(excluded, name) {
            out.push(name.clone());
            proof {
                assert(views_of(out@) =~= prefix.filter(p).push(name@));
            }
        }
        i = i + 1;
    }
    proof {
        assert(catalog.entities@.take(n as int) =~= catalog.entities@);
    }
    out
}

} // verus!
