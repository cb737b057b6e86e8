//! The pure part of the preflight check: collecting the package managers
//! that the recipes' package declarations name, each once. Whether a
//! collected manager is actually installed is probed by the caller.

use vstd::prelude::*;

use crate::model::PackageManager;
use crate::model::Packages;
use crate::model::RecipeEntry;

verus! {

/// Whether one package declaration names the given manager.
pub open spec fn packages_name(p: Packages, m: PackageManager) -> bool {
    match p.manager {
        Some(ms) => ms@.contains(m),
        None => false,
    }
}

/// Whether one package declaration names the given manager among its first
/// `k` manager entries.
pub open spec fn packages_name_upto(p: Packages, k: int, m: PackageManager) -> bool {
    match p.manager {
        Some(ms) => exists|kk: int| 0 <= kk < k && ms@[kk] == m,
        None => false,
    }
}

/// Whether one recipe's package declarations name the given manager.
pub open spec fn recipe_names_manager(e: RecipeEntry, m: PackageManager) -> bool {
    match e.recipe.packages {
        Some(ps) => exists|j: int| 0 <= j < ps@.len() && packages_name(#[trigger] ps@[j], m),
        None => false,
    }
}

/// Whether one recipe's first `j` package declarations name the given
/// manager.
pub open spec fn recipe_names_manager_upto(e: RecipeEntry, j: int, m: PackageManager) -> bool {
    match e.recipe.packages {
        Some(ps) => exists|jj: int| 0 <= jj < j && packages_name(#[trigger] ps@[jj], m),
        None => false,
    }
}

/// Whether any of the recipes' package declarations name the given manager.
pub open spec fn manager_declared(recipes: Seq<RecipeEntry>, m: PackageManager) -> bool {
    exists|i: int| 0 <= i < recipes.len() && recipe_names_manager(#[trigger] recipes[i], m)
}

/// Whether the collection already holds the given manager.
fn contains_manager(v: &Vec<PackageManager>, m: PackageManager) -> (b: bool)
    ensures
        b == v@.contains(m),
{
    let mut idx: usize = 0;
    while idx < v.len()
        invariant
            0 <= idx <= v@.len(),
            forall|t: int| 0 <= t < idx ==> v@[t] != m,
        decreases v@.len() - idx,
    {
        if v[idx] == m {
            return true;
        }
        idx = idx + 1;
    }
    false
}

/// Collect the package managers named by any package declaration of any
/// recipe: each declared manager exactly once, and nothing else.
pub fn collect_package_managers(recipes: &Vec<RecipeEntry>) -> (r: Vec<PackageManager>)
    ensures
        forall|m: PackageManager| r@.contains(m) <==> manager_declared(recipes@, m),
        forall|t1: int, t2: int| 0 <= t1 < t2 < r@.len() ==> r@[t1] != r@[t2],
{
    let mut found: Vec<PackageManager> = Vec::new();
    let mut i: usize = 0;
    while i < recipes.len()
        invariant
            0 <= i <= recipes@.len(),
            forall|m: PackageManager|
                found@.contains(m) <==> manager_declared(recipes@.take(i as int), m),
            forall|t1: int, t2: int| 0 <= t1 < t2 < found@.len() ==> found@[t1] != found@[t2],
        decreases recipes@.len() - i,
    {
        match &recipes[i].recipe.packages {
            Some(ps) => {
                let mut j: usize = 0;
                while j < ps.len()
                    invariant
                        0 <= j <= ps@.len(),
                        0 <= i < recipes@.len(),
                        recipes@[i as int].recipe.packages matches Some(pss) && pss@ == ps@,
                        forall|m: PackageManager|
                            found@.contains(m) <==> (manager_declared(recipes@.take(i as int), m)
                                || recipe_names_manager_upto(recipes@[i as int], j as int, m)),
                        forall|t1: int, t2: int|
                            0 <= t1 < t2 < found@.len() ==> found@[t1] != found@[t2],
                    decreases ps@.len() - j,
                {
                    match &ps[j].manager {
                        Some(ms) => {
                            let mut k: usize = 0;
                            while k < ms.len()
                                invariant
                                    0 <= k <= ms@.len(),
                                    0 <= i < recipes@.len(),
                                    0 <= j < ps@.len(),
                                    recipes@[i as int].recipe.packages matches Some(pss) && pss@
                                        == ps@,
                                    ps@[j as int].manager matches Some(mss) && mss@ == ms@,
                                    forall|m: PackageManager|
                                        found@.contains(m) <==> (manager_declared(
                                            recipes@.take(i as int),
                                            m,
                                        ) || recipe_names_manager_upto(
                                            recipes@[i as int],
                                            j as int,
                                            m,
                                        ) || packages_name_upto(ps@[j as int], k as int, m)),
                                    forall|t1: int, t2: int|
                                        0 <= t1 < t2 < found@.len() ==> found@[t1] != found@[t2],
                                decreases ms@.len() - k,
                            {
                                let ghost prev = found@;
                                let m = ms[k];
                                let already = contains_manager(&found, m);
                                if !already {
                                    found.push(m);
                                }
                                proof {
                                    assert forall|mm: PackageManager|
                                        found@.contains(mm) <==> (prev.contains(mm) || mm
                                            == m) by {
                                        if already {
                                            assert(found@ == prev);
                                        } else {
                                            assert(found@ == prev.push(m));
                                            assert(found@[prev.len() as int] == m);
                                            if found@.contains(mm) && mm != m {
                                                let t = choose|t: int|
                                                    0 <= t < found@.len() && found@[t] == mm;
                                                assert(t < prev.len());
                                                assert(prev[t] == mm);
                                            }
                                            if prev.contains(mm) {
                                                let t = choose|t: int|
                                                    0 <= t < prev.len() && prev[t] == mm;
                                                assert(found@[t] == mm);
                                            }
                                        }
                                    }
                                    assert forall|t1: int, t2: int|
                                        0 <= t1 < t2 < found@.len() implies found@[t1]
                                        != found@[t2] by {
                                        if !already {
                                            assert(found@ == prev.push(m));
                                            if t2 == prev.len() {
                                                assert(found@[t1] == prev[t1]);
                                                if prev[t1] == m {
                                                    assert(prev.contains(m));
                                                }
                                            } else {
                                                assert(found@[t1] == prev[t1]);
                                                assert(found@[t2] == prev[t2]);
                                            }
                                        }
                                    }
                                    assert(packages_name_upto(ps@[j as int], k + 1, m)) by {
                                        assert(ms@[k as int] == m);
                                    }
                                    assert forall|mm: PackageManager|
                                        found@.contains(mm) <==> (manager_declared(
                                            recipes@.take(i as int),
                                            mm,
                                        ) || recipe_names_manager_upto(
                                            recipes@[i as int],
                                            j as int,
                                            mm,
                                        ) || packages_name_upto(ps@[j as int], k + 1, mm)) by {
                                        assert(prev.contains(mm) <==> (manager_declared(
                                            recipes@.take(i as int),
                                            mm,
                                        ) || recipe_names_manager_upto(
                                            recipes@[i as int],
                                            j as int,
                                            mm,
                                        ) || packages_name_upto(ps@[j as int], k as int, mm)));
                                        assert(found@.contains(mm) <==> (prev.contains(mm) || mm
                                            == m));
                                        if packages_name_upto(ps@[j as int], k + 1, mm) && mm
                                            != m {
                                            let kk = choose|kk: int|
                                                0 <= kk < k + 1 && ms@[kk] == mm;
                                            assert(0 <= kk < k);
                                            assert(packages_name_upto(ps@[j as int], k as int, mm));
                                        }
                                        if packages_name_upto(ps@[j as int], k as int, mm) {
                                            let kk = choose|kk: int|
                                                0 <= kk < k && ms@[kk] == mm;
                                            assert(0 <= kk < k + 1 && ms@[kk] == mm);
                                            assert(packages_name_upto(ps@[j as int], k + 1, mm));
                                        }
                                        if mm == m {
                                            assert(packages_name_upto(ps@[j as int], k + 1, mm));
                                        }
                                    }
                                }
                                k = k + 1;
                            }
                            proof {
                                assert forall|mm: PackageManager|
                                    recipe_names_manager_upto(recipes@[i as int], j + 1, mm)
                                        <==> (recipe_names_manager_upto(
                                        recipes@[i as int],
                                        j as int,
                                        mm,
                                    ) || packages_name_upto(ps@[j as int], ms@.len() as int, mm)) by {
                                    if recipe_names_manager_upto(recipes@[i as int], j + 1, mm) {
                                        let jj = choose|jj: int|
                                            0 <= jj < j + 1 && packages_name(
                                                #[trigger] ps@[jj],
                                                mm,
                                            );
                                        if jj == j {
                                            assert(packages_name(ps@[j as int], mm));
                                        }
                                    }
                                    if packages_name_upto(ps@[j as int], ms@.len() as int, mm) {
                                        assert(packages_name(ps@[j as int], mm));
                                    }
                                    if recipe_names_manager_upto(recipes@[i as int], j as int, mm) {
                                        let jj = choose|jj: int|
                                            0 <= jj < j && packages_name(#[trigger] ps@[jj], mm);
                                        assert(0 <= jj < j + 1);
                                    }
                                }
                            }
                        },
                        None => {
                            proof {
                                assert forall|mm: PackageManager|
                                    recipe_names_manager_upto(recipes@[i as int], j + 1, mm)
                                        <==> recipe_names_manager_upto(
                                        recipes@[i as int],
                                        j as int,
                                        mm,
                                    ) by {
                                    if recipe_names_manager_upto(recipes@[i as int], j + 1, mm) {
                                        let jj = choose|jj: int|
                                            0 <= jj < j + 1 && packages_name(
                                                #[trigger] ps@[jj],
                                                mm,
                                            );
                                        if jj == j {
                                            assert(!packages_name(ps@[j as int], mm));
                                        }
                                    }
                                }
                            }
                        },
                    }
                    j = j + 1;
                }
                proof {
                    assert forall|mm: PackageManager|
                        manager_declared(recipes@.take(i + 1), mm) <==> (manager_declared(
                            recipes@.take(i as int),
                            mm,
                        ) || recipe_names_manager_upto(recipes@[i as int], ps@.len() as int, mm)) by {
                        lemma_declared_take_succ(recipes@, i as int, mm);
                        assert(recipe_names_manager(recipes@[i as int], mm)
                            <==> recipe_names_manager_upto(
                            recipes@[i as int],
                            ps@.len() as int,
                            mm,
                        ));
                    }
                }
            },
            None => {
                proof {
                    assert forall|mm: PackageManager|
                        manager_declared(recipes@.take(i + 1), mm) <==> manager_declared(
                            recipes@.take(i as int),
                            mm,
                        ) by {
                        lemma_declared_take_succ(recipes@, i as int, mm);
                        assert(!recipe_names_manager(recipes@[i as int], mm));
                    }
                }
            },
        }
        i = i + 1;
    }
    proof {
        assert(recipes@.take(recipes@.len() as int) =~= recipes@);
    }
    found
}

/// Extending the processed prefix by one recipe adds exactly that recipe's
/// declarations.
proof fn lemma_declared_take_succ(recipes: Seq<RecipeEntry>, i: int, m: PackageManager)
    requires
        0 <= i < recipes.len(),
    ensures
        manager_declared(recipes.take(i + 1), m) <==> (manager_declared(recipes.take(i), m)
            || recipe_names_manager(recipes[i], m)),
{
    if manager_declared(recipes.take(i + 1), m) {
        let ii = choose|ii: int|
            0 <= ii < recipes.take(i + 1).len() && recipe_names_manager(
                #[trigger] recipes.take(i + 1)[ii],
                m,
            );
        if ii < i {
            assert(recipes.take(i)[ii] == recipes.take(i + 1)[ii]);
            assert(manager_declared(recipes.take(i), m));
        } else {
            assert(recipes.take(i + 1)[ii] == recipes[i]);
        }
    }
    if manager_declared(recipes.take(i), m) {
        let ii = choose|ii: int|
            0 <= ii < recipes.take(i).len() && recipe_names_manager(
                #[trigger] recipes.take(i)[ii],
                m,
            );
        assert(recipes.take(i + 1)[ii] == recipes.take(i)[ii]);
        assert(manager_declared(recipes.take(i + 1), m));
    }
    if recipe_names_manager(recipes[i], m) {
        assert(recipes.take(i + 1)[i] == recipes[i]);
        assert(manager_declared(recipes.take(i + 1), m));
    }
}

} // verus!
