//! Baking from a recipe and a pantry: how many whole batches the pantry
//! allows, and what is left of it afterwards.

use vstd::prelude::*;

verus! {

/// A recipe and a pantry, each a list of (ingredient, amount) with no
/// ingredient listed twice.
pub struct TotalIngredient {
    pub recipe: Vec<(String, u64)>,
    pub pantry: Vec<(String, u64)>,
}

/// The number of batches baked, and the pantry that remains.
#[derive(Debug, PartialEq, Eq)]
pub struct BakedIngredient {
    pub cookies: u64,
    pub pantry: Vec<(String, u64)>,
}

/// No ingredient is listed twice.
pub open spec fn distinct_keys(entries: Seq<(String, u64)>) -> bool {
    forall|i: int, j: int|
        0 <= i < j < entries.len() ==> #[trigger] entries[i].0@ != #[trigger] entries[j].0@
}

/// Recipe entry `i` limits the batch count through pantry entry `j`: it
/// asks for a non-zero amount of an ingredient that the pantry holds.
pub open spec fn limits(recipe: Seq<(String, u64)>, pantry: Seq<(String, u64)>, i: int, j: int) -> bool {
    &&& 0 <= i < recipe.len()
    &&& 0 <= j < pantry.len()
    &&& recipe[i].1 != 0
    &&& pantry[j].0@ == recipe[i].0@
}

/// The batches that pantry entry `j` allows for recipe entry `i`.
pub open spec fn batches(recipe: Seq<(String, u64)>, pantry: Seq<(String, u64)>, i: int, j: int) -> int {
    pantry[j].1 as int / recipe[i].1 as int
}

/// `cookies` is the fewest batches over all limiting entries, or zero when
/// no entry limits.
pub open spec fn is_batch_count(recipe: Seq<(String, u64)>, pantry: Seq<(String, u64)>, cookies: int) -> bool {
    &&& forall|i: int, j: int| limits(recipe, pantry, i, j) ==> cookies <= batches(recipe, pantry, i, j)
    &&& (exists|i: int, j: int| limits(recipe, pantry, i, j)) ==> exists|i: int, j: int|
        limits(recipe, pantry, i, j) && cookies == batches(recipe, pantry, i, j)
    &&& !(exists|i: int, j: int| limits(recipe, pantry, i, j)) ==> cookies == 0
}

/// What remains of pantry entry `j` after `cookies` batches.
pub open spec fn remaining(recipe: Seq<(String, u64)>, pantry: Seq<(String, u64)>, cookies: int, j: int) -> int {
    if exists|i: int| 0 <= i < recipe.len() && recipe[i].0@ == pantry[j].0@ {
        let i = choose|i: int| 0 <= i < recipe.len() && recipe[i].0@ == pantry[j].0@;
        pantry[j].1 - recipe[i].1 * cookies
    } else {
        pantry[j].1 as int
    }
}

/// Position of `key` in a list of entries, if it is there.
fn find_key(entries: &Vec<(String, u64)>, key: &String) -> (r: Option<usize>)
    ensures
        match r {
            Some(j) => j < entries@.len() && entries@[j as int].0@ == key@,
            None => forall|j: int| 0 <= j < entries@.len() ==> entries@[j].0@ != key@,
        },
{
    let mut j: usize = 0;
    while j < entries.len()
        invariant
            j <= entries@.len(),
            forall|k: int| 0 <= k < j ==> entries@[k].0@ != key@,
        decreases entries@.len() - j,
    {
        if entries[j].0 == *key {
            return Some(j);
        }
        j = j + 1;
    }
    None
}

impl TotalIngredient {
    /// Bakes as many whole batches as the pantry allows and takes the
    /// used amounts out of the pantry. A recipe amount of zero, or an
    /// ingredient the pantry does not list, sets no limit; with no limit
    /// at all nothing is baked.
    pub fn bake(&self) -> (r: BakedIngredient)
        requires
            distinct_keys(self.recipe@),
            distinct_keys(self.pantry@),
        ensures
            is_batch_count(self.recipe@, self.pantry@, r.cookies as int),
            r.pantry@.len() == self.pantry@.len(),
            forall|j: int|
                0 <= j < r.pantry@.len() ==> #[trigger] r.pantry@[j].0 == self.pantry@[j].0
                    && r.pantry@[j].1 == remaining(
                    self.recipe@,
                    self.pantry@,
                    r.cookies as int,
                    j,
                ),
    {
        let ghost rs = self.recipe@;
        let ghost ps = self.pantry@;
        let mut best: Option<u64> = None;
        let mut i: usize = 0;
        while i < self.recipe.len()
            invariant
                rs == self.recipe@,
                ps == self.pantry@,
                distinct_keys(ps),
                i <= rs.len(),
                match best {
                    Some(b) => (forall|a: int, j: int|
                        0 <= a < i && limits(rs, ps, a, j) ==> b <= batches(rs, ps, a, j)) && exists|
                        a: int,
                        j: int,
                    | 0 <= a < i && limits(rs, ps, a, j) && b == batches(rs, ps, a, j),
                    None => forall|a: int, j: int| 0 <= a < i ==> !limits(rs, ps, a, j),
                },
            decreases rs.len() - i,
        {
            let amount = self.recipe[i].1;
            if amount != 0 {
                match find_key(&self.pantry, &self.recipe[i].0) {
                    Some(j) => {
                        let q = self.pantry[j].1 / amount;
                        assert(limits(rs, ps, i as int, j as int));
                        assert forall|j2: int| limits(rs, ps, i as int, j2) implies j2 == j by {
                            if j2 != j {
                                assert(ps[j2].0@ == ps[j as int].0@);
                            }
                        }
                        match best {
                            Some(b) => {
                                if q < b {
                                    best = Some(q);
                                }
                            },
                            None => {
                                best = Some(q);
                            },
                        }
                    },
                    None => {},
                }
            }
            i = i + 1;
        }
        let cookies: u64 = match best {
            Some(b) => b,
            None => 0,
        };
        assert(is_batch_count(rs, ps, cookies as int)) by {
            if best is None {
                assert(!(exists|a: int, j: int| limits(rs, ps, a, j)));
            }
        }
        let mut pantry: Vec<(String, u64)> = Vec::new();
        let mut j: usize = 0;
        while j < self.pantry.len()
            invariant
                rs == self.recipe@,
                ps == self.pantry@,
                distinct_keys(rs),
                is_batch_count(rs, ps, cookies as int),
                j <= ps.len(),
                pantry@.len() == j,
                forall|k: int|
                    0 <= k < j ==> #[trigger] pantry@[k].0 == ps[k].0 && pantry@[k].1 == remaining(
                        rs,
                        ps,
                        cookies as int,
                        k,
                    ),
            decreases ps.len() - j,
        {
            let name = self.pantry[j].0.clone();
            let have = self.pantry[j].1;
            let left: u64 = match find_key(&self.recipe, &name) {
                Some(i) => {
                    let need = self.recipe[i].1;
                    assert forall|i2: int|
                        0 <= i2 < rs.len() && rs[i2].0@ == ps[j as int].0@ implies i2 == i by {
                        if i2 != i {
                            assert(rs[i2].0@ == rs[i as int].0@);
                        }
                    }
                    if need == 0 {
                        have
                    } else {
                        assert(limits(rs, ps, i as int, j as int));
                        let c = cookies;
                        assert(c <= have / need);
                        assert(need * c <= have) by (nonlinear_arith)
                            requires
                                need > 0,
                                c <= have / need,
                        ;
                        have - need * c
                    }
                },
                None => have,
            };
            pantry.push((name, left));
            j = j + 1;
        }
        BakedIngredient { cookies, pantry }
    }
}

} // verus!
