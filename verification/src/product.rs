use vstd::prelude::*;

use crate::error::ChainError;
use crate::stage::{stage_points, Stage};
use crate::store::sum_of;

verus! {

/// A product's composite ESG score, kept as an exact rational: the score
/// is `points / (3 * count)`, the mean over `count` stages of the mean of
/// each stage's three sub-scores. `count == 0` means no recomputation has
/// aggregated more than the stage the product was created with.
#[derive(Clone, Copy, Debug, PartialEq, Eq, Structural)]
pub struct EsgScore {
    pub points: u128,
    pub count: u64,
}

/// A product record: a plain entity owned by its entry in the store,
/// carrying the ordered stage ledger and the stakeholder set that alone
/// authorizes stage mutations.
pub struct Product {
    pub brand: String,
    pub title: String,
    pub image: String,
    pub summary: String,
    pub category: String,
    pub esg_score: EsgScore,
    pub administrator: String,
    pub stakeholders: Vec<String>,
    pub stages: Vec<Stage>,
}

/// The identity `id` is in the product's stakeholder set.
pub open spec fn spec_is_stakeholder(p: Product, id: Seq<char>) -> bool {
    exists|i: int| 0 <= i < p.stakeholders@.len() && p.stakeholders@[i]@ == id
}

/// Two products hold the same record: equal fields, with the two owned
/// sequences compared element for element.
pub open spec fn product_eqv(a: Product, b: Product) -> bool {
    &&& a.brand == b.brand
    &&& a.title == b.title
    &&& a.image == b.image
    &&& a.summary == b.summary
    &&& a.category == b.category
    &&& a.esg_score == b.esg_score
    &&& a.administrator == b.administrator
    &&& a.stakeholders@ == b.stakeholders@
    &&& a.stages@ == b.stages@
}

/// All fields of `a` and `b` agree except possibly the stage ledger.
pub open spec fn same_but_stages(a: Product, b: Product) -> bool {
    &&& a.brand == b.brand
    &&& a.title == b.title
    &&& a.image == b.image
    &&& a.summary == b.summary
    &&& a.category == b.category
    &&& a.esg_score == b.esg_score
    &&& a.administrator == b.administrator
    &&& a.stakeholders@ == b.stakeholders@
}

/// All fields of `a` and `b` agree except possibly the cached score.
pub open spec fn same_but_esg(a: Product, b: Product) -> bool {
    &&& a.brand == b.brand
    &&& a.title == b.title
    &&& a.image == b.image
    &&& a.summary == b.summary
    &&& a.category == b.category
    &&& a.administrator == b.administrator
    &&& a.stakeholders@ == b.stakeholders@
    &&& a.stages@ == b.stages@
}

/// The weight function for score sums.
pub open spec fn points_f() -> spec_fn(Stage) -> int {
    |s: Stage| stage_points(s)
}

/// The total score mass of a stage sequence: the sum of each stage's
/// three sub-scores.
pub open spec fn sum_points(ss: Seq<Stage>) -> int {
    sum_of(ss, points_f())
}

/// The slice a windowed read returns: up to `limit` stages beginning at
/// offset `start`; an offset at or past the end yields the empty sequence.
pub open spec fn window(s: Seq<Stage>, start: int, limit: int) -> Seq<Stage> {
    if start >= s.len() {
        Seq::<Stage>::empty()
    } else if start + limit >= s.len() {
        s.subrange(start, s.len() as int)
    } else {
        s.subrange(start, start + limit)
    }
}

/// Law: a windowed read starting at or past the end is empty for any
/// limit, and a windowed read of offset zero with the full length as the
/// limit returns the whole sequence in insertion order.
pub proof fn lemma_window_bounds(s: Seq<Stage>, start: int, limit: int)
    requires
        start >= 0,
        limit >= 0,
    ensures
        start >= s.len() ==> window(s, start, limit) == Seq::<Stage>::empty(),
        window(s, 0, s.len() as int) == s,
{
    assert(window(s, 0, s.len() as int) =~= s);
}

impl Clone for Product {
    fn clone(&self) -> (r: Self)
        ensures
            product_eqv(r, *self),
    {
        Product {
            brand: self.brand.clone(),
            title: self.title.clone(),
            image: self.image.clone(),
            summary: self.summary.clone(),
            category: self.category.clone(),
            esg_score: self.esg_score,
            administrator: self.administrator.clone(),
            stakeholders: clone_strings(&self.stakeholders),
            stages: clone_stages(&self.stages),
        }
    }
}

fn clone_strings(v: &Vec<String>) -> (r: Vec<String>)
    ensures
        r@ == v@,
{
    let mut r: Vec<String> = Vec::new();
    let mut i: usize = 0;
    while i < v.len()
        invariant
            i <= v.len(),
            r@ == v@.subrange(0, i as int),
        decreases v.len() - i,
    {
        r.push(v[i].clone());
        proof {
            assert(r@ =~= v@.subrange(0, i as int + 1));
        }
        i = i + 1;
    }
    proof {
        assert(v@.subrange(0, v@.len() as int) =~= v@);
    }
    r
}

fn clone_stages(v: &Vec<Stage>) -> (r: Vec<Stage>)
    ensures
        r@ == v@,
{
    let mut r: Vec<Stage> = Vec::new();
    let mut i: usize = 0;
    while i < v.len()
        invariant
            i <= v.len(),
            r@ == v@.subrange(0, i as int),
        decreases v.len() - i,
    {
        r.push(v[i].clone());
        proof {
            assert(r@ =~= v@.subrange(0, i as int + 1));
        }
        i = i + 1;
    }
    proof {
        assert(v@.subrange(0, v@.len() as int) =~= v@);
    }
    r
}

impl Default for Product {
    fn default() -> (r: Self)
        ensures
            r.brand@ == Seq::<char>::empty(),
            r.title@ == Seq::<char>::empty(),
            r.image@ == Seq::<char>::empty(),
            r.summary@ == Seq::<char>::empty(),
            r.category@ == Seq::<char>::empty(),
            r.esg_score == (EsgScore { points: 0, count: 0 }),
            r.administrator@ == Seq::<char>::empty(),
            r.stakeholders@ == Seq::<String>::empty(),
            r.stages@ == Seq::<Stage>::empty(),
    {
        let r = Product {
            brand: String::new(),
            title: String::new(),
            image: String::new(),
            summary: String::new(),
            category: String::new(),
            esg_score: EsgScore { points: 0, count: 0 },
            administrator: String::new(),
            stakeholders: Vec::new(),
            stages: Vec::new(),
        };
        proof {
            assert(r.stakeholders@ =~= Seq::<String>::empty());
            assert(r.stages@ =~= Seq::<Stage>::empty());
        }
        r
    }
}

impl Product {
    pub fn new_product(
        brand: String,
        title: String,
        image: String,
        summary: String,
        category: String,
        esg_score: EsgScore,
        administrator: String,
        stakeholders: Vec<String>,
    ) -> (r: Self)
        ensures
            r.brand == brand,
            r.title == title,
            r.image == image,
            r.summary == summary,
            r.category == category,
            r.esg_score == esg_score,
            r.administrator == administrator,
            r.stakeholders == stakeholders,
            r.stages@ == Seq::<Stage>::empty(),
    {
        let r = Product {
            brand,
            title,
            image,
            summary,
            category,
            esg_score,
            administrator,
            stakeholders,
            stages: Vec::new(),
        };
        proof {
            assert(r.stages@ =~= Seq::<Stage>::empty());
        }
        r
    }

    /// Appends a stage at the tail of the ledger, preserving insertion
    /// order; nothing else changes.
    pub fn add(
        &mut self,
        title: String,
        summary: String,
        location: String,
        date: u64,
        administrator: String,
        climate: u8,
        community: u8,
        nature: u8,
    )
        ensures
            same_but_stages(*final(self), *old(self)),
            final(self).stages@ == old(self).stages@.push(
                Stage {
                    title: title,
                    summary: summary,
                    location: location,
                    date: date,
                    administrator: administrator,
                    climate: climate,
                    community: community,
                    nature: nature,
                },
            ),
    {
        let stage = Stage::new(
            title,
            summary,
            location,
            date,
            administrator,
            climate,
            community,
            nature,
        );
        self.stages.push(stage);
    }

    /// The windowed read over the stage ledger: up to `limit` stages
    /// beginning at `start`; offsets beyond the end yield an empty vector,
    /// not an error.
    pub fn show(&self, start: u32, limit: u32) -> (r: Vec<Stage>)
        ensures
            r@ == window(self.stages@, start as int, limit as int),
    {
        let mut r: Vec<Stage> = Vec::new();
        let len = self.stages.len();
        let s = start as usize;
        if s >= len {
            proof {
                assert(r@ =~= window(self.stages@, start as int, limit as int));
            }
            return r;
        }
        let take: usize = if (limit as usize) < len - s {
            limit as usize
        } else {
            len - s
        };
        let mut i: usize = 0;
        while i < take
            invariant
                s + take <= self.stages@.len(),
                s + take <= usize::MAX,
                i <= take,
                r@ == self.stages@.subrange(s as int, s as int + i as int),
            decreases take - i,
        {
            r.push(self.stages[s + i].clone());
            proof {
                assert(r@ =~= self.stages@.subrange(s as int, s as int + i as int + 1));
            }
            i = i + 1;
        }
        proof {
            assert(r@ =~= window(self.stages@, start as int, limit as int));
        }
        r
    }

    /// Positional removal: takes out and returns the stage at `index`,
    /// shifting every later stage's position down by one. An index at or
    /// past the end is refused with `OutOfRange` and nothing changes.
    pub fn remove(&mut self, index: u64) -> (r: Result<Stage, ChainError>)
        ensures
            same_but_stages(*final(self), *old(self)),
            ({
                let n = old(self).stages@.len();
                if (index as int) < n {
                    match r {
                        Ok(st) => {
                            &&& st == old(self).stages@[index as int]
                            &&& final(self).stages@ == old(self).stages@.remove(index as int)
                            &&& final(self).stages@.len() == n - 1
                            &&& forall|j: int|
                                0 <= j < index as int ==> final(self).stages@[j]
                                    == old(self).stages@[j]
                            &&& forall|j: int|
                                (index as int) < j < n ==> final(self).stages@[j - 1]
                                    == old(self).stages@[j]
                        },
                        Err(_) => false,
                    }
                } else {
                    r == Err::<Stage, ChainError>(ChainError::OutOfRange) && *final(self) == *old(
                        self,
                    )
                }
            }),
    {
        let size: u64 = self.stages.len() as u64;
        if size == 0 || index >= size {
            return Err(ChainError::OutOfRange);
        }
        let st = self.stages.remove(index as usize);
        Ok(st)
    }

    /// Membership in the stakeholder set, the sole authorization set for
    /// stage mutations.
    pub fn is_stakeholder(&self, id: &String) -> (r: bool)
        ensures
            r == spec_is_stakeholder(*self, id@),
    {
        let mut i: usize = 0;
        while i < self.stakeholders.len()
            invariant
                i <= self.stakeholders@.len(),
                forall|j: int| 0 <= j < i as int ==> self.stakeholders@[j]@ != id@,
            decreases self.stakeholders@.len() - i,
        {
            if self.stakeholders[i] == *id {
                return true;
            }
            i = i + 1;
        }
        false
    }
}

} // verus!
