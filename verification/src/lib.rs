pub mod brand;
pub mod error;
pub mod measure;
pub mod meter;
pub mod product;
pub mod stage;
pub mod store;

pub use brand::Brand;
pub use error::ChainError;
pub use meter::Settlement;
pub use product::{EsgScore, Product};
pub use stage::Stage;

use vstd::prelude::*;

use crate::measure::{
    brand_bytes, brand_entry_bytes_exec, product_bytes, single_product_entry_bytes_exec,
    stage_bytes, stage_bytes_exec, stage_bytes_f, str_bytes_f, ENTRY_FIXED_BYTES, ESG_FIXED_BYTES,
};
use crate::meter::{settle, settle_spec};
use crate::product::{product_eqv, same_but_esg, same_but_stages, spec_is_stakeholder, sum_points};
use crate::stage::stage_points;
use crate::store::{
    has_key, key_at, keys_unique, lemma_found_key_is_at, lemma_sum_elem_le, lemma_sum_nonneg,
    lemma_sum_push, lemma_sum_remove, lemma_sum_update, lemma_unique_push, lemma_unique_remove,
    lemma_unique_update, sum_of,
};

verus! {

/// A keyed brand record in the entity store.
pub struct BrandEntry {
    pub brand_id: String,
    pub brand: Brand,
}

/// A keyed product record in the entity store.
pub struct ProductEntry {
    pub product_id: String,
    pub product: Product,
}

impl Clone for BrandEntry {
    fn clone(&self) -> (r: Self)
        ensures
            r == *self,
    {
        BrandEntry { brand_id: self.brand_id.clone(), brand: self.brand.clone() }
    }
}

/// The key of a brand entry.
pub open spec fn brand_key_f() -> spec_fn(BrandEntry) -> Seq<char> {
    |e: BrandEntry| e.brand_id@
}

/// The key of a product entry.
pub open spec fn product_key_f() -> spec_fn(ProductEntry) -> Seq<char> {
    |e: ProductEntry| e.product_id@
}

/// Some brand entry carries the key `k`.
pub open spec fn has_brand(s: Seq<BrandEntry>, k: Seq<char>) -> bool {
    has_key(s, brand_key_f(), k)
}

/// The index of the brand entry carrying `k`.
pub open spec fn brand_at(s: Seq<BrandEntry>, k: Seq<char>) -> int {
    key_at(s, brand_key_f(), k)
}

/// Some product entry carries the key `k`.
pub open spec fn has_product(s: Seq<ProductEntry>, k: Seq<char>) -> bool {
    has_key(s, product_key_f(), k)
}

/// The index of the product entry carrying `k`.
pub open spec fn product_at(s: Seq<ProductEntry>, k: Seq<char>) -> int {
    key_at(s, product_key_f(), k)
}

/// The bytes a brand entry occupies in the store.
pub open spec fn brand_entry_bytes(e: BrandEntry) -> int {
    e.brand_id@.len() + brand_bytes(e.brand) + ENTRY_FIXED_BYTES
}

/// The weight function for sums over the brand store.
pub open spec fn brand_entry_f() -> spec_fn(BrandEntry) -> int {
    |e: BrandEntry| brand_entry_bytes(e)
}

/// The bytes a product entry occupies in the store.
pub open spec fn product_entry_bytes(e: ProductEntry) -> int {
    e.product_id@.len() + product_bytes(e.product) + ENTRY_FIXED_BYTES
}

/// The weight function for sums over the product store.
pub open spec fn product_entry_f() -> spec_fn(ProductEntry) -> int {
    |e: ProductEntry| product_entry_bytes(e)
}

/// Entry weights are non-negative.
pub proof fn lemma_entry_weights_nonneg()
    ensures
        forall|e: BrandEntry| #[trigger] brand_entry_f()(e) >= 0,
        forall|e: ProductEntry| #[trigger] product_entry_f()(e) >= 0,
{
    crate::measure::lemma_measures_nonneg();
}

/// The whole record store: the state one call receives and the next call
/// starts from. `storage_usage` is the byte usage the host would measure
/// for this state; it equals the measure of the two stores at every call
/// boundary.
pub struct CircularChain {
    pub brands: Vec<BrandEntry>,
    pub products: Vec<ProductEntry>,
    pub storage_usage: u64,
}

impl CircularChain {
    /// The measured bytes of the whole state.
    pub open spec fn total_bytes(self) -> int {
        sum_of(self.brands@, brand_entry_f()) + sum_of(self.products@, product_entry_f())
    }

    /// Well-formedness: keys are pairwise distinct in each store, and the
    /// usage counter equals the measure of the state.
    pub open spec fn wf(self) -> bool {
        &&& keys_unique(self.brands@, brand_key_f())
        &&& keys_unique(self.products@, product_key_f())
        &&& self.storage_usage == self.total_bytes()
    }
}

impl Default for CircularChain {
    fn default() -> (r: Self)
        ensures
            r.wf(),
            r.brands@ == Seq::<BrandEntry>::empty(),
            r.products@ == Seq::<ProductEntry>::empty(),
            r.storage_usage == 0,
    {
        let r = CircularChain { brands: Vec::new(), products: Vec::new(), storage_usage: 0 };
        proof {
            assert(r.brands@ =~= Seq::<BrandEntry>::empty());
            assert(r.products@ =~= Seq::<ProductEntry>::empty());
            assert(sum_of(r.brands@, brand_entry_f()) == 0);
            assert(sum_of(r.products@, product_entry_f()) == 0);
        }
        r
    }
}

/// The brand record a read of `k` yields, if any.
pub open spec fn spec_read_brand(c: CircularChain, k: Seq<char>) -> Option<Brand> {
    if has_brand(c.brands@, k) {
        Some(c.brands@[brand_at(c.brands@, k)].brand)
    } else {
        None
    }
}

/// The product record a read of `k` yields, if any.
pub open spec fn spec_read_product(c: CircularChain, k: Seq<char>) -> Option<Product> {
    if has_product(c.products@, k) {
        Some(c.products@[product_at(c.products@, k)].product)
    } else {
        None
    }
}

/// Law: reads are idempotent. Two states whose stores are equal answer
/// every read alike; in particular, two reads of one unchanged state
/// return equal records.
pub proof fn lemma_read_idempotent(c1: CircularChain, c2: CircularChain, k: Seq<char>)
    requires
        c1.brands@ == c2.brands@,
        c1.products@ == c2.products@,
    ensures
        spec_read_brand(c1, k) == spec_read_brand(c2, k),
        spec_read_product(c1, k) == spec_read_product(c2, k),
{
}

fn find_brand(v: &Vec<BrandEntry>, key: &String) -> (r: Option<usize>)
    ensures
        match r {
            Some(i) => i < v@.len() && v@[i as int].brand_id@ == key@,
            None => !has_brand(v@, key@),
        },
{
    let mut i: usize = 0;
    while i < v.len()
        invariant
            i <= v@.len(),
            forall|j: int| 0 <= j < i as int ==> v@[j].brand_id@ != key@,
        decreases v@.len() - i,
    {
        if v[i].brand_id == *key {
            return Some(i);
        }
        i = i + 1;
    }
    None
}

fn find_product(v: &Vec<ProductEntry>, key: &String) -> (r: Option<usize>)
    ensures
        match r {
            Some(i) => i < v@.len() && v@[i as int].product_id@ == key@,
            None => !has_product(v@, key@),
        },
{
    let mut i: usize = 0;
    while i < v.len()
        invariant
            i <= v@.len(),
            forall|j: int| 0 <= j < i as int ==> v@[j].product_id@ != key@,
        decreases v@.len() - i,
    {
        if v[i].product_id == *key {
            return Some(i);
        }
        i = i + 1;
    }
    None
}

impl CircularChain {
    /// Reads one brand record; absent keys yield nothing, not a fault.
    pub fn read_brand(&self, brand_id: String) -> (r: Option<Brand>)
        requires
            self.wf(),
        ensures
            r == spec_read_brand(*self, brand_id@),
    {
        match find_brand(&self.brands, &brand_id) {
            Some(i) => {
                proof {
                    lemma_found_key_is_at(self.brands@, brand_key_f(), brand_id@, i as int);
                }
                Some(self.brands[i].brand.clone())
            },
            None => None,
        }
    }

    /// A full snapshot of the brand store.
    pub fn read_brands(&self) -> (r: Vec<BrandEntry>)
        ensures
            r@ == self.brands@,
    {
        let mut r: Vec<BrandEntry> = Vec::new();
        let mut i: usize = 0;
        while i < self.brands.len()
            invariant
                i <= self.brands@.len(),
                r@ == self.brands@.subrange(0, i as int),
            decreases self.brands@.len() - i,
        {
            r.push(self.brands[i].clone());
            proof {
                assert(r@ =~= self.brands@.subrange(0, i as int + 1));
            }
            i = i + 1;
        }
        proof {
            assert(self.brands@.subrange(0, self.brands@.len() as int) =~= self.brands@);
        }
        r
    }

    /// Reads one product record; absent keys yield nothing, not a fault.
    pub fn read_product(&self, product_id: String) -> (r: Option<Product>)
        requires
            self.wf(),
        ensures
            match r {
                Some(p) => {
                    &&& has_product(self.products@, product_id@)
                    &&& product_eqv(p, spec_read_product(*self, product_id@)->Some_0)
                },
                None => !has_product(self.products@, product_id@),
            },
    {
        match find_product(&self.products, &product_id) {
            Some(i) => {
                proof {
                    lemma_found_key_is_at(self.products@, product_key_f(), product_id@, i as int);
                }
                Some(self.products[i].product.clone())
            },
            None => None,
        }
    }

    /// A full snapshot of the product store.
    pub fn read_products(&self) -> (r: Vec<ProductEntry>)
        ensures
            r@.len() == self.products@.len(),
            forall|j: int|
                0 <= j < self.products@.len() ==> #[trigger] r@[j].product_id
                    == self.products@[j].product_id && product_eqv(
                    r@[j].product,
                    self.products@[j].product,
                ),
    {
        let mut r: Vec<ProductEntry> = Vec::new();
        let mut i: usize = 0;
        while i < self.products.len()
            invariant
                i <= self.products@.len(),
                r@.len() == i,
                forall|j: int|
                    0 <= j < i as int ==> #[trigger] r@[j].product_id
                        == self.products@[j].product_id && product_eqv(
                        r@[j].product,
                        self.products@[j].product,
                    ),
            decreases self.products@.len() - i,
        {
            let e = ProductEntry {
                product_id: self.products[i].product_id.clone(),
                product: self.products[i].product.clone(),
            };
            r.push(e);
            i = i + 1;
        }
        r
    }

    /// The windowed read over a product's stage ledger: up to `limit`
    /// stages from offset `start`. A missing product, like an offset past
    /// the end, degrades to an empty answer rather than a fault.
    pub fn read_stages(&self, product_id: String, start: u32, limit: u32) -> (r: Option<
        Vec<Stage>,
    >)
        requires
            self.wf(),
        ensures
            match r {
                Some(v) => {
                    if has_product(self.products@, product_id@) {
                        v@ == crate::product::window(
                            self.products@[product_at(self.products@, product_id@)].product.stages@,
                            start as int,
                            limit as int,
                        )
                    } else {
                        v@ == Seq::<Stage>::empty()
                    }
                },
                None => false,
            },
    {
        match find_product(&self.products, &product_id) {
            Some(i) => {
                proof {
                    lemma_found_key_is_at(self.products@, product_key_f(), product_id@, i as int);
                }
                Some(self.products[i].product.show(start, limit))
            },
            None => {
                let v: Vec<Stage> = Vec::new();
                proof {
                    assert(v@ =~= Seq::<Stage>::empty());
                }
                Some(v)
            },
        }
    }
}

/// The bytes the entry created by a first `add_stage` call occupies: the
/// caller becomes administrator and sole stakeholder, and the ledger
/// holds the one stage the call brought.
pub open spec fn created_product_entry_bytes(
    product_id: Seq<char>,
    brand: Seq<char>,
    title: Seq<char>,
    image: Seq<char>,
    summary: Seq<char>,
    category: Seq<char>,
    caller: Seq<char>,
    stg: Stage,
) -> int {
    product_id.len() + brand.len() + title.len() + image.len() + summary.len() + category.len()
        + caller.len() + ESG_FIXED_BYTES + caller.len() + stage_bytes(stg) + ENTRY_FIXED_BYTES
}

impl CircularChain {
    /// Appends a provenance stage to the product under `product_id`, or
    /// creates that product around the stage if the key is absent. The
    /// caller must be a stakeholder of an existing product; the creator of
    /// a fresh one becomes its administrator and sole stakeholder. The
    /// grown bytes are settled against the deposit: the call commits and
    /// returns the settlement, or returns a fault with the state exactly
    /// as it was.
    pub fn add_stage(
        &mut self,
        caller: String,
        deposit: u128,
        unit_price: u128,
        now: u64,
        title: String,
        summary: String,
        location: String,
        climate: u8,
        community: u8,
        nature: u8,
        product_id: String,
        product_brand_title: String,
        product_image: String,
        product_title: String,
        product_summary: String,
        product_category: String,
    ) -> (r: Result<Settlement, ChainError>)
        requires
            old(self).wf(),
        ensures
            final(self).wf(),
            final(self).brands@ == old(self).brands@,
            ({
                let ps = old(self).products@;
                let k = product_id@;
                let stg = (Stage {
                    title: title,
                    summary: summary,
                    location: location,
                    date: now,
                    administrator: caller,
                    climate: climate,
                    community: community,
                    nature: nature,
                });
                if has_product(ps, k) {
                    let i = product_at(ps, k);
                    let op = ps[i].product;
                    if !spec_is_stakeholder(op, caller@) {
                        r == Err::<Settlement, ChainError>(ChainError::Unauthorized) && *final(self)
                            == *old(self)
                    } else {
                        let nu = old(self).storage_usage + stage_bytes(stg);
                        if nu > u64::MAX {
                            r == Err::<Settlement, ChainError>(ChainError::StorageCostOverflow)
                                && *final(self) == *old(self)
                        } else {
                            match settle_spec(
                                old(self).storage_usage,
                                nu as u64,
                                unit_price,
                                deposit,
                            ) {
                                Ok(s) => {
                                    &&& r == Ok::<Settlement, ChainError>(s)
                                    &&& final(self).products@.len() == ps.len()
                                    &&& (forall|j: int|
                                        0 <= j < ps.len() && j != i ==> final(self).products@[j]
                                            == ps[j])
                                    &&& final(self).products@[i].product_id == ps[i].product_id
                                    &&& same_but_stages(final(self).products@[i].product, op)
                                    &&& final(self).products@[i].product.stages@ == op.stages@.push(
                                        stg,
                                    )
                                    &&& final(self).storage_usage == nu
                                },
                                Err(e) => r == Err::<Settlement, ChainError>(e) && *final(self)
                                    == *old(self),
                            }
                        }
                    }
                } else {
                    let eb = created_product_entry_bytes(
                        k,
                        product_brand_title@,
                        product_title@,
                        product_image@,
                        product_summary@,
                        product_category@,
                        caller@,
                        stg,
                    );
                    let nu = old(self).storage_usage + eb;
                    if nu > u64::MAX {
                        r == Err::<Settlement, ChainError>(ChainError::StorageCostOverflow)
                            && *final(self) == *old(self)
                    } else {
                        match settle_spec(old(self).storage_usage, nu as u64, unit_price, deposit) {
                            Ok(s) => {
                                &&& r == Ok::<Settlement, ChainError>(s)
                                &&& final(self).products@.len() == ps.len() + 1
                                &&& final(self).products@.subrange(0, ps.len() as int) == ps
                                &&& ({
                                    let ne = final(self).products@[ps.len() as int];
                                    &&& ne.product_id == product_id
                                    &&& ne.product.brand == product_brand_title
                                    &&& ne.product.title == product_title
                                    &&& ne.product.image == product_image
                                    &&& ne.product.summary == product_summary
                                    &&& ne.product.category == product_category
                                    &&& ne.product.administrator == caller
                                    &&& ne.product.stakeholders@.len() == 1
                                    &&& ne.product.stakeholders@[0] == caller
                                    &&& ne.product.stages@ == seq![stg]
                                    &&& ne.product.esg_score.points == stage_points(stg)
                                    &&& ne.product.esg_score.count == 1
                                })
                                &&& final(self).storage_usage == nu
                            },
                            Err(e) => r == Err::<Settlement, ChainError>(e) && *final(self)
                                == *old(self),
                        }
                    }
                }
            }),
    {
        match find_product(&self.products, &product_id) {
            Some(i) => {
                proof {
                    lemma_found_key_is_at(self.products@, product_key_f(), product_id@, i as int);
                }
                if !self.products[i].product.is_stakeholder(&caller) {
                    return Err(ChainError::Unauthorized);
                }
                let stage = Stage::new(
                    title,
                    summary,
                    location,
                    now,
                    caller,
                    climate,
                    community,
                    nature,
                );
                let sb = match stage_bytes_exec(&stage) {
                    Some(b) => b,
                    None => {
                        return Err(ChainError::StorageCostOverflow);
                    },
                };
                let nu = match self.storage_usage.checked_add(sb) {
                    Some(n) => n,
                    None => {
                        return Err(ChainError::StorageCostOverflow);
                    },
                };
                let settlement = match settle(self.storage_usage, nu, unit_price, deposit) {
                    Ok(s) => s,
                    Err(e) => {
                        return Err(e);
                    },
                };
                let ghost oldp = self.products@;
                let mut e = self.products.remove(i);
                e.product.stages.push(stage);
                self.products.insert(i, e);
                self.storage_usage = nu;
                proof {
                    let ghost ne = self.products@[i as int];
                    assert(self.products@ =~= oldp.update(i as int, ne));
                    lemma_unique_update(oldp, product_key_f(), i as int, ne);
                    lemma_sum_update(oldp, product_entry_f(), i as int, ne);
                    lemma_sum_push(oldp[i as int].product.stages@, stage_bytes_f(), stage);
                }
                Ok(settlement)
            },
            None => {
                let stage = Stage::new(
                    title,
                    summary,
                    location,
                    now,
                    caller.clone(),
                    climate,
                    community,
                    nature,
                );
                let points: u16 = climate as u16 + community as u16 + nature as u16;
                let esg = EsgScore { points: points as u128, count: 1 };
                let mut stakeholders: Vec<String> = Vec::new();
                stakeholders.push(caller.clone());
                let mut product = Product::new_product(
                    product_brand_title,
                    product_title,
                    product_image,
                    product_summary,
                    product_category,
                    esg,
                    caller,
                    stakeholders,
                );
                product.stages.push(stage);
                proof {
                    assert(product.stages@ =~= seq![stage]);
                    assert(product.stakeholders@.len() == 1);
                    assert(product.stakeholders@.drop_first() =~= Seq::<String>::empty());
                    assert(product.stages@.drop_first() =~= Seq::<Stage>::empty());
                    assert(sum_of(Seq::<String>::empty(), str_bytes_f()) == 0);
                    assert(sum_of(Seq::<Stage>::empty(), stage_bytes_f()) == 0);
                    assert(sum_of(product.stakeholders@, str_bytes_f()) == str_bytes_f()(
                        product.stakeholders@[0],
                    ) + sum_of(product.stakeholders@.drop_first(), str_bytes_f()));
                    assert(sum_of(product.stages@, stage_bytes_f()) == stage_bytes_f()(
                        product.stages@[0],
                    ) + sum_of(product.stages@.drop_first(), stage_bytes_f()));
                }
                let eb = match single_product_entry_bytes_exec(&product_id, &product) {
                    Some(b) => b,
                    None => {
                        return Err(ChainError::StorageCostOverflow);
                    },
                };
                let nu = match self.storage_usage.checked_add(eb) {
                    Some(n) => n,
                    None => {
                        return Err(ChainError::StorageCostOverflow);
                    },
                };
                let settlement = match settle(self.storage_usage, nu, unit_price, deposit) {
                    Ok(s) => s,
                    Err(e) => {
                        return Err(e);
                    },
                };
                let ghost oldp = self.products@;
                let ne = ProductEntry { product_id, product };
                self.products.push(ne);
                self.storage_usage = nu;
                proof {
                    let ghost nev = self.products@[oldp.len() as int];
                    assert(self.products@ =~= oldp.push(nev));
                    lemma_unique_push(oldp, product_key_f(), nev);
                    lemma_sum_push(oldp, product_entry_f(), nev);
                    assert(self.products@.subrange(0, oldp.len() as int) =~= oldp);
                }
                Ok(settlement)
            },
        }
    }
}

impl CircularChain {
    /// Recomputes the product's composite score: the mean over its stages
    /// of each stage's mean of climate, community and nature, kept as the
    /// exact rational `points / (3 * count)`. Only the administrator may
    /// trigger it; a product with no stages is refused with
    /// `EmptyStageSet` rather than dividing by zero; a missing key is a
    /// no-op, as on the read paths. No bytes change, so nothing is
    /// settled.
    pub fn update_esg_score(&mut self, caller: String, product_id: String) -> (r: Result<
        (),
        ChainError,
    >)
        requires
            old(self).wf(),
        ensures
            final(self).wf(),
            final(self).brands@ == old(self).brands@,
            final(self).storage_usage == old(self).storage_usage,
            ({
                let ps = old(self).products@;
                let k = product_id@;
                if !has_product(ps, k) {
                    r == Ok::<(), ChainError>(()) && *final(self) == *old(self)
                } else {
                    let i = product_at(ps, k);
                    let op = ps[i].product;
                    if op.administrator@ != caller@ {
                        r == Err::<(), ChainError>(ChainError::Unauthorized) && *final(self)
                            == *old(self)
                    } else if op.stages@.len() == 0 {
                        r == Err::<(), ChainError>(ChainError::EmptyStageSet) && *final(self)
                            == *old(self)
                    } else {
                        &&& r == Ok::<(), ChainError>(())
                        &&& final(self).products@.len() == ps.len()
                        &&& (forall|j: int|
                            0 <= j < ps.len() && j != i ==> final(self).products@[j] == ps[j])
                        &&& final(self).products@[i].product_id == ps[i].product_id
                        &&& same_but_esg(final(self).products@[i].product, op)
                        &&& final(self).products@[i].product.esg_score.points == sum_points(
                            op.stages@,
                        )
                        &&& final(self).products@[i].product.esg_score.count == op.stages@.len()
                    }
                }
            }),
    {
        match find_product(&self.products, &product_id) {
            None => Ok(()),
            Some(i) => {
                proof {
                    lemma_found_key_is_at(self.products@, product_key_f(), product_id@, i as int);
                }
                if !(self.products[i].product.administrator == caller) {
                    return Err(ChainError::Unauthorized);
                }
                let n = self.products[i].product.stages.len();
                if n == 0 {
                    return Err(ChainError::EmptyStageSet);
                }
                let ghost stages = self.products@[i as int].product.stages@;
                let mut acc: u128 = 0;
                let mut j: usize = 0;
                proof {
                    assert(stages.subrange(0, 0) =~= Seq::<Stage>::empty());
                }
                while j < n
                    invariant
                        j <= n,
                        n == stages.len(),
                        i < self.products@.len(),
                        stages == self.products@[i as int].product.stages@,
                        acc == sum_points(stages.subrange(0, j as int)),
                        acc <= 765 * j,
                    decreases n - j,
                {
                    let st = &self.products[i].product.stages[j];
                    let pts: u16 = st.climate as u16 + st.community as u16 + st.nature as u16;
                    proof {
                        crate::store::lemma_sum_push(
                            stages.subrange(0, j as int),
                            crate::product::points_f(),
                            stages[j as int],
                        );
                        assert(stages.subrange(0, j as int).push(stages[j as int]) =~= stages
                            .subrange(0, j as int + 1));
                    }
                    acc = acc + pts as u128;
                    j = j + 1;
                }
                proof {
                    assert(stages.subrange(0, n as int) =~= stages);
                }
                let ghost oldp = self.products@;
                let mut e = self.products.remove(i);
                e.product.esg_score = EsgScore { points: acc, count: n as u64 };
                self.products.insert(i, e);
                proof {
                    let ghost ne = self.products@[i as int];
                    assert(self.products@ =~= oldp.update(i as int, ne));
                    lemma_unique_update(oldp, product_key_f(), i as int, ne);
                    lemma_sum_update(oldp, product_entry_f(), i as int, ne);
                    assert(product_entry_bytes(ne) == product_entry_bytes(oldp[i as int]));
                }
                Ok(())
            },
        }
    }

    /// Positional stage removal under the stakeholder policy. The freed
    /// bytes are refunded at the unit price; the removed stage and the
    /// settlement come back so the host can pay the caller. A missing
    /// product yields nothing; a bad index or an unauthorized caller is a
    /// fault that changes nothing.
    pub fn delete_stage(
        &mut self,
        caller: String,
        unit_price: u128,
        product_id: String,
        id: u64,
    ) -> (r: Result<Option<(Stage, Settlement)>, ChainError>)
        requires
            old(self).wf(),
        ensures
            final(self).wf(),
            final(self).brands@ == old(self).brands@,
            ({
                let ps = old(self).products@;
                let k = product_id@;
                if !has_product(ps, k) {
                    r == Ok::<Option<(Stage, Settlement)>, ChainError>(None) && *final(self)
                        == *old(self)
                } else {
                    let i = product_at(ps, k);
                    let op = ps[i].product;
                    if !spec_is_stakeholder(op, caller@) {
                        r == Err::<Option<(Stage, Settlement)>, ChainError>(
                            ChainError::Unauthorized,
                        ) && *final(self) == *old(self)
                    } else if id as int >= op.stages@.len() {
                        r == Err::<Option<(Stage, Settlement)>, ChainError>(ChainError::OutOfRange)
                            && *final(self) == *old(self)
                    } else {
                        let stg = op.stages@[id as int];
                        match settle_spec(
                            old(self).storage_usage,
                            (old(self).storage_usage - stage_bytes(stg)) as u64,
                            unit_price,
                            0,
                        ) {
                            Ok(s) => {
                                &&& r == Ok::<Option<(Stage, Settlement)>, ChainError>(
                                    Some((stg, s)),
                                )
                                &&& final(self).products@.len() == ps.len()
                                &&& (forall|j: int|
                                    0 <= j < ps.len() && j != i ==> final(self).products@[j]
                                        == ps[j])
                                &&& final(self).products@[i].product_id == ps[i].product_id
                                &&& same_but_stages(final(self).products@[i].product, op)
                                &&& final(self).products@[i].product.stages@ == op.stages@.remove(
                                    id as int,
                                )
                                &&& final(self).storage_usage == old(self).storage_usage
                                    - stage_bytes(stg)
                            },
                            Err(e) => r == Err::<Option<(Stage, Settlement)>, ChainError>(e)
                                && *final(self) == *old(self),
                        }
                    }
                }
            }),
    {
        match find_product(&self.products, &product_id) {
            None => Ok(None),
            Some(i) => {
                proof {
                    lemma_found_key_is_at(self.products@, product_key_f(), product_id@, i as int);
                }
                if !self.products[i].product.is_stakeholder(&caller) {
                    return Err(ChainError::Unauthorized);
                }
                let n = self.products[i].product.stages.len();
                if id >= n as u64 {
                    return Err(ChainError::OutOfRange);
                }
                proof {
                    crate::measure::lemma_measures_nonneg();
                    lemma_entry_weights_nonneg();
                    let ghost op = self.products@[i as int].product;
                    lemma_sum_elem_le(op.stages@, stage_bytes_f(), id as int);
                    lemma_sum_nonneg(op.stakeholders@, str_bytes_f());
                    lemma_sum_elem_le(self.products@, product_entry_f(), i as int);
                    lemma_sum_nonneg(self.brands@, brand_entry_f());
                }
                let sb = match stage_bytes_exec(&self.products[i].product.stages[id as usize]) {
                    Some(b) => b,
                    None => {
                        return Err(ChainError::StorageCostOverflow);
                    },
                };
                let su = self.storage_usage - sb;
                let settlement = match settle(self.storage_usage, su, unit_price, 0) {
                    Ok(s) => s,
                    Err(e) => {
                        return Err(e);
                    },
                };
                let ghost oldp = self.products@;
                let mut e = self.products.remove(i);
                let st = e.product.stages.remove(id as usize);
                self.products.insert(i, e);
                self.storage_usage = su;
                proof {
                    let ghost ne = self.products@[i as int];
                    assert(self.products@ =~= oldp.update(i as int, ne));
                    lemma_unique_update(oldp, product_key_f(), i as int, ne);
                    lemma_sum_update(oldp, product_entry_f(), i as int, ne);
                    lemma_sum_remove(oldp[i as int].product.stages@, stage_bytes_f(), id as int);
                }
                Ok(Some((st, settlement)))
            },
        }
    }
}

impl CircularChain {
    /// Creates the brand under `brand_id`, or updates it when the key is
    /// present. The creator becomes the publisher; only the publisher may
    /// update, and the publisher identity itself never changes. The byte
    /// delta — growth or shrink, since an update may shorten the record —
    /// is settled against the deposit; the call commits with its
    /// settlement or faults with the state exactly as it was.
    pub fn create_or_update_brand(
        &mut self,
        caller: String,
        deposit: u128,
        unit_price: u128,
        brand_id: String,
        image: String,
        title: String,
        summary: String,
        industry: String,
        region: String,
    ) -> (r: Result<Settlement, ChainError>)
        requires
            old(self).wf(),
        ensures
            final(self).wf(),
            final(self).products@ == old(self).products@,
            ({
                let bs = old(self).brands@;
                let k = brand_id@;
                if !has_brand(bs, k) {
                    let ne = (BrandEntry {
                        brand_id: brand_id,
                        brand: Brand {
                            image: image,
                            title: title,
                            summary: summary,
                            industry: industry,
                            region: region,
                            publisher: caller,
                        },
                    });
                    let nu = old(self).storage_usage + brand_entry_bytes(ne);
                    if nu > u64::MAX {
                        r == Err::<Settlement, ChainError>(ChainError::StorageCostOverflow)
                            && *final(self) == *old(self)
                    } else {
                        match settle_spec(old(self).storage_usage, nu as u64, unit_price, deposit) {
                            Ok(s) => {
                                &&& r == Ok::<Settlement, ChainError>(s)
                                &&& final(self).brands@ == bs.push(ne)
                                &&& final(self).storage_usage == nu
                            },
                            Err(e) => r == Err::<Settlement, ChainError>(e) && *final(self)
                                == *old(self),
                        }
                    }
                } else {
                    let i = brand_at(bs, k);
                    let ob = bs[i].brand;
                    if ob.publisher@ != caller@ {
                        r == Err::<Settlement, ChainError>(ChainError::Unauthorized) && *final(self)
                            == *old(self)
                    } else {
                        let ne = (BrandEntry {
                            brand_id: bs[i].brand_id,
                            brand: Brand {
                                image: image,
                                title: title,
                                summary: summary,
                                industry: industry,
                                region: region,
                                publisher: ob.publisher,
                            },
                        });
                        let nu = old(self).storage_usage - brand_entry_bytes(bs[i])
                            + brand_entry_bytes(ne);
                        if nu > u64::MAX {
                            r == Err::<Settlement, ChainError>(ChainError::StorageCostOverflow)
                                && *final(self) == *old(self)
                        } else {
                            match settle_spec(
                                old(self).storage_usage,
                                nu as u64,
                                unit_price,
                                deposit,
                            ) {
                                Ok(s) => {
                                    &&& r == Ok::<Settlement, ChainError>(s)
                                    &&& final(self).brands@ == bs.update(i, ne)
                                    &&& final(self).storage_usage == nu
                                },
                                Err(e) => r == Err::<Settlement, ChainError>(e) && *final(self)
                                    == *old(self),
                            }
                        }
                    }
                }
            }),
    {
        match find_brand(&self.brands, &brand_id) {
            None => {
                let nb = Brand::new(image, title, summary, industry, region, caller);
                let eb = match brand_entry_bytes_exec(&brand_id, &nb) {
                    Some(b) => b,
                    None => {
                        return Err(ChainError::StorageCostOverflow);
                    },
                };
                let nu = match self.storage_usage.checked_add(eb) {
                    Some(n) => n,
                    None => {
                        return Err(ChainError::StorageCostOverflow);
                    },
                };
                let settlement = match settle(self.storage_usage, nu, unit_price, deposit) {
                    Ok(s) => s,
                    Err(e) => {
                        return Err(e);
                    },
                };
                let ghost oldb = self.brands@;
                self.brands.push(BrandEntry { brand_id, brand: nb });
                self.storage_usage = nu;
                proof {
                    let ghost ne = self.brands@[oldb.len() as int];
                    assert(self.brands@ =~= oldb.push(ne));
                    lemma_unique_push(oldb, brand_key_f(), ne);
                    lemma_sum_push(oldb, brand_entry_f(), ne);
                }
                Ok(settlement)
            },
            Some(i) => {
                proof {
                    lemma_found_key_is_at(self.brands@, brand_key_f(), brand_id@, i as int);
                }
                if !(self.brands[i].brand.publisher == caller) {
                    return Err(ChainError::Unauthorized);
                }
                proof {
                    crate::measure::lemma_measures_nonneg();
                    lemma_entry_weights_nonneg();
                    lemma_sum_elem_le(self.brands@, brand_entry_f(), i as int);
                    lemma_sum_nonneg(self.products@, product_entry_f());
                }
                let old_eb = match brand_entry_bytes_exec(
                    &self.brands[i].brand_id,
                    &self.brands[i].brand,
                ) {
                    Some(b) => b,
                    None => {
                        return Err(ChainError::StorageCostOverflow);
                    },
                };
                let publisher = self.brands[i].brand.publisher.clone();
                let nb = Brand::new(image, title, summary, industry, region, publisher);
                let new_eb = match brand_entry_bytes_exec(&self.brands[i].brand_id, &nb) {
                    Some(b) => b,
                    None => {
                        return Err(ChainError::StorageCostOverflow);
                    },
                };
                let base = self.storage_usage - old_eb;
                let nu = match base.checked_add(new_eb) {
                    Some(n) => n,
                    None => {
                        return Err(ChainError::StorageCostOverflow);
                    },
                };
                let settlement = match settle(self.storage_usage, nu, unit_price, deposit) {
                    Ok(s) => s,
                    Err(e) => {
                        return Err(e);
                    },
                };
                let ghost oldb = self.brands@;
                let mut e = self.brands.remove(i);
                e.brand = nb;
                self.brands.insert(i, e);
                self.storage_usage = nu;
                proof {
                    let ghost ne = self.brands@[i as int];
                    assert(self.brands@ =~= oldb.update(i as int, ne));
                    lemma_unique_update(oldb, brand_key_f(), i as int, ne);
                    lemma_sum_update(oldb, brand_entry_f(), i as int, ne);
                }
                Ok(settlement)
            },
        }
    }

    /// Deletes the brand under `brand_id` under the publisher policy and
    /// refunds the freed bytes at the unit price. A missing key yields
    /// nothing; no deposit is needed.
    pub fn delete_brand(&mut self, caller: String, unit_price: u128, brand_id: String) -> (r:
        Result<Option<(Brand, Settlement)>, ChainError>)
        requires
            old(self).wf(),
        ensures
            final(self).wf(),
            final(self).products@ == old(self).products@,
            ({
                let bs = old(self).brands@;
                let k = brand_id@;
                if !has_brand(bs, k) {
                    r == Ok::<Option<(Brand, Settlement)>, ChainError>(None) && *final(self)
                        == *old(self)
                } else {
                    let i = brand_at(bs, k);
                    let ob = bs[i].brand;
                    if ob.publisher@ != caller@ {
                        r == Err::<Option<(Brand, Settlement)>, ChainError>(
                            ChainError::Unauthorized,
                        ) && *final(self) == *old(self)
                    } else {
                        match settle_spec(
                            old(self).storage_usage,
                            (old(self).storage_usage - brand_entry_bytes(bs[i])) as u64,
                            unit_price,
                            0,
                        ) {
                            Ok(s) => {
                                &&& r == Ok::<Option<(Brand, Settlement)>, ChainError>(
                                    Some((ob, s)),
                                )
                                &&& final(self).brands@ == bs.remove(i)
                                &&& final(self).storage_usage == old(self).storage_usage
                                    - brand_entry_bytes(bs[i])
                            },
                            Err(e) => r == Err::<Option<(Brand, Settlement)>, ChainError>(e)
                                && *final(self) == *old(self),
                        }
                    }
                }
            }),
    {
        match find_brand(&self.brands, &brand_id) {
            None => Ok(None),
            Some(i) => {
                proof {
                    lemma_found_key_is_at(self.brands@, brand_key_f(), brand_id@, i as int);
                }
                if !(self.brands[i].brand.publisher == caller) {
                    return Err(ChainError::Unauthorized);
                }
                proof {
                    crate::measure::lemma_measures_nonneg();
                    lemma_entry_weights_nonneg();
                    lemma_sum_elem_le(self.brands@, brand_entry_f(), i as int);
                    lemma_sum_nonneg(self.products@, product_entry_f());
                }
                let freed = match brand_entry_bytes_exec(
                    &self.brands[i].brand_id,
                    &self.brands[i].brand,
                ) {
                    Some(b) => b,
                    None => {
                        return Err(ChainError::StorageCostOverflow);
                    },
                };
                let su = self.storage_usage - freed;
                let settlement = match settle(self.storage_usage, su, unit_price, 0) {
                    Ok(s) => s,
                    Err(e) => {
                        return Err(e);
                    },
                };
                let ghost oldb = self.brands@;
                let e = self.brands.remove(i);
                self.storage_usage = su;
                proof {
                    lemma_unique_remove(oldb, brand_key_f(), i as int);
                    lemma_sum_remove(oldb, brand_entry_f(), i as int);
                }
                Ok(Some((e.brand, settlement)))
            },
        }
    }
}

} // verus!
