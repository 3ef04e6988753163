use vstd::prelude::*;
use vstd::string::StrSliceExecFns;

use crate::brand::Brand;
use crate::product::Product;
use crate::stage::Stage;
use crate::store::{lemma_sum_nonneg, sum_of};

verus! {

// The host bills the contract by the bytes its state occupies. The model
// measures a record deterministically: one unit per character of each
// string field, a fixed width per numeric field, and a fixed per-entry
// overhead for the store's bookkeeping. The `storage_usage` counter of the
// contract equals the measure of its whole state at every call boundary.

/// Fixed width of a stage's non-string fields: the timestamp and the
/// three sub-scores.
pub const STAGE_FIXED_BYTES: u64 = 11;

/// Fixed width of the cached score: the point mass and the stage count.
pub const ESG_FIXED_BYTES: u64 = 24;

/// Per-entry overhead of the store's bookkeeping.
pub const ENTRY_FIXED_BYTES: u64 = 40;

/// The bytes a single stage occupies.
pub open spec fn stage_bytes(s: Stage) -> int {
    s.title@.len() + s.summary@.len() + s.location@.len() + s.administrator@.len()
        + STAGE_FIXED_BYTES
}

/// The weight function for sums over stage ledgers.
pub open spec fn stage_bytes_f() -> spec_fn(Stage) -> int {
    |s: Stage| stage_bytes(s)
}

/// The weight function for sums over stakeholder sets.
pub open spec fn str_bytes_f() -> spec_fn(String) -> int {
    |s: String| s@.len() as int
}

/// The bytes a brand record occupies, not counting its key.
pub open spec fn brand_bytes(b: Brand) -> int {
    b.image@.len() as int + b.title@.len() + b.summary@.len() + b.industry@.len() + b.region@.len()
        + b.publisher@.len()
}

/// The bytes a product record occupies, not counting its key.
pub open spec fn product_bytes(p: Product) -> int {
    p.brand@.len() + p.title@.len() + p.image@.len() + p.summary@.len() + p.category@.len()
        + p.administrator@.len() + ESG_FIXED_BYTES + sum_of(p.stakeholders@, str_bytes_f())
        + sum_of(p.stages@, stage_bytes_f())
}

/// Every weight this module sums is non-negative.
pub proof fn lemma_measures_nonneg()
    ensures
        forall|s: Stage| #[trigger] stage_bytes_f()(s) >= 0,
        forall|s: String| #[trigger] str_bytes_f()(s) >= 0,
        forall|p: Product| #[trigger] product_bytes(p) >= 0,
        forall|b: Brand| #[trigger] brand_bytes(b) >= 0,
{
    assert forall|p: Product| #[trigger] product_bytes(p) >= 0 by {
        lemma_sum_nonneg(p.stakeholders@, str_bytes_f());
        lemma_sum_nonneg(p.stages@, stage_bytes_f());
    }
}

/// Measures one stage; `None` reports that the measure does not fit the
/// counter's range.
pub fn stage_bytes_exec(s: &Stage) -> (r: Option<u64>)
    ensures
        match r {
            Some(b) => b == stage_bytes(*s),
            None => stage_bytes(*s) > u64::MAX,
        },
{
    let a = s.title.as_str().unicode_len() as u128;
    let b = s.summary.as_str().unicode_len() as u128;
    let c = s.location.as_str().unicode_len() as u128;
    let d = s.administrator.as_str().unicode_len() as u128;
    let total = a + b + c + d + STAGE_FIXED_BYTES as u128;
    if total <= u64::MAX as u128 {
        Some(total as u64)
    } else {
        None
    }
}

/// Measures a brand record together with its key.
pub fn brand_entry_bytes_exec(key: &String, b: &Brand) -> (r: Option<u64>)
    ensures
        match r {
            Some(n) => n == key@.len() + brand_bytes(*b) + ENTRY_FIXED_BYTES,
            None => key@.len() + brand_bytes(*b) + ENTRY_FIXED_BYTES > u64::MAX,
        },
{
    let k = key.as_str().unicode_len() as u128;
    let f1 = b.image.as_str().unicode_len() as u128;
    let f2 = b.title.as_str().unicode_len() as u128;
    let f3 = b.summary.as_str().unicode_len() as u128;
    let f4 = b.industry.as_str().unicode_len() as u128;
    let f5 = b.region.as_str().unicode_len() as u128;
    let f6 = b.publisher.as_str().unicode_len() as u128;
    let total = k + f1 + f2 + f3 + f4 + f5 + f6 + ENTRY_FIXED_BYTES as u128;
    if total <= u64::MAX as u128 {
        Some(total as u64)
    } else {
        None
    }
}

/// Measures a product record together with its key, for the shape the
/// facade creates: one stakeholder and one stage.
pub(crate) fn single_product_entry_bytes_exec(key: &String, p: &Product) -> (r: Option<u64>)
    requires
        p.stakeholders@.len() == 1,
        p.stages@.len() == 1,
    ensures
        match r {
            Some(n) => n == key@.len() + product_bytes(*p) + ENTRY_FIXED_BYTES,
            None => key@.len() + product_bytes(*p) + ENTRY_FIXED_BYTES > u64::MAX,
        },
{
    proof {
        assert(p.stakeholders@.drop_first() =~= Seq::<String>::empty());
        assert(p.stages@.drop_first() =~= Seq::<Stage>::empty());
        assert(sum_of(Seq::<String>::empty(), str_bytes_f()) == 0);
        assert(sum_of(Seq::<Stage>::empty(), stage_bytes_f()) == 0);
        assert(sum_of(p.stakeholders@, str_bytes_f()) == str_bytes_f()(p.stakeholders@[0])
            + sum_of(p.stakeholders@.drop_first(), str_bytes_f()));
        assert(sum_of(p.stages@, stage_bytes_f()) == stage_bytes_f()(p.stages@[0]) + sum_of(
            p.stages@.drop_first(),
            stage_bytes_f(),
        ));
    }
    let sb = match stage_bytes_exec(&p.stages[0]) {
        Some(b) => b,
        None => {
            return None;
        },
    };
    let k = key.as_str().unicode_len() as u128;
    let f1 = p.brand.as_str().unicode_len() as u128;
    let f2 = p.title.as_str().unicode_len() as u128;
    let f3 = p.image.as_str().unicode_len() as u128;
    let f4 = p.summary.as_str().unicode_len() as u128;
    let f5 = p.category.as_str().unicode_len() as u128;
    let f6 = p.administrator.as_str().unicode_len() as u128;
    let sk = p.stakeholders[0].as_str().unicode_len() as u128;
    let total = k + f1 + f2 + f3 + f4 + f5 + f6 + sk + sb as u128 + ESG_FIXED_BYTES as u128
        + ENTRY_FIXED_BYTES as u128;
    if total <= u64::MAX as u128 {
        Some(total as u64)
    } else {
        None
    }
}

} // verus!
