use vstd::prelude::*;

use crate::error::ChainError;

verus! {

/// How a call was settled against the caller's funds. On growth the cost
/// of the added bytes is kept and the excess of the prepaid deposit is
/// returned; on shrink the value of the freed bytes is returned. The host
/// performs the actual transfer of `refund` or `amount` to the caller; a
/// zero value means no transfer is owed.
#[derive(Clone, Copy, Debug, PartialEq, Eq, Structural)]
pub enum Settlement {
    Charged { cost: u128, refund: u128 },
    Refunded { amount: u128 },
}

/// The settlement of a storage delta against a prepaid deposit, exactly.
///
/// Growth (`bytes_after >= bytes_before`): the cost is the added bytes
/// times the unit price; pricing that leaves the numeric range is
/// `StorageCostOverflow`, a deposit below the cost is
/// `InsufficientDeposit`, and otherwise the cost is kept and the rest of
/// the deposit comes back. Shrink: no deposit is needed and the freed
/// bytes times the unit price comes back, with the same overflow rule.
pub open spec fn settle_spec(
    bytes_before: u64,
    bytes_after: u64,
    unit_price: u128,
    deposit: u128,
) -> Result<Settlement, ChainError> {
    if bytes_after >= bytes_before {
        let cost = (bytes_after - bytes_before) * unit_price;
        if cost > u128::MAX {
            Err(ChainError::StorageCostOverflow)
        } else if deposit < cost {
            Err(ChainError::InsufficientDeposit)
        } else {
            Ok(Settlement::Charged { cost: cost as u128, refund: (deposit - cost) as u128 })
        }
    } else {
        let amount = (bytes_before - bytes_after) * unit_price;
        if amount > u128::MAX {
            Err(ChainError::StorageCostOverflow)
        } else {
            Ok(Settlement::Refunded { amount: amount as u128 })
        }
    }
}

/// Settles the byte usage measured immediately before and after a
/// mutation against the deposit the call carried.
pub fn settle(bytes_before: u64, bytes_after: u64, unit_price: u128, deposit: u128) -> (r: Result<
    Settlement,
    ChainError,
>)
    ensures
        r == settle_spec(bytes_before, bytes_after, unit_price, deposit),
{
    if bytes_after >= bytes_before {
        let delta = (bytes_after - bytes_before) as u128;
        match delta.checked_mul(unit_price) {
            Some(cost) => {
                if deposit < cost {
                    Err(ChainError::InsufficientDeposit)
                } else {
                    Ok(Settlement::Charged { cost, refund: deposit - cost })
                }
            },
            None => Err(ChainError::StorageCostOverflow),
        }
    } else {
        let freed = (bytes_before - bytes_after) as u128;
        match freed.checked_mul(unit_price) {
            Some(amount) => Ok(Settlement::Refunded { amount }),
            None => Err(ChainError::StorageCostOverflow),
        }
    }
}

/// Law: settlement conserves value. Whenever a growth settlement
/// succeeds, the deposit splits exactly into the cost kept and the excess
/// returned, and the cost is exactly the added bytes times the unit
/// price; whenever a shrink settlement succeeds, the amount returned is
/// exactly the freed bytes times the unit price.
pub proof fn lemma_settlement_conservation(
    bytes_before: u64,
    bytes_after: u64,
    unit_price: u128,
    deposit: u128,
)
    ensures
        match settle_spec(bytes_before, bytes_after, unit_price, deposit) {
            Ok(s) => match s {
                Settlement::Charged { cost, refund } => {
                    &&& bytes_after >= bytes_before
                    &&& cost == (bytes_after - bytes_before) * unit_price
                    &&& deposit == cost + refund
                },
                Settlement::Refunded { amount } => {
                    &&& bytes_after < bytes_before
                    &&& amount == (bytes_before - bytes_after) * unit_price
                },
            },
            Err(_) => true,
        },
{
}

} // verus!

