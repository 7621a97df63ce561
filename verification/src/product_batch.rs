//! A batch of stock and the total held by a sequence of batches.

use crate::dates::SimDate;
use vstd::prelude::*;

verus! {

/// A quantity of stock that entered on one day and expires after another.
#[derive(Clone, Copy, Debug, PartialEq, Eq, Structural)]
pub struct ProductBatch {
    pub quantity: u64,
    pub entry_date: SimDate,
    pub deadline_date: SimDate,
    pub finished_date: Option<SimDate>,
    pub is_finished: bool,
}

/// The quantity that the batches hold together.
pub open spec fn total_quantity(batches: Seq<ProductBatch>) -> int
    decreases batches.len(),
{
    if batches.len() == 0 {
        0
    } else {
        total_quantity(batches.drop_last()) + batches.last().quantity
    }
}

/// A total is never negative.
pub proof fn lemma_total_nonnegative(batches: Seq<ProductBatch>)
    ensures
        total_quantity(batches) >= 0,
    decreases batches.len(),
{
    if batches.len() > 0 {
        lemma_total_nonnegative(batches.drop_last());
    }
}

/// The total of a sequence is the total of its first `k` batches plus the
/// total of the rest.
pub proof fn lemma_total_split(batches: Seq<ProductBatch>, k: int)
    requires
        0 <= k <= batches.len(),
    ensures
        total_quantity(batches) == total_quantity(batches.take(k)) + total_quantity(
            batches.skip(k),
        ),
    decreases batches.len() - k,
{
    if k == batches.len() {
        assert(batches.take(k) == batches);
        assert(batches.skip(k).len() == 0);
    } else {
        lemma_total_split(batches.drop_last(), k);
        assert(batches.drop_last().take(k) == batches.take(k));
        assert(batches.skip(k).drop_last() == batches.drop_last().skip(k));
        assert(batches.skip(k).last() == batches.last());
    }
}

/// Without its first batch a sequence holds that batch's quantity less.
pub proof fn lemma_total_drop_first(batches: Seq<ProductBatch>)
    requires
        batches.len() > 0,
    ensures
        total_quantity(batches) == batches[0].quantity + total_quantity(batches.drop_first()),
{
    lemma_total_split(batches, 1);
    assert(batches.skip(1) == batches.drop_first());
    let head = batches.take(1);
    assert(head.drop_last().len() == 0);
    assert(total_quantity(head.drop_last()) == 0);
    assert(head.last() == batches[0]);
}

/// Changing the quantity of one batch changes the total by the same amount.
pub proof fn lemma_total_update(batches: Seq<ProductBatch>, i: int, batch: ProductBatch)
    requires
        0 <= i < batches.len(),
    ensures
        total_quantity(batches.update(i, batch)) == total_quantity(batches) - batches[i].quantity
            + batch.quantity,
    decreases batches.len(),
{
    let changed = batches.update(i, batch);
    if i == batches.len() - 1 {
        assert(changed.drop_last() == batches.drop_last());
    } else {
        lemma_total_update(batches.drop_last(), i, batch);
        assert(changed.drop_last() == batches.drop_last().update(i, batch));
    }
}

/// The quantity that the batches hold together, or `None` where it is more
/// than a quantity can express.
pub fn batches_total(batches: &Vec<ProductBatch>) -> (total: Option<u64>)
    ensures
        match total {
            Some(sum) => sum == total_quantity(batches@),
            None => total_quantity(batches@) > u64::MAX,
        },
{
    let mut sum: u64 = 0;
    let mut i: usize = 0;
    while i < batches.len()
        invariant
            i <= batches.len(),
            sum == total_quantity(batches@.take(i as int)),
        decreases batches.len() - i,
    {
        proof {
            assert(batches@.take(i as int + 1).drop_last() == batches@.take(i as int));
            lemma_total_split(batches@, i as int + 1);
            lemma_total_nonnegative(batches@.skip(i as int + 1));
        }
        match sum.checked_add(batches[i].quantity) {
            Some(next) => {
                sum = next;
            },
            None => {
                return None;
            },
        }
        i += 1;
    }
    assert(batches@.take(batches.len() as int) == batches@);
    Some(sum)
}

} // verus!
