//! The three movements of a day on a sequence of batches, oldest first:
//! withdrawal from the front, entry at the back under a capacity ceiling, and
//! removal of the batches whose deadline has passed.

use crate::dates::SimDate;
use crate::product_batch::{
    batches_total, lemma_total_drop_first, lemma_total_nonnegative, lemma_total_split,
    lemma_total_update, total_quantity, ProductBatch,
};
use vstd::prelude::*;

verus! {

/// `batch` with another quantity.
pub open spec fn with_quantity(batch: ProductBatch, quantity: int) -> ProductBatch {
    ProductBatch {
        quantity: quantity as u64,
        entry_date: batch.entry_date,
        deadline_date: batch.deadline_date,
        finished_date: batch.finished_date,
        is_finished: batch.is_finished,
    }
}

/// The batches that stay when `quantity` is withdrawn, oldest stock first. A
/// batch that holds more than is still asked for is reduced and ends the
/// withdrawal; one that holds as much or less is used up and leaves the
/// sequence.
pub open spec fn after_withdrawal(batches: Seq<ProductBatch>, quantity: int) -> Seq<ProductBatch>
    decreases batches.len(),
{
    if quantity <= 0 || batches.len() == 0 {
        batches
    } else if batches[0].quantity > quantity {
        batches.update(0, with_quantity(batches[0], batches[0].quantity - quantity))
    } else {
        after_withdrawal(batches.drop_first(), quantity - batches[0].quantity)
    }
}

/// The quantity that leaves stock when `quantity` is asked for: all of it, or
/// what the batches hold where that is less.
pub open spec fn withdrawn_quantity(batches: Seq<ProductBatch>, quantity: int) -> int {
    if quantity <= total_quantity(batches) {
        quantity
    } else {
        total_quantity(batches)
    }
}

/// The part of `quantity` that the batches cannot supply.
pub open spec fn unmet_withdrawal(batches: Seq<ProductBatch>, quantity: int) -> int {
    quantity - withdrawn_quantity(batches, quantity)
}

/// The room left under the capacity ceiling; none where the batches already
/// reach or pass it.
pub open spec fn headroom(capacity: u64, batches: Seq<ProductBatch>) -> int {
    if total_quantity(batches) < capacity {
        capacity - total_quantity(batches)
    } else {
        0
    }
}

/// The part of `desired` that is let in: all of it where the headroom
/// allows, else the headroom.
pub open spec fn admitted_quantity(capacity: u64, batches: Seq<ProductBatch>, desired: u64) -> int {
    if desired <= headroom(capacity, batches) {
        desired as int
    } else {
        headroom(capacity, batches)
    }
}

/// The batch that enters on `date` with the given quantity and deadline.
pub open spec fn entering_batch(quantity: int, date: SimDate, deadline: SimDate) -> ProductBatch {
    ProductBatch {
        quantity: quantity as u64,
        entry_date: date,
        deadline_date: deadline,
        finished_date: None,
        is_finished: false,
    }
}

/// The batches after the entry of `desired` on `date`: the admitted part is
/// appended as a new batch, also where nothing is admitted.
pub open spec fn after_entry(
    batches: Seq<ProductBatch>,
    capacity: u64,
    desired: u64,
    date: SimDate,
    deadline: SimDate,
) -> Seq<ProductBatch> {
    batches.push(entering_batch(admitted_quantity(capacity, batches, desired), date, deadline))
}

/// Whether a batch has expired on `date`: its deadline lies strictly before it.
pub open spec fn expired_on(date: SimDate) -> spec_fn(ProductBatch) -> bool {
    |batch: ProductBatch| batch.deadline_date.is_before(date)
}

/// Whether a batch is still good on `date`.
pub open spec fn kept_on(date: SimDate) -> spec_fn(ProductBatch) -> bool {
    |batch: ProductBatch| !batch.deadline_date.is_before(date)
}

/// The batches that are still good on `date`, in their order.
pub open spec fn unexpired(batches: Seq<ProductBatch>, date: SimDate) -> Seq<ProductBatch> {
    batches.filter(kept_on(date))
}

/// The quantity held by the batches that have expired on `date`.
pub open spec fn expired_quantity(batches: Seq<ProductBatch>, date: SimDate) -> int {
    total_quantity(batches.filter(expired_on(date)))
}

/// Conservation of stock in a withdrawal: what stays is what was there less
/// what was withdrawn, and what was withdrawn is the quantity asked for or,
/// if that is more than the stock, the whole stock.
pub proof fn lemma_withdrawal_conserves(batches: Seq<ProductBatch>, quantity: int)
    requires
        0 <= quantity,
    ensures
        total_quantity(after_withdrawal(batches, quantity)) == total_quantity(batches)
            - withdrawn_quantity(batches, quantity),
    decreases batches.len(),
{
    lemma_total_nonnegative(batches);
    if quantity <= 0 || batches.len() == 0 {
    } else if batches[0].quantity > quantity {
        lemma_total_update(batches, 0, with_quantity(batches[0], batches[0].quantity - quantity));
        lemma_total_drop_first(batches);
        lemma_total_nonnegative(batches.drop_first());
    } else {
        lemma_total_drop_first(batches);
        lemma_withdrawal_conserves(batches.drop_first(), quantity - batches[0].quantity);
    }
}

/// First in, first out, when the front batch suffices: a withdrawal of less
/// than the front batch holds reduces that batch and leaves every other batch
/// as it was and where it was.
pub proof fn lemma_withdrawal_below_front(batches: Seq<ProductBatch>, quantity: int)
    requires
        batches.len() > 0,
        0 <= quantity < batches[0].quantity,
    ensures
        after_withdrawal(batches, quantity).len() == batches.len(),
        after_withdrawal(batches, quantity)[0] == with_quantity(
            batches[0],
            batches[0].quantity - quantity,
        ),
        forall|i: int|
            1 <= i < batches.len() ==> #[trigger] after_withdrawal(batches, quantity)[i]
                == batches[i],
{
    if quantity == 0 {
        assert(with_quantity(batches[0], batches[0].quantity - 0) == batches[0]);
    }
}

/// First in, first out, when the withdrawal goes past the front: a withdrawal
/// of more than the first `k` batches hold uses those `k` batches up, each of
/// them whole, and goes on, with what is still asked for, on the batches
/// behind them, which it finds in their order.
pub proof fn lemma_withdrawal_removes_prefix(batches: Seq<ProductBatch>, quantity: int, k: int)
    requires
        0 <= k <= batches.len(),
        total_quantity(batches.take(k)) < quantity,
    ensures
        after_withdrawal(batches, quantity) == after_withdrawal(
            batches.skip(k),
            quantity - total_quantity(batches.take(k)),
        ),
    decreases k,
{
    if k == 0 {
        assert(batches.skip(0) == batches);
        assert(batches.take(0).len() == 0);
    } else {
        let front = batches.take(k - 1);
        assert(batches.take(k).drop_last() == front);
        assert(batches.take(k).last() == batches[k - 1]);
        lemma_withdrawal_removes_prefix(batches, quantity, k - 1);
        let rest = batches.skip(k - 1);
        let asked = quantity - total_quantity(front);
        assert(rest[0] == batches[k - 1]);
        assert(rest.drop_first() == batches.skip(k));
        assert(asked > rest[0].quantity);
    }
}

/// A withdrawal that the first `k` batches cannot meet, but the first `k + 1`
/// can, leaves the batches behind the first `k`: the foremost of them reduced
/// where it holds more than is still asked for, and gone where it holds
/// exactly that.
pub proof fn lemma_withdrawal_stops_at(batches: Seq<ProductBatch>, quantity: int, k: int)
    requires
        0 <= k < batches.len(),
        total_quantity(batches.take(k)) < quantity <= total_quantity(batches.take(k + 1)),
    ensures
        quantity < total_quantity(batches.take(k + 1)) ==> after_withdrawal(batches, quantity)
            == batches.skip(k).update(
            0,
            with_quantity(batches[k], total_quantity(batches.take(k + 1)) - quantity),
        ),
        quantity == total_quantity(batches.take(k + 1)) ==> after_withdrawal(batches, quantity)
            == batches.skip(k + 1),
{
    lemma_withdrawal_removes_prefix(batches, quantity, k);
    let rest = batches.skip(k);
    let asked = quantity - total_quantity(batches.take(k));
    assert(batches.take(k + 1).drop_last() == batches.take(k));
    assert(batches.take(k + 1).last() == batches[k]);
    assert(rest[0] == batches[k]);
    if quantity == total_quantity(batches.take(k + 1)) {
        assert(rest.drop_first() == batches.skip(k + 1));
        assert(asked == rest[0].quantity);
        assert(after_withdrawal(rest, asked) == after_withdrawal(rest.drop_first(), 0));
    }
}

/// The capacity ceiling holds after an entry: batches that were within the
/// ceiling before the entry are within it afterwards.
pub proof fn lemma_entry_respects_capacity(
    batches: Seq<ProductBatch>,
    capacity: u64,
    desired: u64,
    date: SimDate,
    deadline: SimDate,
)
    requires
        total_quantity(batches) <= capacity,
    ensures
        total_quantity(after_entry(batches, capacity, desired, date, deadline)) <= capacity,
        total_quantity(after_entry(batches, capacity, desired, date, deadline)) == total_quantity(
            batches,
        ) + admitted_quantity(capacity, batches, desired),
{
    lemma_total_nonnegative(batches);
    let entered = after_entry(batches, capacity, desired, date, deadline);
    assert(entered.drop_last() == batches);
}

/// An entry adds exactly the admitted quantity, which is never negative and
/// never more than was desired.
pub proof fn lemma_entry_adds_admitted(
    batches: Seq<ProductBatch>,
    capacity: u64,
    desired: u64,
    date: SimDate,
    deadline: SimDate,
)
    ensures
        0 <= admitted_quantity(capacity, batches, desired) <= desired,
        total_quantity(after_entry(batches, capacity, desired, date, deadline)) == total_quantity(
            batches,
        ) + admitted_quantity(capacity, batches, desired),
{
    let entered = after_entry(batches, capacity, desired, date, deadline);
    assert(entered.drop_last() == batches);
}

/// Conservation of stock in the removal of expired batches: what stays and
/// what expired make up what was there.
pub proof fn lemma_expiry_conserves(batches: Seq<ProductBatch>, date: SimDate)
    ensures
        total_quantity(unexpired(batches, date)) + expired_quantity(batches, date)
            == total_quantity(batches),
        0 <= expired_quantity(batches, date) <= total_quantity(batches),
    decreases batches.len(),
{
    reveal(Seq::filter);
    lemma_total_nonnegative(unexpired(batches, date));
    lemma_total_nonnegative(batches.filter(expired_on(date)));
    if batches.len() > 0 {
        let front = batches.drop_last();
        lemma_expiry_conserves(front, date);
        if batches.last().deadline_date.is_before(date) {
            assert(batches.filter(expired_on(date)).drop_last() == front.filter(expired_on(date)));
        } else {
            assert(unexpired(batches, date).drop_last() == unexpired(front, date));
        }
    }
}

/// Withdraws `quantity` from the batches, oldest first, and returns the part
/// that they could not supply.
pub fn withdraw(batches: &mut Vec<ProductBatch>, quantity: u64) -> (unmet: u64)
    ensures
        final(batches)@ == after_withdrawal(old(batches)@, quantity as int),
        unmet == unmet_withdrawal(old(batches)@, quantity as int),
{
    let mut withdraw_qty: u64 = quantity;
    proof {
        lemma_total_nonnegative(batches@);
    }
    while withdraw_qty > 0 && batches.len() > 0
        invariant
            after_withdrawal(batches@, withdraw_qty as int) == after_withdrawal(
                old(batches)@,
                quantity as int,
            ),
            withdraw_qty - total_quantity(batches@) == quantity - total_quantity(old(batches)@),
            total_quantity(batches@) >= 0,
        decreases withdraw_qty, batches.len(),
    {
        let front = batches[0];
        let ghost before = batches@;
        proof {
            lemma_total_drop_first(batches@);
            lemma_total_nonnegative(batches@.drop_first());
        }
        if front.quantity > withdraw_qty {
            let reduced = ProductBatch {
                quantity: front.quantity - withdraw_qty,
                entry_date: front.entry_date,
                deadline_date: front.deadline_date,
                finished_date: front.finished_date,
                is_finished: front.is_finished,
            };
            proof {
                lemma_total_update(batches@, 0, reduced);
            }
            batches.set(0, reduced);
            withdraw_qty = 0;
        } else {
            withdraw_qty = withdraw_qty - front.quantity;
            batches.remove(0);
            assert(batches@ == before.drop_first());
        }
    }
    withdraw_qty
}

/// Lets `desired` in as far as the capacity ceiling allows, appends the
/// admitted part as a new batch that entered on `date` and expires after
/// `deadline`, and returns the part that found no room.
pub fn enter(
    batches: &mut Vec<ProductBatch>,
    capacity: u64,
    desired: u64,
    date: SimDate,
    deadline: SimDate,
) -> (exceeded: u64)
    ensures
        final(batches)@ == after_entry(old(batches)@, capacity, desired, date, deadline),
        exceeded == desired - admitted_quantity(capacity, old(batches)@, desired),
{
    let available: u64 = match batches_total(batches) {
        Some(held) => if held < capacity {
            capacity - held
        } else {
            0
        },
        None => 0,
    };
    let (final_entry_qty, exceeded_entry_qty): (u64, u64) = if available > desired {
        (desired, 0)
    } else {
        (available, desired - available)
    };
    batches.push(
        ProductBatch {
            quantity: final_entry_qty,
            entry_date: date,
            deadline_date: deadline,
            finished_date: None,
            is_finished: false,
        },
    );
    exceeded_entry_qty
}

/// Removes the batches whose deadline lies strictly before `date`, keeps the
/// others in their order, and returns the quantity that the removed batches
/// held.
pub fn remove_expired(batches: &mut Vec<ProductBatch>, date: SimDate) -> (removed: u64)
    requires
        total_quantity(old(batches)@) <= u64::MAX,
    ensures
        final(batches)@ == unexpired(old(batches)@, date),
        removed == expired_quantity(old(batches)@, date),
{
    let mut kept: Vec<ProductBatch> = Vec::new();
    let mut removed_quantity: u64 = 0;
    let mut i: usize = 0;
    proof {
        reveal(Seq::filter);
    }
    while i < batches.len()
        invariant
            i <= batches.len(),
            batches@ == old(batches)@,
            total_quantity(batches@) <= u64::MAX,
            kept@ == unexpired(batches@.take(i as int), date),
            removed_quantity == expired_quantity(batches@.take(i as int), date),
        decreases batches.len() - i,
    {
        let batch = batches[i];
        proof {
            reveal(Seq::filter);
            let next = batches@.take(i as int + 1);
            assert(next.drop_last() == batches@.take(i as int));
            assert(next.last() == batch);
            lemma_expiry_conserves(next, date);
            lemma_total_split(batches@, i as int + 1);
            lemma_total_nonnegative(batches@.skip(i as int + 1));
            lemma_total_nonnegative(unexpired(next, date));
            if batch.deadline_date.is_before(date) {
                assert(next.filter(expired_on(date)).drop_last() == batches@.take(i as int).filter(
                    expired_on(date),
                ));
            }
        }
        if batch.deadline_date.epoch_day < date.epoch_day {
            removed_quantity = removed_quantity + batch.quantity;
        } else {
            kept.push(batch);
        }
        i += 1;
    }
    assert(batches@.take(batches.len() as int) == batches@);
    *batches = kept;
    removed_quantity
}

} // verus!
