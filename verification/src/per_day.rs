//! One simulated day: the batches it starts with are put through withdrawal,
//! entry and expiry, in that order, and the losses of each step are noted.

use crate::dates::{in_calendar, SimDate};
use crate::movement::{
    after_entry, after_withdrawal, admitted_quantity, enter, expired_quantity,
    lemma_entry_adds_admitted, lemma_entry_respects_capacity, lemma_expiry_conserves,
    lemma_withdrawal_conserves, remove_expired, unexpired, unmet_withdrawal, withdraw,
    withdrawn_quantity,
};
use crate::parameter::{ProductMovHist, SimulationParameters};
use crate::product_batch::{batches_total, lemma_total_nonnegative, total_quantity, ProductBatch};
use vstd::prelude::*;

verus! {

/// A day of the simulation: its date, its batches with the oldest first, and
/// for each kind of loss the quantity lost on that day, if any was.
#[derive(Debug, Clone)]
pub struct SimulationDay {
    pub date: SimDate,
    pub batches: Vec<ProductBatch>,
    pub stock_shortage: Option<u64>,
    pub stock_limit_exceeded: Option<u64>,
    pub stock_time_limit_exceeded: Option<u64>,
    pub is_calculated: bool,
}

/// What a `SimulationDay` holds, with its batches as a sequence.
pub struct DayView {
    pub date: SimDate,
    pub batches: Seq<ProductBatch>,
    pub stock_shortage: Option<u64>,
    pub stock_limit_exceeded: Option<u64>,
    pub stock_time_limit_exceeded: Option<u64>,
    pub is_calculated: bool,
}

impl View for SimulationDay {
    type V = DayView;

    open spec fn view(&self) -> DayView {
        DayView {
            date: self.date,
            batches: self.batches@,
            stock_shortage: self.stock_shortage,
            stock_limit_exceeded: self.stock_limit_exceeded,
            stock_time_limit_exceeded: self.stock_time_limit_exceeded,
            is_calculated: self.is_calculated,
        }
    }
}

/// How a lost quantity is noted: only a loss that occurred leaves a mark.
pub open spec fn loss_marker(quantity: int) -> Option<u64> {
    if quantity > 0 {
        Some(quantity as u64)
    } else {
        None
    }
}

/// A day that has not been calculated yet: it holds `batches` on `date` and
/// no loss is noted.
pub open spec fn pending_day(date: SimDate, batches: Seq<ProductBatch>) -> DayView {
    DayView {
        date,
        batches,
        stock_shortage: None,
        stock_limit_exceeded: None,
        stock_time_limit_exceeded: None,
        is_calculated: false,
    }
}

/// The batches of `day` after the withdrawal of the day's historical demand.
pub open spec fn batches_withdrawn(day: DayView, date_hist: ProductMovHist) -> Seq<ProductBatch> {
    after_withdrawal(day.batches, date_hist.withdrawal_qty as int)
}

/// The batches of `day` after withdrawal and entry.
pub open spec fn batches_entered(
    day: DayView,
    date_hist: ProductMovHist,
    capacity: u64,
    deadline: SimDate,
) -> Seq<ProductBatch> {
    after_entry(batches_withdrawn(day, date_hist), capacity, date_hist.entry_qty, day.date, deadline)
}

/// The day as it stands after its three steps: withdrawal of the historical
/// demand, entry of the historical supply under the capacity ceiling with a
/// new batch that expires after `deadline`, and removal of what has expired.
pub open spec fn settled_day(
    day: DayView,
    date_hist: ProductMovHist,
    capacity: u64,
    deadline: SimDate,
) -> DayView {
    let withdrawn = batches_withdrawn(day, date_hist);
    let entered = batches_entered(day, date_hist, capacity, deadline);
    DayView {
        date: day.date,
        batches: unexpired(entered, day.date),
        stock_shortage: loss_marker(unmet_withdrawal(day.batches, date_hist.withdrawal_qty as int)),
        stock_limit_exceeded: loss_marker(
            date_hist.entry_qty - admitted_quantity(capacity, withdrawn, date_hist.entry_qty),
        ),
        stock_time_limit_exceeded: loss_marker(expired_quantity(entered, day.date)),
        is_calculated: true,
    }
}

/// Whether the stock of `day` can be expressed as one quantity.
pub open spec fn is_representable(day: DayView) -> bool {
    total_quantity(day.batches) <= u64::MAX
}

/// Conservation of stock over a day: what the day ends with is what it began
/// with, less what was withdrawn (the demand, or the whole stock where the
/// demand was larger), plus what was admitted, less what expired.
pub proof fn lemma_settlement_conserves(
    day: DayView,
    date_hist: ProductMovHist,
    capacity: u64,
    deadline: SimDate,
)
    ensures
        total_quantity(settled_day(day, date_hist, capacity, deadline).batches) == total_quantity(
            day.batches,
        ) - withdrawn_quantity(day.batches, date_hist.withdrawal_qty as int) + admitted_quantity(
            capacity,
            batches_withdrawn(day, date_hist),
            date_hist.entry_qty,
        ) - expired_quantity(batches_entered(day, date_hist, capacity, deadline), day.date),
{
    let withdrawn = batches_withdrawn(day, date_hist);
    lemma_withdrawal_conserves(day.batches, date_hist.withdrawal_qty as int);
    lemma_entry_adds_admitted(withdrawn, capacity, date_hist.entry_qty, day.date, deadline);
    lemma_expiry_conserves(batches_entered(day, date_hist, capacity, deadline), day.date);
}

/// The capacity ceiling over a day: a day that begins within the ceiling is
/// within it after the entry and when it ends.
pub proof fn lemma_settlement_respects_capacity(
    day: DayView,
    date_hist: ProductMovHist,
    capacity: u64,
    deadline: SimDate,
)
    requires
        total_quantity(day.batches) <= capacity,
    ensures
        total_quantity(batches_entered(day, date_hist, capacity, deadline)) <= capacity,
        total_quantity(settled_day(day, date_hist, capacity, deadline).batches) <= capacity,
{
    let withdrawn = batches_withdrawn(day, date_hist);
    lemma_total_nonnegative(day.batches);
    lemma_withdrawal_conserves(day.batches, date_hist.withdrawal_qty as int);
    lemma_entry_respects_capacity(withdrawn, capacity, date_hist.entry_qty, day.date, deadline);
    lemma_expiry_conserves(batches_entered(day, date_hist, capacity, deadline), day.date);
}

/// A day whose stock can be expressed as one quantity stays so through its
/// three steps.
pub proof fn lemma_settlement_stays_representable(
    day: DayView,
    date_hist: ProductMovHist,
    capacity: u64,
    deadline: SimDate,
)
    requires
        is_representable(day),
    ensures
        total_quantity(batches_withdrawn(day, date_hist)) <= u64::MAX,
        total_quantity(batches_entered(day, date_hist, capacity, deadline)) <= u64::MAX,
        is_representable(settled_day(day, date_hist, capacity, deadline)),
{
    let withdrawn = batches_withdrawn(day, date_hist);
    lemma_total_nonnegative(day.batches);
    lemma_total_nonnegative(withdrawn);
    lemma_withdrawal_conserves(day.batches, date_hist.withdrawal_qty as int);
    lemma_entry_adds_admitted(withdrawn, capacity, date_hist.entry_qty, day.date, deadline);
    lemma_expiry_conserves(batches_entered(day, date_hist, capacity, deadline), day.date);
}

/// Whether `day` can be calculated with these parameters: its stock is
/// expressible as one quantity, and the day on which a batch that enters now
/// would expire exists in the calendar.
pub open spec fn can_calculate(day: DayView, sim_param: &SimulationParameters) -> bool {
    &&& is_representable(day)
    &&& day.date.after_days(sim_param.new_batch_default_expiration_days) is Some
}

/// The day as its calculation leaves it, where it can be calculated: settled
/// with the historical movements of its date, under the capacity ceiling, the
/// batch that enters expiring after the default lifetime.
pub open spec fn calculated(day: DayView, sim_param: &SimulationParameters) -> DayView {
    settled_day(
        day,
        sim_param.date_hist(day.date),
        sim_param.stock_maximum_quantity,
        day.date.after_days(sim_param.new_batch_default_expiration_days).unwrap(),
    )
}

/// The calculated day that follows `day`: the next date, begun with the
/// batches that `day` holds. `None` where the calendar has no next date or the
/// next day cannot be calculated.
pub open spec fn next_calculated(day: DayView, sim_param: &SimulationParameters) -> Option<
    DayView,
> {
    match day.date.after_days(1) {
        Some(date) => if can_calculate(pending_day(date, day.batches), sim_param) {
            Some(calculated(pending_day(date, day.batches), sim_param))
        } else {
            None
        },
        None => None,
    }
}

impl SimulationDay {
    /// Withdraws the day's historical demand from the batches, oldest first,
    /// and notes as shortage what they could not supply.
    pub fn do_withdraw_mov(&mut self, date_hist: &ProductMovHist)
        ensures
            final(self).batches@ == batches_withdrawn(old(self)@, *date_hist),
            final(self).stock_shortage == loss_marker(
                unmet_withdrawal(old(self).batches@, date_hist.withdrawal_qty as int),
            ),
            final(self).date == old(self).date,
            final(self).stock_limit_exceeded == old(self).stock_limit_exceeded,
            final(self).stock_time_limit_exceeded == old(self).stock_time_limit_exceeded,
            final(self).is_calculated == old(self).is_calculated,
    {
        let withdraw_qty = withdraw(&mut self.batches, date_hist.withdrawal_qty);
        self.stock_shortage = if withdraw_qty > 0 {
            Some(withdraw_qty)
        } else {
            None
        };
    }

    /// Lets the day's historical supply in under the capacity ceiling as a
    /// new batch that expires after `deadline`, and notes as excess what
    /// found no room.
    pub fn do_entry_mov(
        &mut self,
        date_hist: &ProductMovHist,
        stock_maximum_quantity: u64,
        deadline: SimDate,
    )
        ensures
            final(self).batches@ == after_entry(
                old(self).batches@,
                stock_maximum_quantity,
                date_hist.entry_qty,
                old(self).date,
                deadline,
            ),
            final(self).stock_limit_exceeded == loss_marker(
                date_hist.entry_qty - admitted_quantity(
                    stock_maximum_quantity,
                    old(self).batches@,
                    date_hist.entry_qty,
                ),
            ),
            final(self).date == old(self).date,
            final(self).stock_shortage == old(self).stock_shortage,
            final(self).stock_time_limit_exceeded == old(self).stock_time_limit_exceeded,
            final(self).is_calculated == old(self).is_calculated,
    {
        let exceeded_entry_qty = enter(
            &mut self.batches,
            stock_maximum_quantity,
            date_hist.entry_qty,
            self.date,
            deadline,
        );
        self.stock_limit_exceeded = if exceeded_entry_qty > 0 {
            Some(exceeded_entry_qty)
        } else {
            None
        };
    }

    /// Removes the batches whose deadline lies before the day's date and notes
    /// as expired what they held.
    pub fn do_rm_expired_batch_mov(&mut self)
        requires
            is_representable(old(self)@),
        ensures
            final(self).batches@ == unexpired(old(self).batches@, old(self).date),
            final(self).stock_time_limit_exceeded == loss_marker(
                expired_quantity(old(self).batches@, old(self).date),
            ),
            final(self).date == old(self).date,
            final(self).stock_shortage == old(self).stock_shortage,
            final(self).stock_limit_exceeded == old(self).stock_limit_exceeded,
            final(self).is_calculated == old(self).is_calculated,
    {
        let removed_quantity = remove_expired(&mut self.batches, self.date);
        self.stock_time_limit_exceeded = if removed_quantity > 0 {
            Some(removed_quantity)
        } else {
            None
        };
    }

    /// Puts the day through its three steps with the movements `date_hist`,
    /// under the capacity ceiling, with `deadline` for the batch that enters.
    /// Returns whether it did: a day whose stock cannot be expressed as one
    /// quantity, or for which no deadline could be found, is left untouched.
    pub fn settle(
        &mut self,
        date_hist: &ProductMovHist,
        stock_maximum_quantity: u64,
        deadline: Option<SimDate>,
    ) -> (done: bool)
        ensures
            done == (is_representable(old(self)@) && deadline is Some),
            done ==> final(self)@ == settled_day(
                old(self)@,
                *date_hist,
                stock_maximum_quantity,
                deadline.unwrap(),
            ),
            !done ==> final(self)@ == old(self)@,
    {
        let deadline_date = match deadline {
            Some(date) => date,
            None => {
                return false;
            },
        };
        if batches_total(&self.batches).is_none() {
            return false;
        }
        proof {
            lemma_settlement_stays_representable(
                self@,
                *date_hist,
                stock_maximum_quantity,
                deadline_date,
            );
        }
        self.do_withdraw_mov(date_hist);
        self.do_entry_mov(date_hist, stock_maximum_quantity, deadline_date);
        self.do_rm_expired_batch_mov();
        self.is_calculated = true;
        true
    }

    /// Calculates the day: looks up the historical movements of its date and
    /// the deadline of a batch that enters on it, then puts the day through
    /// withdrawal, entry and expiry. Returns whether it did: a day that cannot
    /// be calculated is left untouched.
    pub fn calculate(&mut self, sim_param: &SimulationParameters) -> (done: bool)
        ensures
            done == can_calculate(old(self)@, sim_param),
            done ==> final(self)@ == calculated(old(self)@, sim_param),
            !done ==> final(self)@ == old(self)@,
    {
        let date_hist = *sim_param.get_date_hist(&self.date);
        let deadline = self.date.checked_add_days(sim_param.new_batch_default_expiration_days);
        self.settle(&date_hist, sim_param.stock_maximum_quantity, deadline)
    }

    /// The day that follows: the next date with this day's batches and no loss
    /// noted, not yet calculated. There is one exactly where the calendar
    /// holds this day and the day after it.
    pub fn create_next(&self) -> (next: Option<SimulationDay>)
        ensures
            match self.date.after_days(1) {
                Some(date) => next is Some && next.unwrap()@ == pending_day(date, self.batches@),
                None => next is None,
            },
            next is Some <==> in_calendar(self.date.epoch_day as int) && in_calendar(
                self.date.epoch_day + 1,
            ),
            next matches Some(day) ==> day.date.epoch_day == self.date.epoch_day + 1,
    {
        match self.date.checked_add_days(1) {
            Some(new_date) => Some(
                SimulationDay {
                    date: new_date,
                    batches: self.batches.clone(),
                    stock_shortage: None,
                    stock_limit_exceeded: None,
                    stock_time_limit_exceeded: None,
                    is_calculated: false,
                },
            ),
            None => None,
        }
    }

    /// The calculated day that follows this one: the next date, begun with
    /// this day's batches and put through withdrawal, entry and expiry.
    /// `None` where the calendar has no next date or the next day cannot be
    /// calculated.
    pub fn calculate_next(&self, sim_param: &SimulationParameters) -> (next: Option<SimulationDay>)
        ensures
            match next_calculated(self@, sim_param) {
                Some(day) => next is Some && next.unwrap()@ == day,
                None => next is None,
            },
            next matches Some(day) ==> day.date.epoch_day == self.date.epoch_day + 1
                && day.is_calculated,
    {
        match self.create_next() {
            Some(mut next_day) => if next_day.calculate(sim_param) {
                Some(next_day)
            } else {
                None
            },
            None => None,
        }
    }

    /// A copy of this day.
    pub fn duplicate(&self) -> (copy: SimulationDay)
        ensures
            copy@ == self@,
    {
        SimulationDay {
            date: self.date,
            batches: self.batches.clone(),
            stock_shortage: self.stock_shortage,
            stock_limit_exceeded: self.stock_limit_exceeded,
            stock_time_limit_exceeded: self.stock_time_limit_exceeded,
            is_calculated: self.is_calculated,
        }
    }
}

} // verus!
