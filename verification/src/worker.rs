//! The schedule of the background training worker: on each tick it waits
//! for enough experience, trains on the next batch, or finishes.

use vstd::prelude::*;

verus! {

/// What the worker does on one tick.
#[derive(Clone, Copy, Debug, PartialEq, Eq, Structural)]
pub enum WorkerStep {
    /// Too few experiences are buffered for a batch; try again later.
    Wait,
    /// All batches are done; stop working.
    Finish,
    /// Train on a sampled batch, which is batch number `0` (counting from 1).
    Train(u32),
}

/// One tick from `done` batches trained: the step taken and the number of
/// batches trained afterwards. The worker waits while fewer than
/// `batch_size` experiences are buffered, finishes once `total_batches` (as a
/// `u32`) batches are done, and otherwise trains on the next batch.
pub open spec fn tick_outcome(done: u32, buffered: usize, batch_size: u32, total_batches: usize) -> (
    WorkerStep,
    u32,
) {
    if buffered < batch_size {
        (WorkerStep::Wait, done)
    } else if done >= total_batches as u32 {
        (WorkerStep::Finish, done)
    } else {
        (WorkerStep::Train((done + 1) as u32), (done + 1) as u32)
    }
}

/// How many batches the worker has trained on.
pub struct BatchSchedule {
    batch_counter: u32,
}

impl BatchSchedule {
    /// The number of batches trained on so far.
    pub closed spec fn batches_done(&self) -> u32 {
        self.batch_counter
    }

    /// A schedule that has not trained yet.
    pub fn new() -> (schedule: Self)
        ensures
            schedule.batches_done() == 0,
    {
        BatchSchedule { batch_counter: 0 }
    }

    /// The number of batches trained on so far.
    pub fn batch_counter(&self) -> (n: u32)
        ensures
            n == self.batches_done(),
    {
        self.batch_counter
    }

    /// One tick of the worker, given the number of buffered experiences.
    pub fn tick(&mut self, buffered: usize, batch_size: u32, total_batches: usize) -> (step:
        WorkerStep)
        ensures
            (step, final(self).batches_done()) == tick_outcome(
                old(self).batches_done(),
                buffered,
                batch_size,
                total_batches,
            ),
            buffered < batch_size ==> step == WorkerStep::Wait && final(self).batches_done()
                == old(self).batches_done(),
            buffered >= batch_size && old(self).batches_done() >= total_batches as u32 ==> step
                == WorkerStep::Finish && final(self).batches_done() == old(self).batches_done(),
            buffered >= batch_size && old(self).batches_done() < total_batches as u32 ==> step
                == WorkerStep::Train((old(self).batches_done() + 1) as u32),
            buffered >= batch_size && old(self).batches_done() < total_batches as u32
                ==> final(self).batches_done() == old(self).batches_done() + 1,
    {
        if buffered < batch_size as usize {
            return WorkerStep::Wait;
        }
        if self.batch_counter >= total_batches as u32 {
            return WorkerStep::Finish;
        }
        self.batch_counter = self.batch_counter + 1;
        WorkerStep::Train(self.batch_counter)
    }
}

/// What one tick does, for every input: it waits exactly when fewer than
/// `batch_size` experiences are buffered; with a full batch buffered it
/// trains on batch `done + 1` while fewer than `total_batches` batches are
/// done, and finishes otherwise. How many experiences beyond a full batch are
/// buffered makes no difference.
pub proof fn lemma_tick_decides_by_full_batch(
    done: u32,
    buffered: usize,
    batch_size: u32,
    total_batches: usize,
)
    ensures
        buffered < batch_size ==> tick_outcome(done, buffered, batch_size, total_batches) == (
            WorkerStep::Wait,
            done,
        ),
        buffered >= batch_size && done < total_batches as u32 ==> tick_outcome(
            done,
            buffered,
            batch_size,
            total_batches,
        ) == (WorkerStep::Train((done + 1) as u32), (done + 1) as u32),
        buffered >= batch_size && done >= total_batches as u32 ==> tick_outcome(
            done,
            buffered,
            batch_size,
            total_batches,
        ) == (WorkerStep::Finish, done),
        buffered >= batch_size ==> tick_outcome(done, buffered, batch_size, total_batches)
            == tick_outcome(done, batch_size as usize, batch_size, total_batches),
{
}

/// Once the worker has finished, it finishes again on every later tick
/// that finds a full batch buffered, and waits on every other.
pub proof fn lemma_finish_is_final(
    done: u32,
    buffered: usize,
    batch_size: u32,
    total_batches: usize,
    later_buffered: usize,
)
    requires
        tick_outcome(done, buffered, batch_size, total_batches).0 == WorkerStep::Finish,
    ensures
        tick_outcome(done, later_buffered, batch_size, total_batches).1 == done,
        later_buffered >= batch_size ==> tick_outcome(
            done,
            later_buffered,
            batch_size,
            total_batches,
        ).0 == WorkerStep::Finish,
        later_buffered < batch_size ==> tick_outcome(
            done,
            later_buffered,
            batch_size,
            total_batches,
        ).0 == WorkerStep::Wait,
{
}

/// Batches are numbered one after another: a tick that trains uses the
/// number one past the batches done before it, and the count never passes
/// `total_batches` (as a `u32`) when it starts at or below it.
pub proof fn lemma_batches_numbered_in_turn(
    done: u32,
    buffered: usize,
    batch_size: u32,
    total_batches: usize,
)
    requires
        done <= total_batches as u32,
    ensures
        ({
            let (step, after) = tick_outcome(done, buffered, batch_size, total_batches);
            &&& after <= total_batches as u32
            &&& (step matches WorkerStep::Train(number) ==> number == done + 1 && after == number)
            &&& (!(step is Train) ==> after == done)
        }),
{
}

/// The steps of `ticks` ticks from `done` batches trained when every tick
/// finds a full batch buffered.
pub open spec fn steps_with_full_buffer(
    done: u32,
    batch_size: u32,
    total_batches: usize,
    ticks: nat,
) -> Seq<WorkerStep>
    decreases ticks,
{
    if ticks == 0 {
        Seq::empty()
    } else {
        let (step, after) = tick_outcome(done, batch_size as usize, batch_size, total_batches);
        seq![step] + steps_with_full_buffer(after, batch_size, total_batches, (ticks - 1) as nat)
    }
}

/// With a full batch always buffered, a fresh worker trains on exactly
/// `total_batches` (as a `u32`) batches, numbered 1, 2, ... in turn, and
/// then finishes.
pub proof fn lemma_trains_exactly_total_batches(batch_size: u32, total_batches: usize)
    ensures
        steps_with_full_buffer(0, batch_size, total_batches, (total_batches as u32 + 1) as nat) == Seq::new(
            total_batches as u32 as nat,
            |i: int| WorkerStep::Train((i + 1) as u32),
        ).push(WorkerStep::Finish),
{
    lemma_full_buffer_run(0, batch_size, total_batches);
}

proof fn lemma_full_buffer_run(done: u32, batch_size: u32, total_batches: usize)
    requires
        done <= total_batches as u32,
    ensures
        steps_with_full_buffer(done, batch_size, total_batches, (total_batches as u32 - done + 1) as nat)
            == Seq::new(
            (total_batches as u32 - done) as nat,
            |i: int| WorkerStep::Train((done + i + 1) as u32),
        ).push(WorkerStep::Finish),
    decreases total_batches as u32 - done,
{
    let t = total_batches as u32;
    let ticks = (t - done + 1) as nat;
    if done == t {
        assert(steps_with_full_buffer(done, batch_size, total_batches, 0) == Seq::<WorkerStep>::empty());
        assert(steps_with_full_buffer(done, batch_size, total_batches, ticks) =~= Seq::new(
            0,
            |i: int| WorkerStep::Train((done + i + 1) as u32),
        ).push(WorkerStep::Finish));
    } else {
        let next = (done + 1) as u32;
        lemma_full_buffer_run(next, batch_size, total_batches);
        assert((t - next + 1) as nat == (ticks - 1) as nat);
        assert(steps_with_full_buffer(done, batch_size, total_batches, ticks) =~= Seq::new(
            (t - done) as nat,
            |i: int| WorkerStep::Train((done + i + 1) as u32),
        ).push(WorkerStep::Finish));
    }
}

} // verus!
