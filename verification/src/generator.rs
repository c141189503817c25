//! The dispatcher's decisions: which task comes next. The thread that
//! paces the arrivals and sends them to the manager lives in the program
//! around it; a fixed seed makes every run draw the same kinds.

use rand::Rng;
use rand::SeedableRng;
use rand::rngs::StdRng;
use vstd::prelude::*;
use crate::config::Params;
use crate::task::{kind_cost, Task, TaskKind};

verus! {

#[verifier::external_type_specification]
#[verifier::external_body]
pub struct ExStdRng(StdRng);

/// Seeds rand's standard generator with `SeedableRng::seed_from_u64`. Its
/// state is opaque here: that one seed always yields the same stream of
/// draws, which rand promises, is not stated.
#[verifier::external_body]
fn seeded_rng(seed: u64) -> StdRng {
    StdRng::seed_from_u64(seed)
}

/// Draws with `Rng::random_ratio`, which is true with a chance of
/// `numerator` in `denominator`. What comes out depends on the generator's
/// state; rand guarantees only the two ends stated here: never true for a
/// numerator of 0, always true when numerator and denominator are equal. It
/// panics on a zero denominator or a numerator above the denominator.
#[verifier::external_body]
fn draw_ratio(rng: &mut StdRng, numerator: u32, denominator: u32) -> (hit: bool)
    requires
        denominator > 0,
        numerator <= denominator,
    ensures
        numerator == 0 ==> !hit,
        numerator == denominator ==> hit,
{
    rng.random_ratio(numerator, denominator)
}

/// The task numbered `id` whose kind was drawn as `io_draw`: IO-bound when
/// the draw came out true, CPU-bound otherwise.
pub fn task_for_draw(id: u64, io_draw: bool, duration: u64, now: u64) -> (t: Task)
    ensures
        t.id == id,
        t.kind == (if io_draw { TaskKind::Io } else { TaskKind::Cpu }),
        t.duration == duration,
        t.arrival_time == now,
        t.cpu_cost == kind_cost(t.kind),
{
    let kind = if io_draw { TaskKind::Io } else { TaskKind::Cpu };
    Task::new(id, kind, duration, now)
}

/// The chance of `io_percent` in 100, as the numerator and denominator
/// that the draw of a task's kind is made with.
pub fn io_ratio(io_percent: u32) -> (ratio: (u32, u32))
    ensures
        ratio == (io_percent, 100u32),
{
    (io_percent, 100)
}

/// What the generator's state amounts to: the seed its random stream was
/// started from, the next task's number, and the run's settings. Where the
/// stream has got to is left out.
pub struct GeneratorView {
    pub seed: u64,
    pub next_id: u64,
    pub total: u64,
    pub duration: u64,
    pub io_percent: u32,
}

/// Produces the tasks of one run, numbered from 0, each IO-bound with a
/// chance of `io_percent` in 100.
pub struct TaskGenerator {
    rng: StdRng,
    seed: u64,
    next_id: u64,
    total: u64,
    duration: u64,
    io_percent: u32,
}

impl View for TaskGenerator {
    type V = GeneratorView;

    closed spec fn view(&self) -> GeneratorView {
        GeneratorView {
            seed: self.seed,
            next_id: self.next_id,
            total: self.total,
            duration: self.duration,
            io_percent: self.io_percent,
        }
    }
}

impl TaskGenerator {
    /// A generator for the run `params` describes, seeded with its seed.
    pub fn new(params: &Params) -> (g: Self)
        ensures
            g@.seed == params.rng_seed,
            g@.next_id == 0,
            g@.total == params.total_tasks,
            g@.duration == params.task_duration_ms,
            g@.io_percent == params.io_percent,
    {
        let seed = params.rng_seed;
        TaskGenerator {
            rng: seeded_rng(seed),
            seed,
            next_id: 0,
            total: params.total_tasks,
            duration: params.task_duration_ms,
            io_percent: params.io_percent,
        }
    }

    /// The next task, arriving at `now`, or `None` once all the tasks of the
    /// run have been produced. Its kind is drawn from the generator with the
    /// ratio `io_ratio(io_percent)`, IO-bound when the draw is true; a run
    /// without IO share gives only CPU-bound tasks, one with a full share only
    /// IO-bound ones.
    pub fn next_task(&mut self, now: u64) -> (next: Option<Task>)
        requires
            old(self)@.next_id < old(self)@.total ==> old(self)@.io_percent <= 100,
        ensures
            final(self)@.seed == old(self)@.seed,
            final(self)@.total == old(self)@.total,
            final(self)@.duration == old(self)@.duration,
            final(self)@.io_percent == old(self)@.io_percent,
            old(self)@.next_id >= old(self)@.total ==> next is None && final(self)@ == old(self)@,
            old(self)@.next_id < old(self)@.total ==> {
                &&& final(self)@.next_id == old(self)@.next_id + 1
                &&& next matches Some(t) && {
                    &&& t.id == old(self)@.next_id
                    &&& t.arrival_time == now
                    &&& t.duration == old(self)@.duration
                    &&& t.cpu_cost == kind_cost(t.kind)
                    &&& old(self)@.io_percent == 0 ==> t.kind == TaskKind::Cpu
                    &&& old(self)@.io_percent == 100 ==> t.kind == TaskKind::Io
                }
            },
    {
        if self.next_id >= self.total {
            return None;
        }
        let (numerator, denominator) = io_ratio(self.io_percent);
        let io_draw = draw_ratio(&mut self.rng, numerator, denominator);
        let t = task_for_draw(self.next_id, io_draw, self.duration, now);
        self.next_id = self.next_id + 1;
        Some(t)
    }
}

} // verus!
