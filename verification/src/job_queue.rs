//! Job queue of the chunk pipeline (generation, meshing, upload, physics).
//! The queue decides which job runs next and records outcomes and counters;
//! the work a job needs (generating terrain, meshing, measuring time) is
//! done by the caller between `process_next` and `complete`.
use vstd::prelude::*;
use std::collections::VecDeque;
use std::sync::Arc;
use crate::chunk::Chunk;
use crate::coords::IVec3;
use crate::meshing::MeshData;

verus! {

/// A job of the pipeline.
pub enum ChunkJob {
    /// Generate the terrain of a chunk.
    Generate { position: IVec3 },
    /// Generate several chunks.
    GenerateBatch { positions: Vec<IVec3> },
    /// Mesh a chunk.
    Mesh { position: IVec3, chunk: Arc<Chunk> },
    /// Mesh several chunks.
    MeshBatch { chunks: Vec<(IVec3, Arc<Chunk>)> },
    /// Upload a mesh to the GPU (done by the render thread; the queue only records it).
    Upload { position: IVec3, mesh: MeshData },
    /// Build a physics collider.
    Physics { position: IVec3 },
}

/// A completed job.
pub enum JobResult {
    Generated { position: IVec3, chunk: Chunk },
    Meshed { position: IVec3, mesh: MeshData },
    MeshedBatch { meshes: Vec<(IVec3, MeshData)> },
    Uploaded { position: IVec3 },
    PhysicsReady { position: IVec3 },
}

/// What the caller reports after doing the work of a job.
pub enum JobOutcome {
    /// One chunk generated, in `elapsed_us` microseconds.
    Generated { position: IVec3, chunk: Chunk, elapsed_us: u64 },
    /// A batch of chunks generated.
    GeneratedBatch { chunks: Vec<(IVec3, Chunk)>, elapsed_us: u64 },
    /// One chunk meshed.
    Meshed { position: IVec3, mesh: MeshData, elapsed_us: u64 },
    /// A batch of chunks meshed.
    MeshedBatch { meshes: Vec<(IVec3, MeshData)>, elapsed_us: u64 },
    /// The work failed (it panicked); nothing is recorded.
    Failed,
}

/// What `process_next` hands to the caller.
pub enum WorkOrder {
    /// The job needed no outside work and its result is recorded.
    Done,
    /// Do the work of this job, then report it with `complete`.
    Work(ChunkJob),
}

/// Counters of the queue. Times are totals in microseconds.
#[derive(Clone, Copy, Debug, PartialEq, Eq, Structural)]
pub struct JobStats {
    pub total_generated: u64,
    pub total_meshed: u64,
    pub total_uploaded: u64,
    pub pending_count: usize,
    pub completed_count: usize,
    pub total_generation_time_us: u64,
    pub total_meshing_time_us: u64,
}

/// Results recorded for an outcome, in order.
pub open spec fn outcome_results(o: JobOutcome) -> Seq<JobResult> {
    match o {
        JobOutcome::Generated { position, chunk, .. } => seq![JobResult::Generated { position, chunk }],
        JobOutcome::GeneratedBatch { chunks, .. } => chunks@.map_values(
            |pc: (IVec3, Chunk)| JobResult::Generated { position: pc.0, chunk: pc.1 },
        ),
        JobOutcome::Meshed { position, mesh, .. } => seq![JobResult::Meshed { position, mesh }],
        JobOutcome::MeshedBatch { meshes, .. } => seq![JobResult::MeshedBatch { meshes }],
        JobOutcome::Failed => Seq::empty(),
    }
}

/// Counters after recording outcome `o` (times saturate at `u64::MAX`).
pub open spec fn outcome_stats(s: JobStats, o: JobOutcome) -> JobStats {
    match o {
        JobOutcome::Generated { elapsed_us, .. } => JobStats {
            total_generated: (s.total_generated + 1) as u64,
            total_generation_time_us: sat_add(s.total_generation_time_us, elapsed_us),
            ..s
        },
        JobOutcome::GeneratedBatch { chunks, elapsed_us } => JobStats {
            total_generated: (s.total_generated + chunks@.len()) as u64,
            total_generation_time_us: sat_add(s.total_generation_time_us, elapsed_us),
            ..s
        },
        JobOutcome::Meshed { elapsed_us, .. } => JobStats {
            total_meshed: (s.total_meshed + 1) as u64,
            total_meshing_time_us: sat_add(s.total_meshing_time_us, elapsed_us),
            ..s
        },
        JobOutcome::MeshedBatch { meshes, elapsed_us } => JobStats {
            total_meshed: (s.total_meshed + meshes@.len()) as u64,
            total_meshing_time_us: sat_add(s.total_meshing_time_us, elapsed_us),
            ..s
        },
        JobOutcome::Failed => s,
    }
}

/// The counters can take outcome `o` without overflowing.
pub open spec fn outcome_fits(s: JobStats, o: JobOutcome) -> bool {
    match o {
        JobOutcome::Generated { .. } => s.total_generated + 1 <= u64::MAX,
        JobOutcome::GeneratedBatch { chunks, .. } => s.total_generated + chunks@.len() <= u64::MAX,
        JobOutcome::Meshed { .. } => s.total_meshed + 1 <= u64::MAX,
        JobOutcome::MeshedBatch { meshes, .. } => s.total_meshed + meshes@.len() <= u64::MAX,
        JobOutcome::Failed => true,
    }
}

/// `a + b` capped at `u64::MAX`.
pub open spec fn sat_add(a: u64, b: u64) -> u64 {
    if a + b > u64::MAX {
        u64::MAX
    } else {
        (a + b) as u64
    }
}

/// What `JobQueue::process_next` does: `after` and `r` come from `before` by one call.
pub open spec fn took_next(before: JobQueue, after: JobQueue, r: Option<WorkOrder>) -> bool {
    &&& before.pending_jobs().len() == 0 ==> {
        &&& r is None
        &&& after.pending_jobs() == before.pending_jobs()
        &&& after.results() == before.results()
        &&& after.counters() == before.counters()
    }
    &&& before.pending_jobs().len() > 0 ==> {
        let job = before.pending_jobs()[0];
        &&& after.pending_jobs() == before.pending_jobs().drop_first()
        &&& match job {
            ChunkJob::Upload { position, .. } => {
                &&& r == Some(WorkOrder::Done)
                &&& after.results() == before.results().push(JobResult::Uploaded { position })
                &&& after.counters() == (JobStats {
                    total_uploaded: (before.counters().total_uploaded + 1) as u64,
                    ..before.counters()
                })
            },
            ChunkJob::Physics { position } => {
                &&& r == Some(WorkOrder::Done)
                &&& after.results() == before.results().push(JobResult::PhysicsReady { position })
                &&& after.counters() == before.counters()
            },
            _ => {
                &&& r == Some(WorkOrder::Work(job))
                &&& after.results() == before.results()
                &&& after.counters() == before.counters()
            },
        }
    }
}

/// What `JobQueue::complete` does: `after` comes from `before` by recording `o`.
pub open spec fn recorded(before: JobQueue, after: JobQueue, o: JobOutcome) -> bool {
    &&& after.pending_jobs() == before.pending_jobs()
    &&& after.results() == before.results() + outcome_results(o)
    &&& after.counters() == outcome_stats(before.counters(), o)
}

/// A step of a round of the pipeline: taking the next job (with what
/// `process_next` returned), or recording the outcome of a job's work.
pub enum RoundStep {
    Take(Option<WorkOrder>),
    Record(JobOutcome),
}

/// Step `s` leads from queue `before` to queue `after`.
pub open spec fn step_ok(before: JobQueue, after: JobQueue, s: RoundStep) -> bool {
    match s {
        RoundStep::Take(r) => took_next(before, after, r),
        RoundStep::Record(o) => recorded(before, after, o),
    }
}

/// `qs[i + 1]` comes from `qs[i]` by step `steps[i]`, for every step.
pub open spec fn round_ok(qs: Seq<JobQueue>, steps: Seq<RoundStep>) -> bool {
    &&& qs.len() == steps.len() + 1
    &&& forall|i: int| 0 <= i < steps.len() ==> step_ok(qs[i], qs[i + 1], #[trigger] steps[i])
}

/// Number of steps of `steps` that took a job.
pub open spec fn takes(steps: Seq<RoundStep>) -> nat
    decreases steps.len(),
{
    if steps.len() == 0 {
        0
    } else {
        takes(steps.drop_last()) + (match steps.last() {
            RoundStep::Take(Some(_)) => 1nat,
            _ => 0nat,
        })
    }
}

/// Some step of `steps` found no job to take.
pub open spec fn ran_dry(steps: Seq<RoundStep>) -> bool
    decreases steps.len(),
{
    if steps.len() == 0 {
        false
    } else {
        ran_dry(steps.drop_last()) || steps.last() == RoundStep::Take(None)
    }
}

/// Results that step `s` records from queue `before`: an upload or physics
/// job taken records its own result, an outcome its results.
pub open spec fn step_results(before: JobQueue, s: RoundStep) -> Seq<JobResult> {
    match s {
        RoundStep::Take(Some(WorkOrder::Done)) => match before.pending_jobs()[0] {
            ChunkJob::Upload { position, .. } => seq![JobResult::Uploaded { position }],
            ChunkJob::Physics { position } => seq![JobResult::PhysicsReady { position }],
            _ => Seq::empty(),
        },
        RoundStep::Take(_) => Seq::empty(),
        RoundStep::Record(o) => outcome_results(o),
    }
}

/// Results recorded by the steps of a round through queues `qs`, in order.
pub open spec fn round_results(qs: Seq<JobQueue>, steps: Seq<RoundStep>) -> Seq<JobResult>
    decreases steps.len(),
{
    if steps.len() == 0 {
        Seq::empty()
    } else {
        round_results(qs, steps.drop_last()) + step_results(qs[steps.len() - 1], steps.last())
    }
}

/// A round of taking jobs and recording outcomes takes the pending jobs first
/// in, first out: after `t` jobs were taken, the pending jobs are those of the
/// start without its first `t`, and no more jobs are taken than were pending;
/// once a take found no job, every job pending at the start has been taken.
/// The results recorded by the steps are appended in step order.
pub proof fn lemma_round(qs: Seq<JobQueue>, steps: Seq<RoundStep>)
    requires
        round_ok(qs, steps),
    ensures
        takes(steps) <= qs[0].pending_jobs().len(),
        qs.last().pending_jobs() == qs[0].pending_jobs().skip(takes(steps) as int),
        ran_dry(steps) ==> takes(steps) == qs[0].pending_jobs().len(),
        qs.last().results() == qs[0].results() + round_results(qs, steps),
    decreases steps.len(),
{
    if steps.len() == 0 {
        assert(qs[0].pending_jobs().skip(0) =~= qs[0].pending_jobs());
        assert(qs[0].results() + Seq::<JobResult>::empty() =~= qs[0].results());
    } else {
        let k = steps.len() - 1;
        let qs2 = qs.take(k + 1);
        let steps2 = steps.drop_last();
        assert forall|i: int| 0 <= i < steps2.len() implies step_ok(qs2[i], qs2[i + 1], #[trigger] steps2[i]) by {
            assert(steps2[i] == steps[i]);
            assert(step_ok(qs[i], qs[i + 1], steps[i]));
        }
        lemma_round(qs2, steps2);
        assert(round_results(qs2, steps2) == round_results(qs, steps2)) by {
            lemma_round_results_prefix(qs, qs2, steps2);
        }
        let before = qs[k];
        let after = qs[k + 1];
        assert(qs2.last() == before);
        assert(step_ok(before, after, steps[k]));
        let start = qs[0].pending_jobs();
        let t = takes(steps2);
        match steps[k] {
            RoundStep::Take(r) => {
                if before.pending_jobs().len() > 0 {
                    assert(start.skip(t as int + 1) =~= start.skip(t as int).drop_first());
                } else {
                    assert(start.skip(t as int).len() == 0);
                }
            },
            RoundStep::Record(o) => {},
        }
        assert(qs.last() == after);
        assert(after.results() =~= qs[0].results() + round_results(qs, steps));
    }
}

/// A round that stops once `max_jobs` jobs were taken, or earlier when a
/// take found no job, has taken `min(max_jobs, n)` of the `n` jobs pending at
/// its start, and the first of them.
pub proof fn lemma_round_count(qs: Seq<JobQueue>, steps: Seq<RoundStep>, max_jobs: nat)
    requires
        round_ok(qs, steps),
        takes(steps) <= max_jobs,
        takes(steps) == max_jobs || ran_dry(steps),
    ensures
        takes(steps) == (if max_jobs < qs[0].pending_jobs().len() {
            max_jobs
        } else {
            qs[0].pending_jobs().len()
        }),
        qs.last().pending_jobs() == qs[0].pending_jobs().skip(takes(steps) as int),
{
    lemma_round(qs, steps);
}

/// Results of a round depend only on the queues its steps start from.
proof fn lemma_round_results_prefix(qs: Seq<JobQueue>, qs2: Seq<JobQueue>, steps: Seq<RoundStep>)
    requires
        qs.len() > steps.len(),
        qs2.len() > steps.len(),
        forall|i: int| 0 <= i < steps.len() ==> qs2[i] == qs[i],
    ensures
        round_results(qs2, steps) == round_results(qs, steps),
    decreases steps.len(),
{
    if steps.len() > 0 {
        lemma_round_results_prefix(qs, qs2, steps.drop_last());
        assert(qs2[steps.len() - 1] == qs[steps.len() - 1]);
    }
}

/// Pending jobs (first in, first out), completed results and counters.
pub struct JobQueue {
    pending: VecDeque<ChunkJob>,
    completed: Vec<JobResult>,
    stats: JobStats,
}

impl JobQueue {
    /// Pending jobs, next first.
    pub closed spec fn pending_jobs(&self) -> Seq<ChunkJob> {
        self.pending@
    }

    /// Completed results, oldest first.
    pub closed spec fn results(&self) -> Seq<JobResult> {
        self.completed@
    }

    /// The counters.
    pub closed spec fn counters(&self) -> JobStats {
        self.stats
    }

    /// An empty queue with counters at zero.
    pub fn new() -> (r: Self)
        ensures
            r.pending_jobs() == Seq::<ChunkJob>::empty(),
            r.results() == Seq::<JobResult>::empty(),
            r.counters() == (JobStats {
                total_generated: 0,
                total_meshed: 0,
                total_uploaded: 0,
                pending_count: 0,
                completed_count: 0,
                total_generation_time_us: 0,
                total_meshing_time_us: 0,
            }),
    {
        JobQueue {
            pending: VecDeque::new(),
            completed: Vec::new(),
            stats: JobStats {
                total_generated: 0,
                total_meshed: 0,
                total_uploaded: 0,
                pending_count: 0,
                completed_count: 0,
                total_generation_time_us: 0,
                total_meshing_time_us: 0,
            },
        }
    }

    /// Adds a job at the end of the queue.
    pub fn push(&mut self, job: ChunkJob)
        ensures
            final(self).pending_jobs() == old(self).pending_jobs().push(job),
            final(self).results() == old(self).results(),
            final(self).counters() == (JobStats {
                pending_count: final(self).pending_jobs().len() as usize,
                ..old(self).counters()
            }),
    {
        self.pending.push_back(job);
        self.stats.pending_count = self.pending.len();
    }

    /// Adds jobs at the end of the queue, in order.
    pub fn push_batch(&mut self, jobs: Vec<ChunkJob>)
        ensures
            final(self).pending_jobs() == old(self).pending_jobs() + jobs@,
            final(self).results() == old(self).results(),
            final(self).counters() == (JobStats {
                pending_count: final(self).pending_jobs().len() as usize,
                ..old(self).counters()
            }),
    {
        let mut jobs = jobs;
        let ghost all = jobs@;
        let ghost start = self.pending@;
        let total = jobs.len();
        let mut taken: usize = 0;
        while jobs.len() > 0
            invariant
                all.len() == total,
                self.completed == old(self).completed,
                self.stats == old(self).stats,
                taken <= all.len(),
                jobs@ == all.subrange(taken as int, all.len() as int),
                self.pending@ == start + all.subrange(0, taken as int),
            decreases jobs@.len(),
        {
            let job = jobs.remove(0);
            self.pending.push_back(job);
            taken += 1;
            proof {
                assert(self.pending@ =~= start + all.subrange(0, taken as int));
                assert(jobs@ =~= all.subrange(taken as int, all.len() as int));
            }
        }
        proof {
            assert(all.subrange(0, taken as int) =~= all);
        }
        self.stats.pending_count = self.pending.len();
    }

    /// Takes the next job. An upload or physics job needs no outside work:
    /// its result is recorded here and `Done` is returned. Any other job is
    /// handed out as `Work`. `None` when no job is pending.
    pub fn process_next(&mut self) -> (r: Option<WorkOrder>)
        requires
            old(self).pending_jobs().len() > 0 && old(self).pending_jobs()[0] is Upload
                ==> old(self).counters().total_uploaded < u64::MAX,
        ensures
            took_next(*old(self), *final(self), r),
    {
        match self.pending.pop_front() {
            None => None,
            Some(job) => match job {
                ChunkJob::Upload { position, mesh: _ } => {
                    self.stats.total_uploaded = self.stats.total_uploaded + 1;
                    self.completed.push(JobResult::Uploaded { position });
                    Some(WorkOrder::Done)
                },
                ChunkJob::Physics { position } => {
                    self.completed.push(JobResult::PhysicsReady { position });
                    Some(WorkOrder::Done)
                },
                other => Some(WorkOrder::Work(other)),
            },
        }
    }

    /// Records the outcome of a job's work: its results are appended and the
    /// counters and time totals raised; a failure records nothing.
    pub fn complete(&mut self, outcome: JobOutcome)
        requires
            outcome_fits(old(self).counters(), outcome),
        ensures
            recorded(*old(self), *final(self), outcome),
    {
        let ghost o = outcome;
        match outcome {
            JobOutcome::Generated { position, chunk, elapsed_us } => {
                self.stats.total_generated = self.stats.total_generated + 1;
                self.stats.total_generation_time_us = self.stats.total_generation_time_us.saturating_add(
                    elapsed_us,
                );
                self.completed.push(JobResult::Generated { position, chunk });
                assert(self.completed@ =~= old(self).completed@ + outcome_results(o));
            },
            JobOutcome::GeneratedBatch { chunks, elapsed_us } => {
                let n = chunks.len();
                self.stats.total_generated = self.stats.total_generated + n as u64;
                self.stats.total_generation_time_us = self.stats.total_generation_time_us.saturating_add(
                    elapsed_us,
                );
                let ghost all = chunks@;
                let ghost start = self.completed@;
                let mut chunks = chunks;
                let mut taken: usize = 0;
                while chunks.len() > 0
                    invariant
                        all.len() == n,
                        taken <= all.len(),
                        chunks@ == all.subrange(taken as int, all.len() as int),
                        self.completed@ == start + all.subrange(0, taken as int).map_values(
                            |pc: (IVec3, Chunk)| JobResult::Generated { position: pc.0, chunk: pc.1 },
                        ),
                        self.pending == old(self).pending,
                        self.stats == outcome_stats(old(self).stats, o),
                    decreases chunks@.len(),
                {
                    let (position, chunk) = chunks.remove(0);
                    self.completed.push(JobResult::Generated { position, chunk });
                    taken += 1;
                    proof {
                        assert(self.completed@ =~= start + all.subrange(0, taken as int).map_values(
                            |pc: (IVec3, Chunk)| JobResult::Generated { position: pc.0, chunk: pc.1 },
                        ));
                        assert(chunks@ =~= all.subrange(taken as int, all.len() as int));
                    }
                }
                proof {
                    assert(all.subrange(0, taken as int) =~= all);
                }
            },
            JobOutcome::Meshed { position, mesh, elapsed_us } => {
                self.stats.total_meshed = self.stats.total_meshed + 1;
                self.stats.total_meshing_time_us = self.stats.total_meshing_time_us.saturating_add(
                    elapsed_us,
                );
                self.completed.push(JobResult::Meshed { position, mesh });
                assert(self.completed@ =~= old(self).completed@ + outcome_results(o));
            },
            JobOutcome::MeshedBatch { meshes, elapsed_us } => {
                let n = meshes.len();
                self.stats.total_meshed = self.stats.total_meshed + n as u64;
                self.stats.total_meshing_time_us = self.stats.total_meshing_time_us.saturating_add(
                    elapsed_us,
                );
                self.completed.push(JobResult::MeshedBatch { meshes });
                assert(self.completed@ =~= old(self).completed@ + outcome_results(o));
            },
            JobOutcome::Failed => {
                assert(self.completed@ =~= old(self).completed@ + outcome_results(o));
            },
        }
    }

    /// Sets the pending and completed counts to the queue lengths.
    pub fn finish_round(&mut self)
        ensures
            final(self).pending_jobs() == old(self).pending_jobs(),
            final(self).results() == old(self).results(),
            final(self).counters() == (JobStats {
                pending_count: old(self).pending_jobs().len() as usize,
                completed_count: old(self).results().len() as usize,
                ..old(self).counters()
            }),
    {
        self.stats.pending_count = self.pending.len();
        self.stats.completed_count = self.completed.len();
    }

    /// Takes every completed result, oldest first, and sets the completed count to zero.
    pub fn drain_completed(&mut self) -> (r: Vec<JobResult>)
        ensures
            r@ == old(self).results(),
            final(self).results() == Seq::<JobResult>::empty(),
            final(self).pending_jobs() == old(self).pending_jobs(),
            final(self).counters() == (JobStats { completed_count: 0, ..old(self).counters() }),
    {
        let mut results: Vec<JobResult> = Vec::new();
        std::mem::swap(&mut results, &mut self.completed);
        self.stats.completed_count = 0;
        results
    }

    /// The counters.
    pub fn get_stats(&self) -> (r: JobStats)
        ensures
            r == self.counters(),
    {
        self.stats
    }

    /// Drops every pending job and completed result; the pending and completed counts become zero.
    pub fn clear(&mut self)
        ensures
            final(self).pending_jobs() == Seq::<ChunkJob>::empty(),
            final(self).results() == Seq::<JobResult>::empty(),
            final(self).counters() == (JobStats {
                pending_count: 0,
                completed_count: 0,
                ..old(self).counters()
            }),
    {
        self.pending.clear();
        self.completed.clear();
        self.stats.pending_count = 0;
        self.stats.completed_count = 0;
    }
}

} // verus!
