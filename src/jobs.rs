//! The table of background jobs and its non-blocking reap cycle.
use vstd::prelude::*;

verus! {

/// What one non-blocking look at a job's process found.
#[derive(Clone, Copy, Debug, PartialEq, Eq, Structural)]
pub enum JobStatus {
    /// The process has not terminated.
    Running,
    /// The process has terminated, successfully or not.
    Exited { success: bool },
}

/// Whether a job with this status leaves the table: any terminal status
/// does, so that a failed job is not polled forever.
pub open spec fn is_terminal(s: JobStatus) -> bool {
    s is Exited
}

/// The jobs of `jobs` whose status in `statuses`, at the same position, is
/// not terminal, in their order.
pub open spec fn surviving<J>(jobs: Seq<J>, statuses: Seq<JobStatus>) -> Seq<J>
    decreases jobs.len(),
{
    if jobs.len() == 0 {
        seq![]
    } else {
        let before = surviving(jobs.drop_last(), statuses.take(jobs.len() - 1));
        if is_terminal(statuses[jobs.len() - 1]) {
            before
        } else {
            before.push(jobs.last())
        }
    }
}

/// The background jobs that are still tracked, in the order they were
/// started.
pub struct JobTable<J> {
    jobs: Vec<J>,
}

impl<J> View for JobTable<J> {
    type V = Seq<J>;

    closed spec fn view(&self) -> Seq<J> {
        self.jobs@
    }
}

impl<J> JobTable<J> {
    /// An empty table.
    pub fn new() -> (r: Self)
        ensures
            r@ == Seq::<J>::empty(),
    {
        JobTable { jobs: Vec::new() }
    }

    /// The number of jobs tracked.
    pub fn len(&self) -> (r: usize)
        ensures
            r == self@.len(),
    {
        self.jobs.len()
    }

    /// Whether no job is tracked.
    pub fn is_empty(&self) -> (r: bool)
        ensures
            r == (self@.len() == 0),
    {
        self.jobs.len() == 0
    }

    /// Tracks a job that was just started in the background.
    pub fn add(&mut self, job: J)
        ensures
            final(self)@ == old(self)@.push(job),
    {
        self.jobs.push(job);
    }

    /// The job at `i`, to look at its process.
    pub fn job_mut(&mut self, i: usize) -> (r: &mut J)
        requires
            i < old(self)@.len(),
        ensures
            *r == old(self)@[i as int],
            final(self)@ == old(self)@.update(i as int, *final(r)),
    {
        &mut self.jobs[i]
    }

    /// Drops every job whose status, at the same position in `statuses`, is
    /// terminal; the others stay, in their order.
    pub fn reap(&mut self, statuses: &[JobStatus])
        requires
            statuses@.len() == old(self)@.len(),
        ensures
            final(self)@ == surviving(old(self)@, statuses@),
    {
        let ghost all = self.jobs@;
        let ghost st = statuses@;
        let n = statuses.len();
        let mut i: usize = 0;
        let mut j: usize = 0;
        proof {
            assert(all.take(0) =~= seq![]);
            assert(all.skip(0) =~= all);
            assert(self.jobs@ =~= surviving(all.take(0), st.take(0)) + all.skip(0));
        }
        while j < n
            invariant
                n == st.len(),
                n == all.len(),
                st == statuses@,
                i <= j <= n,
                i == surviving(all.take(j as int), st.take(j as int)).len(),
                self.jobs@ == surviving(all.take(j as int), st.take(j as int)) + all.skip(
                    j as int,
                ),
            decreases n - j,
        {
            let ghost kept = surviving(all.take(j as int), st.take(j as int));
            proof {
                assert(all.take(j + 1).drop_last() =~= all.take(j as int));
                assert(st.take(j + 1).take(j as int) =~= st.take(j as int));
                assert(self.jobs@[i as int] == all[j as int]);
            }
            match statuses[j] {
                JobStatus::Exited { .. } => {
                    self.jobs.remove(i);
                    proof {
                        assert(self.jobs@ =~= kept + all.skip(j + 1));
                    }
                },
                JobStatus::Running => {
                    proof {
                        assert(kept.push(all[j as int]) + all.skip(j + 1) =~= kept + all.skip(
                            j as int,
                        ));
                    }
                    i = i + 1;
                },
            }
            j = j + 1;
        }
        proof {
            assert(all.take(n as int) =~= all);
            assert(st.take(n as int) =~= st);
            assert(all.skip(n as int) =~= seq![]);
            assert(self.jobs@ =~= surviving(all, st));
        }
    }
}

} // verus!
