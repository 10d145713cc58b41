//! The background jobs of the shell.

use vstd::prelude::*;

use crate::command::{Command, CommandModel, command_text};

verus! {

/// The execution state of a job.
#[derive(Clone, Copy, PartialEq, Eq, Structural, Debug)]
pub enum State {
    Running,
    Stopped,
    Done,
    Killed,
}

/// The name of a state: `Running`, `Stopped`, `Done` or `Killed`.
pub open spec fn state_text(state: State) -> Seq<char> {
    match state {
        State::Running => "Running"@,
        State::Stopped => "Stopped"@,
        State::Done => "Done"@,
        State::Killed => "Killed"@,
    }
}

impl State {
    /// The name of the state.
    pub fn name(&self) -> (s: String)
        ensures
            s@ == state_text(*self),
    {
        match self {
            State::Running => String::from_str("Running"),
            State::Stopped => String::from_str("Stopped"),
            State::Done => String::from_str("Done"),
            State::Killed => String::from_str("Killed"),
        }
    }
}

/// The text of a decimal digit.
pub open spec fn digit_text(d: nat) -> Seq<char> {
    if d == 0 {
        "0"@
    } else if d == 1 {
        "1"@
    } else if d == 2 {
        "2"@
    } else if d == 3 {
        "3"@
    } else if d == 4 {
        "4"@
    } else if d == 5 {
        "5"@
    } else if d == 6 {
        "6"@
    } else if d == 7 {
        "7"@
    } else if d == 8 {
        "8"@
    } else {
        "9"@
    }
}

/// The decimal notation of `n`, without leading zeros.
pub open spec fn decimal_text(n: nat) -> Seq<char>
    decreases n,
{
    if n < 10 {
        digit_text(n)
    } else {
        decimal_text(n / 10) + digit_text(n % 10)
    }
}

fn digit_str(d: usize) -> (s: &'static str)
    requires
        d < 10,
    ensures
        s@ == digit_text(d as nat),
{
    if d == 0 {
        "0"
    } else if d == 1 {
        "1"
    } else if d == 2 {
        "2"
    } else if d == 3 {
        "3"
    } else if d == 4 {
        "4"
    } else if d == 5 {
        "5"
    } else if d == 6 {
        "6"
    } else if d == 7 {
        "7"
    } else if d == 8 {
        "8"
    } else {
        "9"
    }
}

/// Appends the decimal notation of `n` to `out`.
fn append_decimal(out: &mut String, n: usize)
    ensures
        final(out)@ == old(out)@ + decimal_text(n as nat),
    decreases n,
{
    if n >= 10 {
        append_decimal(out, n / 10);
    }
    out.append(digit_str(n % 10));
}

/// A background job: a command run in a child process.
#[derive(Debug)]
pub struct Job {
    job_number: usize,
    pid: i32,
    command: Command,
    state: State,
}

/// The mathematical value of a job.
pub struct JobModel {
    pub job_number: usize,
    pub pid: i32,
    pub command: CommandModel,
    pub state: State,
}

impl View for Job {
    type V = JobModel;

    closed spec fn view(&self) -> JobModel {
        JobModel {
            job_number: self.job_number,
            pid: self.pid,
            command: self.command@,
            state: self.state,
        }
    }
}

/// The line that describes a job: `[<number>] <state>\t<command> &`.
pub open spec fn job_text(job: JobModel) -> Seq<char> {
    "["@ + decimal_text(job.job_number as nat) + "] "@ + state_text(job.state) + "\t"@
        + command_text(job.command) + " &"@
}

/// The line that reports the end of a job:
/// `[<number>]   <state>\t\t<command>`.
pub open spec fn job_report_text(job: JobModel) -> Seq<char> {
    "["@ + decimal_text(job.job_number as nat) + "]   "@ + state_text(job.state) + "\t\t"@
        + command_text(job.command)
}

impl Job {
    /// The number of the job.
    pub fn job_number(&self) -> (n: usize)
        ensures
            n == self@.job_number,
    {
        self.job_number
    }

    /// The process id of the job.
    pub fn pid(&self) -> (p: i32)
        ensures
            p == self@.pid,
    {
        self.pid
    }

    /// The command that the job runs.
    pub fn command(&self) -> (c: &Command)
        ensures
            c@ == self@.command,
    {
        &self.command
    }

    /// The execution state of the job.
    pub fn state(&self) -> (s: State)
        ensures
            s == self@.state,
    {
        self.state
    }

    /// The line that describes the job, as `job_text` gives it.
    pub fn to_string(&self) -> (s: String)
        ensures
            s@ == job_text(self@),
    {
        let mut s = String::from_str("[");
        append_decimal(&mut s, self.job_number);
        s.append("] ");
        s.append(self.state.name().as_str());
        s.append("\t");
        s.append(self.command.to_string().as_str());
        s.append(" &");
        s
    }

    /// The line that reports the end of the job, as `job_report_text` gives
    /// it.
    pub fn report_line(&self) -> (s: String)
        ensures
            s@ == job_report_text(self@),
    {
        let mut s = String::from_str("[");
        append_decimal(&mut s, self.job_number);
        s.append("]   ");
        s.append(self.state.name().as_str());
        s.append("\t\t");
        s.append(self.command.to_string().as_str());
        s
    }
}

/// The job numbers of `jobs` increase strictly along the sequence and are
/// positive.
pub open spec fn job_numbers_increasing(jobs: Seq<JobModel>) -> bool {
    &&& forall|i: int| 0 <= i < jobs.len() ==> #[trigger] jobs[i].job_number >= 1
    &&& forall|i: int, j: int|
        0 <= i < j < jobs.len() ==> #[trigger] jobs[i].job_number < #[trigger] jobs[j].job_number
}

/// The number that the next background job gets: one more than that of the
/// last job, or 1 where there is none.
pub open spec fn next_job_number(jobs: Seq<JobModel>) -> int {
    if jobs.len() == 0 {
        1
    } else {
        jobs.last().job_number + 1
    }
}

/// The position of the first job of `jobs` with the process id `pid`.
pub open spec fn job_position(jobs: Seq<JobModel>, pid: i32) -> Option<int> {
    if exists|i: int| 0 <= i < jobs.len() && #[trigger] jobs[i].pid == pid {
        Some(
            choose|i: int|
                0 <= i < jobs.len() && #[trigger] jobs[i].pid == pid && forall|k: int|
                    0 <= k < i ==> #[trigger] jobs[k].pid != pid,
        )
    } else {
        None
    }
}

/// The models of a sequence of jobs.
pub open spec fn jobs_model(jobs: Seq<Job>) -> Seq<JobModel> {
    jobs.map_values(|j: Job| j@)
}

/// The background jobs of the shell, in the order in which they started.
#[derive(Debug)]
pub struct JobsManager {
    background_jobs: Vec<Job>,
}

impl View for JobsManager {
    type V = Seq<JobModel>;

    closed spec fn view(&self) -> Seq<JobModel> {
        jobs_model(self.background_jobs@)
    }
}

impl JobsManager {
    #[verifier::type_invariant]
    spec fn numbers_increase(self) -> bool {
        job_numbers_increasing(jobs_model(self.background_jobs@))
    }
}

impl Default for JobsManager {
    /// A manager without jobs.
    fn default() -> (m: Self)
        ensures
            m@ == Seq::<JobModel>::empty(),
    {
        JobsManager { background_jobs: Vec::new() }
    }
}

impl JobsManager {
    /// Adds a new background job, running `command` in the process `pid`, and
    /// returns its number: one more than that of the last job, or 1.
    pub fn add_background_job(&mut self, command: &Command, pid: i32) -> (job_number: usize)
        requires
            next_job_number(old(self)@) <= usize::MAX,
        ensures
            job_number == next_job_number(old(self)@),
            final(self)@ == old(self)@.push(
                JobModel { job_number, pid, command: command@, state: State::Running },
            ),
            forall|i: int| 0 <= i < old(self)@.len() ==> #[trigger] old(self)@[i].job_number < job_number,
            job_numbers_increasing(final(self)@),
    {
        proof {
            use_type_invariant(&*self);
        }
        let job_number = self.last_job_number();
        let job = Job { job_number, pid, command: command.duplicate(), state: State::Running };
        let mut jobs: Vec<Job> = Vec::new();
        std::mem::swap(&mut jobs, &mut self.background_jobs);
        let ghost before = jobs@;
        jobs.push(job);
        proof {
            assert(jobs_model(jobs@) =~= jobs_model(before).push(job@));
            let old_jobs = jobs_model(before);
            if old_jobs.len() > 0 {
                assert forall|i: int| 0 <= i < old_jobs.len() implies #[trigger] old_jobs[i].job_number
                    < job_number by {
                    if i < old_jobs.len() - 1 {
                        assert(old_jobs[i].job_number < old_jobs[old_jobs.len() - 1].job_number);
                    }
                }
            }
        }
        self.background_jobs = jobs;
        job_number
    }

    /// The background jobs, in the order in which they started.
    pub fn active_jobs(&self) -> (jobs: &Vec<Job>)
        ensures
            jobs_model(jobs@) == self@,
            job_numbers_increasing(self@),
    {
        proof {
            use_type_invariant(self);
        }
        &self.background_jobs
    }

    /// The number of the next background job: one more than that of the last
    /// job, or 1 where there is none.
    fn last_job_number(&self) -> (n: usize)
        requires
            next_job_number(self@) <= usize::MAX,
        ensures
            n == next_job_number(self@),
    {
        let len = self.background_jobs.len();
        if len == 0 {
            1
        } else {
            self.background_jobs[len - 1].job_number + 1
        }
    }

    /// Removes the first job whose process id is `pid` and returns it, or
    /// returns `Err(())` where no job has that process id.
    fn remove_background_job(&mut self, pid: i32) -> (res: Result<Job, ()>)
        ensures
            match job_position(old(self)@, pid) {
                Some(i) => res matches Ok(job) && job@ == old(self)@[i] && final(self)@
                    == old(self)@.remove(i),
                None => res is Err && final(self)@ == old(self)@,
            },
            job_numbers_increasing(final(self)@),
    {
        proof {
            use_type_invariant(&*self);
        }
        let ghost jobs = self@;
        let n = self.background_jobs.len();
        let mut i: usize = 0;
        while i < n
            invariant
                n == self.background_jobs@.len(),
                jobs == self@,
                jobs == old(self)@,
                job_numbers_increasing(jobs),
                i <= n,
                forall|k: int| 0 <= k < i ==> #[trigger] jobs[k].pid != pid,
            decreases n - i,
        {
            assert(jobs[i as int] == self.background_jobs@[i as int]@);
            if self.background_jobs[i].pid == pid {
                let mut all: Vec<Job> = Vec::new();
                std::mem::swap(&mut all, &mut self.background_jobs);
                let ghost before = all@;
                let removed = all.remove(i);
                proof {
                    assert(jobs =~= jobs_model(before));
                    assert(removed@ == jobs[i as int]);
                    assert(jobs_model(all@) =~= jobs_model(before).remove(i as int));
                    assert(jobs[i as int].pid == pid);
                    assert(0 <= i < jobs.len() && jobs[i as int].pid == pid && forall|k: int|
                        0 <= k < i ==> #[trigger] jobs[k].pid != pid);
                    let p = job_position(jobs, pid);
                    let j = p->0;
                    assert(j == i) by {
                        if j < i {
                            assert(jobs[j].pid != pid);
                        } else if j > i {
                            assert(jobs[i as int].pid != pid);
                        }
                    }
                    let rest = jobs_model(all@);
                    assert forall|a: int, b: int| 0 <= a < b < rest.len() implies #[trigger] rest[a].job_number
                        < #[trigger] rest[b].job_number by {
                        let a0 = if a < i { a } else { a + 1 };
                        let b0 = if b < i { b } else { b + 1 };
                        assert(rest[a] == jobs[a0] && rest[b] == jobs[b0]);
                    }
                    assert forall|a: int| 0 <= a < rest.len() implies #[trigger] rest[a].job_number >= 1 by {
                        let a0 = if a < i { a } else { a + 1 };
                        assert(rest[a] == jobs[a0]);
                    }
                }
                self.background_jobs = all;
                return Ok(removed);
            }
            i = i + 1;
        }
        Err(())
    }

    /// Removes the first job whose process id is `pid`, the process having
    /// exited, and returns it marked `Done`; returns `Err(())` where no job
    /// has that process id.
    pub fn finish_background_job(&mut self, pid: i32) -> (res: Result<Job, ()>)
        ensures
            match job_position(old(self)@, pid) {
                Some(i) => res matches Ok(job) && job@ == JobModel {
                    state: State::Done,
                    ..old(self)@[i]
                } && final(self)@ == old(self)@.remove(i),
                None => res is Err && final(self)@ == old(self)@,
            },
            job_numbers_increasing(final(self)@),
    {
        match self.remove_background_job(pid) {
            Ok(mut job) => {
                job.state = State::Done;
                Ok(job)
            },
            Err(()) => Err(()),
        }
    }
}

} // verus!

verus! {

/// A job added with a process id that no earlier job has is the one that
/// finishing that process id finds, and removing it gives back the jobs as
/// they were before the addition.
pub proof fn law_add_then_finish(jobs: Seq<JobModel>, job: JobModel)
    requires
        forall|i: int| 0 <= i < jobs.len() ==> #[trigger] jobs[i].pid != job.pid,
    ensures
        job_position(jobs.push(job), job.pid) == Some(jobs.len() as int),
        jobs.push(job).remove(jobs.len() as int) == jobs,
{
    let all = jobs.push(job);
    let n = jobs.len() as int;
    assert(all[n].pid == job.pid);
    assert(forall|k: int| 0 <= k < n ==> #[trigger] all[k].pid != job.pid) by {
        assert forall|k: int| 0 <= k < n implies #[trigger] all[k].pid != job.pid by {
            assert(all[k] == jobs[k]);
        }
    }
    let p = job_position(all, job.pid);
    let i = p->0;
    assert(i == n) by {
        if i < n {
            assert(all[i] == jobs[i]);
        }
    }
    assert(all.remove(n) =~= jobs);
}

} // verus!

verus! {

/// The number that a string of decimal digits stands for.
pub open spec fn decimal_value(s: Seq<char>) -> int
    decreases s.len(),
{
    if s.len() == 0 {
        0
    } else {
        decimal_value(s.drop_last()) * 10 + (s.last() as int - '0' as int)
    }
}

/// The text of the digit `d` is the single character whose code is that of
/// `0` plus `d`.
pub proof fn law_digit_text(d: nat)
    requires
        d < 10,
    ensures
        digit_text(d).len() == 1,
        digit_text(d)[0] as int == '0' as int + d,
{
    reveal_strlit("0");
    reveal_strlit("1");
    reveal_strlit("2");
    reveal_strlit("3");
    reveal_strlit("4");
    reveal_strlit("5");
    reveal_strlit("6");
    reveal_strlit("7");
    reveal_strlit("8");
    reveal_strlit("9");
}

/// `decimal_text(n)` is the decimal notation of `n`: a non-empty string of
/// the digits `0` to `9`, without a leading zero, that reads back as `n`.
pub proof fn law_decimal_text(n: nat)
    ensures
        decimal_text(n).len() > 0,
        n < 10 <==> decimal_text(n).len() == 1,
        forall|k: int|
            0 <= k < decimal_text(n).len() ==> '0' <= #[trigger] decimal_text(n)[k] <= '9',
        decimal_value(decimal_text(n)) == n,
        decimal_text(n).len() > 1 ==> decimal_text(n)[0] != '0',
    decreases n,
{
    if n < 10 {
        law_digit_text(n);
        let t = decimal_text(n);
        assert(t.drop_last() =~= Seq::<char>::empty());
        assert(decimal_value(t) == decimal_value(t.drop_last()) * 10 + (t.last() as int - '0' as int));
    } else {
        let q = n / 10;
        let d = n % 10;
        law_decimal_text(q);
        law_digit_text(d);
        let x = decimal_text(q);
        let t = decimal_text(n);
        assert(t == x + digit_text(d));
        assert(t.drop_last() =~= x);
        assert(t.last() == digit_text(d)[0]);
        assert(q * 10 + d == n);
        assert forall|k: int| 0 <= k < t.len() implies '0' <= #[trigger] t[k] <= '9' by {
            if k < x.len() {
                assert(t[k] == x[k]);
            } else {
                assert(t[k] == digit_text(d)[0]);
            }
        }
        assert(t[0] == x[0]);
        if x.len() == 1 {
            law_digit_text(q);
            assert(x == digit_text(q));
        }
    }
}

} // verus!
