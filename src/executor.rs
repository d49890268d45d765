use crate::models::{AgentInfo, ProcessInfo, RunState};
use crate::scanner::{lemma_line_end_bounds, lemma_line_end_shift, line_end, strings_view};
use vstd::prelude::*;
use vstd::string::*;

verus! {

/// How many log lines a tail returns at most.
pub const LOG_TAIL_LINES: usize = 100;

/// Seconds between the graceful and the forceful termination request.
pub const GRACE_PERIOD_SECS: u64 = 5;

/// The name of how `chrono` writes `secs` seconds after the Unix epoch, in UTC,
/// as `%Y-%m-%d %H:%M:%S`.
pub uninterp spec fn utc_text_of(secs: i64) -> Seq<char>;

/// The last second of the year 9999, UTC, in seconds after the Unix epoch.
pub const LAST_STAMPED_SECOND: i64 = 253402300799;

/// Relies on `chrono::DateTime::from_timestamp` and `format`: the UTC date and time
/// of `secs`, or `None` where the instant is out of chrono's range, which takes in
/// every second from the epoch to the end of the year 9999. The pattern writes
/// digits, an optional sign, `-`, `:` and a space, so never a newline.
#[verifier::external_body]
fn utc_text(secs: i64) -> (r: Option<String>)
    ensures
        r.is_some() ==> r.unwrap()@ == utc_text_of(secs),
        r.is_some() ==> no_newline(r.unwrap()@),
        0 <= secs <= LAST_STAMPED_SECOND ==> r.is_some(),
{
    match chrono::DateTime::from_timestamp(secs, 0) {
        Some(t) => Some(t.format("%Y-%m-%d %H:%M:%S").to_string()),
        None => None,
    }
}

/// One log entry without its newline: the stamp in brackets, an `ERROR: ` mark for
/// the error stream, and the line.
pub open spec fn entry_body(stamp: Seq<char>, line: Seq<char>, is_stderr: bool) -> Seq<char> {
    if is_stderr {
        "["@ + stamp + "] ERROR: "@ + line
    } else {
        "["@ + stamp + "] "@ + line
    }
}

/// The text of one log entry, as it is appended to the log file.
pub open spec fn entry_text(stamp: Seq<char>, line: Seq<char>, is_stderr: bool) -> Seq<char> {
    entry_body(stamp, line, is_stderr) + "\n"@
}

/// `s` holds no newline.
pub open spec fn no_newline(s: Seq<char>) -> bool {
    forall|k: int| 0 <= k < s.len() ==> s[k] != '\n'
}

/// A log that was written by appending each of `bodies` followed by a newline.
pub open spec fn joined(bodies: Seq<Seq<char>>) -> Seq<char>
    decreases bodies.len(),
{
    if bodies.len() == 0 {
        seq![]
    } else {
        joined(bodies.drop_last()) + bodies.last() + "\n"@
    }
}

/// The log file of an agent: `<log_dir>/<id>.log`.
pub open spec fn log_path_of(log_dir: Seq<char>, id: Seq<char>) -> Seq<char> {
    log_dir + "/"@ + id + ".log"@
}

/// `line` without a final carriage return.
pub open spec fn strip_cr(line: Seq<char>) -> Seq<char> {
    if line.len() > 0 && line.last() == '\r' {
        line.drop_last()
    } else {
        line
    }
}

/// The lines of `s` as `str::lines` yields them: split at each newline, a carriage
/// return before the newline dropped, and no empty line after a final newline.
pub open spec fn lines_of(s: Seq<char>) -> Seq<Seq<char>>
    decreases s.len(),
{
    if s.len() == 0 {
        seq![]
    } else {
        let e = line_end(s, 0);
        if e >= s.len() {
            seq![s]
        } else {
            seq![strip_cr(s.subrange(0, e as int))] + lines_of(s.subrange(e + 1int, s.len() as int))
        }
    }
}

/// The last `LOG_TAIL_LINES` items of `lines`, or all of them where there are fewer.
pub open spec fn tail_of<T>(lines: Seq<T>) -> Seq<T> {
    if lines.len() > LOG_TAIL_LINES {
        lines.subrange(lines.len() - LOG_TAIL_LINES, lines.len() as int)
    } else {
        lines
    }
}

proof fn lemma_line_end_prefix(a: Seq<char>, b: Seq<char>, i: nat)
    requires
        i <= a.len(),
        line_end(a, i) < a.len(),
    ensures
        line_end(a + b, i) == line_end(a, i),
    decreases a.len() - i,
{
    if a[i as int] != '\n' {
        lemma_line_end_prefix(a, b, i + 1);
    }
}

/// Text that ends at a line break keeps its lines when more text is appended.
pub proof fn lemma_lines_append(a: Seq<char>, b: Seq<char>)
    requires
        a.len() == 0 || a.last() == '\n',
    ensures
        lines_of(a + b) == lines_of(a) + lines_of(b),
    decreases a.len(),
{
    if a.len() == 0 {
        assert(a + b =~= b);
        assert(lines_of(a) + lines_of(b) =~= lines_of(b));
    } else {
        lemma_line_end_bounds(a, 0);
        let e = line_end(a, 0);
        if e >= a.len() {
            assert(a[a.len() - 1] != '\n');
        }
        lemma_line_end_prefix(a, b, 0);
        let rest = a.subrange(e + 1int, a.len() as int);
        assert((a + b).subrange(0, e as int) =~= a.subrange(0, e as int));
        assert((a + b).subrange(e + 1int, (a + b).len() as int) =~= rest + b);
        if rest.len() > 0 {
            assert(rest.last() == a.last());
        }
        lemma_lines_append(rest, b);
        assert(lines_of(a + b) =~= seq![strip_cr(a.subrange(0, e as int))] + lines_of(rest + b));
        assert(lines_of(a) =~= seq![strip_cr(a.subrange(0, e as int))] + lines_of(rest));
        assert(lines_of(a + b) =~= lines_of(a) + lines_of(b));
    }
}

/// A line without newline, followed by one, reads back as that one line.
pub proof fn lemma_lines_single(x: Seq<char>)
    requires
        no_newline(x),
    ensures
        lines_of(x + "\n"@) == seq![strip_cr(x)],
{
    reveal_strlit("\n");
    let s = x + "\n"@;
    assert(s[x.len() as int] == '\n');
    lemma_line_end_bounds(s, 0);
    let e = line_end(s, 0);
    if e > x.len() {
        assert(s[x.len() as int] != '\n');
    }
    if e < x.len() {
        assert(s[e as int] == x[e as int]);
    }
    assert(e == x.len());
    assert(s.subrange(0, e as int) =~= x);
    let rest = s.subrange(e + 1int, s.len() as int);
    assert(rest.len() == 0);
    assert(lines_of(rest) == Seq::<Seq<char>>::empty());
    assert(lines_of(s) == seq![strip_cr(s.subrange(0, e as int))] + lines_of(rest));
    assert(lines_of(s) =~= seq![strip_cr(x)]);
}

/// A log built by appending lines, each with its newline, reads back as those lines.
pub proof fn lemma_lines_joined(bodies: Seq<Seq<char>>)
    requires
        forall|i: int| 0 <= i < bodies.len() ==> no_newline(#[trigger] bodies[i]),
    ensures
        lines_of(joined(bodies)) == bodies.map_values(|x: Seq<char>| strip_cr(x)),
    decreases bodies.len(),
{
    reveal_strlit("\n");
    if bodies.len() > 0 {
        let front = bodies.drop_last();
        assert forall|i: int| 0 <= i < front.len() implies no_newline(#[trigger] front[i]) by {
            assert(front[i] == bodies[i]);
        }
        lemma_lines_joined(front);
        let j = joined(front);
        if front.len() > 0 {
            assert(j == joined(front.drop_last()) + front.last() + "\n"@);
            assert(j.last() == '\n');
        }
        assert(no_newline(bodies[bodies.len() - 1]));
        lemma_lines_single(bodies.last());
        assert(joined(bodies) =~= j + (bodies.last() + "\n"@));
        lemma_lines_append(j, bodies.last() + "\n"@);
        assert(bodies.map_values(|x: Seq<char>| strip_cr(x)) =~= front.map_values(
            |x: Seq<char>| strip_cr(x),
        ) + seq![strip_cr(bodies.last())]);
    }
}

/// After entries are appended to an empty log, its tail is the last
/// `LOG_TAIL_LINES` of them in the order they were written, or all where there are
/// no more than that.
pub proof fn lemma_tail_after_appends(bodies: Seq<Seq<char>>)
    requires
        forall|i: int| 0 <= i < bodies.len() ==> no_newline(#[trigger] bodies[i]),
    ensures
        tail_of(lines_of(joined(bodies))) == tail_of(
            bodies.map_values(|x: Seq<char>| strip_cr(x)),
        ),
        bodies.len() <= LOG_TAIL_LINES ==> tail_of(lines_of(joined(bodies))) == bodies.map_values(
            |x: Seq<char>| strip_cr(x),
        ),
{
    lemma_lines_joined(bodies);
}

proof fn lemma_entry_body_no_newline(stamp: Seq<char>, line: Seq<char>, is_stderr: bool)
    requires
        no_newline(stamp),
        no_newline(line),
    ensures
        no_newline(entry_body(stamp, line, is_stderr)),
{
    reveal_strlit("[");
    reveal_strlit("] ERROR: ");
    reveal_strlit("] ");
    let b = entry_body(stamp, line, is_stderr);
    let mid = if is_stderr { "] ERROR: "@ } else { "] "@ };
    assert(b =~= "["@ + stamp + mid + line);
    assert forall|k: int| 0 <= k < b.len() implies b[k] != '\n' by {
        if k == 0 {
        } else if k < 1 + stamp.len() {
            assert(b[k] == stamp[k - 1]);
        } else if k < 1 + stamp.len() + mid.len() {
            assert(b[k] == mid[k - 1 - stamp.len()]);
        } else {
            assert(b[k] == line[k - 1 - stamp.len() - mid.len()]);
        }
    }
}

/// Two drained lines appended one after the other to a log that ends at a line
/// break are both in the log afterwards, after everything it held before.
pub proof fn lemma_drained_lines_kept(
    log: Seq<char>,
    stamp1: Seq<char>,
    line1: Seq<char>,
    err1: bool,
    stamp2: Seq<char>,
    line2: Seq<char>,
    err2: bool,
)
    requires
        log.len() == 0 || log.last() == '\n',
        no_newline(stamp1),
        no_newline(line1),
        no_newline(stamp2),
        no_newline(line2),
    ensures
        lines_of(log + entry_text(stamp1, line1, err1) + entry_text(stamp2, line2, err2))
            == lines_of(log) + seq![
            strip_cr(entry_body(stamp1, line1, err1)),
            strip_cr(entry_body(stamp2, line2, err2)),
        ],
{
    reveal_strlit("\n");
    let t1 = entry_text(stamp1, line1, err1);
    let t2 = entry_text(stamp2, line2, err2);
    lemma_entry_body_no_newline(stamp1, line1, err1);
    lemma_entry_body_no_newline(stamp2, line2, err2);
    lemma_lines_single(entry_body(stamp1, line1, err1));
    lemma_lines_single(entry_body(stamp2, line2, err2));
    assert(t1.last() == '\n');
    lemma_lines_append(t1, t2);
    assert(log + t1 + t2 =~= log + (t1 + t2));
    lemma_lines_append(log, t1 + t2);
    assert(lines_of(log + t1 + t2) =~= lines_of(log) + seq![
        strip_cr(entry_body(stamp1, line1, err1)),
        strip_cr(entry_body(stamp2, line2, err2)),
    ]);
}

/// Why a launch did not happen.
#[derive(Clone, Copy, Debug, PartialEq, Eq, Structural)]
pub enum LaunchError {
    /// The bundle has no run script to start.
    MissingEntrypoint,
}

/// Everything needed to start an agent's process.
#[derive(Clone, Debug)]
pub struct LaunchPlan {
    pub program: String,
    pub args: Vec<String>,
    pub working_dir: String,
    pub env: Vec<(String, String)>,
    pub log_file: String,
}

/// Where a stop request stands.
#[derive(Clone, Copy, Debug, PartialEq, Eq, Structural)]
pub enum StopPhase {
    Start,
    Terminating,
    Waiting,
    Checking,
    Killing,
    Done,
}

/// What happened since the last action of a stop request.
#[derive(Clone, Copy, Debug, PartialEq, Eq, Structural)]
pub enum StopEvent {
    /// The stop was asked for.
    Begin,
    /// The graceful request was, or was not, delivered.
    TermDelivered(bool),
    /// The wait is over.
    WaitOver,
    /// The process was, or was not, found alive.
    Alive(bool),
    /// The forceful request was, or was not, delivered.
    KillDelivered(bool),
}

/// What the caller does next for a stop request.
#[derive(Clone, Copy, Debug, PartialEq, Eq, Structural)]
pub enum StopAction {
    SendTerm,
    /// Wait this many seconds.
    Wait(u64),
    CheckAlive,
    SendKill,
    Succeed,
    Fail,
}

/// One step of a stop request: from a phase and an event to the next phase and
/// action, or `None` where the event does not belong to the phase. A failed graceful
/// request is tolerated; the wait is the full grace period whatever happened; the
/// forceful request comes only after it, for a process still alive, and its failure
/// fails the stop.
pub open spec fn stop_transition(phase: StopPhase, event: StopEvent) -> Option<
    (StopPhase, StopAction),
> {
    match (phase, event) {
        (StopPhase::Start, StopEvent::Begin) => Some((StopPhase::Terminating, StopAction::SendTerm)),
        (StopPhase::Terminating, StopEvent::TermDelivered(_)) => Some(
            (StopPhase::Waiting, StopAction::Wait(GRACE_PERIOD_SECS)),
        ),
        (StopPhase::Waiting, StopEvent::WaitOver) => Some(
            (StopPhase::Checking, StopAction::CheckAlive),
        ),
        (StopPhase::Checking, StopEvent::Alive(alive)) => if alive {
            Some((StopPhase::Killing, StopAction::SendKill))
        } else {
            Some((StopPhase::Done, StopAction::Succeed))
        },
        (StopPhase::Killing, StopEvent::KillDelivered(ok)) => if ok {
            Some((StopPhase::Done, StopAction::Succeed))
        } else {
            Some((StopPhase::Done, StopAction::Fail))
        },
        _ => None,
    }
}

/// The phase and the actions after a sequence of events from `Start`, or `None`
/// where some event did not belong.
pub open spec fn stop_run(events: Seq<StopEvent>) -> Option<(StopPhase, Seq<StopAction>)>
    decreases events.len(),
{
    if events.len() == 0 {
        Some((StopPhase::Start, seq![]))
    } else {
        match stop_run(events.drop_last()) {
            Some((phase, acts)) => match stop_transition(phase, events.last()) {
                Some((next, act)) => Some((next, acts.push(act))),
                None => None,
            },
            None => None,
        }
    }
}

/// The actions that lead to each phase, for a stop that keeps to the rules.
pub open spec fn stop_history(phase: StopPhase, acts: Seq<StopAction>) -> bool {
    let g = StopAction::Wait(GRACE_PERIOD_SECS);
    match phase {
        StopPhase::Start => acts == Seq::<StopAction>::empty(),
        StopPhase::Terminating => acts == seq![StopAction::SendTerm],
        StopPhase::Waiting => acts == seq![StopAction::SendTerm, g],
        StopPhase::Checking => acts == seq![StopAction::SendTerm, g, StopAction::CheckAlive],
        StopPhase::Killing => acts == seq![
            StopAction::SendTerm,
            g,
            StopAction::CheckAlive,
            StopAction::SendKill,
        ],
        StopPhase::Done => acts == seq![
            StopAction::SendTerm,
            g,
            StopAction::CheckAlive,
            StopAction::Succeed,
        ] || acts == seq![
            StopAction::SendTerm,
            g,
            StopAction::CheckAlive,
            StopAction::SendKill,
            StopAction::Succeed,
        ] || acts == seq![
            StopAction::SendTerm,
            g,
            StopAction::CheckAlive,
            StopAction::SendKill,
            StopAction::Fail,
        ],
    }
}

/// Every stop, whatever the process does, asks gracefully first, waits the full grace
/// period, checks liveness, and only then asks forcefully, and it fails only where the
/// forceful request could not be delivered.
pub proof fn lemma_stop_sequence(events: Seq<StopEvent>)
    ensures
        stop_run(events) matches Some((phase, acts)) ==> stop_history(phase, acts),
    decreases events.len(),
{
    if events.len() > 0 {
        lemma_stop_sequence(events.drop_last());
        match stop_run(events.drop_last()) {
            Some((phase, acts)) => {
                if let Some((next, act)) = stop_transition(phase, events.last()) {
                    let g = StopAction::Wait(GRACE_PERIOD_SECS);
                    assert(seq![StopAction::SendTerm, g, StopAction::CheckAlive].push(StopAction::Succeed)
                        =~= seq![StopAction::SendTerm, g, StopAction::CheckAlive, StopAction::Succeed]);
                    assert(seq![StopAction::SendTerm, g, StopAction::CheckAlive].push(StopAction::SendKill)
                        =~= seq![StopAction::SendTerm, g, StopAction::CheckAlive, StopAction::SendKill]);
                    assert(seq![StopAction::SendTerm, g, StopAction::CheckAlive, StopAction::SendKill].push(StopAction::Succeed)
                        =~= seq![StopAction::SendTerm, g, StopAction::CheckAlive, StopAction::SendKill, StopAction::Succeed]);
                    assert(seq![StopAction::SendTerm, g, StopAction::CheckAlive, StopAction::SendKill].push(StopAction::Fail)
                        =~= seq![StopAction::SendTerm, g, StopAction::CheckAlive, StopAction::SendKill, StopAction::Fail]);
                    assert(seq![StopAction::SendTerm, g].push(StopAction::CheckAlive)
                        =~= seq![StopAction::SendTerm, g, StopAction::CheckAlive]);
                    assert(seq![StopAction::SendTerm].push(g) =~= seq![StopAction::SendTerm, g]);
                    assert(Seq::<StopAction>::empty().push(StopAction::SendTerm) =~= seq![StopAction::SendTerm]);
                }
            },
            None => {},
        }
    }
}

/// Decides the next step of a stop request.
pub fn stop_step(phase: StopPhase, event: StopEvent) -> (r: Option<(StopPhase, StopAction)>)
    ensures
        r == stop_transition(phase, event),
{
    match (phase, event) {
        (StopPhase::Start, StopEvent::Begin) => Some((StopPhase::Terminating, StopAction::SendTerm)),
        (StopPhase::Terminating, StopEvent::TermDelivered(_)) => Some(
            (StopPhase::Waiting, StopAction::Wait(GRACE_PERIOD_SECS)),
        ),
        (StopPhase::Waiting, StopEvent::WaitOver) => Some(
            (StopPhase::Checking, StopAction::CheckAlive),
        ),
        (StopPhase::Checking, StopEvent::Alive(alive)) => if alive {
            Some((StopPhase::Killing, StopAction::SendKill))
        } else {
            Some((StopPhase::Done, StopAction::Succeed))
        },
        (StopPhase::Killing, StopEvent::KillDelivered(ok)) => if ok {
            Some((StopPhase::Done, StopAction::Succeed))
        } else {
            Some((StopPhase::Done, StopAction::Fail))
        },
        _ => None,
    }
}

/// Supervises agent processes, keeping one log file per agent.
#[derive(Clone, Debug)]
pub struct AgentExecutor {
    pub log_dir: String,
}

impl AgentExecutor {
    /// A supervisor that writes its logs under `logs`.
    pub fn new() -> (r: Self)
        ensures
            r.log_dir@ == "logs"@,
    {
        AgentExecutor { log_dir: String::from_str("logs") }
    }

    /// The log file of the agent with id `agent_id`.
    pub fn log_file_path(&self, agent_id: &str) -> (r: String)
        ensures
            r@ == log_path_of(self.log_dir@, agent_id@),
    {
        let mut p = self.log_dir.clone();
        p.append("/");
        p.append(agent_id);
        p.append(".log");
        proof {
            reveal_strlit("/");
            reveal_strlit(".log");
        }
        p
    }

    /// Decides how to start an agent. `run_script_exists` tells whether the run script
    /// is at the top of the bundle. The launch is refused, with nothing to start, when
    /// the run-script slot is unresolved or the script is not there.
    pub fn launch_agent(&self, agent: &AgentInfo, run_script_exists: bool) -> (r: Result<
        LaunchPlan,
        LaunchError,
    >)
        ensures
            r.is_err() <==> (agent.files.run_rb.is_none() || !run_script_exists),
            r.is_err() ==> r == Err::<LaunchPlan, LaunchError>(LaunchError::MissingEntrypoint),
            r.is_ok() ==> ({
                let p = r.unwrap();
                &&& p.program@ == "ruby"@
                &&& p.args@.len() == 1
                &&& p.args@[0]@ == "run.rb"@
                &&& p.working_dir@ == agent.path@
                &&& p.log_file@ == log_path_of(self.log_dir@, agent.id@)
                &&& p.env@.len() == 4
                &&& p.env@[0].0@ == "3OX_FREE_MODE"@ && p.env@[0].1@ == "true"@
                &&& p.env@[1].0@ == "AGENT_HOME"@ && p.env@[1].1@ == agent.path@
                &&& p.env@[2].0@ == "AGENT_ID"@ && p.env@[2].1@ == agent.id@
                &&& p.env@[3].0@ == "RABBITMQ_URL"@ && p.env@[3].1@ == "amqp://localhost:5672"@
            }),
    {
        if agent.files.run_rb.is_none() || !run_script_exists {
            return Err(LaunchError::MissingEntrypoint);
        }
        let mut args: Vec<String> = Vec::new();
        args.push(String::from_str("run.rb"));
        let mut env: Vec<(String, String)> = Vec::new();
        env.push((String::from_str("3OX_FREE_MODE"), String::from_str("true")));
        env.push((String::from_str("AGENT_HOME"), agent.path.clone()));
        env.push((String::from_str("AGENT_ID"), agent.id.clone()));
        env.push((String::from_str("RABBITMQ_URL"), String::from_str("amqp://localhost:5672")));
        Ok(LaunchPlan {
            program: String::from_str("ruby"),
            args,
            working_dir: agent.path.clone(),
            env,
            log_file: self.log_file_path(agent.id.as_str()),
        })
    }

    /// The record of a process that was started with id `pid` at `started_at`.
    pub fn launched(&self, pid: u32, started_at: u64) -> (r: ProcessInfo)
        ensures
            r == (ProcessInfo { pid, started_at, status: RunState::Running }),
    {
        ProcessInfo { pid, started_at, status: RunState::Running }
    }

    /// The entry that a drained output line becomes in the log.
    pub fn format_log_entry(&self, stamp: &str, line: &str, is_stderr: bool) -> (r: String)
        ensures
            r@ == entry_text(stamp@, line@, is_stderr),
    {
        let mut e = String::from_str("[");
        e.append(stamp);
        if is_stderr {
            e.append("] ERROR: ");
        } else {
            e.append("] ");
        }
        e.append(line);
        e.append("\n");
        proof {
            reveal_strlit("[");
            reveal_strlit("] ERROR: ");
            reveal_strlit("] ");
            reveal_strlit("\n");
        }
        e
    }

    /// The entry for a line drained at `secs` seconds after the Unix epoch, stamped in
    /// UTC; `None` where that instant cannot be written as a date, which never happens
    /// from the epoch to the end of the year 9999. The stamp holds no newline, so
    /// entries of newline-free lines stay one log line each.
    pub fn stamp_log_entry(&self, secs: i64, line: &str, is_stderr: bool) -> (r: Option<String>)
        ensures
            r.is_some() ==> r.unwrap()@ == entry_text(utc_text_of(secs), line@, is_stderr),
            r.is_some() ==> no_newline(utc_text_of(secs)),
            0 <= secs <= LAST_STAMPED_SECOND ==> r.is_some(),
    {
        match utc_text(secs) {
            Some(stamp) => Some(self.format_log_entry(stamp.as_str(), line, is_stderr)),
            None => None,
        }
    }

    /// The lines of a log file's text, as `str::lines` yields them.
    pub fn split_lines(&self, content: &str) -> (r: Vec<String>)
        ensures
            strings_view(r@) == lines_of(content@),
    {
        let n = content.unicode_len();
        let mut out: Vec<String> = Vec::new();
        let mut start: usize = 0;
        assert(content@.subrange(0, n as int) =~= content@);
        while start < n
            invariant
                start <= n == content@.len(),
                lines_of(content@) == strings_view(out@) + lines_of(
                    content@.subrange(start as int, n as int),
                ),
            decreases n - start,
        {
            let ghost rest = content@.subrange(start as int, n as int);
            let mut e: usize = start;
            while e < n && content.get_char(e) != '\n'
                invariant
                    start <= e <= n == content@.len(),
                    rest == content@.subrange(start as int, n as int),
                    line_end(rest, 0) == line_end(rest, (e - start) as nat),
                decreases n - e,
            {
                e = e + 1;
            }
            proof {
                lemma_line_end_shift(content@, start as int, e as int);
                assert(rest.subrange(0, (e - start) as int) =~= content@.subrange(
                    start as int,
                    e as int,
                ));
                if e < n {
                    assert(rest.subrange((e - start) + 1int, rest.len() as int) =~= content@.subrange(
                        e + 1int,
                        n as int,
                    ));
                }
            }
            let ghost old_out = out@;
            if e >= n {
                assert(rest =~= content@.subrange(start as int, e as int));
                out.push(String::from_str(content.substring_char(start, e)));
                assert(strings_view(out@) =~= strings_view(old_out).push(rest));
                assert(content@.subrange(n as int, n as int).len() == 0);
                start = n;
            } else {
                let mut end = e;
                if e > start && content.get_char(e - 1) == '\r' {
                    end = e - 1;
                }
                let line = content.substring_char(start, end);
                assert(line@ =~= strip_cr(content@.subrange(start as int, e as int)));
                out.push(String::from_str(line));
                assert(strings_view(out@) =~= strings_view(old_out).push(line@));
                assert(strings_view(old_out).push(line@) + lines_of(
                    content@.subrange(e + 1int, n as int),
                ) =~= strings_view(old_out) + (seq![line@] + lines_of(
                    content@.subrange(e + 1int, n as int),
                )));
                start = e + 1;
            }
        }
        assert(strings_view(out@) + lines_of(content@.subrange(n as int, n as int)) =~= strings_view(out@));
        out
    }

    /// The last `LOG_TAIL_LINES` lines, earliest first, or all of them where there
    /// are fewer.
    pub fn tail_logs(&self, lines: &Vec<String>) -> (r: Vec<String>)
        ensures
            strings_view(r@) == tail_of(strings_view(lines@)),
    {
        let n = lines.len();
        let start: usize = if n > LOG_TAIL_LINES {
            n - LOG_TAIL_LINES
        } else {
            0
        };
        let mut out: Vec<String> = Vec::new();
        let mut i: usize = start;
        while i < n
            invariant
                start <= i <= n == lines@.len(),
                start == (if n > LOG_TAIL_LINES { n - LOG_TAIL_LINES } else { 0 }),
                strings_view(out@) == strings_view(lines@).subrange(start as int, i as int),
            decreases n - i,
        {
            let ghost old_out = out@;
            out.push(lines[i].clone());
            assert(strings_view(out@) =~= strings_view(old_out).push(lines@[i as int]@));
            assert(strings_view(out@) =~= strings_view(lines@).subrange(start as int, i + 1));
            i = i + 1;
        }
        assert(strings_view(lines@).subrange(0, n as int) =~= strings_view(lines@));
        out
    }

    /// A point-in-time tail of an agent's log, given the log file's text, or `None`
    /// where there is no log file; then the one line is `No logs available`.
    pub fn get_agent_logs(&self, content: Option<String>) -> (r: Vec<String>)
        ensures
            content.is_none() ==> strings_view(r@) == seq!["No logs available"@],
            content.is_some() ==> strings_view(r@) == tail_of(lines_of(content.unwrap()@)),
    {
        match content {
            Some(c) => {
                let lines = self.split_lines(c.as_str());
                self.tail_logs(&lines)
            },
            None => {
                let mut out: Vec<String> = Vec::new();
                out.push(String::from_str("No logs available"));
                assert(strings_view(out@) =~= seq!["No logs available"@]);
                out
            },
        }
    }

    /// What a status query reports, given whether the process is alive.
    pub fn get_agent_status(&self, running: bool) -> (r: RunState)
        ensures
            r == (if running {
                RunState::Running
            } else {
                RunState::Stopped
            }),
    {
        if running {
            RunState::Running
        } else {
            RunState::Stopped
        }
    }
}

} // verus!
