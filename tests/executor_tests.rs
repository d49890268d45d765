use agent_sets::executor::{
    stop_step, AgentExecutor, LaunchError, StopAction, StopEvent, StopPhase, GRACE_PERIOD_SECS,
};
use agent_sets::models::{AgentFiles, AgentInfo, RunState};

fn agent_with_run_script(has_run: bool) -> AgentInfo {
    let mut a = AgentInfo::new("scout".to_string(), "Scout".to_string(), "/sets/Scout.3ox".to_string());
    a.files = AgentFiles::default();
    if has_run {
        a.files.run_rb = Some("/sets/Scout.3ox/run.rb".to_string());
    }
    a
}

#[test]
fn launch_without_entrypoint_fails() {
    let ex = AgentExecutor::new();
    let r = ex.launch_agent(&agent_with_run_script(false), true);
    assert_eq!(r.unwrap_err(), LaunchError::MissingEntrypoint);
    let r = ex.launch_agent(&agent_with_run_script(true), false);
    assert_eq!(r.unwrap_err(), LaunchError::MissingEntrypoint);
}

#[test]
fn launch_plan_sets_environment() {
    let ex = AgentExecutor::new();
    let plan = ex.launch_agent(&agent_with_run_script(true), true).unwrap();
    assert_eq!(plan.program, "ruby");
    assert_eq!(plan.args, vec!["run.rb".to_string()]);
    assert_eq!(plan.working_dir, "/sets/Scout.3ox");
    assert_eq!(plan.log_file, "logs/scout.log");
    assert_eq!(
        plan.env,
        vec![
            ("3OX_FREE_MODE".to_string(), "true".to_string()),
            ("AGENT_HOME".to_string(), "/sets/Scout.3ox".to_string()),
            ("AGENT_ID".to_string(), "scout".to_string()),
            ("RABBITMQ_URL".to_string(), "amqp://localhost:5672".to_string()),
        ]
    );
    let p = ex.launched(4242, 1000);
    assert_eq!(p.pid, 4242);
    assert_eq!(p.started_at, 1000);
    assert_eq!(p.status, RunState::Running);
}

#[test]
fn log_entries_are_formatted() {
    let ex = AgentExecutor::new();
    assert_eq!(ex.format_log_entry("2024-01-02 03:04:05", "hi", false), "[2024-01-02 03:04:05] hi\n");
    assert_eq!(ex.format_log_entry("t", "bad", true), "[t] ERROR: bad\n");
    assert_eq!(ex.stamp_log_entry(0, "up", false), Some("[1970-01-01 00:00:00] up\n".to_string()));
    assert_eq!(
        ex.stamp_log_entry(86_400 + 3_661, "x", true),
        Some("[1970-01-02 01:01:01] ERROR: x\n".to_string())
    );
    assert_eq!(
        ex.stamp_log_entry(253_402_300_799, "end", false),
        Some("[9999-12-31 23:59:59] end\n".to_string())
    );
}

#[test]
fn two_drained_lines_both_remain() {
    let ex = AgentExecutor::new();
    let mut log = String::from("[t0] earlier\n");
    log.push_str(&ex.format_log_entry("t1", "first", false));
    log.push_str(&ex.format_log_entry("t2", "second", false));
    let lines = ex.get_agent_logs(Some(log));
    assert_eq!(lines, vec!["[t0] earlier", "[t1] first", "[t2] second"]);
}

#[test]
fn tail_keeps_last_hundred_in_order() {
    let ex = AgentExecutor::new();
    let mut log = String::new();
    for i in 0..150 {
        log.push_str(&ex.format_log_entry("t", &format!("line {}", i), false));
    }
    let lines = ex.get_agent_logs(Some(log));
    assert_eq!(lines.len(), 100);
    assert_eq!(lines[0], "[t] line 50");
    assert_eq!(lines[99], "[t] line 149");
    let mut short = String::new();
    for i in 0..100 {
        short.push_str(&ex.format_log_entry("t", &format!("l{}", i), false));
    }
    let lines = ex.get_agent_logs(Some(short));
    assert_eq!(lines.len(), 100);
    assert_eq!(lines[0], "[t] l0");
    let lines = ex.tail_logs(&vec!["a".to_string(), "b".to_string()]);
    assert_eq!(lines, vec!["a", "b"]);
}

#[test]
fn missing_log_gives_sentinel() {
    let ex = AgentExecutor::new();
    assert_eq!(ex.get_agent_logs(None), vec!["No logs available".to_string()]);
    assert!(ex.get_agent_logs(Some(String::new())).is_empty());
}

#[test]
fn lines_split_like_std() {
    let ex = AgentExecutor::new();
    assert_eq!(ex.split_lines("a\r\nb\n\nc"), vec!["a", "b", "", "c"]);
    assert_eq!(ex.split_lines("a\n"), vec!["a"]);
    assert_eq!(ex.split_lines("\n"), vec![""]);
    assert!(ex.split_lines("").is_empty());
}

#[test]
fn status_follows_liveness() {
    let ex = AgentExecutor::new();
    assert_eq!(ex.get_agent_status(true), RunState::Running);
    assert_eq!(ex.get_agent_status(false).as_str(), "stopped");
}

fn drive(events: &[StopEvent]) -> Vec<StopAction> {
    let mut phase = StopPhase::Start;
    let mut acts = Vec::new();
    for e in events {
        let (next, act) = stop_step(phase, *e).expect("event fits the phase");
        phase = next;
        acts.push(act);
    }
    acts
}

#[test]
fn stop_waits_full_grace_before_kill() {
    let acts = drive(&[
        StopEvent::Begin,
        StopEvent::TermDelivered(true),
        StopEvent::WaitOver,
        StopEvent::Alive(true),
        StopEvent::KillDelivered(true),
    ]);
    assert_eq!(GRACE_PERIOD_SECS, 5);
    assert_eq!(
        acts,
        vec![
            StopAction::SendTerm,
            StopAction::Wait(5),
            StopAction::CheckAlive,
            StopAction::SendKill,
            StopAction::Succeed
        ]
    );
}

#[test]
fn stop_fails_when_kill_undeliverable() {
    let acts = drive(&[
        StopEvent::Begin,
        StopEvent::TermDelivered(false),
        StopEvent::WaitOver,
        StopEvent::Alive(true),
        StopEvent::KillDelivered(false),
    ]);
    assert_eq!(acts[1], StopAction::Wait(5));
    assert_eq!(acts[4], StopAction::Fail);
}

#[test]
fn stop_succeeds_when_process_exits_gracefully() {
    let acts = drive(&[StopEvent::Begin, StopEvent::TermDelivered(true), StopEvent::WaitOver, StopEvent::Alive(false)]);
    assert_eq!(acts[3], StopAction::Succeed);
    assert_eq!(stop_step(StopPhase::Start, StopEvent::WaitOver), None);
    assert_eq!(stop_step(StopPhase::Done, StopEvent::Begin), None);
}
