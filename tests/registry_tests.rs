use agent_sets::models::AgentInfo;
use agent_sets::registry::Registry;
use agent_sets::executor::AgentExecutor;

fn agent(id: &str, name: &str) -> AgentInfo {
    AgentInfo::new(id.to_string(), name.to_string(), format!("sets/{}.3ox", name))
}

#[test]
fn first_agent_with_an_id_is_kept() {
    let mut r = Registry::new();
    assert!(r.register(agent("scout", "Scout")));
    assert!(!r.register(agent("scout", "scout")));
    assert!(r.register(agent("other", "Other")));
    assert_eq!(r.len(), 2);
    let k = r.find("scout").unwrap();
    assert_eq!(r.agent_at(k).name, "Scout");
    assert_eq!(r.find("missing"), None);
}

#[test]
fn failed_stop_keeps_the_process() {
    let ex = AgentExecutor::new();
    let mut r = Registry::new();
    r.register(agent("scout", "Scout"));
    let k = r.find("scout").unwrap();
    assert_eq!(r.process_at(k), None);
    r.record_launch(k, ex.launched(7, 1));
    r.finish_stop(k, false);
    assert_eq!(r.process_at(k).map(|p| p.pid), Some(7));
    r.finish_stop(k, true);
    assert_eq!(r.process_at(k), None);
}

#[test]
fn refused_launch_records_no_process() {
    let ex = AgentExecutor::new();
    let mut r = Registry::new();
    r.register(agent("scout", "Scout"));
    let k = r.find("scout").unwrap();
    let refused = ex.launch_agent(r.agent_at(k), false);
    assert!(refused.is_err());
    r.finish_launch(k, None);
    assert_eq!(r.process_at(k), None);
    r.finish_launch(k, Some(ex.launched(9, 2)));
    assert_eq!(r.process_at(k).map(|p| p.pid), Some(9));
}
