use agent_sets::models::{AgentFiles, AgentLimits, AgentRoutes, ChecksumEntry, RunState, Verification};
use agent_sets::scanner::{AgentScanner, ChildEntry, FoundFile, Sidecars};

const CANON: [&str; 7] = [
    "brain.exe",
    "brain.rs",
    "run.rb",
    "tools.yml",
    "limits.json",
    "routes.json",
    "Cargo.toml",
];

fn scanner() -> AgentScanner {
    AgentScanner::new("sets".to_string())
}

fn child(name: &str, is_dir: bool) -> ChildEntry {
    ChildEntry { name: name.to_string(), is_dir }
}

fn found(name: &str, path: &str) -> FoundFile {
    FoundFile { name: name.to_string(), path: path.to_string() }
}

fn no_sidecars() -> Sidecars {
    Sidecars { limits: None, routes: None, tools: None }
}

fn full_walk(root: &str) -> Vec<FoundFile> {
    CANON.iter().map(|n| found(n, &format!("{}/{}", root, n))).collect()
}

#[test]
fn empty_root_yields_no_agents() {
    let s = scanner();
    assert!(s.select_bundles(&Vec::new()).is_empty());
}

#[test]
fn only_suffixed_directories_are_bundles() {
    let s = scanner();
    let entries = vec![
        child("Scout.3ox", true),
        child("notes.txt", false),
        child("Other", true),
        child("file.3ox", false),
        child("Finance.3ox", true),
        child("Mid.3ox.bak", true),
    ];
    assert_eq!(s.select_bundles(&entries), vec![0, 4]);
}

#[test]
fn identity_strips_suffix_lowercases_and_hyphenates() {
    let s = scanner();
    let (name, id) = s.agent_identity("My Cool Agent.3ox");
    assert_eq!(name, "My Cool Agent");
    assert_eq!(id, "my-cool-agent");
    let (name, id) = s.agent_identity("Odd_Name!.3ox.3ox");
    assert_eq!(name, "Odd_Name!");
    assert_eq!(id, "odd_name!");
}

#[test]
fn first_occurrence_of_a_file_wins() {
    let s = scanner();
    let walk = vec![
        found("run.rb", "B/run.rb"),
        found("run.rb", "B/sub/run.rb"),
        found("other.txt", "B/other.txt"),
    ];
    let files = s.resolve_fileset(&walk);
    assert_eq!(files.run_rb, Some("B/run.rb".to_string()));
    assert_eq!(files.brain_exe, None);
}

#[test]
fn checksum_manifest_is_located() {
    let s = scanner();
    let walk = vec![found("x", "B/x"), found("checksums.json", "B/checksums.json")];
    assert_eq!(s.checksum_path(&walk), Some("B/checksums.json".to_string()));
    assert_eq!(s.checksum_path(&vec![found("x", "B/x")]), None);
}

#[test]
fn scout_bundle_is_valid_and_stopped() {
    let s = scanner();
    let files = s.resolve_fileset(&full_walk("sets/Scout.3ox"));
    let agent = s.scan_agent_directory("Scout.3ox", "sets/Scout.3ox".to_string(), files, no_sidecars());
    assert_eq!(agent.id, "scout");
    assert_eq!(agent.name, "Scout");
    assert_eq!(agent.verification, Verification::Valid);
    assert_eq!(agent.status, RunState::Stopped);
    assert!(agent.is_canon_fileset_complete());
    assert!(agent.get_missing_files().is_empty());
    let contents: Vec<Option<Vec<u8>>> = (0..7).map(|_| Some(Vec::new())).collect();
    let result = s.verify_agent_files(&agent, &contents);
    assert_eq!(result.len(), 7);
    for (i, (name, ok)) in result.iter().enumerate() {
        assert_eq!(name, CANON[i]);
        assert!(*ok);
    }
}

#[test]
fn each_missing_canon_file_makes_bundle_invalid() {
    let s = scanner();
    for skip in 0..7 {
        let walk: Vec<FoundFile> = full_walk("B.3ox")
            .into_iter()
            .enumerate()
            .filter(|(i, _)| *i != skip)
            .map(|(_, f)| f)
            .collect();
        let files = s.resolve_fileset(&walk);
        let agent = s.scan_agent_directory("B.3ox", "B.3ox".to_string(), files, no_sidecars());
        assert_eq!(agent.verification, Verification::Invalid);
        assert_eq!(agent.status, RunState::Unknown);
        assert_eq!(agent.get_missing_files(), vec![CANON[skip].to_string()]);
    }
}

#[test]
fn nested_canon_files_still_count() {
    let s = scanner();
    let files = s.resolve_fileset(&full_walk("B.3ox/deep/er"));
    let agent = s.scan_agent_directory("B.3ox", "B.3ox".to_string(), files, no_sidecars());
    assert_eq!(agent.verification, Verification::Valid);
}

#[test]
fn sidecars_fill_metadata() {
    let s = scanner();
    let files = s.resolve_fileset(&full_walk("B.3ox"));
    let limits = AgentLimits {
        max_memory_mb: Some(64),
        max_cpu_percent: Some(10),
        max_disk_mb: None,
        timeout_seconds: Some(30),
        max_concurrent_tasks: Some(1),
    };
    let mut routes = AgentRoutes::default();
    routes.capabilities = vec!["scan".to_string(), "report".to_string()];
    let tools = "name: x\n  description: \"Looks around\"\nrole: Scout\nrole: Other\ntier:Elite\n";
    let side = Sidecars { limits: Some(limits), routes: Some(routes), tools: Some(tools.to_string()) };
    let agent = s.scan_agent_directory("B.3ox", "B.3ox".to_string(), files, side);
    assert_eq!(agent.limits.max_memory_mb, Some(64));
    assert_eq!(agent.limits.max_disk_mb, None);
    assert_eq!(agent.capabilities, vec!["scan".to_string(), "report".to_string()]);
    assert_eq!(agent.routes.capabilities.len(), 2);
    assert_eq!(agent.description, "Looks around");
    assert_eq!(agent.role, "Scout");
    assert_eq!(agent.tier, "Elite");
    assert_eq!(agent.icon, "🤖");
}

#[test]
fn defaults_without_sidecars() {
    let s = scanner();
    let agent = s.scan_agent_directory("B.3ox", "B.3ox".to_string(), AgentFiles::default(), no_sidecars());
    assert_eq!(agent.role, "Unknown");
    assert_eq!(agent.description, "No description available");
    assert_eq!(agent.tier, "Standard");
    assert_eq!(agent.limits.max_memory_mb, Some(512));
    assert_eq!(agent.limits.max_cpu_percent, Some(50));
    assert_eq!(agent.limits.max_disk_mb, Some(1024));
    assert_eq!(agent.limits.timeout_seconds, Some(300));
    assert_eq!(agent.limits.max_concurrent_tasks, Some(5));
    assert_eq!(agent.get_missing_files().len(), 7);
}

#[test]
fn sidecar_ignored_when_its_file_was_not_found() {
    let s = scanner();
    let side = Sidecars { limits: None, routes: None, tools: Some("role: Ghost".to_string()) };
    let agent = s.scan_agent_directory("B.3ox", "B.3ox".to_string(), AgentFiles::default(), side);
    assert_eq!(agent.role, "Unknown");
}

#[test]
fn yaml_field_extraction() {
    let s = scanner();
    let text = "  role:   \"Analyst\"  \r\nroles: no\nrole: second\nicon: a:b\n";
    assert_eq!(s.extract_yaml_field(text, "role"), Some("Analyst".to_string()));
    assert_eq!(s.extract_yaml_field(text, "icon"), Some("a:b".to_string()));
    assert_eq!(s.extract_yaml_field(text, "tier"), None);
    assert_eq!(s.extract_yaml_field("", "role"), None);
    assert_eq!(s.extract_yaml_field("tier:", "tier"), Some(String::new()));
    assert_eq!(s.extract_yaml_field("tier: \"\"\"x\"", "tier"), Some("x".to_string()));
}

const HELLO_SHA256: &str = "2cf24dba5fb0a30e26e83b2ac5b9e29e1b161e5c1fa7425e73043362938b9824";

#[test]
fn checksums_compare_content_digests() {
    let s = scanner();
    let mut agent = s.scan_agent_directory("B.3ox", "B.3ox".to_string(), AgentFiles::default(), no_sidecars());
    agent.files.checksums = Some(vec![
        ChecksumEntry { file: "a.txt".to_string(), digest: HELLO_SHA256.to_string() },
        ChecksumEntry { file: "b.txt".to_string(), digest: HELLO_SHA256.to_string() },
        ChecksumEntry { file: "c.txt".to_string(), digest: HELLO_SHA256.to_string() },
        ChecksumEntry { file: "d.txt".to_string(), digest: HELLO_SHA256.to_uppercase() },
    ]);
    assert_eq!(
        s.verification_targets(&agent),
        vec!["a.txt".to_string(), "b.txt".to_string(), "c.txt".to_string(), "d.txt".to_string()]
    );
    let contents = vec![
        Some(b"hello".to_vec()),
        Some(b"hello!".to_vec()),
        None,
        Some(b"hello".to_vec()),
    ];
    let result = s.verify_agent_files(&agent, &contents);
    assert_eq!(
        result,
        vec![
            ("a.txt".to_string(), true),
            ("b.txt".to_string(), false),
            ("c.txt".to_string(), false),
            ("d.txt".to_string(), false),
        ]
    );
}

#[test]
fn digest_comparison_is_exact() {
    let s = scanner();
    let sums = vec![ChecksumEntry { file: "f".to_string(), digest: "ab".to_string() }];
    assert_eq!(s.check_digests(&sums, &vec![Some("ab".to_string())]), vec![("f".to_string(), true)]);
    assert_eq!(s.check_digests(&sums, &vec![Some("AB".to_string())]), vec![("f".to_string(), false)]);
    assert_eq!(s.check_digests(&sums, &vec![None]), vec![("f".to_string(), false)]);
    assert_eq!(s.check_digests(&sums, &Vec::new()), vec![("f".to_string(), false)]);
}

#[test]
fn presence_check_uses_canon_names() {
    let s = scanner();
    let present = vec![true, false, true, true, false, true, true];
    let result = s.check_presence(&present);
    let expected: Vec<(String, bool)> =
        CANON.iter().zip(present.iter()).map(|(n, p)| (n.to_string(), *p)).collect();
    assert_eq!(result, expected);
    let agent = s.scan_agent_directory("B.3ox", "B.3ox".to_string(), AgentFiles::default(), no_sidecars());
    let targets = s.verification_targets(&agent);
    assert_eq!(targets, CANON.iter().map(|n| n.to_string()).collect::<Vec<_>>());
    let result = s.verify_agent_files(&agent, &vec![None, Some(Vec::new())]);
    assert_eq!(result[0], ("brain.exe".to_string(), false));
    assert_eq!(result[1], ("brain.rs".to_string(), true));
    assert_eq!(result[6], ("Cargo.toml".to_string(), false));
}
