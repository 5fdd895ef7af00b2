use agent_sessions::model::{ClaudeProcess, CpuUsage};
use agent_sessions::process::{
    find_claude_processes, is_cli_name, is_own_app_name, ProcessInfo, ScanRules,
};

fn cpu(percent: f32) -> CpuUsage {
    CpuUsage::from_bits(percent.to_bits())
}

fn percent(cpu: CpuUsage) -> f32 {
    f32::from_bits(cpu.to_bits())
}

fn entry(pid: u32, parent: Option<u32>, name: &str, cmd: &[&str], cwd: Option<&str>) -> ProcessInfo {
    ProcessInfo {
        pid,
        parent,
        name: name.to_string(),
        cmd: cmd.iter().map(|a| a.to_string()).collect(),
        cwd: cwd.map(|c| c.to_string()),
        cpu_usage: cpu(1.5),
        memory: 4096,
    }
}

fn rules() -> ScanRules {
    ScanRules::for_cli("assist")
}

#[test]
fn test_claude_process_creation() {
    let process = ClaudeProcess {
        pid: 12345,
        cwd: Some(String::from("/Users/test/Projects/my-project")),
        cpu_usage: cpu(5.5),
        memory: 1024,
    };

    assert_eq!(process.pid, 12345);
    assert_eq!(
        process.cwd,
        Some(String::from("/Users/test/Projects/my-project"))
    );
    assert_eq!(percent(process.cpu_usage), 5.5);
    assert_eq!(process.memory, 1024);
}

#[test]
fn test_claude_process_without_cwd() {
    let process = ClaudeProcess {
        pid: 99999,
        cwd: None,
        cpu_usage: cpu(0.0),
        memory: 0,
    };

    assert_eq!(process.pid, 99999);
    assert!(process.cwd.is_none());
}

#[test]
fn test_claude_process_clone() {
    let process = ClaudeProcess {
        pid: 12345,
        cwd: Some(String::from("/test/path")),
        cpu_usage: cpu(10.0),
        memory: 2048,
    };

    let cloned = process.clone();
    assert_eq!(process.pid, cloned.pid);
    assert_eq!(process.cwd, cloned.cwd);
    assert_eq!(process.cpu_usage, cloned.cpu_usage);
    assert_eq!(process.memory, cloned.memory);
}

#[test]
fn test_find_claude_processes_returns_vec() {
    // An empty table holds no session; the call just has to return
    let processes = find_claude_processes(&Vec::new(), &rules());
    let _ = processes.len();
    assert!(processes.is_empty());
}

#[test]
fn rules_are_built_from_the_program_name() {
    let r = rules();
    assert_eq!(r.cli_name, "assist");
    assert_eq!(
        r.own_aliases,
        vec![
            "assist-sessions".to_string(),
            "tauri-temp".to_string(),
            "agent-sessions".to_string()
        ]
    );
    assert_eq!(r.wrapper_signature, "assist-code-acp");
}

#[test]
fn cli_name_is_the_name_or_a_path_ending_in_it() {
    assert!(is_cli_name("assist", "assist"));
    assert!(is_cli_name("/usr/local/bin/assist", "assist"));
    assert!(!is_cli_name("assistant", "assist"));
    assert!(!is_cli_name("myassist", "assist"));
    assert!(!is_cli_name("assist/", "assist"));
    assert!(!is_cli_name("", "assist"));
}

#[test]
fn own_app_is_known_by_any_alias_in_its_name() {
    let r = rules();
    assert!(is_own_app_name("assist-sessions", &r.own_aliases));
    assert!(is_own_app_name("my-tauri-temp-1", &r.own_aliases));
    assert!(is_own_app_name("agent-sessions-helper", &r.own_aliases));
    assert!(!is_own_app_name("node", &r.own_aliases));
    assert!(!is_own_app_name("node", &Vec::new()));
}

#[test]
fn first_argument_is_compared_in_lowercase() {
    // would fail if lowercasing handed its argument back unchanged
    let table = vec![
        entry(1, None, "node", &["ASSIST"], Some("/a")),
        entry(2, None, "node", &["/opt/bin/Assist", "--resume"], Some("/b")),
        entry(3, None, "node", &["assistant"], Some("/c")),
        entry(4, None, "node", &[], Some("/d")),
        entry(5, None, "node", &["node", "assist"], Some("/e")),
    ];
    let found = find_claude_processes(&table, &rules());
    let pids: Vec<u32> = found.iter().map(|p| p.pid).collect();
    assert_eq!(pids, vec![1, 2]);
}

#[test]
fn kept_process_carries_pid_cwd_load_and_memory() {
    let table = vec![entry(7, Some(1), "node", &["assist"], Some("/Users/u/Projects/p"))];
    let found = find_claude_processes(&table, &rules());
    assert_eq!(
        found,
        vec![ClaudeProcess {
            pid: 7,
            cwd: Some("/Users/u/Projects/p".to_string()),
            cpu_usage: cpu(1.5),
            memory: 4096,
        }]
    );
}

#[test]
fn own_app_is_left_out() {
    let table = vec![
        entry(1, None, "assist-sessions", &["assist"], Some("/a")),
        entry(2, None, "tauri-temp", &["assist"], Some("/a")),
        entry(3, None, "agent-sessions", &["assist"], Some("/a")),
        entry(4, None, "node", &["assist"], Some("/a")),
    ];
    let found = find_claude_processes(&table, &rules());
    let pids: Vec<u32> = found.iter().map(|p| p.pid).collect();
    assert_eq!(pids, vec![4]);
}

#[test]
fn sub_agents_are_left_out() {
    // 11 was started by 10, which runs the program; 12 by 99, which does not
    let table = vec![
        entry(11, Some(10), "node", &["assist"], Some("/a")),
        entry(10, Some(1), "node", &["assist"], Some("/a")),
        entry(12, Some(99), "node", &["assist"], Some("/a")),
        entry(99, None, "zsh", &["zsh", "-l"], None),
        entry(13, Some(500), "node", &["assist"], Some("/a")),
    ];
    let found = find_claude_processes(&table, &rules());
    let pids: Vec<u32> = found.iter().map(|p| p.pid).collect();
    assert_eq!(pids, vec![10, 12, 13]);
}

#[test]
fn a_parent_that_is_this_application_still_marks_a_sub_agent() {
    let table = vec![
        entry(20, None, "agent-sessions", &["assist"], Some("/a")),
        entry(21, Some(20), "node", &["assist"], Some("/a")),
    ];
    let found = find_claude_processes(&table, &rules());
    assert!(found.is_empty());
}

#[test]
fn agents_of_an_editor_wrapper_are_left_out() {
    let table = vec![
        entry(30, None, "node", &["node", "/x/assist-code-acp/index.js"], None),
        entry(31, Some(30), "node", &["assist"], Some("/a")),
        entry(40, None, "node", &["node", "assist-code", "-acp"], None),
        entry(41, Some(40), "node", &["assist"], Some("/a")),
    ];
    let found = find_claude_processes(&table, &rules());
    let pids: Vec<u32> = found.iter().map(|p| p.pid).collect();
    assert_eq!(pids, vec![41]);
}

#[test]
fn cpu_load_above_five_percent_is_busy() {
    assert!(cpu(5.5).is_busy());
    assert!(cpu(100.0).is_busy());
    assert!(cpu(5.000001).is_busy());
    assert!(cpu(f32::INFINITY).is_busy());
    assert!(!cpu(5.0).is_busy());
    assert!(!cpu(4.999999).is_busy());
    assert!(!cpu(0.0).is_busy());
    assert!(!cpu(-0.0).is_busy());
    assert!(!cpu(-7.0).is_busy());
    assert!(!cpu(f32::NAN).is_busy());
    for tenth in 0..1000u32 {
        let value = tenth as f32 / 10.0;
        assert_eq!(cpu(value).is_busy(), value > 5.0);
    }
}
