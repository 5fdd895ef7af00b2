//! Which of the processes of a machine are sessions of the assistant's
//! command-line program.
//!
//! A process qualifies where its first argument names the program. Left
//! out are this application itself, the sub-agents that the program
//! starts, and agents that an editor starts through its own wrapper. The
//! names by which all of these are known are given as [`ScanRules`].

use vstd::prelude::*;
use crate::model::{clone_text, ClaudeProcess, CpuUsage, ProcessModel};
use crate::text::{
    append, chars_eq, contains, ends_with, from_chars, has_suffix, join, join_with, lowercase,
    occurs_in, to_chars, views,
};

verus! {

/// One entry of the machine's process table.
#[derive(Debug, Clone)]
pub struct ProcessInfo {
    pub pid: u32,
    /// The process that started this one, where it is known.
    pub parent: Option<u32>,
    /// The name of the process.
    pub name: String,
    /// The command line, argument by argument.
    pub cmd: Vec<String>,
    /// The working directory, where it is known.
    pub cwd: Option<String>,
    pub cpu_usage: CpuUsage,
    pub memory: u64,
}

/// Model of [`ProcessInfo`].
pub struct ProcessInfoModel {
    pub pid: u32,
    pub parent: Option<u32>,
    pub name: Seq<char>,
    pub cmd: Seq<Seq<char>>,
    pub cwd: Option<Seq<char>>,
    pub cpu_usage: CpuUsage,
    pub memory: u64,
}

impl DeepView for ProcessInfo {
    type V = ProcessInfoModel;

    open spec fn deep_view(&self) -> ProcessInfoModel {
        ProcessInfoModel {
            pid: self.pid,
            parent: self.parent,
            name: self.name@,
            cmd: self.cmd.deep_view(),
            cwd: self.cwd.deep_view(),
            cpu_usage: self.cpu_usage,
            memory: self.memory,
        }
    }
}

/// The names by which processes are told apart.
#[derive(Debug, Clone)]
pub struct ScanRules {
    /// The name under which the program is started, in lowercase.
    pub cli_name: String,
    /// Texts of which each marks a process name as this application's.
    pub own_aliases: Vec<String>,
    /// A text that marks a command line as that of an editor's wrapper.
    pub wrapper_signature: String,
}

/// Model of [`ScanRules`].
pub struct RulesModel {
    pub cli_name: Seq<char>,
    pub own_aliases: Seq<Seq<char>>,
    pub wrapper_signature: Seq<char>,
}

impl DeepView for ScanRules {
    type V = RulesModel;

    open spec fn deep_view(&self) -> RulesModel {
        RulesModel {
            cli_name: self.cli_name@,
            own_aliases: self.own_aliases.deep_view(),
            wrapper_signature: self.wrapper_signature@,
        }
    }
}

/// The rules that go with a program's name: this application runs under
/// the program's name followed by `-sessions`, under `tauri-temp` and
/// under `agent-sessions`; an editor's wrapper has the program's name
/// followed by `-code-acp` in its command line.
pub open spec fn rules_for(cli_name: Seq<char>) -> RulesModel {
    RulesModel {
        cli_name: cli_name,
        own_aliases: seq![cli_name + "-sessions"@, "tauri-temp"@, "agent-sessions"@],
        wrapper_signature: cli_name + "-code-acp"@,
    }
}

/// A first argument, in lowercase, that names the program: the name
/// itself or a path that ends in it.
pub open spec fn is_cli_invocation(lowered: Seq<char>, cli_name: Seq<char>) -> bool {
    lowered == cli_name || has_suffix(lowered, seq!['/'] + cli_name)
}

/// The process runs the program.
pub open spec fn runs_cli(p: ProcessInfoModel, rules: RulesModel) -> bool {
    p.cmd.len() > 0 && is_cli_invocation(lowercase(p.cmd[0]), rules.cli_name)
}

/// The name holds one of the aliases.
pub open spec fn is_own_app(name: Seq<char>, aliases: Seq<Seq<char>>) -> bool {
    exists|i: int| 0 <= i < aliases.len() && occurs_in(name, #[trigger] aliases[i])
}

/// The command line as one text, a space between arguments.
pub open spec fn command_line(cmd: Seq<Seq<char>>) -> Seq<char> {
    join_with(cmd, seq![' '])
}

/// The process is the wrapper through which an editor starts agents.
pub open spec fn is_agent_wrapper(p: ProcessInfoModel, rules: RulesModel) -> bool {
    occurs_in(command_line(p.cmd), rules.wrapper_signature)
}

/// What a process started is no session of a user: the process runs the
/// program itself, or is an editor's wrapper.
pub open spec fn starts_agents(p: ProcessInfoModel, rules: RulesModel) -> bool {
    runs_cli(p, rules) || is_agent_wrapper(p, rules)
}

/// Some entry of the table with the given pid starts agents.
pub open spec fn started_as_agent(
    table: Seq<ProcessInfoModel>,
    rules: RulesModel,
    parent: Option<u32>,
) -> bool {
    parent matches Some(pid) && exists|j: int|
        0 <= j < table.len() && (#[trigger] table[j]).pid == pid && starts_agents(table[j], rules)
}

/// The process is a session of a user.
pub open spec fn qualifies(
    table: Seq<ProcessInfoModel>,
    rules: RulesModel,
    p: ProcessInfoModel,
) -> bool {
    runs_cli(p, rules) && !is_own_app(p.name, rules.own_aliases) && !started_as_agent(
        table,
        rules,
        p.parent,
    )
}

/// What is kept of a qualifying process.
pub open spec fn as_session_process(p: ProcessInfoModel) -> ProcessModel {
    ProcessModel { pid: p.pid, cwd: p.cwd, cpu_usage: p.cpu_usage, memory: p.memory }
}

/// The qualifying processes among the first `upto` entries, in order.
pub open spec fn selected(table: Seq<ProcessInfoModel>, rules: RulesModel, upto: int) -> Seq<
    ProcessModel,
>
    decreases upto,
{
    if upto <= 0 {
        Seq::<ProcessModel>::empty()
    } else if qualifies(table, rules, table[upto - 1]) {
        selected(table, rules, upto - 1).push(as_session_process(table[upto - 1]))
    } else {
        selected(table, rules, upto - 1)
    }
}

impl ScanRules {
    /// The rules that go with a program's name.
    pub fn for_cli(cli_name: &str) -> (r: ScanRules)
        ensures
            r.deep_view() == rules_for(cli_name@),
    {
        let name = to_chars(cli_name);
        let mut own = to_chars(cli_name);
        let sessions = to_chars("-sessions");
        append(&mut own, &sessions);
        let mut wrapper = to_chars(cli_name);
        let acp = to_chars("-code-acp");
        append(&mut wrapper, &acp);
        let mut own_aliases: Vec<String> = Vec::new();
        own_aliases.push(from_chars(&own));
        own_aliases.push("tauri-temp".to_owned());
        own_aliases.push("agent-sessions".to_owned());
        assert(own_aliases.deep_view() =~= rules_for(cli_name@).own_aliases);
        ScanRules {
            cli_name: from_chars(&name),
            own_aliases,
            wrapper_signature: from_chars(&wrapper),
        }
    }
}

/// Whether a first argument, already in lowercase, names the program.
pub fn is_cli_name(lowered: &str, cli_name: &str) -> (r: bool)
    ensures
        r == is_cli_invocation(lowered@, cli_name@),
{
    let chars = to_chars(lowered);
    let name = to_chars(cli_name);
    let mut suffix: Vec<char> = Vec::new();
    suffix.push('/');
    append(&mut suffix, &name);
    chars_eq(&chars, &name) || ends_with(&chars, &suffix)
}

/// Whether the process runs the program.
pub fn process_runs_cli(process: &ProcessInfo, rules: &ScanRules) -> (r: bool)
    ensures
        r == runs_cli(process.deep_view(), rules.deep_view()),
{
    if process.cmd.len() == 0 {
        return false;
    }
    assert(process.deep_view().cmd[0] == process.cmd@[0]@);
    let lowered = process.cmd[0].as_str().to_lowercase();
    is_cli_name(lowered.as_str(), rules.cli_name.as_str())
}

/// Whether a process name holds one of the aliases.
pub fn is_own_app_name(name: &str, aliases: &Vec<String>) -> (r: bool)
    ensures
        r == is_own_app(name@, aliases.deep_view()),
{
    let chars = to_chars(name);
    let mut i: usize = 0;
    while i < aliases.len()
        invariant
            i <= aliases.len(),
            chars@ == name@,
            forall|j: int| 0 <= j < i ==> !occurs_in(name@, #[trigger] aliases.deep_view()[j]),
        decreases aliases.len() - i,
    {
        let alias = to_chars(aliases[i].as_str());
        assert(aliases.deep_view()[i as int] == alias@);
        if contains(&chars, &alias) {
            return true;
        }
        i += 1;
    }
    false
}

/// Whether the process is the wrapper through which an editor starts
/// agents.
pub fn process_is_agent_wrapper(process: &ProcessInfo, rules: &ScanRules) -> (r: bool)
    ensures
        r == is_agent_wrapper(process.deep_view(), rules.deep_view()),
{
    let mut args: Vec<Vec<char>> = Vec::new();
    let mut i: usize = 0;
    while i < process.cmd.len()
        invariant
            i <= process.cmd.len(),
            args.len() == i,
            forall|k: int| 0 <= k < i ==> (#[trigger] args@[k])@ == process.cmd@[k]@,
        decreases process.cmd.len() - i,
    {
        args.push(to_chars(process.cmd[i].as_str()));
        i += 1;
    }
    assert(views(args@) =~= process.deep_view().cmd);
    let mut space: Vec<char> = Vec::new();
    space.push(' ');
    let line = join(&args, &space);
    let signature = to_chars(rules.wrapper_signature.as_str());
    contains(&line, &signature)
}

/// Whether some entry with the given pid starts agents.
fn parent_starts_agents(
    table: &Vec<ProcessInfo>,
    rules: &ScanRules,
    starting: &Vec<bool>,
    parent: Option<u32>,
) -> (r: bool)
    requires
        starting.len() == table.len(),
        forall|j: int|
            0 <= j < table.len() ==> (#[trigger] starting@[j]) == starts_agents(
                table.deep_view()[j],
                rules.deep_view(),
            ),
    ensures
        r == started_as_agent(table.deep_view(), rules.deep_view(), parent),
{
    match parent {
        Some(pid) => {
            let mut j: usize = 0;
            while j < table.len()
                invariant
                    j <= table.len(),
                    parent == Some(pid),
                    starting.len() == table.len(),
                    forall|k: int|
                        0 <= k < table.len() ==> (#[trigger] starting@[k]) == starts_agents(
                            table.deep_view()[k],
                            rules.deep_view(),
                        ),
                    forall|k: int|
                        0 <= k < j ==> !((#[trigger] table.deep_view()[k]).pid == pid
                            && starts_agents(table.deep_view()[k], rules.deep_view())),
                decreases table.len() - j,
            {
                assert(table.deep_view()[j as int] == table@[j as int].deep_view());
                if table[j].pid == pid && starting[j] {
                    assert(table.deep_view()[j as int].pid == pid && starts_agents(
                        table.deep_view()[j as int],
                        rules.deep_view(),
                    ));
                    return true;
                }
                j += 1;
            }
            false
        },
        None => false,
    }
}

/// The sessions of users among the processes of the table, in the order
/// of the table.
///
/// A process counts where its first argument, in lowercase, is the
/// program's name or a path that ends in it, unless its name holds one of
/// this application's aliases, or an entry with the pid of its parent runs
/// the program or is an editor's wrapper.
pub fn find_claude_processes(table: &Vec<ProcessInfo>, rules: &ScanRules) -> (r: Vec<
    ClaudeProcess,
>)
    ensures
        r.deep_view() == selected(table.deep_view(), rules.deep_view(), table.len() as int),
{
    let ghost all = table.deep_view();
    let ghost names = rules.deep_view();
    let mut starting: Vec<bool> = Vec::new();
    let mut running: Vec<bool> = Vec::new();
    let mut i: usize = 0;
    while i < table.len()
        invariant
            i <= table.len(),
            all == table.deep_view(),
            names == rules.deep_view(),
            running.len() == i,
            starting.len() == i,
            forall|j: int| 0 <= j < i ==> (#[trigger] running@[j]) == runs_cli(all[j], names),
            forall|j: int|
                0 <= j < i ==> (#[trigger] starting@[j]) == starts_agents(all[j], names),
        decreases table.len() - i,
    {
        assert(all[i as int] == table@[i as int].deep_view());
        let runs = process_runs_cli(&table[i], rules);
        running.push(runs);
        starting.push(runs || process_is_agent_wrapper(&table[i], rules));
        i += 1;
    }
    let mut found: Vec<ClaudeProcess> = Vec::new();
    let mut k: usize = 0;
    assert(found.deep_view() =~= selected(all, names, 0));
    while k < table.len()
        invariant
            k <= table.len(),
            all == table.deep_view(),
            names == rules.deep_view(),
            running.len() == table.len(),
            starting.len() == table.len(),
            forall|j: int|
                0 <= j < table.len() ==> (#[trigger] running@[j]) == runs_cli(all[j], names),
            forall|j: int|
                0 <= j < table.len() ==> (#[trigger] starting@[j]) == starts_agents(
                    all[j],
                    names,
                ),
            found.deep_view() == selected(all, names, k as int),
        decreases table.len() - k,
    {
        let process = &table[k];
        assert(all[k as int] == process.deep_view());
        if running[k] && !is_own_app_name(process.name.as_str(), &rules.own_aliases)
            && !parent_starts_agents(table, rules, &starting, process.parent) {
            let ghost before = found.deep_view();
            let kept = ClaudeProcess {
                pid: process.pid,
                cwd: clone_text(&process.cwd),
                cpu_usage: process.cpu_usage,
                memory: process.memory,
            };
            found.push(kept);
            assert(found.deep_view() =~= before.push(as_session_process(all[k as int])));
        }
        k += 1;
    }
    found
}

} // verus!
