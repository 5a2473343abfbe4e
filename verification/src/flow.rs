//! The flow engine: the steps of a plugin's flow are run in order by the
//! application and stop at the first failure. This module holds the
//! decisions of the engine and of its steps; the application performs the
//! file, registry and process work that they call for.

use vstd::prelude::*;
use vstd::utf8::encode_utf8;

use crate::account::is_uuid_v4_text;
use crate::account::new_uuid_v4;
use crate::account::Account;
use crate::crypto::sha256_digest;
use crate::crypto::sha256_spec;
use crate::plugin::expand_env;
use crate::plugin::expand_env_spec;
use crate::plugin::EnvValues;
use crate::plugin::FlowStep;
use crate::plugin::MachineIdSpec;
use crate::plugin::PluginConfig;
use crate::plugin::PluginError;
use crate::plugin::texts;
use crate::plugin::opt_text;
use crate::text::contains_ignoring_case;
use crate::text::hex_lower;
use crate::text::decimal_spec;
use crate::text::digits_value;
use crate::text::is_decimal_digit;
use crate::text::lemma_decimal_reads_back;
use crate::text::lowercase_spec;
use crate::text::push_decimal;
use crate::text::replace_all;
use crate::text::replace_spec;
use crate::text::starts_with;
use crate::text::starts_with_spec;
use crate::text::str_eq;
use crate::text::trim;
use crate::text::trim_prefix;
use crate::text::trim_prefix_spec;
use crate::text::trim_spec;
use crate::text::to_uppercase;
use crate::text::uppercase_spec;

verus! {

// ---------------------------------------------------------------------------
// Context and result
// ---------------------------------------------------------------------------

/// Settings of flow execution (none yet).
#[derive(Clone, Copy, Debug, Default, PartialEq, Eq, Structural)]
pub struct FlowSettings {}

/// The snapshot directory of an account: `<snapshots>/<plugin_id>/<name>`.
#[derive(Clone, Debug)]
pub struct SnapshotDir {
    pub plugin_id: String,
    pub name: String,
}

/// The account a flow runs for and its snapshot directory.
pub struct FlowTarget {
    pub account: Account,
    pub snapshot_dir: SnapshotDir,
}

/// Everything a flow step needs.
pub struct FlowContext {
    pub plugin: PluginConfig,
    pub account: Account,
    pub snapshot_dir: SnapshotDir,
    pub settings: FlowSettings,
}

/// The outcome of running a flow.
#[derive(Clone, Debug)]
pub struct FlowResult {
    /// Labels of the steps that succeeded, in order.
    pub steps_executed: Vec<String>,
    pub success: bool,
    /// The message of the step that failed.
    pub error: Option<String>,
}

impl FlowResult {
    fn ok(steps: Vec<String>) -> (res: Self)
        ensures
            res.steps_executed == steps,
            res.success,
            res.error is None,
    {
        FlowResult { steps_executed: steps, success: true, error: None }
    }

    fn failed(steps: Vec<String>, err: String) -> (res: Self)
        ensures
            res.steps_executed == steps,
            !res.success,
            res.error == Some(err),
    {
        FlowResult { steps_executed: steps, success: false, error: Some(err) }
    }
}

// ---------------------------------------------------------------------------
// Step labels
// ---------------------------------------------------------------------------

/// The label under which a step is reported.
pub open spec fn label_spec(step: FlowStep) -> Seq<char> {
    match step {
        FlowStep::EnsureNotRunningOrKill { timeout } => "ensure_not_running_or_kill("@
            + decimal_spec(timeout as nat) + "ms)"@,
        FlowStep::BackupCurrent => "backup_current"@,
        FlowStep::RestoreSnapshot => "restore_snapshot"@,
        FlowStep::WriteMachineId => "write_machine_id"@,
        FlowStep::ResetMachineId => "reset_machine_id"@,
        FlowStep::RegenerateMachineId => "regenerate_machine_id"@,
        FlowStep::DeleteLoginArtifacts => "delete_login_artifacts"@,
        FlowStep::LaunchExe => "launch_exe"@,
        FlowStep::Sleep { ms } => "sleep("@ + decimal_spec(ms as nat) + "ms)"@,
    }
}

/// The labels of a sequence of steps.
pub open spec fn labels(steps: Seq<FlowStep>) -> Seq<Seq<char>> {
    steps.map_values(|s: FlowStep| label_spec(s))
}

/// The label of a step that waits for the application to exit shows that
/// step's own timeout: `ensure_not_running_or_kill(`, then decimal digits
/// (no leading zero) that read back as the timeout, then `ms)`. Likewise the
/// label of a pause shows its own duration between `sleep(` and `ms)`.
pub proof fn lemma_label_shows_duration(t: u64)
    ensures
        ({
            let l = label_spec(FlowStep::EnsureNotRunningOrKill { timeout: t });
            let p = "ensure_not_running_or_kill("@;
            &&& l.len() > p.len() + 3
            &&& l.take(p.len() as int) == p
            &&& l.skip(l.len() - 3) == "ms)"@
            &&& forall|i: int| p.len() <= i < l.len() - 3 ==> is_decimal_digit(#[trigger] l[i])
            &&& digits_value(l.subrange(p.len() as int, l.len() - 3)) == t
            &&& l.len() > p.len() + 4 ==> l[p.len() as int] != '0'
        }),
        ({
            let l = label_spec(FlowStep::Sleep { ms: t });
            let p = "sleep("@;
            &&& l.len() > p.len() + 3
            &&& l.take(p.len() as int) == p
            &&& l.skip(l.len() - 3) == "ms)"@
            &&& forall|i: int| p.len() <= i < l.len() - 3 ==> is_decimal_digit(#[trigger] l[i])
            &&& digits_value(l.subrange(p.len() as int, l.len() - 3)) == t
            &&& l.len() > p.len() + 4 ==> l[p.len() as int] != '0'
        }),
{
    reveal_strlit("ensure_not_running_or_kill(");
    reveal_strlit("sleep(");
    reveal_strlit("ms)");
    let d = decimal_spec(t as nat);
    lemma_decimal_reads_back(t as nat);
    let p1 = "ensure_not_running_or_kill("@;
    let l1 = label_spec(FlowStep::EnsureNotRunningOrKill { timeout: t });
    assert(l1 == p1 + d + "ms)"@);
    assert(l1.take(p1.len() as int) =~= p1);
    assert(l1.skip(l1.len() - 3) =~= "ms)"@);
    assert(l1.subrange(p1.len() as int, l1.len() - 3) =~= d);
    assert forall|i: int| p1.len() <= i < l1.len() - 3 implies is_decimal_digit(#[trigger] l1[i]) by {
        assert(l1[i] == d[i - p1.len()]);
    }
    assert(l1[p1.len() as int] == d[0]);
    let p2 = "sleep("@;
    let l2 = label_spec(FlowStep::Sleep { ms: t });
    assert(l2 == p2 + d + "ms)"@);
    assert(l2.take(p2.len() as int) =~= p2);
    assert(l2.skip(l2.len() - 3) =~= "ms)"@);
    assert(l2.subrange(p2.len() as int, l2.len() - 3) =~= d);
    assert forall|i: int| p2.len() <= i < l2.len() - 3 implies is_decimal_digit(#[trigger] l2[i]) by {
        assert(l2[i] == d[i - p2.len()]);
    }
    assert(l2[p2.len() as int] == d[0]);
}

/// Steps that wait with different timeouts (or pause for different
/// durations) are reported under different labels.
pub proof fn lemma_label_tells_durations_apart(t1: u64, t2: u64)
    ensures
        t1 != t2 ==> label_spec(FlowStep::EnsureNotRunningOrKill { timeout: t1 }) != label_spec(
            FlowStep::EnsureNotRunningOrKill { timeout: t2 },
        ),
        t1 != t2 ==> label_spec(FlowStep::Sleep { ms: t1 }) != label_spec(FlowStep::Sleep { ms: t2 }),
{
    lemma_label_shows_duration(t1);
    lemma_label_shows_duration(t2);
}

/// The label under which a step is reported (see `label_spec`).
pub fn step_label(step: &FlowStep) -> (res: String)
    ensures
        res@ == label_spec(*step),
{
    match step {
        FlowStep::EnsureNotRunningOrKill { timeout } => {
            let mut s = "ensure_not_running_or_kill(".to_owned();
            push_decimal(&mut s, *timeout);
            s.append("ms)");
            s
        },
        FlowStep::BackupCurrent => "backup_current".to_owned(),
        FlowStep::RestoreSnapshot => "restore_snapshot".to_owned(),
        FlowStep::WriteMachineId => "write_machine_id".to_owned(),
        FlowStep::ResetMachineId => "reset_machine_id".to_owned(),
        FlowStep::RegenerateMachineId => "regenerate_machine_id".to_owned(),
        FlowStep::DeleteLoginArtifacts => "delete_login_artifacts".to_owned(),
        FlowStep::LaunchExe => "launch_exe".to_owned(),
        FlowStep::Sleep { ms } => {
            let mut s = "sleep(".to_owned();
            push_decimal(&mut s, *ms);
            s.append("ms)");
            s
        },
    }
}

// ---------------------------------------------------------------------------
// Running a flow
// ---------------------------------------------------------------------------

/// A flow in progress. The application asks `next_step`, performs it, and
/// reports the outcome with `record`, until `next_step` is `None`; `finish`
/// gives the result.
pub struct FlowRun {
    steps: Vec<FlowStep>,
    executed: Vec<String>,
    failure: Option<String>,
}

impl FlowRun {
    #[verifier::type_invariant]
    spec fn inv(self) -> bool {
        &&& self.executed@.len() <= self.steps@.len()
        &&& texts(self.executed@) == labels(self.steps@.take(self.executed@.len() as int))
    }

    /// The steps of the flow.
    pub closed spec fn steps(&self) -> Seq<FlowStep> {
        self.steps@
    }

    /// How many steps have succeeded.
    pub closed spec fn done(&self) -> nat {
        self.executed@.len()
    }

    /// The message of the step that failed, if one did.
    pub closed spec fn failure(&self) -> Option<Seq<char>> {
        opt_text(self.failure)
    }

    /// The step that comes next: none after a failure or after the last step.
    pub open spec fn pending(&self) -> Option<FlowStep> {
        if self.failure() is None && self.done() < self.steps().len() {
            Some(self.steps()[self.done() as int])
        } else {
            None
        }
    }

    /// A run of `steps` that has not started.
    pub fn new(steps: &[FlowStep]) -> (res: Self)
        ensures
            res.steps() == steps@,
            res.done() == 0,
            res.failure() is None,
    {
        let mut v: Vec<FlowStep> = Vec::new();
        for i in 0..steps.len()
            invariant
                v@ == steps@.take(i as int),
        {
            v.push(steps[i]);
            assert(v@ =~= steps@.take(i + 1));
        }
        assert(steps@.take(steps@.len() as int) =~= steps@);
        let executed: Vec<String> = Vec::new();
        assert(texts(executed@) =~= labels(v@.take(0)));
        let res = FlowRun { steps: v, executed, failure: None };
        res
    }

    /// The step to perform next, if any.
    pub fn next_step(&self) -> (res: Option<FlowStep>)
        ensures
            res == self.pending(),
    {
        proof {
            use_type_invariant(self);
        }
        if self.failure.is_none() && self.executed.len() < self.steps.len() {
            Some(self.steps[self.executed.len()])
        } else {
            None
        }
    }

    /// Reports the outcome of the pending step: on success its label is
    /// recorded, on failure the error's message ends the run. With no step
    /// pending nothing changes.
    pub fn record(&mut self, outcome: Result<(), PluginError>)
        ensures
            final(self).steps() == old(self).steps(),
            match old(self).pending() {
                None => final(self).done() == old(self).done() && final(self).failure()
                    == old(self).failure(),
                Some(_) => match outcome {
                    Ok(()) => final(self).done() == old(self).done() + 1 && final(self).failure()
                        is None,
                    Err(e) => final(self).done() == old(self).done() && final(self).failure()
                        == Some(e.message_spec()),
                },
            },
    {
        proof {
            use_type_invariant(&*self);
        }
        if self.failure.is_some() || self.executed.len() >= self.steps.len() {
            return;
        }
        match outcome {
            Ok(()) => {
                let label = step_label(&self.steps[self.executed.len()]);
                let ghost n = self.executed@.len() as int;
                let ghost steps = self.steps@;
                assert(labels(steps.take(n + 1)) =~= labels(steps.take(n)).push(label_spec(steps[n])));
                assert(texts(self.executed@.push(label)) =~= texts(self.executed@).push(label@));
                let mut executed: Vec<String> = Vec::new();
                assert(texts(executed@) =~= labels(steps.take(0)));
                std::mem::swap(&mut executed, &mut self.executed);
                executed.push(label);
                self.executed = executed;
            },
            Err(e) => {
                self.failure = Some(e.message());
            },
        }
    }

    /// The result of the run: the labels of the steps that succeeded, and
    /// the failure's message where a step failed.
    pub fn finish(self) -> (res: FlowResult)
        ensures
            self.done() <= self.steps().len(),
            texts(res.steps_executed@) == labels(self.steps().take(self.done() as int)),
            res.success == (self.failure() is None),
            opt_text(res.error) == self.failure(),
    {
        proof {
            use_type_invariant(&self);
        }
        let FlowRun { steps: _, executed, failure } = self;
        match failure {
            Some(m) => FlowResult::failed(executed, m),
            None => FlowResult::ok(executed),
        }
    }
}

// ---------------------------------------------------------------------------
// Processes
// ---------------------------------------------------------------------------

/// Whether a running process belongs to the plugin's application: its name
/// equals one of the plugin's process names, ignoring case.
pub open spec fn is_app_process(process_names: Seq<String>, name: Seq<char>) -> bool {
    exists|j: int|
        0 <= j < process_names.len() && #[trigger] lowercase_spec(process_names[j]@)
            == lowercase_spec(name)
}

/// Whether the application runs, given the names of the running processes.
pub fn is_app_running(plugin: &PluginConfig, running: &Vec<String>) -> (res: bool)
    ensures
        res == exists|i: int|
            0 <= i < running@.len() && #[trigger] is_app_process(
                plugin.process_names@,
                running@[i]@,
            ),
{
    for i in 0..running.len()
        invariant
            forall|k: int| 0 <= k < i ==> !#[trigger] is_app_process(plugin.process_names@, running@[k]@),
    {
        let found = contains_ignoring_case(plugin.process_names.as_slice(), running[i].as_str());
        assert(found == is_app_process(plugin.process_names@, running@[i as int]@));
        if found {
            return true;
        }
    }
    false
}

/// The positions, in order, of the running processes that belong to the application.
pub open spec fn app_process_indices(process_names: Seq<String>, running: Seq<String>) -> Seq<usize>
    decreases running.len(),
{
    if running.len() == 0 {
        Seq::empty()
    } else {
        let rest = app_process_indices(process_names, running.drop_last());
        if is_app_process(process_names, running.last()@) {
            rest.push((running.len() - 1) as usize)
        } else {
            rest
        }
    }
}

/// One round of waiting for the application to exit.
pub enum KillStep {
    /// No process of the application runs: the step succeeded.
    Finished,
    /// Kill these processes (positions in the list of running processes);
    /// then fail with `timeout_error` if the deadline has passed by then,
    /// otherwise wait half a second and look again.
    Kill { targets: Vec<usize> },
}

/// Decides a round of `ensure_not_running_or_kill`, given the names of the
/// running processes.
pub fn kill_step(plugin: &PluginConfig, running: &Vec<String>) -> (res: KillStep)
    ensures
        match res {
            KillStep::Finished => app_process_indices(plugin.process_names@, running@).len() == 0,
            KillStep::Kill { targets } => targets@ == app_process_indices(
                plugin.process_names@,
                running@,
            ) && targets@.len() > 0,
        },
{
    let mut targets: Vec<usize> = Vec::new();
    for i in 0..running.len()
        invariant
            targets@ == app_process_indices(plugin.process_names@, running@.take(i as int)),
    {
        assert(running@.take(i + 1).drop_last() =~= running@.take(i as int));
        let found = contains_ignoring_case(plugin.process_names.as_slice(), running[i].as_str());
        assert(found == is_app_process(plugin.process_names@, running@[i as int]@));
        if found {
            targets.push(i);
        }
    }
    assert(running@.take(running@.len() as int) =~= running@);
    if targets.len() == 0 {
        KillStep::Finished
    } else {
        KillStep::Kill { targets }
    }
}

/// The failure of `ensure_not_running_or_kill` when the application does
/// not exit in time.
pub fn timeout_error() -> (res: PluginError)
    ensures
        res matches PluginError::FlowFailed(m) && m@ == "等待应用退出超时"@,
{
    PluginError::FlowFailed("等待应用退出超时".to_owned())
}

// ---------------------------------------------------------------------------
// Snapshots, machine ids, login artifacts, launching
// ---------------------------------------------------------------------------

/// The name of a data directory inside a snapshot: its label with spaces
/// replaced by underscores.
pub fn backup_name(label: &str) -> (res: String)
    ensures
        res@ == replace_spec(label@, " "@, "_"@),
{
    proof {
        reveal_strlit(" ");
    }
    replace_all(label, " ", "_")
}

impl FlowContext {
    /// The failure of `restore_snapshot` when the account has no snapshot.
    pub fn missing_snapshot_error(&self) -> (res: PluginError)
        ensures
            res matches PluginError::FlowFailed(m) && m@ == "账号 "@ + self.account.name@
                + " 没有快照数据"@,
    {
        let mut m = "账号 ".to_owned();
        m.append(self.account.name.as_str());
        m.append(" 没有快照数据");
        PluginError::FlowFailed(m)
    }

    /// The machine id that `write_machine_id` writes: the account's bound
    /// one; an account without one fails the step.
    pub fn machine_id_to_write(&self) -> (res: Result<String, PluginError>)
        ensures
            match self.account.bound_machine_id {
                Some(id) => res == Ok::<String, PluginError>(id),
                None => res matches Err(PluginError::FlowFailed(m)) && m@ == "账号未绑定机器码"@,
            },
    {
        match &self.account.bound_machine_id {
            Some(id) => Ok(id.clone()),
            None => Err(PluginError::FlowFailed("账号未绑定机器码".to_owned())),
        }
    }

    /// The executable that `launch_exe` starts: the expansion of the first
    /// candidate, where there is one and it exists (`first_exists`);
    /// otherwise the step fails with `NoExePath`.
    pub fn launch_path(&self, env: &EnvValues, first_exists: bool) -> (res: Result<String, PluginError>)
        ensures
            if self.plugin.exe_candidates@.len() > 0 && first_exists {
                res matches Ok(p) && p@ == expand_env_spec(self.plugin.exe_candidates@[0]@, *env)
            } else {
                res matches Err(PluginError::NoExePath(id)) && id == self.plugin.id
            },
    {
        if self.plugin.exe_candidates.len() > 0 && first_exists {
            Ok(expand_env(self.plugin.exe_candidates[0].as_str(), env))
        } else {
            Err(PluginError::NoExePath(self.plugin.id.clone()))
        }
    }
}

/// The failure of `launch_exe` when starting the executable fails.
pub fn launch_error(detail: &str) -> (res: PluginError)
    ensures
        res matches PluginError::FlowFailed(m) && m@ == "启动失败: "@ + detail@,
{
    let mut m = "启动失败: ".to_owned();
    m.append(detail);
    PluginError::FlowFailed(m)
}

/// What removing a login artifact of a kind does.
#[derive(Clone, Copy, Debug, PartialEq, Eq, Structural)]
pub enum Removal {
    /// Remove the file, if it exists.
    File,
    /// Remove the directory recursively, if it exists.
    Dir,
    /// Leave it.
    Keep,
}

/// The removal for a login artifact's kind: `"file"` and `"dir"`; other kinds are kept.
pub fn artifact_removal(artifact_type: &str) -> (res: Removal)
    ensures
        res == if artifact_type@ == "file"@ {
            Removal::File
        } else if artifact_type@ == "dir"@ {
            Removal::Dir
        } else {
            Removal::Keep
        },
{
    if str_eq(artifact_type, "file") {
        Removal::File
    } else if str_eq(artifact_type, "dir") {
        Removal::Dir
    } else {
        Removal::Keep
    }
}

/// Where a machine id is stored.
#[derive(Clone, Copy, Debug, PartialEq, Eq, Structural)]
pub enum MachineIdStorage {
    File,
    Registry,
    /// Any other kind: reading finds nothing, writing and resetting do nothing.
    Other,
}

/// A registry location: the hive and the key path below it.
pub struct RegistryLocation {
    /// `HKEY_CURRENT_USER` when set, `HKEY_LOCAL_MACHINE` otherwise.
    pub current_user: bool,
    pub subkey: String,
}

/// The key path below the hive: the path with leading `HKEY_CURRENT_USER\`
/// prefixes removed, then leading `HKEY_LOCAL_MACHINE\` prefixes.
pub open spec fn registry_subkey(path: Seq<char>) -> Seq<char> {
    trim_prefix_spec(trim_prefix_spec(path, "HKEY_CURRENT_USER\\"@), "HKEY_LOCAL_MACHINE\\"@)
}

impl MachineIdSpec {
    /// The storage kind named by `spec_type`.
    pub fn storage(&self) -> (res: MachineIdStorage)
        ensures
            res == if self.spec_type@ == "file"@ {
                MachineIdStorage::File
            } else if self.spec_type@ == "registry"@ {
                MachineIdStorage::Registry
            } else {
                MachineIdStorage::Other
            },
    {
        if str_eq(self.spec_type.as_str(), "file") {
            MachineIdStorage::File
        } else if str_eq(self.spec_type.as_str(), "registry") {
            MachineIdStorage::Registry
        } else {
            MachineIdStorage::Other
        }
    }

    /// The registry value that holds the id: `key`, or the default value
    /// (empty name) when there is none.
    pub fn value_name(&self) -> (res: String)
        ensures
            res@ == match self.key {
                Some(k) => k@,
                None => Seq::empty(),
            },
    {
        match &self.key {
            Some(k) => k.clone(),
            None => String::new(),
        }
    }

    /// The registry location for reading and writing the id: the hive is
    /// `HKEY_CURRENT_USER` when the path begins with that text.
    pub fn registry_location(&self) -> (res: RegistryLocation)
        ensures
            res.current_user == starts_with_spec(self.path@, "HKEY_CURRENT_USER"@),
            res.subkey@ == registry_subkey(self.path@),
    {
        let current_user = starts_with(self.path.as_str(), "HKEY_CURRENT_USER");
        let once = trim_prefix(self.path.as_str(), "HKEY_CURRENT_USER\\");
        let subkey = trim_prefix(once.as_str(), "HKEY_LOCAL_MACHINE\\");
        RegistryLocation { current_user, subkey }
    }
}

/// The registry location for resetting the id, from the expanded path: the
/// hive is `HKEY_CURRENT_USER` when that is the path's first component.
pub fn reset_registry_location(expanded: &str) -> (res: RegistryLocation)
    ensures
        res.current_user == (expanded@ == "HKEY_CURRENT_USER"@ || starts_with_spec(
            expanded@,
            "HKEY_CURRENT_USER\\"@,
        ) || starts_with_spec(expanded@, "HKEY_CURRENT_USER/"@)),
        res.subkey@ == registry_subkey(expanded@),
{
    let current_user = str_eq(expanded, "HKEY_CURRENT_USER") || starts_with(
        expanded,
        "HKEY_CURRENT_USER\\",
    ) || starts_with(expanded, "HKEY_CURRENT_USER/");
    let once = trim_prefix(expanded, "HKEY_CURRENT_USER\\");
    let subkey = trim_prefix(once.as_str(), "HKEY_LOCAL_MACHINE\\");
    RegistryLocation { current_user, subkey }
}

/// The machine id held in a machine-id file: its content without leading
/// and trailing white space.
pub fn machine_id_from_file(content: &str) -> (res: String)
    ensures
        res@ == trim_spec(content@),
{
    trim(content)
}

/// The failure of generating a machine id when the system gives no random bytes.
pub open spec fn random_failure_message() -> Seq<char> {
    "随机数生成失败"@
}

/// A fresh random machine id: the text of a version 4 UUID; a `FlowFailed`
/// error when the system's random source fails.
pub fn generate_machine_id() -> (res: Result<String, PluginError>)
    ensures
        match res {
            Ok(id) => is_uuid_v4_text(id@),
            Err(e) => e matches PluginError::FlowFailed(m) && m@ == random_failure_message(),
        },
{
    match new_uuid_v4() {
        Some(id) => Ok(id),
        None => Err(PluginError::FlowFailed("随机数生成失败".to_owned())),
    }
}

// ---------------------------------------------------------------------------
// Telemetry ids
// ---------------------------------------------------------------------------

/// `hex::encode`: lowercase hexadecimal text, two digits per byte.
#[verifier::external_body]
fn hex_encode(data: &[u8]) -> (res: String)
    ensures
        res@ == hex_lower(data@),
{
    hex::encode(data)
}

/// The telemetry machine id for a machine id: the first 16 bytes of the
/// SHA-256 of its UTF-8 bytes, in lowercase hex (32 characters).
pub open spec fn telemetry_machine_id_spec(machine_id: Seq<char>) -> Seq<char> {
    hex_lower(sha256_spec(encode_utf8(machine_id)).take(16))
}

/// The telemetry machine id for a machine id (see `telemetry_machine_id_spec`).
pub fn telemetry_machine_id(machine_id: &str) -> (res: String)
    ensures
        res@ == telemetry_machine_id_spec(machine_id@),
{
    let digest = sha256_digest(machine_id.as_bytes());
    let mut prefix: Vec<u8> = Vec::new();
    for i in 0..16
        invariant
            digest@.len() == 32,
            prefix@ == digest@.take(i as int),
    {
        prefix.push(digest[i]);
        assert(prefix@ =~= digest@.take(i + 1));
    }
    hex_encode(prefix.as_slice())
}

/// The `storage.json` entries that a new machine id sets, in order:
/// `telemetry.machineId`, `telemetry.sqmId` (an uppercase UUID in braces)
/// and `telemetry.devDeviceId`.
pub open spec fn telemetry_entries_spec(machine_id: Seq<char>, sqm_uuid: Seq<char>, dev_uuid: Seq<
    char,
>) -> Seq<(Seq<char>, Seq<char>)> {
    seq![
        ("telemetry.machineId"@, telemetry_machine_id_spec(machine_id)),
        ("telemetry.sqmId"@, "{"@ + uppercase_spec(sqm_uuid) + "}"@),
        ("telemetry.devDeviceId"@, dev_uuid),
    ]
}

/// The texts of a list of pairs of strings.
pub open spec fn pair_texts(v: Seq<(String, String)>) -> Seq<(Seq<char>, Seq<char>)> {
    v.map_values(|p: (String, String)| (p.0@, p.1@))
}

/// The `storage.json` entries for a new machine id and two given UUIDs.
pub fn telemetry_entries(machine_id: &str, sqm_uuid: &str, dev_uuid: &str) -> (res: Vec<
    (String, String),
>)
    ensures
        pair_texts(res@) == telemetry_entries_spec(machine_id@, sqm_uuid@, dev_uuid@),
{
    let tid = telemetry_machine_id(machine_id);
    let mut sqm = "{".to_owned();
    let upper = to_uppercase(sqm_uuid);
    sqm.append(upper.as_str());
    sqm.append("}");
    let mut res: Vec<(String, String)> = Vec::new();
    res.push(("telemetry.machineId".to_owned(), tid));
    res.push(("telemetry.sqmId".to_owned(), sqm));
    res.push(("telemetry.devDeviceId".to_owned(), dev_uuid.to_owned()));
    assert(pair_texts(res@) =~= telemetry_entries_spec(machine_id@, sqm_uuid@, dev_uuid@));
    res
}

/// The `storage.json` entries for a new machine id, with fresh random
/// version 4 UUIDs for the two device ids; `None` when the system's random
/// source fails.
pub fn new_telemetry_entries(machine_id: &str) -> (res: Option<Vec<(String, String)>>)
    ensures
        res matches Some(v) ==> exists|sqm: Seq<char>, dev: Seq<char>|
            is_uuid_v4_text(sqm) && is_uuid_v4_text(dev) && pair_texts(v@)
                == #[trigger] telemetry_entries_spec(machine_id@, sqm, dev),
{
    let sqm = match new_uuid_v4() {
        Some(u) => u,
        None => return None,
    };
    let dev = match new_uuid_v4() {
        Some(u) => u,
        None => return None,
    };
    let res = telemetry_entries(machine_id, sqm.as_str(), dev.as_str());
    assert(pair_texts(res@) == telemetry_entries_spec(machine_id@, sqm@, dev@));
    Some(res)
}

// ---------------------------------------------------------------------------
// storage.json
// ---------------------------------------------------------------------------

#[verifier::external_type_specification]
#[verifier::external_body]
pub struct ExJsonValue(serde_json::Value);

/// The JSON value that a text holds, `None` where it is not JSON.
pub uninterp spec fn json_parse_spec(text: Seq<char>) -> Option<serde_json::Value>;

/// The members of a JSON object by name; `None` for a value that is not an object.
pub uninterp spec fn json_object_spec(v: serde_json::Value) -> Option<Map<Seq<char>, serde_json::Value>>;

/// The JSON string value with this text.
pub uninterp spec fn json_string_spec(s: Seq<char>) -> serde_json::Value;

/// The pretty-printed text of a JSON value, `None` where printing fails.
pub uninterp spec fn json_pretty_spec(v: serde_json::Value) -> Option<Seq<char>>;

/// `serde_json::from_str::<Value>`: the value named `json_parse_spec`.
#[verifier::external_body]
fn parse_json(text: &str) -> (res: Option<serde_json::Value>)
    ensures
        res == json_parse_spec(text@),
{
    serde_json::from_str(text).ok()
}

/// `Value::is_object`: whether the value is an object.
#[verifier::external_body]
fn json_is_object(v: &serde_json::Value) -> (res: bool)
    ensures
        res == (json_object_spec(*v) is Some),
{
    v.is_object()
}

/// `Value::String`: the string value of a text, named `json_string_spec`.
#[verifier::external_body]
fn json_string(s: &str) -> (res: serde_json::Value)
    ensures
        res == json_string_spec(s@),
{
    serde_json::Value::String(s.to_owned())
}

/// `value[key] = item` on an object (`IndexMut<&str>`): the member `key`
/// is set to `item`, the other members stay. It panics on values that are
/// neither objects nor null, which `requires` leaves out.
#[verifier::external_body]
fn json_object_set(v: &mut serde_json::Value, key: &str, item: serde_json::Value)
    requires
        json_object_spec(*old(v)) is Some,
    ensures
        json_object_spec(*final(v)) == Some(json_object_spec(*old(v))->0.insert(key@, item)),
{
    v[key] = item;
}

/// `serde_json::to_string_pretty`: the text named `json_pretty_spec`.
#[verifier::external_body]
fn json_pretty(v: &serde_json::Value) -> (res: Option<String>)
    ensures
        opt_text(res) == json_pretty_spec(*v),
{
    serde_json::to_string_pretty(v).ok()
}

/// The members of an object after the entries are set one after another,
/// each as a JSON string.
pub open spec fn with_entries(
    obj: Map<Seq<char>, serde_json::Value>,
    entries: Seq<(String, String)>,
) -> Map<Seq<char>, serde_json::Value>
    decreases entries.len(),
{
    if entries.len() == 0 {
        obj
    } else {
        with_entries(obj, entries.drop_last()).insert(
            entries.last().0@,
            json_string_spec(entries.last().1@),
        )
    }
}

/// The new text of a `storage.json`: the object it holds with each entry
/// set as a string member, pretty-printed. `None` when the text is not JSON,
/// holds no object, or printing fails; the file then stays as it is.
pub fn updated_storage_json(content: &str, entries: &Vec<(String, String)>) -> (res: Option<String>)
    ensures
        match json_parse_spec(content@) {
            None => res is None,
            Some(v) => match json_object_spec(v) {
                None => res is None,
                Some(obj) => exists|w: serde_json::Value|
                    #[trigger] json_object_spec(w) == Some(with_entries(obj, entries@)) && opt_text(
                        res,
                    ) == json_pretty_spec(w),
            },
        },
{
    let mut v = match parse_json(content) {
        Some(v) => v,
        None => return None,
    };
    if !json_is_object(&v) {
        return None;
    }
    let ghost obj = json_object_spec(v)->0;
    assert(entries@.take(0) =~= Seq::<(String, String)>::empty());
    for i in 0..entries.len()
        invariant
            json_object_spec(v) == Some(with_entries(obj, entries@.take(i as int))),
    {
        assert(entries@.take(i + 1).drop_last() =~= entries@.take(i as int));
        let item = json_string(entries[i].1.as_str());
        json_object_set(&mut v, entries[i].0.as_str(), item);
    }
    assert(entries@.take(entries@.len() as int) =~= entries@);
    json_pretty(&v)
}

} // verus!
