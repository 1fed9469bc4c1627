//! Isolated execution context around a unit of work.
//!
//! A [`SandboxConfig`] names a private mount root, optional process-info and
//! scratch filesystems, bind-mount directives, four resource limits and five
//! namespace toggles. Construction performs a fixed sequence of privileged
//! kernel operations; the sequence is computed first as data ([`SetupStep`])
//! so that its order — namespace detach, root mount, process-info mount,
//! scratch mount, bind mounts in directive order, then the limits — is stated
//! and proved, and only the individual kernel calls are trusted.
//!
//! Construction does not roll back the steps already performed when a later
//! step fails; teardown stops at the first unmount failure and leaves the
//! remaining mount points mounted. Both are deliberate, documented behaviors
//! of this design.

use vstd::prelude::*;
use vstd::string::*;

verus! {

/// Immutable policy for one isolated execution context.
#[derive(Clone, Debug)]
pub struct SandboxConfig {
    /// Root path of the private mount tree.
    pub tmp_root: String,
    /// Mount a process-information filesystem under the root.
    pub mount_proc: bool,
    /// Mount a scratch temporary filesystem under the root.
    pub mount_tmp: bool,
    /// Mount the root read-only.
    pub readonly_root: bool,
    /// Bind-mount directives: (host path, sandbox path, read-only).
    pub bind_dirs: Vec<(String, String, bool)>,
    /// Ceiling on CPU time, in seconds.
    pub cpu_limit_secs: u64,
    /// Ceiling on address-space size, in bytes.
    pub mem_limit_bytes: u64,
    /// Ceiling on the number of open file descriptors.
    pub nofile_limit: u64,
    /// Ceiling on the number of processes/threads.
    pub nproc_limit: u64,
    /// Detach into a new process-id namespace.
    pub enable_pid_ns: bool,
    /// Detach into a new user namespace.
    pub enable_user_ns: bool,
    /// Detach into a new mount namespace.
    pub enable_mount_ns: bool,
    /// Carried for an orchestrator that forks after isolation; not exercised
    /// by construction here.
    pub enable_net_ns: bool,
    /// Carried for an orchestrator that forks after isolation; not exercised
    /// by construction here.
    pub enable_uts_ns: bool,
}

/// What the default policy promises, field by field.
pub open spec fn is_default_config(c: SandboxConfig) -> bool {
    &&& c.tmp_root@ == "/tmp/sandbox"@
    &&& c.mount_proc == true
    &&& c.mount_tmp == true
    &&& c.readonly_root == true
    &&& c.bind_dirs@.len() == 1
    &&& c.bind_dirs@[0].0@ == "/usr/bin"@
    &&& c.bind_dirs@[0].1@ == "/tmp/sandbox/bin"@
    &&& c.bind_dirs@[0].2 == true
    &&& c.cpu_limit_secs == 5
    &&& c.mem_limit_bytes == 256 * 1024 * 1024
    &&& c.nofile_limit == 64
    &&& c.nproc_limit == 32
    &&& c.enable_pid_ns == true
    &&& c.enable_user_ns == true
    &&& c.enable_mount_ns == true
    &&& c.enable_net_ns == false
    &&& c.enable_uts_ns == false
}

impl Default for SandboxConfig {
    /// A restrictive starting policy: private read-only root with proc and
    /// scratch mounts, the host binaries bound read-only, small limits, and
    /// mount, process-id and user namespaces enabled.
    fn default() -> (c: SandboxConfig)
        ensures
            is_default_config(c),
    {
        SandboxConfig {
            tmp_root: String::from_str("/tmp/sandbox"),
            mount_proc: true,
            mount_tmp: true,
            readonly_root: true,
            bind_dirs: vec![
                (String::from_str("/usr/bin"), String::from_str("/tmp/sandbox/bin"), true),
            ],
            cpu_limit_secs: 5,
            mem_limit_bytes: 256 * 1024 * 1024,
            nofile_limit: 64,
            nproc_limit: 32,
            enable_pid_ns: true,
            enable_user_ns: true,
            enable_mount_ns: true,
            enable_net_ns: false,
            enable_uts_ns: false,
        }
    }
}

/// One privileged kernel operation of the construction sequence.
#[derive(Clone, Debug)]
pub enum SetupStep {
    /// Detach the process into the requested namespaces, all in one call.
    Unshare { mount_ns: bool, pid_ns: bool, user_ns: bool },
    /// Mount a fresh private filesystem at the policy root.
    MountRoot { path: String, readonly: bool },
    /// Create a directory (and its missing parents).
    MakeDir { path: String },
    /// Mount a process-information filesystem.
    MountProc { path: String },
    /// Mount a scratch temporary filesystem.
    MountTmp { path: String },
    /// Bind a host path onto a sandbox path.
    BindMount { host: String, target: String },
    /// Re-apply a read-only remount on an established bind.
    RemountReadonly { target: String },
    /// Ceiling on CPU time, soft and hard alike.
    LimitCpu { secs: u64 },
    /// Ceiling on address-space size, soft and hard alike.
    LimitMemory { bytes: u64 },
    /// Ceiling on open file descriptors, soft and hard alike.
    LimitFiles { count: u64 },
    /// Ceiling on processes/threads, soft and hard alike.
    LimitProcesses { count: u64 },
}

/// The mathematical image of a [`SetupStep`]: paths as character sequences.
#[verifier::ext_equal]
pub enum StepSpec {
    Unshare { mount_ns: bool, pid_ns: bool, user_ns: bool },
    MountRoot { path: Seq<char>, readonly: bool },
    MakeDir { path: Seq<char> },
    MountProc { path: Seq<char> },
    MountTmp { path: Seq<char> },
    BindMount { host: Seq<char>, target: Seq<char> },
    RemountReadonly { target: Seq<char> },
    LimitCpu { secs: u64 },
    LimitMemory { bytes: u64 },
    LimitFiles { count: u64 },
    LimitProcesses { count: u64 },
}

impl View for SetupStep {
    type V = StepSpec;

    open spec fn view(&self) -> StepSpec {
        match self {
            SetupStep::Unshare { mount_ns, pid_ns, user_ns } => StepSpec::Unshare {
                mount_ns: *mount_ns,
                pid_ns: *pid_ns,
                user_ns: *user_ns,
            },
            SetupStep::MountRoot { path, readonly } => StepSpec::MountRoot {
                path: path@,
                readonly: *readonly,
            },
            SetupStep::MakeDir { path } => StepSpec::MakeDir { path: path@ },
            SetupStep::MountProc { path } => StepSpec::MountProc { path: path@ },
            SetupStep::MountTmp { path } => StepSpec::MountTmp { path: path@ },
            SetupStep::BindMount { host, target } => StepSpec::BindMount {
                host: host@,
                target: target@,
            },
            SetupStep::RemountReadonly { target } => StepSpec::RemountReadonly { target: target@ },
            SetupStep::LimitCpu { secs } => StepSpec::LimitCpu { secs: *secs },
            SetupStep::LimitMemory { bytes } => StepSpec::LimitMemory { bytes: *bytes },
            SetupStep::LimitFiles { count } => StepSpec::LimitFiles { count: *count },
            SetupStep::LimitProcesses { count } => StepSpec::LimitProcesses { count: *count },
        }
    }
}

/// Whether the policy asks for any of the namespaces that construction
/// detaches into itself (network and hostname toggles are carried, not
/// exercised here).
pub open spec fn ns_requested(c: SandboxConfig) -> bool {
    c.enable_mount_ns || c.enable_pid_ns || c.enable_user_ns
}

/// Path of the process-information mount under the root.
pub open spec fn proc_path(c: SandboxConfig) -> Seq<char> {
    c.tmp_root@ + "/proc"@
}

/// Path of the scratch mount under the root.
pub open spec fn tmp_path(c: SandboxConfig) -> Seq<char> {
    c.tmp_root@ + "/tmp"@
}

/// The namespace-detach prefix of the plan: one combined operation, or
/// nothing when no namespace is requested.
pub open spec fn ns_steps(c: SandboxConfig) -> Seq<StepSpec> {
    if ns_requested(c) {
        seq![
            StepSpec::Unshare {
                mount_ns: c.enable_mount_ns,
                pid_ns: c.enable_pid_ns,
                user_ns: c.enable_user_ns,
            },
        ]
    } else {
        Seq::empty()
    }
}

pub open spec fn root_steps(c: SandboxConfig) -> Seq<StepSpec> {
    seq![StepSpec::MountRoot { path: c.tmp_root@, readonly: c.readonly_root }]
}

pub open spec fn proc_steps(c: SandboxConfig) -> Seq<StepSpec> {
    if c.mount_proc {
        seq![
            StepSpec::MakeDir { path: proc_path(c) },
            StepSpec::MountProc { path: proc_path(c) },
        ]
    } else {
        Seq::empty()
    }
}

pub open spec fn tmp_steps(c: SandboxConfig) -> Seq<StepSpec> {
    if c.mount_tmp {
        seq![
            StepSpec::MakeDir { path: tmp_path(c) },
            StepSpec::MountTmp { path: tmp_path(c) },
        ]
    } else {
        Seq::empty()
    }
}

/// The steps of one bind directive: create the target, bind the host path
/// onto it, and re-apply a read-only remount when the directive asks for it.
pub open spec fn bind_steps(b: (String, String, bool)) -> Seq<StepSpec> {
    seq![
        StepSpec::MakeDir { path: b.1@ },
        StepSpec::BindMount { host: b.0@, target: b.1@ },
    ] + if b.2 {
        seq![StepSpec::RemountReadonly { target: b.1@ }]
    } else {
        Seq::empty()
    }
}

/// The steps of a list of bind directives, in directive order.
pub open spec fn binds_plan(binds: Seq<(String, String, bool)>) -> Seq<StepSpec>
    decreases binds.len(),
{
    if binds.len() == 0 {
        Seq::empty()
    } else {
        binds_plan(binds.drop_last()) + bind_steps(binds.last())
    }
}

pub open spec fn limit_steps(c: SandboxConfig) -> Seq<StepSpec> {
    seq![
        StepSpec::LimitCpu { secs: c.cpu_limit_secs },
        StepSpec::LimitMemory { bytes: c.mem_limit_bytes },
        StepSpec::LimitFiles { count: c.nofile_limit },
        StepSpec::LimitProcesses { count: c.nproc_limit },
    ]
}

/// The whole construction sequence a policy calls for: namespaces first,
/// then the root mount, the process-info mount, the scratch mount, the bind
/// directives in order, and the four resource limits last.
pub open spec fn plan_spec(c: SandboxConfig) -> Seq<StepSpec> {
    ns_steps(c) + root_steps(c) + proc_steps(c) + tmp_steps(c) + binds_plan(c.bind_dirs@)
        + limit_steps(c)
}

/// The views of a step sequence, element by element.
pub open spec fn plan_views(steps: Seq<SetupStep>) -> Seq<StepSpec> {
    steps.map_values(|s: SetupStep| s@)
}

/// The views of a path sequence, element by element.
pub open spec fn path_views(paths: Seq<String>) -> Seq<Seq<char>> {
    paths.map_values(|p: String| p@)
}

/// Concatenation of `base` and `suffix`.
fn join_path(base: &String, suffix: &str) -> (r: String)
    ensures
        r@ == base@ + suffix@,
{
    let mut s = base.clone();
    s.append(suffix);
    s
}

/// Discriminated failures of the isolation machinery, each carrying the raw
/// operating-system error number.
#[derive(Clone, Copy, Debug, PartialEq, Eq, Structural)]
pub enum SandboxError {
    /// A namespace-detach operation failed.
    Namespace { errno: i32 },
    /// A mount operation failed.
    Mount { errno: i32 },
    /// A directory could not be created.
    Filesystem { errno: i32 },
    /// A resource limit could not be applied.
    Limit { errno: i32 },
    /// An unmount during teardown failed.
    Teardown { errno: i32 },
}

/// The isolated execution context; Active once constructed, and the only
/// entity permitted to release the mount points it created.
pub struct Sandbox {
    config: SandboxConfig,
}

impl Sandbox {
    /// The policy this instance was constructed with.
    pub closed spec fn policy(&self) -> SandboxConfig {
        self.config
    }

    /// Computes the construction sequence for a policy as data, in the
    /// proved order.
    pub fn setup_plan(config: &SandboxConfig) -> (r: Vec<SetupStep>)
        ensures
            plan_views(r@) == plan_spec(*config),
    {
        let mut steps: Vec<SetupStep> = Vec::new();
        if config.enable_mount_ns || config.enable_pid_ns || config.enable_user_ns {
            steps.push(SetupStep::Unshare {
                mount_ns: config.enable_mount_ns,
                pid_ns: config.enable_pid_ns,
                user_ns: config.enable_user_ns,
            });
        }
        assert(plan_views(steps@) =~= ns_steps(*config));
        steps.push(SetupStep::MountRoot {
            path: config.tmp_root.clone(),
            readonly: config.readonly_root,
        });
        assert(plan_views(steps@) =~= ns_steps(*config) + root_steps(*config));
        if config.mount_proc {
            let p = join_path(&config.tmp_root, "/proc");
            steps.push(SetupStep::MakeDir { path: p.clone() });
            steps.push(SetupStep::MountProc { path: p });
        }
        assert(plan_views(steps@) =~= ns_steps(*config) + root_steps(*config) + proc_steps(
            *config,
        ));
        if config.mount_tmp {
            let p = join_path(&config.tmp_root, "/tmp");
            steps.push(SetupStep::MakeDir { path: p.clone() });
            steps.push(SetupStep::MountTmp { path: p });
        }
        let ghost pre = ns_steps(*config) + root_steps(*config) + proc_steps(*config) + tmp_steps(
            *config,
        );
        assert(plan_views(steps@) =~= pre);
        let mut i: usize = 0;
        while i < config.bind_dirs.len()
            invariant
                0 <= i <= config.bind_dirs@.len(),
                plan_views(steps@) =~= pre + binds_plan(config.bind_dirs@.subrange(0, i as int)),
            decreases config.bind_dirs@.len() - i,
        {
            let ghost done = config.bind_dirs@.subrange(0, i as int);
            let ghost b = config.bind_dirs@[i as int];
            let host = config.bind_dirs[i].0.clone();
            let target = config.bind_dirs[i].1.clone();
            let readonly = config.bind_dirs[i].2;
            let ghost before = steps@;
            steps.push(SetupStep::MakeDir { path: target.clone() });
            steps.push(SetupStep::BindMount { host, target: target.clone() });
            if readonly {
                steps.push(SetupStep::RemountReadonly { target });
            }
            proof {
                let mapped = plan_views(steps@);
                assert forall|j: int| 0 <= j < steps@.len() implies plan_views(steps@)[j]
                    == steps@[j]@ by {}
                let expected = plan_views(before) + bind_steps(b);
                assert(bind_steps(b).len() == if b.2 { 3int } else { 2int });
                assert(mapped.len() == expected.len());
                assert forall|j: int| 0 <= j < mapped.len() implies mapped[j] == expected[j] by {
                    assert(mapped[j] == steps@[j]@);
                    if j < before.len() {
                        assert(steps@[j] == before[j]);
                        assert(plan_views(before)[j] == before[j]@);
                        assert(expected[j] == plan_views(before)[j]);
                    } else if j == before.len() {
                        assert(steps@[j]@ == (StepSpec::MakeDir { path: b.1@ }));
                        assert(expected[j] == bind_steps(b)[0]);
                    } else if j == before.len() + 1 {
                        assert(steps@[j]@ == (StepSpec::BindMount { host: b.0@, target: b.1@ }));
                        assert(expected[j] == bind_steps(b)[1]);
                    } else {
                        assert(steps@[j]@ == (StepSpec::RemountReadonly { target: b.1@ }));
                        assert(expected[j] == bind_steps(b)[2]);
                    }
                }
                assert(mapped =~= expected);
                let next = config.bind_dirs@.subrange(0, i + 1int);
                assert(next.drop_last() =~= done);
                assert(next.last() == b);
                assert(binds_plan(next) == binds_plan(done) + bind_steps(b));
                assert(pre + binds_plan(done) + bind_steps(b) =~= pre + (binds_plan(done)
                    + bind_steps(b)));
                assert(mapped =~= pre + binds_plan(next));
            }
            i = i + 1;
        }
        proof {
            assert(config.bind_dirs@.subrange(0, config.bind_dirs@.len() as int) =~= config
                .bind_dirs@);
        }
        steps.push(SetupStep::LimitCpu { secs: config.cpu_limit_secs });
        steps.push(SetupStep::LimitMemory { bytes: config.mem_limit_bytes });
        steps.push(SetupStep::LimitFiles { count: config.nofile_limit });
        steps.push(SetupStep::LimitProcesses { count: config.nproc_limit });
        assert(plan_views(steps@) =~= plan_spec(*config));
        steps
    }

    /// Performs one step of the construction sequence, classifying any
    /// failure by the kind of operation that failed.
    fn execute_step(step: &SetupStep) -> (r: Result<(), SandboxError>)
        ensures
            r matches Err(e) ==> match step@ {
                StepSpec::Unshare { .. } => e is Namespace,
                StepSpec::MountRoot { .. } => e is Mount,
                StepSpec::MakeDir { .. } => e is Filesystem,
                StepSpec::MountProc { .. } => e is Mount,
                StepSpec::MountTmp { .. } => e is Mount,
                StepSpec::BindMount { .. } => e is Mount,
                StepSpec::RemountReadonly { .. } => e is Mount,
                StepSpec::LimitCpu { .. } => e is Limit,
                StepSpec::LimitMemory { .. } => e is Limit,
                StepSpec::LimitFiles { .. } => e is Limit,
                StepSpec::LimitProcesses { .. } => e is Limit,
            },
    {
        match step {
            SetupStep::Unshare { mount_ns, pid_ns, user_ns } => {
                match unshare_namespaces(*mount_ns, *pid_ns, *user_ns) {
                    Ok(()) => Ok(()),
                    Err(errno) => Err(SandboxError::Namespace { errno }),
                }
            },
            SetupStep::MountRoot { path, readonly } => {
                match mount_root_tmpfs(path.as_str(), *readonly) {
                    Ok(()) => Ok(()),
                    Err(errno) => Err(SandboxError::Mount { errno }),
                }
            },
            SetupStep::MakeDir { path } => {
                match make_dir_all(path.as_str()) {
                    Ok(()) => Ok(()),
                    Err(errno) => Err(SandboxError::Filesystem { errno }),
                }
            },
            SetupStep::MountProc { path } => {
                match mount_procfs(path.as_str()) {
                    Ok(()) => Ok(()),
                    Err(errno) => Err(SandboxError::Mount { errno }),
                }
            },
            SetupStep::MountTmp { path } => {
                match mount_scratch_tmpfs(path.as_str()) {
                    Ok(()) => Ok(()),
                    Err(errno) => Err(SandboxError::Mount { errno }),
                }
            },
            SetupStep::BindMount { host, target } => {
                match bind_mount(host.as_str(), target.as_str()) {
                    Ok(()) => Ok(()),
                    Err(errno) => Err(SandboxError::Mount { errno }),
                }
            },
            SetupStep::RemountReadonly { target } => {
                match remount_readonly_bind(target.as_str()) {
                    Ok(()) => Ok(()),
                    Err(errno) => Err(SandboxError::Mount { errno }),
                }
            },
            SetupStep::LimitCpu { secs } => {
                match set_cpu_time_limit(*secs) {
                    Ok(()) => Ok(()),
                    Err(errno) => Err(SandboxError::Limit { errno }),
                }
            },
            SetupStep::LimitMemory { bytes } => {
                match set_address_space_limit(*bytes) {
                    Ok(()) => Ok(()),
                    Err(errno) => Err(SandboxError::Limit { errno }),
                }
            },
            SetupStep::LimitFiles { count } => {
                match set_open_files_limit(*count) {
                    Ok(()) => Ok(()),
                    Err(errno) => Err(SandboxError::Limit { errno }),
                }
            },
            SetupStep::LimitProcesses { count } => {
                match set_process_count_limit(*count) {
                    Ok(()) => Ok(()),
                    Err(errno) => Err(SandboxError::Limit { errno }),
                }
            },
        }
    }

    /// Builds the isolation context: performs the construction sequence of
    /// `config` in its proved order, aborting at the first failing step.
    ///
    /// Steps already performed are not rolled back on failure; a partially
    /// constructed context leaves its mounts and limits in place for the
    /// caller to report.
    pub fn new(config: SandboxConfig) -> (r: Result<Sandbox, SandboxError>)
        ensures
            r matches Ok(sb) ==> sb.policy() == config,
            r matches Err(e) ==> !(e is Teardown),
    {
        let plan = Self::setup_plan(&config);
        let mut i: usize = 0;
        while i < plan.len()
            invariant
                plan_views(plan@) == plan_spec(config),
            decreases plan@.len() - i,
        {
            match Self::execute_step(&plan[i]) {
                Ok(()) => {},
                Err(e) => {
                    return Err(e);
                },
            }
            i = i + 1;
        }
        Ok(Sandbox { config })
    }

    /// The mount points this instance is responsible for tearing down: the
    /// root, and, when configured, its process-info and scratch children.
    /// Bind-mounted directories are intentionally not tracked here; dropping
    /// the root with a detach-style unmount is relied on to drop them.
    pub open spec fn release_paths_spec(c: SandboxConfig) -> Seq<Seq<char>> {
        seq![c.tmp_root@] + (if c.mount_proc {
            seq![proc_path(c)]
        } else {
            Seq::empty()
        }) + (if c.mount_tmp {
            seq![tmp_path(c)]
        } else {
            Seq::empty()
        })
    }

    /// Computes the teardown candidates of a policy, in teardown order.
    pub fn release_candidates(config: &SandboxConfig) -> (r: Vec<String>)
        ensures
            path_views(r@) == Self::release_paths_spec(*config),
    {
        let mut paths: Vec<String> = Vec::new();
        paths.push(config.tmp_root.clone());
        if config.mount_proc {
            paths.push(join_path(&config.tmp_root, "/proc"));
        }
        if config.mount_tmp {
            paths.push(join_path(&config.tmp_root, "/tmp"));
        }
        assert(path_views(paths@) =~= Self::release_paths_spec(*config));
        paths
    }

    /// Tears down the mount points a policy is responsible for: each
    /// candidate path that currently exists is detach-unmounted, so a path
    /// that was never created — or is already unmounted and gone — is
    /// skipped rather than an error. The first unmount failure aborts the
    /// sequence; remaining candidates are left mounted.
    pub fn release_mounts(config: &SandboxConfig) -> (r: Result<(), SandboxError>)
        ensures
            r matches Err(e) ==> e is Teardown,
    {
        let candidates = Self::release_candidates(config);
        let mut i: usize = 0;
        while i < candidates.len()
            decreases candidates@.len() - i,
        {
            if path_exists(candidates[i].as_str()) {
                match umount_detach(candidates[i].as_str()) {
                    Ok(()) => {},
                    Err(errno) => {
                        return Err(SandboxError::Teardown { errno });
                    },
                }
            }
            i = i + 1;
        }
        Ok(())
    }

    /// Tears down this instance's mount points; see [`Self::release_mounts`].
    pub fn release(&self) -> (r: Result<(), SandboxError>)
        ensures
            r matches Err(e) ==> e is Teardown,
    {
        Self::release_mounts(&self.config)
    }

    /// Convenience composition: construct the context, run `work` within it,
    /// tear the context down, and return `work`'s result. Verified callers
    /// cannot panic, so teardown is reached on every path on which
    /// construction succeeded; a failure of construction or teardown is
    /// surfaced.
    pub fn run<F, R>(config: SandboxConfig, work: F) -> (r: Result<R, SandboxError>) where
        F: FnOnce() -> R,

        requires
            call_requires(work, ()),
        ensures
            r matches Ok(v) ==> call_ensures(work, (), v),
    {
        let sandbox = Self::new(config)?;
        let result = work();
        sandbox.release()?;
        Ok(result)
    }
}

/// A policy that mounts neither the process-info nor the scratch filesystem
/// is responsible for exactly one teardown candidate: its root path.
pub proof fn lemma_release_only_root(c: SandboxConfig)
    requires
        !c.mount_proc,
        !c.mount_tmp,
    ensures
        Sandbox::release_paths_spec(c) == seq![c.tmp_root@],
{
    assert(Sandbox::release_paths_spec(c) =~= seq![c.tmp_root@]);
}

/// Relies on nix::sched::unshare: detaches the calling process into the
/// namespaces whose flags are set, in a single call.
#[verifier::external_body]
fn unshare_namespaces(mount_ns: bool, pid_ns: bool, user_ns: bool) -> (r: Result<(), i32>) {
    let mut flags = nix::sched::CloneFlags::empty();
    if mount_ns {
        flags |= nix::sched::CloneFlags::CLONE_NEWNS;
    }
    if pid_ns {
        flags |= nix::sched::CloneFlags::CLONE_NEWPID;
    }
    if user_ns {
        flags |= nix::sched::CloneFlags::CLONE_NEWUSER;
    }
    match nix::sched::unshare(flags) {
        Ok(()) => Ok(()),
        Err(e) => Err(e as i32),
    }
}

/// Relies on nix::mount::mount: mounts a fresh tmpfs at `path`, read-only
/// when asked.
#[verifier::external_body]
fn mount_root_tmpfs(path: &str, readonly: bool) -> (r: Result<(), i32>) {
    let mut flags = nix::mount::MsFlags::empty();
    if readonly {
        flags |= nix::mount::MsFlags::MS_RDONLY;
    }
    match nix::mount::mount(Some("tmpfs"), path, Some("tmpfs"), flags, None::<&str>) {
        Ok(()) => Ok(()),
        Err(e) => Err(e as i32),
    }
}

/// Relies on nix::mount::mount: mounts a process-information filesystem at
/// `path`.
#[verifier::external_body]
fn mount_procfs(path: &str) -> (r: Result<(), i32>) {
    match nix::mount::mount(
        Some("proc"),
        path,
        Some("proc"),
        nix::mount::MsFlags::empty(),
        None::<&str>,
    ) {
        Ok(()) => Ok(()),
        Err(e) => Err(e as i32),
    }
}

/// Relies on nix::mount::mount: mounts a scratch tmpfs at `path`.
#[verifier::external_body]
fn mount_scratch_tmpfs(path: &str) -> (r: Result<(), i32>) {
    match nix::mount::mount(
        Some("tmpfs"),
        path,
        Some("tmpfs"),
        nix::mount::MsFlags::empty(),
        None::<&str>,
    ) {
        Ok(()) => Ok(()),
        Err(e) => Err(e as i32),
    }
}

/// Relies on nix::mount::mount with MS_BIND: makes `host` visible at
/// `target`.
#[verifier::external_body]
fn bind_mount(host: &str, target: &str) -> (r: Result<(), i32>) {
    match nix::mount::mount(
        Some(host),
        target,
        None::<&str>,
        nix::mount::MsFlags::MS_BIND,
        None::<&str>,
    ) {
        Ok(()) => Ok(()),
        Err(e) => Err(e as i32),
    }
}

/// Relies on nix::mount::mount with MS_BIND | MS_REMOUNT | MS_RDONLY:
/// re-applies a read-only remount on an established bind at `target`.
#[verifier::external_body]
fn remount_readonly_bind(target: &str) -> (r: Result<(), i32>) {
    let flags = nix::mount::MsFlags::MS_BIND | nix::mount::MsFlags::MS_REMOUNT
        | nix::mount::MsFlags::MS_RDONLY;
    match nix::mount::mount(None::<&str>, target, None::<&str>, flags, None::<&str>) {
        Ok(()) => Ok(()),
        Err(e) => Err(e as i32),
    }
}

/// Relies on nix::unistd::mkdir: creates one directory with mode 0755; a
/// directory that already exists counts as success.
#[verifier::external_body]
fn make_dir(path: &str) -> (r: Result<(), i32>) {
    match nix::unistd::mkdir(path, nix::sys::stat::Mode::from_bits_truncate(0o755)) {
        Ok(()) => Ok(()),
        Err(nix::errno::Errno::EEXIST) => Ok(()),
        Err(e) => Err(e as i32),
    }
}

/// Creates `path` and any of its missing parents: each prefix ending before
/// a separator is created first, ignoring individual failures — a parent
/// that could not be created surfaces as the failure of the final creation.
fn make_dir_all(path: &str) -> (r: Result<(), i32>) {
    let n = path.unicode_len();
    let mut i: usize = 0;
    while i < n
        invariant
            n == path@.len(),
        decreases n - i,
    {
        if i > 0 && path.get_char(i) == '/' {
            let prefix = path.substring_char(0, i);
            let _ = make_dir(prefix);
        }
        i = i + 1;
    }
    make_dir(path)
}

/// Relies on nix::mount::umount2 with MNT_DETACH: unmounts `path` even while
/// other references to the mount remain.
#[verifier::external_body]
fn umount_detach(path: &str) -> (r: Result<(), i32>) {
    match nix::mount::umount2(path, nix::mount::MntFlags::MNT_DETACH) {
        Ok(()) => Ok(()),
        Err(e) => Err(e as i32),
    }
}

/// Relies on std::path::Path::exists: whether `path` currently names an
/// existing filesystem entry.
#[verifier::external_body]
fn path_exists(path: &str) -> (r: bool) {
    std::path::Path::new(path).exists()
}

/// Relies on nix::sys::resource::setrlimit with RLIMIT_CPU: sets the CPU
/// time ceiling, soft and hard alike.
#[verifier::external_body]
fn set_cpu_time_limit(secs: u64) -> (r: Result<(), i32>) {
    match nix::sys::resource::setrlimit(nix::sys::resource::Resource::RLIMIT_CPU, secs, secs) {
        Ok(()) => Ok(()),
        Err(e) => Err(e as i32),
    }
}

/// Relies on nix::sys::resource::setrlimit with RLIMIT_AS: sets the
/// address-space ceiling, soft and hard alike.
#[verifier::external_body]
fn set_address_space_limit(bytes: u64) -> (r: Result<(), i32>) {
    match nix::sys::resource::setrlimit(nix::sys::resource::Resource::RLIMIT_AS, bytes, bytes) {
        Ok(()) => Ok(()),
        Err(e) => Err(e as i32),
    }
}

/// Relies on nix::sys::resource::setrlimit with RLIMIT_NOFILE: sets the
/// open-file-descriptor ceiling, soft and hard alike.
#[verifier::external_body]
fn set_open_files_limit(count: u64) -> (r: Result<(), i32>) {
    match nix::sys::resource::setrlimit(
        nix::sys::resource::Resource::RLIMIT_NOFILE,
        count,
        count,
    ) {
        Ok(()) => Ok(()),
        Err(e) => Err(e as i32),
    }
}

/// Relies on nix::sys::resource::setrlimit with RLIMIT_NPROC: sets the
/// process/thread ceiling, soft and hard alike.
#[verifier::external_body]
fn set_process_count_limit(count: u64) -> (r: Result<(), i32>) {
    match nix::sys::resource::setrlimit(
        nix::sys::resource::Resource::RLIMIT_NPROC,
        count,
        count,
    ) {
        Ok(()) => Ok(()),
        Err(e) => Err(e as i32),
    }
}

} // verus!
