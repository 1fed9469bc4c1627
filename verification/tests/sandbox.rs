use pacmine::sandbox::{Sandbox, SandboxConfig, SetupStep};

fn quiet_config(root: &str) -> SandboxConfig {
    SandboxConfig {
        tmp_root: root.to_string(),
        mount_proc: false,
        mount_tmp: false,
        readonly_root: false,
        bind_dirs: vec![],
        cpu_limit_secs: 1,
        mem_limit_bytes: 1024 * 1024,
        nofile_limit: 8,
        nproc_limit: 4,
        enable_pid_ns: false,
        enable_user_ns: false,
        enable_mount_ns: false,
        enable_net_ns: false,
        enable_uts_ns: false,
    }
}

#[test]
fn default_config_values() {
    let c = SandboxConfig::default();
    assert_eq!(c.tmp_root, "/tmp/sandbox");
    assert!(c.mount_proc);
    assert!(c.mount_tmp);
    assert!(c.readonly_root);
    assert_eq!(c.bind_dirs.len(), 1);
    assert_eq!(c.bind_dirs[0].0, "/usr/bin");
    assert_eq!(c.bind_dirs[0].1, "/tmp/sandbox/bin");
    assert!(c.bind_dirs[0].2);
    assert_eq!(c.cpu_limit_secs, 5);
    assert_eq!(c.mem_limit_bytes, 256 * 1024 * 1024);
    assert_eq!(c.nofile_limit, 64);
    assert_eq!(c.nproc_limit, 32);
    assert!(c.enable_pid_ns && c.enable_user_ns && c.enable_mount_ns);
    assert!(!c.enable_net_ns && !c.enable_uts_ns);
}

#[test]
fn plan_of_default_config_is_in_order() {
    let c = SandboxConfig::default();
    let plan = Sandbox::setup_plan(&c);
    assert_eq!(plan.len(), 13);
    assert!(
        matches!(&plan[0], SetupStep::Unshare { mount_ns: true, pid_ns: true, user_ns: true })
    );
    assert!(matches!(&plan[1], SetupStep::MountRoot { path, readonly: true }
        if path == "/tmp/sandbox"));
    assert!(matches!(&plan[2], SetupStep::MakeDir { path } if path == "/tmp/sandbox/proc"));
    assert!(matches!(&plan[3], SetupStep::MountProc { path } if path == "/tmp/sandbox/proc"));
    assert!(matches!(&plan[4], SetupStep::MakeDir { path } if path == "/tmp/sandbox/tmp"));
    assert!(matches!(&plan[5], SetupStep::MountTmp { path } if path == "/tmp/sandbox/tmp"));
    assert!(matches!(&plan[6], SetupStep::MakeDir { path } if path == "/tmp/sandbox/bin"));
    assert!(matches!(&plan[7], SetupStep::BindMount { host, target }
        if host == "/usr/bin" && target == "/tmp/sandbox/bin"));
    assert!(matches!(&plan[8], SetupStep::RemountReadonly { target }
        if target == "/tmp/sandbox/bin"));
    assert!(matches!(&plan[9], SetupStep::LimitCpu { secs: 5 }));
    assert!(matches!(&plan[10], SetupStep::LimitMemory { bytes } if *bytes == 256 * 1024 * 1024));
    assert!(matches!(&plan[11], SetupStep::LimitFiles { count: 64 }));
    assert!(matches!(&plan[12], SetupStep::LimitProcesses { count: 32 }));
}

#[test]
fn plan_without_namespaces_or_extras_is_minimal() {
    let c = quiet_config("/tmp/pacmine-plan-test");
    let plan = Sandbox::setup_plan(&c);
    assert_eq!(plan.len(), 5);
    assert!(matches!(&plan[0], SetupStep::MountRoot { path, readonly: false }
        if path == "/tmp/pacmine-plan-test"));
    assert!(matches!(&plan[1], SetupStep::LimitCpu { secs: 1 }));
    assert!(matches!(&plan[2], SetupStep::LimitMemory { bytes } if *bytes == 1024 * 1024));
    assert!(matches!(&plan[3], SetupStep::LimitFiles { count: 8 }));
    assert!(matches!(&plan[4], SetupStep::LimitProcesses { count: 4 }));
}

#[test]
fn release_candidates_without_proc_tmp_is_root_only() {
    let c = quiet_config("/tmp/pacmine-release-test");
    let paths = Sandbox::release_candidates(&c);
    assert_eq!(paths.len(), 1);
    assert_eq!(paths[0], "/tmp/pacmine-release-test");
}

#[test]
fn release_candidates_with_proc_and_tmp() {
    let mut c = quiet_config("/tmp/pacmine-release-test2");
    c.mount_proc = true;
    c.mount_tmp = true;
    let paths = Sandbox::release_candidates(&c);
    assert_eq!(paths.len(), 3);
    assert_eq!(paths[0], "/tmp/pacmine-release-test2");
    assert_eq!(paths[1], "/tmp/pacmine-release-test2/proc");
    assert_eq!(paths[2], "/tmp/pacmine-release-test2/tmp");
}

#[test]
fn release_on_missing_paths_succeeds_twice() {
    // Nothing under this root was ever created: teardown only attempts the
    // root path, finds it absent, and succeeds — a second call as well.
    let c = quiet_config("/tmp/pacmine-release-test-absent");
    assert!(Sandbox::release_mounts(&c).is_ok());
    assert!(Sandbox::release_mounts(&c).is_ok());
}
