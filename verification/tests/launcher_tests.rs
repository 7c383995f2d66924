use sidecar_supervisor::launcher::{
    complete_launch, prepare, resolve, FileProbe, InstallLayout, LaunchError, SidecarHandle,
    SidecarSpec,
};

fn inventory_spec() -> SidecarSpec {
    SidecarSpec {
        executable: String::from("inventory"),
        args: vec![String::from("--listen"), String::from("8080")],
        env: vec![(String::from("MODE"), String::from("embedded"))],
        working_dir: Some(String::from("/var/lib/inventory")),
    }
}

fn unix_layout() -> InstallLayout {
    InstallLayout { bin_dir: String::from("/opt/app/bin"), exe_suffix: String::new() }
}

#[test]
fn path_is_directory_slash_name_suffix() {
    assert_eq!(resolve(&inventory_spec(), &unix_layout()), "/opt/app/bin/inventory");
    let windows = InstallLayout {
        bin_dir: String::from("C:/Program Files/App"),
        exe_suffix: String::from(".exe"),
    };
    assert_eq!(resolve(&inventory_spec(), &windows), "C:/Program Files/App/inventory.exe");
}

#[test]
fn prepare_copies_the_description_into_the_plan() {
    let spec = inventory_spec();
    let plan = prepare(&spec, &unix_layout(), FileProbe { exists: true, executable: true })
        .unwrap();
    assert_eq!(plan.program, "/opt/app/bin/inventory");
    assert_eq!(plan.args, spec.args);
    assert_eq!(plan.env, spec.env);
    assert_eq!(plan.working_dir, spec.working_dir);
}

#[test]
fn prepare_with_nothing_to_copy() {
    let spec = SidecarSpec {
        executable: String::from("engine"),
        args: Vec::new(),
        env: Vec::new(),
        working_dir: None,
    };
    let plan = prepare(&spec, &unix_layout(), FileProbe { exists: true, executable: true })
        .unwrap();
    assert_eq!(plan.program, "/opt/app/bin/engine");
    assert!(plan.args.is_empty());
    assert!(plan.env.is_empty());
    assert_eq!(plan.working_dir, None);
}

#[test]
fn missing_executable_is_not_found() {
    let probe = FileProbe { exists: false, executable: false };
    assert_eq!(
        prepare(&inventory_spec(), &unix_layout(), probe),
        Err(LaunchError::ExecutableNotFound)
    );
    let odd = FileProbe { exists: false, executable: true };
    assert_eq!(
        prepare(&inventory_spec(), &unix_layout(), odd),
        Err(LaunchError::ExecutableNotFound)
    );
}

#[test]
fn file_without_execute_permission_is_denied() {
    let probe = FileProbe { exists: true, executable: false };
    assert_eq!(
        prepare(&inventory_spec(), &unix_layout(), probe),
        Err(LaunchError::PermissionDenied)
    );
}

#[test]
fn description_without_a_name_is_not_found() {
    let spec = SidecarSpec {
        executable: String::new(),
        args: Vec::new(),
        env: Vec::new(),
        working_dir: None,
    };
    let probe = FileProbe { exists: true, executable: true };
    assert_eq!(prepare(&spec, &unix_layout(), probe), Err(LaunchError::ExecutableNotFound));
}

#[test]
fn spawned_process_gives_a_fresh_handle() {
    let handle = complete_launch(Ok(4711), 250).unwrap();
    assert_eq!(
        handle,
        SidecarHandle { pid: 4711, started_at_ms: 250, exit: None, drain_closed: false }
    );
    assert_eq!(handle, SidecarHandle::new(4711, 250));
    assert!(handle.is_alive());
}

#[test]
fn refused_spawn_gives_spawn_failed_with_its_reason() {
    let result = complete_launch(Err(String::from("too many open files")), 250);
    assert_eq!(result, Err(LaunchError::SpawnFailed(String::from("too many open files"))));
}
