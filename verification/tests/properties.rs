use nixmodule::cache::{archive_type_of, fetch_needed, resolve_step, ArchiveType, ArtifactKind,
    Cache, ResolveStep};
use nixmodule::config::{selected_kernels, DiskImage, KConfig, Module, UploadFile};
use nixmodule::errors::NixModuleError;
use nixmodule::pipeline::{classify, step_outcome, test_outcome, test_steps, worst_exit,
    KernelReport, StageStatus, TestStep};
use nixmodule::qemu::wait_for_boot;

fn sample_kconfig(version: &str) -> KConfig {
    KConfig {
        version: version.to_string(),
        url_base: "http://host/kernels".to_string(),
        headers: "dist/headers.tar.gz".to_string(),
        kernel: "dist/bzImage".to_string(),
        disk: DiskImage {
            url_base: "http://host/images".to_string(),
            path: "disks/stretch.img".to_string(),
            initrd: None,
            sshkey: "keys/stretch.id_rsa".to_string(),
            boot: "/dev/sda".to_string(),
        },
        runner: "qemu-system-x86_64".to_string(),
        runner_extra_args: None,
        kvm: true,
        timeout: None,
    }
}

fn resolved_paths(cache: &Cache, k: &KConfig) -> Vec<String> {
    cache
        .plan(k)
        .expect("plan")
        .into_iter()
        .map(|a| a.resolved)
        .collect()
}

#[test]
fn resolve_twice_same_paths_no_fetch() {
    // Resolving a second time on the rewritten configuration derives the
    // same resolved paths, and with those paths present no download happens.
    let cache = Cache::new("/c".to_string());
    let mut k = sample_kconfig("5.10.1");
    let first = resolved_paths(&cache, &k);
    assert_eq!(first.len(), 4);

    let plan = cache.plan(&k).expect("plan");
    nixmodule::cache::apply_resolved(
        &mut k,
        plan[0].resolved.clone(),
        plan[1].resolved.clone(),
        plan[2].resolved.clone(),
        None,
        plan[3].resolved.clone(),
    );

    let second = resolved_paths(&cache, &k);
    assert_eq!(first, second);

    // Every resolved path now exists, so no artifact may be fetched.
    for _ in &second {
        assert!(!fetch_needed(true, false));
        assert!(!fetch_needed(true, true));
    }
}

#[test]
fn resolved_path_present_skips_download() {
    // Even with the raw download absent, an existing resolved path means no
    // network request.
    assert!(!fetch_needed(true, false));
    // Only a complete miss triggers a fetch.
    assert!(fetch_needed(false, false));
    assert!(!fetch_needed(false, true));
}

#[test]
fn unpack_decisions_are_explicit() {
    // A gzip-tar is unpacked; recognized-but-unimplemented formats fail
    // loudly; unrecognized names are moved as plain files.
    assert_eq!(resolve_step(false, "headers.tar.gz"), ResolveStep::UnpackGzTar);
    assert_eq!(
        resolve_step(false, "headers.tar.xz"),
        ResolveStep::UnsupportedArchive(ArchiveType::TarXz)
    );
    assert_eq!(
        resolve_step(false, "headers.tar.bz2"),
        ResolveStep::UnsupportedArchive(ArchiveType::TarBz2)
    );
    assert_eq!(resolve_step(false, "bzImage"), ResolveStep::MoveAndRestrict);
    assert_eq!(resolve_step(true, "headers.tar.gz"), ResolveStep::AlreadyResolved);
    assert_eq!(archive_type_of("a.gz"), Some(ArchiveType::TarGz));
    assert_eq!(archive_type_of("a.xz"), Some(ArchiveType::TarXz));
    assert_eq!(archive_type_of("a.bz2"), Some(ArchiveType::TarBz2));
    assert_eq!(archive_type_of("a.img"), None);
    assert_eq!(archive_type_of("plain"), None);
}

#[test]
fn boot_wait_two_phase() {
    // Port opens at 3 s, banner at 10 s, probing every 7 s: readiness is
    // observed at 14 s, never before the banner.
    let r = wait_for_boot(3, 10, 60, 7);
    assert_eq!(r, Ok(14));
    assert!(r.unwrap() >= 10);
    // An immediately ready guest is seen at the first probe.
    assert_eq!(wait_for_boot(0, 0, 60, 7), Ok(0));
}

#[test]
fn boot_wait_timeout() {
    // A banner later than the deadline is always a timeout.
    assert_eq!(wait_for_boot(3, 70, 60, 7), Err(NixModuleError::TimeoutError));
    // A banner inside the deadline whose next probe instant falls beyond it
    // is a timeout too: probes at 0 and 7 miss, and 14 exceeds 10.
    assert_eq!(wait_for_boot(0, 9, 10, 7), Err(NixModuleError::TimeoutError));
}

fn report_cells(r: &KernelReport) -> (StageStatus, StageStatus, StageStatus) {
    (r.build, r.insmod, r.test)
}

fn check_ordered(b: StageStatus, i: StageStatus, t: StageStatus) {
    if i == StageStatus::Passed {
        assert_eq!(b, StageStatus::Passed);
    }
    if t == StageStatus::Passed {
        assert_eq!(i, StageStatus::Passed);
    }
    if b == StageStatus::Failed {
        assert_eq!(i, StageStatus::Skipped);
        assert_eq!(t, StageStatus::Skipped);
    }
    if i == StageStatus::Failed {
        assert_eq!(t, StageStatus::Skipped);
    }
}

#[test]
fn stage_ordering_for_every_failure() {
    // Simulate a failure at each step of a full run: the report never marks
    // a later stage passed while an earlier one failed.
    let steps = test_steps(2, false);
    for fail_at in 0..steps.len() {
        let results: Vec<bool> = (0..steps.len()).map(|i| i != fail_at).collect();
        let outcome = test_outcome(&steps, &results);
        assert!(outcome.is_err());
        let report = classify("5.10.1".to_string(), &outcome);
        let (b, i, t) = report_cells(&report);
        check_ordered(b, i, t);
    }
    let all_ok: Vec<bool> = vec![true; steps.len()];
    let report = classify("5.10.1".to_string(), &test_outcome(&steps, &all_ok));
    assert_eq!(
        report_cells(&report),
        (StageStatus::Passed, StageStatus::Passed, StageStatus::Passed)
    );
}

#[test]
fn failure_rows_by_stage() {
    let err = |e: NixModuleError| classify("v".to_string(), &Err(e));
    assert_eq!(
        report_cells(&err(NixModuleError::BuildError)),
        (StageStatus::Failed, StageStatus::Skipped, StageStatus::Skipped)
    );
    assert_eq!(
        report_cells(&err(NixModuleError::InsmodError)),
        (StageStatus::Passed, StageStatus::Failed, StageStatus::Skipped)
    );
    assert_eq!(
        report_cells(&err(NixModuleError::TestError)),
        (StageStatus::Passed, StageStatus::Passed, StageStatus::Failed)
    );
    // Failures no stage owns leave the whole row unattempted.
    assert_eq!(
        report_cells(&err(NixModuleError::QemuError)),
        (StageStatus::Skipped, StageStatus::Skipped, StageStatus::Skipped)
    );
}

#[test]
fn exit_status_severity() {
    // One kernel failing at build, another at test: either order yields the
    // exit status of the test failure.
    let start = 0u8;
    let a = worst_exit(worst_exit(start, &NixModuleError::BuildError), &NixModuleError::TestError);
    let b = worst_exit(worst_exit(start, &NixModuleError::TestError), &NixModuleError::BuildError);
    assert_eq!(a, NixModuleError::TestError.code());
    assert_eq!(b, NixModuleError::TestError.code());
    assert_ne!(a, 0);
}

#[test]
fn kernel_filter_prefix() {
    let kernels = vec![
        sample_kconfig("5.10.1"),
        sample_kconfig("5.10.2"),
        sample_kconfig("6.1.0"),
    ];
    let picked = selected_kernels(&kernels, &Some("5.10".to_string()));
    assert_eq!(picked, vec![0usize, 1usize]);
    let all = selected_kernels(&kernels, &None);
    assert_eq!(all, vec![0usize, 1usize, 2usize]);
    let five = selected_kernels(&kernels, &Some("5".to_string()));
    assert_eq!(five, vec![0usize, 1usize]);
    let none = selected_kernels(&kernels, &Some("4.19".to_string()));
    assert!(none.is_empty());
}

#[test]
fn build_failure_end_to_end_row() {
    // A build tool that exits non-zero: row Build=Failed, Insmod=N/A,
    // Test=N/A, and a non-zero process exit code.
    let module = Module {
        name: "mymod".to_string(),
        test_script: UploadFile { local: "test.sh".to_string(), remote: "/test.sh".to_string() },
        insmod_args: String::new(),
        build_defines: None,
        test_files: Vec::new(),
    };
    let steps = test_steps(module.test_files.len(), false);
    assert_eq!(
        steps,
        vec![
            TestStep::Build,
            TestStep::UploadModule,
            TestStep::Insmod,
            TestStep::UploadScript,
            TestStep::RunTest
        ]
    );
    // The build step fails; nothing later runs.
    let outcome = step_outcome(&steps[0], false);
    assert_eq!(outcome, Err(NixModuleError::BuildError));
    let report = classify("5.10.1".to_string(), &outcome);
    assert_eq!(report.version, "5.10.1");
    assert_eq!(
        report_cells(&report),
        (StageStatus::Failed, StageStatus::Skipped, StageStatus::Skipped)
    );
    let exit = worst_exit(0, &NixModuleError::BuildError);
    assert_ne!(exit, 0);
    assert_eq!(exit, NixModuleError::BuildError.code());
}

#[test]
fn plan_layout_and_kinds() {
    let cache = Cache::new("/home/me/.cache/nixmodule".to_string());
    let k = sample_kconfig("5.10.1");
    let plan = cache.plan(&k).expect("plan");
    assert_eq!(plan.len(), 4);
    assert_eq!(plan[0].kind, ArtifactKind::Headers);
    assert_eq!(plan[0].url, "http://host/kernels/dist/headers.tar.gz");
    assert_eq!(plan[0].download, "/home/me/.cache/nixmodule/downloads/headers.tar.gz");
    assert_eq!(plan[0].resolved, "/home/me/.cache/nixmodule/cache/5.10.1/headers");
    assert_eq!(plan[1].kind, ArtifactKind::Kernel);
    assert_eq!(plan[1].resolved, "/home/me/.cache/nixmodule/cache/5.10.1/bzImage");
    assert_eq!(plan[2].kind, ArtifactKind::Disk);
    assert_eq!(plan[2].resolved, "/home/me/.cache/nixmodule/cache/images/stretch.img");
    assert_eq!(plan[3].kind, ArtifactKind::SshKey);
    assert_eq!(plan[3].resolved, "/home/me/.cache/nixmodule/cache/images/stretch.id_rsa");
}

#[test]
fn plan_with_initrd() {
    let cache = Cache::new("/c".to_string());
    let mut k = sample_kconfig("6.1.0");
    k.disk.initrd = Some("boot/initrd.img".to_string());
    let plan = cache.plan(&k).expect("plan");
    assert_eq!(plan.len(), 5);
    assert_eq!(plan[3].kind, ArtifactKind::Initrd);
    assert_eq!(plan[3].url, "http://host/images/boot/initrd.img");
    assert_eq!(plan[3].resolved, "/c/cache/images/initrd.img");
    assert_eq!(plan[4].kind, ArtifactKind::SshKey);
}
