use nixmodule::builder::ModuleBuilder;
use nixmodule::cache::derived_file_name;
use nixmodule::config::{DiskImage, KConfig};
use nixmodule::errors::NixModuleError;
use nixmodule::pipeline::{insmod_command, module_upload_path};
use nixmodule::qemu::{BootDecision, BootPhase, BootWaiter, Qemu};
use nixmodule::ssh::SshVersion;
use nixmodule::strutil::{str_starts_with, suffix_after_last, u64_to_string};

fn kconfig() -> KConfig {
    KConfig {
        version: "5.10.1".to_string(),
        url_base: "http://host/kernels".to_string(),
        headers: "headers.tar.gz".to_string(),
        kernel: "/c/cache/5.10.1/bzImage".to_string(),
        disk: DiskImage {
            url_base: "http://host/images".to_string(),
            path: "/c/cache/images/stretch.img".to_string(),
            initrd: None,
            sshkey: "/c/cache/images/stretch.id_rsa".to_string(),
            boot: "/dev/sda".to_string(),
        },
        runner: "qemu-system-x86_64".to_string(),
        runner_extra_args: None,
        kvm: true,
        timeout: Some(120),
    }
}

#[test]
fn error_codes() {
    assert_eq!(NixModuleError::Success.code(), 0);
    assert_eq!(NixModuleError::BadFilePath.code(), 1);
    assert_eq!(NixModuleError::QemuError.code(), 2);
    assert_eq!(NixModuleError::SshError.code(), 3);
    assert_eq!(NixModuleError::BuildError.code(), 4);
    assert_eq!(NixModuleError::InsmodError.code(), 5);
    assert_eq!(NixModuleError::TestError.code(), 6);
    assert_eq!(NixModuleError::TimeoutError.code(), 7);
    assert_eq!(NixModuleError::BuildError.label(), "BuildError");
}

#[test]
fn decimal_rendering() {
    assert_eq!(u64_to_string(0), "0");
    assert_eq!(u64_to_string(7), "7");
    assert_eq!(u64_to_string(105), "105");
    assert_eq!(u64_to_string(65535), "65535");
}

#[test]
fn string_helpers() {
    assert_eq!(suffix_after_last("a/b/c.img", '/'), "c.img");
    assert_eq!(suffix_after_last("plain", '/'), "plain");
    assert_eq!(suffix_after_last("dir/", '/'), "");
    assert!(str_starts_with("5.10.1", "5.10"));
    assert!(!str_starts_with("6.1.0", "5.10"));
    assert!(str_starts_with("anything", ""));
}

#[test]
fn derived_names_from_urls() {
    // The stable local file name comes from the URL's last path segment.
    assert_eq!(derived_file_name("http://host/a/b.tar.gz").unwrap(), "b.tar.gz");
    // A URL without a usable segment falls back to the placeholder.
    assert_eq!(derived_file_name("http://host").unwrap(), "tmp.bin");
    assert_eq!(derived_file_name("http://host/dir/").unwrap(), "tmp.bin");
    // A malformed URL is a hard failure naming the path problem.
    assert_eq!(derived_file_name("not a url"), Err(NixModuleError::BadFilePath));
}

#[test]
fn build_plan_exact() {
    let k = kconfig();
    let defines = Some(vec!["DEBUG=1".to_string(), "EXTRA=-O2".to_string()]);
    let plan = ModuleBuilder::plan("mymod", &defines, &k, "/work").expect("plan");
    assert_eq!(plan.kernel_arg, "KERNEL=headers.tar.gz");
    assert_eq!(plan.target_arg, "TARGET=mymod-5.10.1");
    assert_eq!(plan.output, "/work/mymod-5.10.1.ko");
    assert_eq!(
        plan.env,
        vec![
            ("DEBUG".to_string(), "1".to_string()),
            ("EXTRA".to_string(), "-O2".to_string())
        ]
    );
}

#[test]
fn build_plan_rejects_malformed_defines() {
    let k = kconfig();
    // No '=' at all.
    let r = ModuleBuilder::plan("m", &Some(vec!["NOVALUE".to_string()]), &k, "/w");
    assert_eq!(r.err(), Some(NixModuleError::BuildError));
    // More than one '='.
    let r = ModuleBuilder::plan("m", &Some(vec!["A=B=C".to_string()]), &k, "/w");
    assert_eq!(r.err(), Some(NixModuleError::BuildError));
}

#[test]
fn build_outcome_classification() {
    let k = kconfig();
    let plan = ModuleBuilder::plan("m", &None, &k, "/w").expect("plan");
    assert_eq!(ModuleBuilder::outcome(plan, true).unwrap(), "/w/m-5.10.1.ko");
    let plan = ModuleBuilder::plan("m", &None, &k, "/w").expect("plan");
    assert_eq!(ModuleBuilder::outcome(plan, false), Err(NixModuleError::BuildError));
}

#[test]
fn ssh_version_parsing() {
    let v = SshVersion::parse("OpenSSH_8.9p1 Ubuntu-3ubuntu0.1, OpenSSL 3.0.2").unwrap();
    assert_eq!(v.version(), (8, 9));
    assert!(v.is_legacy());
    let v = SshVersion::parse("OpenSSH_9.0p1, OpenSSL 3.0.2").unwrap();
    assert_eq!(v.version(), (9, 0));
    assert!(!v.is_legacy());
    let v = SshVersion::parse("OpenSSH_7.4").unwrap();
    assert_eq!(v.version(), (7, 4));
    assert!(v.is_legacy());
    // A major with no dotted minor parses with minor 0.
    let v = SshVersion::parse("OpenSSH_9p1").unwrap();
    assert_eq!(v.version(), (9, 0));
    // Unparseable banners are a hard error.
    assert_eq!(SshVersion::parse("dropbear v2022.83").err(), Some(NixModuleError::SshError));
    assert_eq!(SshVersion::parse("OpenSSH_vNext").err(), Some(NixModuleError::SshError));
}

#[test]
fn qemu_invocation_arguments() {
    let mut k = kconfig();
    k.runner_extra_args = Some(vec!["-cpu".to_string(), "host".to_string()]);
    k.disk.initrd = Some("/c/cache/images/initrd.img".to_string());
    let cmd = Qemu::start_invocation(&k, false, 2222);
    assert_eq!(cmd.program, "qemu-system-x86_64");
    let expect: Vec<String> = [
        "-cpu",
        "host",
        "-initrd",
        "/c/cache/images/initrd.img",
        "-enable-kvm",
        "-m",
        "512M",
        "-smp",
        "2",
        "-kernel",
        "/c/cache/5.10.1/bzImage",
        "-append",
        "console=ttyS0 root=/dev/sda earlyprintk=serial net.ifnames=0 nokaslr",
        "-drive",
        "file=/c/cache/images/stretch.img,format=raw",
        "-net",
        "user,host=10.0.2.10,hostfwd=tcp:127.0.0.1:2222-:22",
        "-net",
        "nic,model=e1000",
        "-nographic",
        "-pidfile",
        "vm.pid",
    ]
    .iter()
    .map(|s| s.to_string())
    .collect();
    assert_eq!(cmd.args, expect);
}

#[test]
fn qemu_invocation_debug_and_no_kvm() {
    let mut k = kconfig();
    k.kvm = false;
    let cmd = Qemu::start_invocation(&k, true, 1025);
    assert!(!cmd.args.contains(&"-enable-kvm".to_string()));
    assert!(cmd.args.contains(&"-s".to_string()));
    assert!(cmd
        .args
        .contains(&"user,host=10.0.2.10,hostfwd=tcp:127.0.0.1:1025-:22".to_string()));
}

#[test]
fn launch_plan_port_and_handle() {
    let k = kconfig();
    let (q, cmd, port) = Qemu::launch_plan(&k, false, true);
    assert!(port >= 1025);
    assert_eq!(q.sshport, port.to_string());
    assert_eq!(q.sshkey, "/c/cache/images/stretch.id_rsa");
    assert!(q.legacy_ssh);
    assert_eq!(cmd.program, "qemu-system-x86_64");
    assert!(cmd
        .args
        .contains(&format!("user,host=10.0.2.10,hostfwd=tcp:127.0.0.1:{}-:22", port)));
}

#[test]
fn remote_command_arguments() {
    let q = Qemu {
        sshkey: "/k/id_rsa".to_string(),
        sshport: "2222".to_string(),
        legacy_ssh: false,
    };
    let cmd = q.runcmd_invocation("insmod /tmp/m.ko");
    assert_eq!(cmd.program, "ssh");
    assert_eq!(
        cmd.args,
        vec![
            "-i".to_string(),
            "/k/id_rsa".to_string(),
            "-p".to_string(),
            "2222".to_string(),
            "-oStrictHostKeyChecking=no".to_string(),
            "root@localhost".to_string(),
            "insmod /tmp/m.ko".to_string()
        ]
    );
    let it = q.interact_invocation();
    assert_eq!(it.program, "ssh");
    assert_eq!(it.args.len(), 6);
}

#[test]
fn transfer_compat_flag_follows_client_age() {
    let new_client = Qemu {
        sshkey: "/k".to_string(),
        sshport: "22".to_string(),
        legacy_ssh: false,
    };
    let cmd = new_client.transfer_invocation("a.ko", "/tmp/a.ko");
    assert_eq!(cmd.program, "scp");
    assert_eq!(cmd.args[0], "-O");
    assert_eq!(cmd.args.last().unwrap(), "root@localhost:/tmp/a.ko");

    let old_client = Qemu { legacy_ssh: true, ..new_client };
    let cmd = old_client.transfer_invocation("a.ko", "/tmp/a.ko");
    assert_ne!(cmd.args[0], "-O");
    assert_eq!(cmd.args[0], "-i");
}

#[test]
fn boot_waiter_steps() {
    let mut w = BootWaiter::new(60, 7);
    assert_eq!(w.phase, BootPhase::Network);
    // Port closed early on: retry.
    assert_eq!(w.step(false, 0), BootDecision::Retry);
    // Port open: advance to the service phase without sleeping.
    assert_eq!(w.step(true, 7), BootDecision::Advance);
    assert_eq!(w.phase, BootPhase::Service);
    // Banner not readable yet: retry.
    assert_eq!(w.step(false, 7), BootDecision::Retry);
    // No room for another attempt before the deadline.
    assert_eq!(w.step(false, 56), BootDecision::TimedOut);
    // Banner read: ready.
    assert_eq!(w.step(true, 14), BootDecision::Ready);
}

#[test]
fn upload_path_and_insmod() {
    let up = module_upload_path("/work/mymod-5.10.1.ko").unwrap();
    assert_eq!(up, "/tmp/mymod-5.10.1.ko");
    assert_eq!(module_upload_path("/work/dir/"), Err(NixModuleError::BadFilePath));
    assert_eq!(
        insmod_command("/tmp/mymod-5.10.1.ko", "debug=1"),
        "insmod /tmp/mymod-5.10.1.ko debug=1"
    );
}

#[test]
fn timeout_defaults() {
    let mut k = kconfig();
    assert_eq!(k.effective_timeout(), 120);
    k.timeout = None;
    assert_eq!(k.effective_timeout(), 60);
}

#[test]
fn ssh_version_overflow_rejected() {
    // A numeric component too large for a u64 cannot be parsed.
    let r = SshVersion::parse("OpenSSH_99999999999999999999999.1");
    assert_eq!(r.err(), Some(NixModuleError::SshError));
}

#[test]
fn cache_directories() {
    let cache = nixmodule::cache::Cache::new("/home/me/.cache/nixmodule".to_string());
    assert_eq!(cache.downloads_dir(), "/home/me/.cache/nixmodule/downloads");
    assert_eq!(cache.images_dir(), "/home/me/.cache/nixmodule/cache/images");
}

#[test]
fn boot_backoff_default() {
    assert_eq!(nixmodule::qemu::DEFAULT_BOOT_BACKOFF_SECS, 7);
}
