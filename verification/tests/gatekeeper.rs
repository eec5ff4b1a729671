use athanor::gatekeeper::{
    bwrap_command_for, first_kernel,
    build_bwrap_command, build_cloud_hypervisor_command, build_crosvm_command, candidates,
    check_policy_inode, check_trusted_inode, memory_mb, parse_mem_arg, proc_fd_path,
    target_parts, Inode, InodeError, IsolationBoundary, MemArgError, TargetError,
    SECCOMP_POLICY_FILE,
};

#[test]
fn test_bwrap_command_unshares_network_and_executes_from_fd() {
    let cmd = build_bwrap_command(7, "app-binary");
    let args = cmd.args.clone();
    assert_eq!(cmd.program, "bwrap");
    assert!(args.contains(&"--unshare-all".to_string()), "Compartment must unshare every namespace");
    assert!(!args.contains(&"--share-net".to_string()), "Compartment must not share the network");
    let data = args.iter().position(|a| a == "--ro-bind-data").expect("executable copied from fd");
    assert_eq!(args[data + 1], "7");
    assert_eq!(args[data + 2], "/app/app-binary");
    assert_eq!(args[args.len() - 2..], ["--".to_string(), "/app/app-binary".to_string()]);
}

#[test]
fn test_crosvm_command_memory_and_balloon_args() {
    let cmd = build_crosvm_command("512", SECCOMP_POLICY_FILE, "/tmp", "/proc/self/fd/3", "/boot/vmlinuz");
    let args = cmd.args.clone();
    assert_eq!(cmd.program, "crosvm");
    assert!(args.contains(&"--mem".to_string()), "Command must include --mem");
    let mem_val = parse_mem_arg(&args).unwrap_or_default();
    assert_eq!(mem_val, "512", "Default memory limit must be 512MB");
    assert!(args.contains(&"--balloon".to_string()), "Command must include --balloon");
    assert_eq!(args[9], "/tmp:/app:type=fs");
}

#[test]
fn the_cloud_hypervisor_command_sizes_its_memory() {
    let cmd = build_cloud_hypervisor_command("256", "/proc/self/fd/4", "/boot/vmlinuz");
    assert_eq!(cmd.program, "cloud-hypervisor");
    assert_eq!(cmd.args[3], "size=256M");
    assert!(cmd.args[9].starts_with("init=/proc/self/fd/4 "));
}

#[test]
fn a_missing_mem_flag_or_value_is_an_error() {
    assert_eq!(parse_mem_arg(&["run".to_string()]), Err(MemArgError::Missing));
    assert_eq!(parse_mem_arg(&["--mem".to_string()]), Err(MemArgError::NoValue));
    assert_eq!(parse_mem_arg(&["--mem".to_string(), "1".to_string(), "--mem".to_string(), "2".to_string()]), Ok("1".to_string()));
}

#[test]
fn only_root_or_the_owner_and_no_group_or_other_write_is_trusted() {
    assert_eq!(check_trusted_inode(0, 0o100644, 0), Ok(()));
    assert_eq!(check_trusted_inode(1000, 0o100644, 1000), Ok(()));
    assert_eq!(check_trusted_inode(65534, 0o100644, 0), Err(InodeError::OwnedBy(65534)));
    assert_eq!(check_trusted_inode(0, 0o100666, 0), Err(InodeError::Writable(0o666)));
    assert_eq!(check_trusted_inode(0, 0o40777, 0), Err(InodeError::Writable(0o777)));
    let link = Inode { is_file: false, is_dir: false, uid: 0, mode: 0o120777 };
    assert_eq!(check_policy_inode(true, link, 0), Err(InodeError::NotAFile));
    let dir = Inode { is_file: false, is_dir: true, uid: 0, mode: 0o40755 };
    assert_eq!(check_policy_inode(false, dir, 0), Ok(()));
}

#[test]
fn the_boundaries_are_tried_strongest_first() {
    let with_kernel = candidates("512", "/opt/app", 3, "tool", Some("/boot/vmlinuz"));
    let order: Vec<IsolationBoundary> = with_kernel.iter().map(|(b, _)| *b).collect();
    assert_eq!(order, [IsolationBoundary::Crosvm, IsolationBoundary::CloudHypervisor, IsolationBoundary::Bubblewrap]);
    let without = candidates("512", "/opt/app", 3, "tool", None);
    assert_eq!(without.len(), 1);
    assert_eq!(without[0].0, IsolationBoundary::Bubblewrap);
    assert_eq!(IsolationBoundary::Bubblewrap.description(), "bubblewrap compartment (network unshared)");
    assert_eq!(proc_fd_path(12), "/proc/self/fd/12");
    assert_eq!(memory_mb(None), "512");
    assert_eq!(target_parts("/opt/app/tool"), Ok(("/opt/app".into(), "tool".into())));
    assert_eq!(target_parts("/tool"), Err(TargetError::RootParent));
}

#[test]
fn the_first_present_kernel_in_order_of_preference_is_booted() {
    assert_eq!(first_kernel(&[false, true, true]), Some("/boot/vmlinuz"));
    assert_eq!(first_kernel(&[true, true, true]), Some("/boot/vmlinuz-athanor"));
    assert_eq!(first_kernel(&[false, false, true]), Some("/boot/vmlinuz-linux"));
    assert_eq!(first_kernel(&[false, false, false]), None);
}

#[test]
fn each_present_secret_is_hidden_and_an_absent_one_is_not_named() {
    let cmd = bwrap_command_for(7, "app-binary", &[true, false, true]);
    let tmpfs: Vec<&str> = cmd.args.windows(2).filter(|pair| pair[0] == "--tmpfs").map(|pair| pair[1].as_str()).collect();
    assert_eq!(tmpfs, ["/etc/pki/secureboot", "/run/secrets"]);
    assert!(bwrap_command_for(7, "app-binary", &[false, false, false]).args.iter().all(|arg| arg != "--tmpfs"));
}
