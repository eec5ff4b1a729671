//! The Gatekeeper's isolation boundaries: which one an application is launched inside, the
//! command line of each, and the checks on the seccomp policy's inodes. Opening, stat'ing
//! and spawning are the caller's.

use vstd::prelude::*;

use crate::chars::{chars_of, i64_decimal, push_str, signed_decimal, string_views};
use crate::paths::{file_name, file_name_of, parent, parent_of, path_exists};

verus! {

/// The strict seccomp policy of the crosvm VMM, installed read-only under `/usr`.
pub const SECCOMP_POLICY_FILE: &'static str = "/usr/share/athanor-gatekeeper-rs/crosvm/strict.policy";

/// Guest kernel images usable for a MicroVM, in order of preference.
pub const GUEST_KERNELS: [&'static str; 3] = [
    "/boot/vmlinuz-athanor",
    "/boot/vmlinuz",
    "/boot/vmlinuz-linux",
];

/// Host paths hidden from a Bubblewrap compartment behind an empty tmpfs.
pub const MASKED_PATHS: [&'static str; 3] = ["/etc/pki/secureboot", "/etc/pki/uki", "/run/secrets"];

/// The memory of a MicroVM when the environment names none, in MiB.
pub const DEFAULT_MEM_MB: &'static str = "512";

/// What follows `init=<executable>` on the kernel command line of a crosvm guest.
pub const CROSVM_PARAMS: &'static str = " root=/dev/vda rw console=ttyS0 quiet sysctl.kernel.unprivileged_bpf_disabled=1 sysctl.vm.unprivileged_userfaultfd=0 kernel.yama.ptrace_scope=3";

/// What follows `init=<executable>` on the kernel command line of a cloud-hypervisor guest.
pub const CLOUD_HYPERVISOR_CMDLINE: &'static str = " console=ttyS0 quiet sysctl.kernel.unprivileged_bpf_disabled=1 sysctl.vm.unprivileged_userfaultfd=0 kernel.yama.ptrace_scope=3";

/// The isolation boundary an approved application was launched inside.
#[derive(Debug, Clone, Copy, PartialEq, Eq, Structural)]
pub enum IsolationBoundary {
    /// Hardware-isolated MicroVM run by crosvm.
    Crosvm,
    /// Hardware-isolated MicroVM run by cloud-hypervisor.
    CloudHypervisor,
    /// Bubblewrap compartment with every namespace unshared, network included.
    Bubblewrap,
}

impl IsolationBoundary {
    /// How the boundary is named in messages.
    pub fn description(&self) -> (s: String)
        ensures
            s@ == match self {
                IsolationBoundary::Crosvm => "crosvm MicroVM"@,
                IsolationBoundary::CloudHypervisor => "cloud-hypervisor MicroVM"@,
                IsolationBoundary::Bubblewrap => "bubblewrap compartment (network unshared)"@,
            },
    {
        match self {
            IsolationBoundary::Crosvm => "crosvm MicroVM".to_owned(),
            IsolationBoundary::CloudHypervisor => "cloud-hypervisor MicroVM".to_owned(),
            IsolationBoundary::Bubblewrap => "bubblewrap compartment (network unshared)".to_owned(),
        }
    }
}

/// A program and its arguments.
#[derive(Debug, Clone, PartialEq, Eq)]
pub struct CommandLine {
    pub program: String,
    pub args: Vec<String>,
}

fn push_arg(args: &mut Vec<String>, a: &str)
    ensures
        string_views(final(args)@) == string_views(old(args)@).push(a@),
{
    let ghost before = args@;
    args.push(a.to_owned());
    assert(string_views(args@) =~= string_views(before).push(a@));
}

fn push_owned(args: &mut Vec<String>, a: String)
    ensures
        string_views(final(args)@) == string_views(old(args)@).push(a@),
{
    let ghost before = args@;
    let ghost v = a@;
    args.push(a);
    assert(string_views(args@) =~= string_views(before).push(v));
}

/// Where an executable named `app_name` lands in a compartment: `/app` joined with it.
pub open spec fn app_dest_spec(app_name: Seq<char>) -> Seq<char> {
    if app_name.len() > 0 && app_name[0] == '/' {
        app_name
    } else {
        "/app/"@ + app_name
    }
}

/// `--tmpfs <path>` for each masked path that `present` marks.
pub open spec fn masks(paths: Seq<Seq<char>>, present: Seq<bool>) -> Seq<Seq<char>>
    decreases paths.len(),
{
    if paths.len() == 0 || present.len() == 0 {
        Seq::empty()
    } else {
        let rest = masks(paths.drop_last(), present.drop_last());
        if present.last() {
            rest + seq!["--tmpfs"@, paths.last()]
        } else {
            rest
        }
    }
}

/// The arguments of bwrap for the executable copied from descriptor `fd`, with the masked
/// paths that `present` marks.
pub open spec fn bwrap_args(fd: i32, app_name: Seq<char>, present: Seq<bool>) -> Seq<Seq<char>> {
    let dest = app_dest_spec(app_name);
    seq![
        "--unshare-all"@, "--ro-bind"@, "/usr"@, "/usr"@, "--ro-bind"@, "/lib"@, "/lib"@,
        "--ro-bind"@, "/lib64"@, "/lib64"@, "--ro-bind"@, "/etc"@, "/etc"@,
    ] + masks(seq!["/etc/pki/secureboot"@, "/etc/pki/uki"@, "/run/secrets"@], present) + seq![
        "--proc"@, "/proc"@, "--dev"@, "/dev"@, "--dir"@, "/tmp"@, "--perms"@, "0555"@,
        "--ro-bind-data"@, signed_decimal(fd as int), dest, "--"@, dest,
    ]
}

/// Where the executable lands in the compartment.
pub fn app_dest(app_name: &str) -> (dest: String)
    ensures
        dest@ == app_dest_spec(app_name@),
{
    let v = chars_of(app_name);
    if v.len() > 0 && v[0] == '/' {
        app_name.to_owned()
    } else {
        let mut dest = "/app/".to_owned();
        push_str(&mut dest, app_name);
        dest
    }
}

/// The Bubblewrap compartment command, given which of `MASKED_PATHS` are present on the
/// host (`present`, in their order). Every namespace is unshared, network included; each
/// present masked path is hidden behind an empty tmpfs; the executable is copied in from
/// `exec_fd`, never re-resolved by path.
pub fn bwrap_command_for(exec_fd: i32, app_name: &str, present: &[bool]) -> (cmd: CommandLine)
    requires
        present@.len() == 3,
    ensures
        cmd.program@ == "bwrap"@,
        string_views(cmd.args@) == bwrap_args(exec_fd, app_name@, present@),
{
    let dest = app_dest(app_name);
    let mut args: Vec<String> = Vec::new();
    push_arg(&mut args, "--unshare-all");
    push_arg(&mut args, "--ro-bind");
    push_arg(&mut args, "/usr");
    push_arg(&mut args, "/usr");
    push_arg(&mut args, "--ro-bind");
    push_arg(&mut args, "/lib");
    push_arg(&mut args, "/lib");
    push_arg(&mut args, "--ro-bind");
    push_arg(&mut args, "/lib64");
    push_arg(&mut args, "/lib64");
    push_arg(&mut args, "--ro-bind");
    push_arg(&mut args, "/etc");
    push_arg(&mut args, "/etc");
    let ghost head = string_views(args@);
    let masked = MASKED_PATHS;
    let ghost paths = seq!["/etc/pki/secureboot"@, "/etc/pki/uki"@, "/run/secrets"@];
    assert(masked@.map_values(|p: &str| p@) =~= paths);
    let mut i: usize = 0;
    while i < 3
        invariant
            i <= 3,
            present@.len() == 3,
            masked@.map_values(|p: &str| p@) == paths,
            string_views(args@) == head + masks(paths.take(i as int), present@.take(i as int)),
        decreases 3 - i,
    {
        proof {
            assert(paths.take(i as int + 1).drop_last() == paths.take(i as int));
            assert(present@.take(i as int + 1).drop_last() == present@.take(i as int));
            assert(masked@[i as int]@ == paths[i as int]);
        }
        if present[i] {
            push_arg(&mut args, "--tmpfs");
            push_arg(&mut args, masked[i]);
        }
        i = i + 1;
    }
    assert(paths.take(3) == paths);
    assert(present@.take(3) == present@);
    push_arg(&mut args, "--proc");
    push_arg(&mut args, "/proc");
    push_arg(&mut args, "--dev");
    push_arg(&mut args, "/dev");
    push_arg(&mut args, "--dir");
    push_arg(&mut args, "/tmp");
    push_arg(&mut args, "--perms");
    push_arg(&mut args, "0555");
    push_arg(&mut args, "--ro-bind-data");
    push_owned(&mut args, i64_decimal(exec_fd as i64));
    push_owned(&mut args, dest.clone());
    push_arg(&mut args, "--");
    push_owned(&mut args, dest);
    assert(string_views(args@) =~= bwrap_args(exec_fd, app_name@, present@));
    CommandLine { program: "bwrap".to_owned(), args }
}

/// The Bubblewrap compartment command for the host as it is now: each of `MASKED_PATHS` is
/// asked, in order, whether it exists, and the answers go to `bwrap_command_for`. Which are
/// present is the disk's affair.
pub fn build_bwrap_command(exec_fd: i32, app_name: &str) -> (cmd: CommandLine)
    ensures
        cmd.program@ == "bwrap"@,
        exists|present: Seq<bool>|
            present.len() == 3 && string_views(cmd.args@) == bwrap_args(exec_fd, app_name@, present),
{
    let masked = MASKED_PATHS;
    let mut present: Vec<bool> = Vec::new();
    let mut i: usize = 0;
    while i < 3
        invariant
            i <= 3,
            present@.len() == i,
        decreases 3 - i,
    {
        present.push(path_exists(masked[i]));
        i = i + 1;
    }
    bwrap_command_for(exec_fd, app_name, present.as_slice())
}

/// The arguments of crosvm.
pub open spec fn crosvm_args(
    mem_mb: Seq<char>,
    seccomp_policy: Seq<char>,
    parent: Seq<char>,
    proc_fd_path: Seq<char>,
    guest_kernel: Seq<char>,
) -> Seq<Seq<char>> {
    seq![
        "run"@, "--cpus"@, "2"@, "--mem"@, mem_mb, "--balloon"@, "--seccomp-policy"@,
        seccomp_policy, "--rw-shared-dir"@, parent + ":/app:type=fs"@, "--params"@, "init="@
            + proc_fd_path + CROSVM_PARAMS@, guest_kernel,
    ]
}

/// The crosvm MicroVM command, with its memory limit and dynamic ballooning.
pub fn build_crosvm_command(
    mem_mb: &str,
    seccomp_policy: &str,
    parent: &str,
    proc_fd_path: &str,
    guest_kernel: &str,
) -> (cmd: CommandLine)
    ensures
        cmd.program@ == "crosvm"@,
        string_views(cmd.args@) == crosvm_args(mem_mb@, seccomp_policy@, parent@, proc_fd_path@, guest_kernel@),
{
    let mut args: Vec<String> = Vec::new();
    push_arg(&mut args, "run");
    push_arg(&mut args, "--cpus");
    push_arg(&mut args, "2");
    push_arg(&mut args, "--mem");
    push_arg(&mut args, mem_mb);
    push_arg(&mut args, "--balloon");
    push_arg(&mut args, "--seccomp-policy");
    push_arg(&mut args, seccomp_policy);
    push_arg(&mut args, "--rw-shared-dir");
    let mut shared = parent.to_owned();
    push_str(&mut shared, ":/app:type=fs");
    push_owned(&mut args, shared);
    push_arg(&mut args, "--params");
    let mut params = "init=".to_owned();
    push_str(&mut params, proc_fd_path);
    push_str(&mut params, CROSVM_PARAMS);
    push_owned(&mut args, params);
    push_arg(&mut args, guest_kernel);
    assert(string_views(args@) =~= crosvm_args(mem_mb@, seccomp_policy@, parent@, proc_fd_path@, guest_kernel@));
    CommandLine { program: "crosvm".to_owned(), args }
}

/// The arguments of cloud-hypervisor.
pub open spec fn cloud_hypervisor_args(mem_mb: Seq<char>, proc_fd_path: Seq<char>, guest_kernel: Seq<char>) -> Seq<Seq<char>> {
    seq![
        "--cpus"@, "boot=2"@, "--memory"@, "size="@ + mem_mb + "M"@, "--seccomp"@, "true"@,
        "--kernel"@, guest_kernel, "--cmdline"@, "init="@ + proc_fd_path + CLOUD_HYPERVISOR_CMDLINE@,
    ]
}

/// The cloud-hypervisor MicroVM command.
pub fn build_cloud_hypervisor_command(mem_mb: &str, proc_fd_path: &str, guest_kernel: &str) -> (cmd: CommandLine)
    ensures
        cmd.program@ == "cloud-hypervisor"@,
        string_views(cmd.args@) == cloud_hypervisor_args(mem_mb@, proc_fd_path@, guest_kernel@),
{
    let mut args: Vec<String> = Vec::new();
    push_arg(&mut args, "--cpus");
    push_arg(&mut args, "boot=2");
    push_arg(&mut args, "--memory");
    let mut size = "size=".to_owned();
    push_str(&mut size, mem_mb);
    push_str(&mut size, "M");
    push_owned(&mut args, size);
    push_arg(&mut args, "--seccomp");
    push_arg(&mut args, "true");
    push_arg(&mut args, "--kernel");
    push_arg(&mut args, guest_kernel);
    push_arg(&mut args, "--cmdline");
    let mut line = "init=".to_owned();
    push_str(&mut line, proc_fd_path);
    push_str(&mut line, CLOUD_HYPERVISOR_CMDLINE);
    push_owned(&mut args, line);
    assert(string_views(args@) =~= cloud_hypervisor_args(mem_mb@, proc_fd_path@, guest_kernel@));
    CommandLine { program: "cloud-hypervisor".to_owned(), args }
}

/// Why `--mem` cannot be read from a command line.
#[derive(Debug, Clone, Copy, PartialEq, Eq, Structural)]
pub enum MemArgError {
    /// No `--mem` argument.
    Missing,
    /// `--mem` is the last argument.
    NoValue,
}

/// The value after the first `--mem` of a crosvm command line.
pub open spec fn mem_arg_spec(args: Seq<Seq<char>>) -> Result<Seq<char>, MemArgError> {
    if exists|i: int| 0 <= i < args.len() && args[i] == "--mem"@ {
        let i = choose|i: int|
            0 <= i < args.len() && args[i] == "--mem"@ && forall|j: int|
                0 <= j < i ==> args[j] != "--mem"@;
        if i + 1 < args.len() {
            Ok(args[i + 1])
        } else {
            Err(MemArgError::NoValue)
        }
    } else {
        Err(MemArgError::Missing)
    }
}

/// The value after the first `--mem` of a crosvm command line.
pub fn parse_mem_arg(args: &[String]) -> (r: Result<String, MemArgError>)
    ensures
        match mem_arg_spec(string_views(args@)) {
            Ok(v) => r matches Ok(s) && s@ == v,
            Err(e) => r == Err::<String, MemArgError>(e),
        },
{
    let ghost a = string_views(args@);
    let flag = "--mem".to_owned();
    let mut i: usize = 0;
    while i < args.len()
        invariant
            i <= args@.len(),
            a == string_views(args@),
            flag@ == "--mem"@,
            forall|j: int| 0 <= j < i ==> a[j] != "--mem"@,
        decreases args.len() - i,
    {
        if args[i].eq(&flag) {
            proof {
                assert(a[i as int] == "--mem"@);
                let c = choose|k: int|
                    0 <= k < a.len() && a[k] == "--mem"@ && forall|j: int|
                        0 <= j < k ==> a[j] != "--mem"@;
                if c < i {
                    assert(a[c] != "--mem"@);
                } else if c > i {
                    assert(a[i as int] != "--mem"@);
                }
            }
            if i + 1 < args.len() {
                return Ok(args[i + 1].clone());
            } else {
                return Err(MemArgError::NoValue);
            }
        }
        i = i + 1;
    }
    Err(MemArgError::Missing)
}

/// Why an inode on the way to the seccomp policy is not trusted.
#[derive(Debug, Clone, Copy, PartialEq, Eq, Structural)]
pub enum InodeError {
    /// The policy itself is not a regular file (a symlink, say).
    NotAFile,
    /// A component above the policy is not a directory.
    NotADirectory,
    /// Owned by neither root nor the trusted owner: the uid.
    OwnedBy(u32),
    /// Writable by group or others: the permission bits.
    Writable(u32),
}

/// An inode can only have been written by a trusted principal: it is owned by root or by
/// `owner_uid`, and not writable by group or others.
pub open spec fn trusted_spec(uid: u32, mode: u32, owner_uid: u32) -> Result<(), InodeError> {
    if uid != 0 && uid != owner_uid {
        Err(InodeError::OwnedBy(uid))
    } else if mode & 0o022u32 != 0 {
        Err(InodeError::Writable(mode & 0o7777u32))
    } else {
        Ok(())
    }
}

pub fn check_trusted_inode(uid: u32, mode: u32, owner_uid: u32) -> (r: Result<(), InodeError>)
    ensures
        r == trusted_spec(uid, mode, owner_uid),
{
    if uid != 0 && uid != owner_uid {
        return Err(InodeError::OwnedBy(uid));
    }
    if mode & 0o022u32 != 0 {
        return Err(InodeError::Writable(mode & 0o7777u32));
    }
    Ok(())
}

/// One inode on the way to the policy, as `symlink_metadata` describes it.
#[derive(Debug, Clone, Copy, PartialEq, Eq, Structural)]
pub struct Inode {
    pub is_file: bool,
    pub is_dir: bool,
    pub uid: u32,
    pub mode: u32,
}

/// The policy file itself must be a regular file, every directory above it a directory,
/// and each of them trusted.
pub open spec fn policy_inode_spec(policy: bool, inode: Inode, owner_uid: u32) -> Result<(), InodeError> {
    if policy && !inode.is_file {
        Err(InodeError::NotAFile)
    } else if !policy && !inode.is_dir {
        Err(InodeError::NotADirectory)
    } else {
        trusted_spec(inode.uid, inode.mode, owner_uid)
    }
}

/// Checks the policy file (`policy`) or a directory above it.
pub fn check_policy_inode(policy: bool, inode: Inode, owner_uid: u32) -> (r: Result<(), InodeError>)
    ensures
        r == policy_inode_spec(policy, inode, owner_uid),
{
    if policy && !inode.is_file {
        return Err(InodeError::NotAFile);
    }
    if !policy && !inode.is_dir {
        return Err(InodeError::NotADirectory);
    }
    check_trusted_inode(inode.uid, inode.mode, owner_uid)
}

/// Why no application is launched at a path.
#[derive(Debug, Clone, Copy, PartialEq, Eq, Structural)]
pub enum TargetError {
    /// Its directory is missing or is `/`: the root file system is never shared.
    RootParent,
    /// It names no file.
    NoFileName,
}

/// The directory of the executable and its name.
pub open spec fn target_spec(target: Seq<char>) -> Result<(Seq<char>, Seq<char>), TargetError> {
    match parent_of(target) {
        Some(p) => if p == "/"@ {
            Err(TargetError::RootParent)
        } else {
            match file_name_of(target) {
                Some(name) => Ok((p, name)),
                None => Err(TargetError::NoFileName),
            }
        },
        None => Err(TargetError::RootParent),
    }
}

/// The directory of the executable at `target` and its name.
pub fn target_parts(target: &str) -> (r: Result<(String, String), TargetError>)
    ensures
        match target_spec(target@) {
            Ok((p, n)) => r matches Ok((rp, rn)) && rp@ == p && rn@ == n,
            Err(e) => r == Err::<(String, String), TargetError>(e),
        },
{
    let root = "/".to_owned();
    let p = match parent(target) {
        Some(p) => p,
        None => return Err(TargetError::RootParent),
    };
    let p = p.to_owned();
    if p.eq(&root) {
        return Err(TargetError::RootParent);
    }
    match file_name(target) {
        Some(name) => Ok((p, name.to_owned())),
        None => Err(TargetError::NoFileName),
    }
}

/// `/proc/self/fd/<fd>`: the path of an open descriptor.
pub fn proc_fd_path(fd: i32) -> (path: String)
    ensures
        path@ == "/proc/self/fd/"@ + signed_decimal(fd as int),
{
    let mut path = "/proc/self/fd/".to_owned();
    let n = i64_decimal(fd as i64);
    push_str(&mut path, n.as_str());
    path
}

/// The memory of a MicroVM: what the environment names, else `DEFAULT_MEM_MB`.
pub fn memory_mb(from_env: Option<&str>) -> (mem: String)
    ensures
        mem@ == match from_env {
            Some(m) => m@,
            None => DEFAULT_MEM_MB@,
        },
{
    match from_env {
        Some(m) => m.to_owned(),
        None => DEFAULT_MEM_MB.to_owned(),
    }
}

/// The boundaries to try, strongest first: the two MicroVMs when a guest kernel is there
/// (a MicroVM without one is no boundary at all), then the Bubblewrap compartment.
pub fn candidates(
    mem_mb: &str,
    parent: &str,
    fd: i32,
    app_name: &str,
    guest_kernel: Option<&str>,
) -> (c: Vec<(IsolationBoundary, CommandLine)>)
    ensures
        c@.len() == (if guest_kernel is Some {
            3int
        } else {
            1int
        }),
        guest_kernel matches Some(kernel) ==> c@[0].0 == IsolationBoundary::Crosvm && string_views(
            c@[0].1.args@,
        ) == crosvm_args(
            mem_mb@,
            SECCOMP_POLICY_FILE@,
            parent@,
            "/proc/self/fd/"@ + signed_decimal(fd as int),
            kernel@,
        ) && c@[1].0 == IsolationBoundary::CloudHypervisor && string_views(c@[1].1.args@)
            == cloud_hypervisor_args(mem_mb@, "/proc/self/fd/"@ + signed_decimal(fd as int), kernel@),
        c@.last().0 == IsolationBoundary::Bubblewrap,
        exists|present: Seq<bool>|
            present.len() == 3 && string_views(c@.last().1.args@) == bwrap_args(fd, app_name@, present),
{
    let mut c: Vec<(IsolationBoundary, CommandLine)> = Vec::new();
    if let Some(kernel) = guest_kernel {
        let fd_path = proc_fd_path(fd);
        c.push(
            (
                IsolationBoundary::Crosvm,
                build_crosvm_command(mem_mb, SECCOMP_POLICY_FILE, parent, fd_path.as_str(), kernel),
            ),
        );
        c.push(
            (
                IsolationBoundary::CloudHypervisor,
                build_cloud_hypervisor_command(mem_mb, fd_path.as_str(), kernel),
            ),
        );
    }
    c.push((IsolationBoundary::Bubblewrap, build_bwrap_command(fd, app_name)));
    c
}

/// `Path::is_file`: whether a regular file is at `path` at this moment. The answer depends
/// on the disk, so nothing is promised of it.
#[verifier::external_body]
fn path_is_file(path: &str) -> bool {
    std::path::Path::new(path).is_file()
}

/// The first of `kernels` whose flag in `present` is set, if any.
pub open spec fn first_present(kernels: Seq<&'static str>, present: Seq<bool>) -> Option<Seq<char>>
    decreases kernels.len(),
{
    if kernels.len() == 0 || present.len() == 0 {
        None
    } else if present[0] {
        Some(kernels[0]@)
    } else {
        first_present(kernels.skip(1), present.skip(1))
    }
}

/// The view of an optional string slice.
pub open spec fn opt_str_view(s: Option<&str>) -> Option<Seq<char>> {
    match s {
        Some(s) => Some(s@),
        None => None,
    }
}

/// The guest kernel to boot, given which of `GUEST_KERNELS` are files (`present`, in their
/// order): the first present in the order of preference, or none.
pub fn first_kernel(present: &[bool]) -> (k: Option<&'static str>)
    requires
        present@.len() == 3,
    ensures
        opt_str_view(k) == first_present(GUEST_KERNELS@, present@),
{
    let kernels = GUEST_KERNELS;
    let ghost all = GUEST_KERNELS@;
    let mut i: usize = 0;
    assert(all.skip(0) == all);
    assert(present@.skip(0) == present@);
    while i < 3
        invariant
            i <= 3,
            present@.len() == 3,
            kernels@ == all,
            all == GUEST_KERNELS@,
            all.len() == 3,
            first_present(all, present@) == first_present(all.skip(i as int), present@.skip(i as int)),
        decreases 3 - i,
    {
        proof {
            assert(all.skip(i as int).skip(1) == all.skip(i as int + 1));
            assert(present@.skip(i as int).skip(1) == present@.skip(i as int + 1));
        }
        if present[i] {
            return Some(kernels[i]);
        }
        i = i + 1;
    }
    None
}

/// The first of `GUEST_KERNELS` that is a file now: each is asked, in order, and the answers
/// go to `first_kernel`. Which are files is the disk's affair.
pub fn guest_kernel() -> (k: Option<&'static str>)
    ensures
        exists|present: Seq<bool>|
            present.len() == 3 && opt_str_view(k) == first_present(GUEST_KERNELS@, present),
{
    let kernels = GUEST_KERNELS;
    let mut present: Vec<bool> = Vec::new();
    let mut i: usize = 0;
    while i < 3
        invariant
            i <= 3,
            present@.len() == i,
        decreases 3 - i,
    {
        present.push(path_is_file(kernels[i]));
        i = i + 1;
    }
    first_kernel(present.as_slice())
}

/// The compartment that is always offered last unshares every namespace, network included,
/// before anything else, and runs the copy of the executable it was handed.
pub proof fn every_launch_is_isolated(
    mem_mb: Seq<char>,
    parent: Seq<char>,
    fd: i32,
    app_name: Seq<char>,
    present: Seq<bool>,
)
    ensures
        bwrap_args(fd, app_name, present)[0] == "--unshare-all"@,
        bwrap_args(fd, app_name, present).last() == app_dest_spec(app_name),
{
}

} // verus!
