//! Build and deployment tasks: each task is the program invocation that the
//! task runner executes on the developer machine, computed here and run by
//! the caller in order, stopping at the first failure.

use vstd::prelude::*;
use vstd::string::*;
use crate::text::{decimal, decimal_string};

verus! {

/// The remote Linux host that builds and runs the router.
pub const SSH_HOST: &'static str = "root@YOUR_LINUX_HOST";

/// The private key used for every ssh connection.
pub const SSH_KEY: &'static str = "~/.ssh/id_rsa";

/// The local source tree that is synchronised.
pub const LOCAL_DIR: &'static str = ".";

/// Where the source tree lives on the remote host.
pub const REMOTE_DIR: &'static str = "/root/pshred-router";

/// Shell script that installs the toolchain on a fresh remote host.
pub const SETUP_SCRIPT: &'static str = r#"
        set -e
        curl --proto '=https' --tlsv1.2 -sSf https://sh.rustup.rs | sh -s -- -y
        source ~/.cargo/env
        rustup install nightly
        rustup component add rust-src --toolchain nightly
        cargo install bpf-linker
        apt-get update && apt-get install -y llvm clang
        echo "Setup complete!"
    "#;

/// The views of a sequence of owned strings.
pub open spec fn strings_view(v: Seq<String>) -> Seq<Seq<char>> {
    v.map_values(|s: String| s@)
}

/// The views of a sequence of string slices.
pub open spec fn strs_view(v: Seq<&str>) -> Seq<Seq<char>> {
    v.map_values(|s: &str| s@)
}

/// A program and its argument list.
pub struct Invocation {
    pub program: String,
    pub args: Vec<String>,
}

impl View for Invocation {
    type V = (Seq<char>, Seq<Seq<char>>);

    open spec fn view(&self) -> (Seq<char>, Seq<Seq<char>>) {
        (self.program@, strings_view(self.args@))
    }
}

/// One step of a task: an optional progress notice printed first, then the invocation.
pub struct Task {
    pub notice: Option<String>,
    pub invocation: Invocation,
}

impl View for Task {
    type V = (Option<Seq<char>>, (Seq<char>, Seq<Seq<char>>));

    open spec fn view(&self) -> (Option<Seq<char>>, (Seq<char>, Seq<Seq<char>>)) {
        (
            match self.notice {
                Some(n) => Some(n@),
                None => None,
            },
            self.invocation@,
        )
    }
}

/// The views of a sequence of tasks.
pub open spec fn tasks_view(v: Seq<Task>) -> Seq<(Option<Seq<char>>, (Seq<char>, Seq<Seq<char>>))> {
    v.map_values(|t: Task| t@)
}

/// The task runner's subcommands.
pub enum Commands {
    Setup,
    Sync,
    Build,
    Run { interface: String, port: u16, skb_mode: bool },
    Ssh,
    Check,
}

/// `ssh` to the remote host with the configured key, then `args`.
pub open spec fn ssh_invocation(args: Seq<Seq<char>>) -> (Seq<char>, Seq<Seq<char>>) {
    ("ssh"@, seq!["-i"@, SSH_KEY@, SSH_HOST@] + args)
}

/// Runs the shell command `cmd` on the remote host.
pub open spec fn remote_shell(cmd: Seq<char>) -> (Seq<char>, Seq<Seq<char>>) {
    ssh_invocation(seq!["bash"@, "-c"@, cmd])
}

/// The shell command `rest`, run in the remote tree with the Rust toolchain on the path.
pub open spec fn in_remote_tree(rest: Seq<char>) -> Seq<char> {
    "cd "@ + REMOTE_DIR@ + " && source ~/.cargo/env && "@ + rest
}

/// The setup task.
pub open spec fn setup_task() -> (Option<Seq<char>>, (Seq<char>, Seq<Seq<char>>)) {
    (Some("Setting up remote environment..."@), remote_shell(SETUP_SCRIPT@))
}

/// The synchronisation task: `rsync` of the local tree to the remote tree.
pub open spec fn sync_task() -> (Option<Seq<char>>, (Seq<char>, Seq<Seq<char>>)) {
    (
        Some("Syncing code to remote..."@),
        (
            "rsync"@,
            seq![
                "-avz"@,
                "--delete"@,
                "-e"@,
                "ssh -i "@ + SSH_KEY@,
                "--exclude=target"@,
                "--exclude=.git"@,
                "--exclude=*.o"@,
                "--exclude=.DS_Store"@,
                LOCAL_DIR@,
                SSH_HOST@ + ":"@ + REMOTE_DIR@,
            ],
        ),
    )
}

/// The remote release build of the loader.
pub open spec fn build_task() -> (Option<Seq<char>>, (Seq<char>, Seq<Seq<char>>)) {
    (
        Some("Building on remote..."@),
        remote_shell(in_remote_tree("cargo build --release -p pshred-loader"@)),
    )
}

/// The remote run of the loader on `interface`, filtering `port`.
pub open spec fn run_task(interface: Seq<char>, port: u16, skb_mode: bool) -> (
    Option<Seq<char>>,
    (Seq<char>, Seq<Seq<char>>),
) {
    (
        Some(
            "Running on remote (interface="@ + interface + ", port="@ + decimal(port as nat)
                + ")..."@,
        ),
        remote_shell(
            in_remote_tree(
                "RUST_LOG=info cargo run --release -p pshred-loader -- --interface "@ + interface
                    + " --port "@ + decimal(port as nat) + (if skb_mode {
                    " --skb-mode"@
                } else {
                    Seq::<char>::empty()
                }),
            ),
        ),
    )
}

/// The remote run is an ssh `bash -c` of one command that first changes into
/// the remote tree with the toolchain on the path (the same prefix the remote
/// build uses), then runs the loader on the interface and port; with SKB mode
/// the command is the same one followed by ` --skb-mode`, and the notice and
/// the rest of the invocation do not change.
pub proof fn lemma_run_command_in_remote_tree(interface: Seq<char>, port: u16)
    ensures
        ({
            let prefix = "cd "@ + REMOTE_DIR@ + " && source ~/.cargo/env && "@;
            let plain = run_task(interface, port, false);
            let skb = run_task(interface, port, true);
            &&& plain.1 == (
                "ssh"@,
                seq![
                    "-i"@,
                    SSH_KEY@,
                    SSH_HOST@,
                    "bash"@,
                    "-c"@,
                    prefix + "RUST_LOG=info cargo run --release -p pshred-loader -- --interface "@
                        + interface + " --port "@ + decimal(port as nat),
                ],
            )
            &&& skb.0 == plain.0
            &&& skb.1.0 == plain.1.0
            &&& skb.1.1 == plain.1.1.update(5, plain.1.1[5] + " --skb-mode"@)
            &&& build_task().1.1[5].subrange(0, prefix.len() as int) == prefix
            &&& plain.1.1[5].subrange(0, prefix.len() as int) == prefix
        }),
{
    let prefix = "cd "@ + REMOTE_DIR@ + " && source ~/.cargo/env && "@;
    let rest = "RUST_LOG=info cargo run --release -p pshred-loader -- --interface "@ + interface
        + " --port "@ + decimal(port as nat);
    let plain = run_task(interface, port, false);
    let skb = run_task(interface, port, true);
    assert(rest + Seq::<char>::empty() =~= rest);
    assert(in_remote_tree(rest) =~= prefix + rest);
    assert(prefix + "RUST_LOG=info cargo run --release -p pshred-loader -- --interface "@ + interface
        + " --port "@ + decimal(port as nat) =~= prefix + rest);
    assert(in_remote_tree(rest + " --skb-mode"@) =~= (prefix + rest) + " --skb-mode"@);
    assert(plain.1.1 =~= seq!["-i"@, SSH_KEY@, SSH_HOST@, "bash"@, "-c"@, prefix + rest]);
    assert(skb.1.1 =~= plain.1.1.update(5, plain.1.1[5] + " --skb-mode"@));
    let b = in_remote_tree("cargo build --release -p pshred-loader"@);
    assert(b =~= prefix + "cargo build --release -p pshred-loader"@);
    assert(build_task().1.1[5] == b);
    assert(b.subrange(0, prefix.len() as int) =~= prefix);
    assert((prefix + rest).subrange(0, prefix.len() as int) =~= prefix);
}

/// The remote workspace check.
pub open spec fn check_task() -> (Option<Seq<char>>, (Seq<char>, Seq<Seq<char>>)) {
    (
        Some("Checking on remote..."@),
        remote_shell(in_remote_tree("cargo check --workspace"@)),
    )
}

/// An interactive shell in the remote tree.
pub open spec fn interactive_invocation() -> (Seq<char>, Seq<Seq<char>>) {
    ("ssh"@, seq!["-i"@, SSH_KEY@, SSH_HOST@, "-t"@, "cd "@ + REMOTE_DIR@ + "; bash"@])
}

/// Concatenates two string slices into a new string.
fn join2(a: &str, b: &str) -> (s: String)
    ensures
        s@ == a@ + b@,
{
    let mut s = String::from_str(a);
    s.append(b);
    s
}

/// The ssh invocation that runs `args` on the remote host.
pub fn ssh_cmd(args: &[&str]) -> (inv: Invocation)
    ensures
        inv@ == ssh_invocation(strs_view(args@)),
{
    let mut full: Vec<String> = Vec::new();
    full.push(String::from_str("-i"));
    full.push(String::from_str(SSH_KEY));
    full.push(String::from_str(SSH_HOST));
    let ghost head = strings_view(full@);
    assert(head =~= seq!["-i"@, SSH_KEY@, SSH_HOST@]);
    let mut i: usize = 0;
    while i < args.len()
        invariant
            i <= args@.len(),
            full@.len() == 3 + i,
            strings_view(full@) =~= head + strs_view(args@).take(i as int),
        decreases args@.len() - i,
    {
        let arg = String::from_str(args[i]);
        assert(arg@ == strs_view(args@)[i as int]);
        let ghost before = full@;
        full.push(arg);
        assert(strings_view(full@) =~= strings_view(before).push(arg@));
        i = i + 1;
        assert(strings_view(full@) =~= head + strs_view(args@).take(i as int));
    }
    assert(strs_view(args@).take(i as int) =~= strs_view(args@));
    Invocation { program: String::from_str("ssh"), args: full }
}

/// Runs `cmd` with `bash -c` on the remote host.
fn remote_shell_cmd(cmd: &str) -> (inv: Invocation)
    ensures
        inv@ == remote_shell(cmd@),
{
    let args = ["bash", "-c", cmd];
    let inv = ssh_cmd(&args);
    assert(strs_view(args@) =~= seq!["bash"@, "-c"@, cmd@]);
    inv
}

/// The command `rest` prefixed with the change into the remote tree.
fn in_remote_tree_cmd(rest: &str) -> (s: String)
    ensures
        s@ == in_remote_tree(rest@),
{
    let mut s = String::from_str("cd ");
    s.append(REMOTE_DIR);
    s.append(" && source ~/.cargo/env && ");
    s.append(rest);
    s
}

/// Installs the toolchain on the remote host.
pub fn setup_remote() -> (t: Task)
    ensures
        t@ == setup_task(),
{
    Task {
        notice: Some(String::from_str("Setting up remote environment...")),
        invocation: remote_shell_cmd(SETUP_SCRIPT),
    }
}

/// Synchronises the local tree to the remote host.
pub fn sync_code() -> (t: Task)
    ensures
        t@ == sync_task(),
{
    let ssh = join2("ssh -i ", SSH_KEY);
    let mut dest = join2(SSH_HOST, ":");
    dest.append(REMOTE_DIR);
    let mut args: Vec<String> = Vec::new();
    args.push(String::from_str("-avz"));
    args.push(String::from_str("--delete"));
    args.push(String::from_str("-e"));
    args.push(ssh);
    args.push(String::from_str("--exclude=target"));
    args.push(String::from_str("--exclude=.git"));
    args.push(String::from_str("--exclude=*.o"));
    args.push(String::from_str("--exclude=.DS_Store"));
    args.push(String::from_str(LOCAL_DIR));
    args.push(dest);
    let t = Task {
        notice: Some(String::from_str("Syncing code to remote...")),
        invocation: Invocation { program: String::from_str("rsync"), args },
    };
    assert(t@.1.1 =~= sync_task().1.1);
    t
}

/// Builds the loader on the remote host.
pub fn build_remote() -> (t: Task)
    ensures
        t@ == build_task(),
{
    let cmd = in_remote_tree_cmd("cargo build --release -p pshred-loader");
    Task {
        notice: Some(String::from_str("Building on remote...")),
        invocation: remote_shell_cmd(cmd.as_str()),
    }
}

/// Runs the loader on the remote host.
pub fn run_remote(interface: &str, port: u16, skb_mode: bool) -> (t: Task)
    ensures
        t@ == run_task(interface@, port, skb_mode),
{
    let port_text = decimal_string(port as u64);
    let mut notice = join2("Running on remote (interface=", interface);
    notice.append(", port=");
    notice.append(port_text.as_str());
    notice.append(")...");
    let mut rest = join2(
        "RUST_LOG=info cargo run --release -p pshred-loader -- --interface ",
        interface,
    );
    rest.append(" --port ");
    rest.append(port_text.as_str());
    if skb_mode {
        rest.append(" --skb-mode");
    } else {
        assert(rest@ =~= rest@ + Seq::<char>::empty());
    }
    let cmd = in_remote_tree_cmd(rest.as_str());
    Task { notice: Some(notice), invocation: remote_shell_cmd(cmd.as_str()) }
}

/// Checks the workspace on the remote host.
pub fn check_remote() -> (t: Task)
    ensures
        t@ == check_task(),
{
    let cmd = in_remote_tree_cmd("cargo check --workspace");
    Task {
        notice: Some(String::from_str("Checking on remote...")),
        invocation: remote_shell_cmd(cmd.as_str()),
    }
}

/// An interactive ssh session in the remote tree.
pub fn ssh_interactive() -> (inv: Invocation)
    ensures
        inv@ == interactive_invocation(),
{
    let mut args: Vec<String> = Vec::new();
    args.push(String::from_str("-i"));
    args.push(String::from_str(SSH_KEY));
    args.push(String::from_str(SSH_HOST));
    args.push(String::from_str("-t"));
    let mut cd = join2("cd ", REMOTE_DIR);
    cd.append("; bash");
    args.push(cd);
    let inv = Invocation { program: String::from_str("ssh"), args };
    assert(inv@.1 =~= interactive_invocation().1);
    inv
}

/// The tasks a subcommand runs, in order.
pub fn run(command: &Commands) -> (tasks: Vec<Task>)
    ensures
        tasks_view(tasks@) == (match command {
            Commands::Setup => seq![setup_task()],
            Commands::Sync => seq![sync_task()],
            Commands::Build => seq![sync_task(), build_task()],
            Commands::Run { interface, port, skb_mode } => seq![
                sync_task(),
                build_task(),
                run_task(interface@, *port, *skb_mode),
            ],
            Commands::Ssh => seq![(None, interactive_invocation())],
            Commands::Check => seq![sync_task(), check_task()],
        }),
{
    let mut tasks: Vec<Task> = Vec::new();
    match command {
        Commands::Setup => {
            tasks.push(setup_remote());
        },
        Commands::Sync => {
            tasks.push(sync_code());
        },
        Commands::Build => {
            tasks.push(sync_code());
            tasks.push(build_remote());
        },
        Commands::Run { interface, port, skb_mode } => {
            tasks.push(sync_code());
            tasks.push(build_remote());
            tasks.push(run_remote(interface.as_str(), *port, *skb_mode));
        },
        Commands::Ssh => {
            tasks.push(Task { notice: None, invocation: ssh_interactive() });
        },
        Commands::Check => {
            tasks.push(sync_code());
            tasks.push(check_remote());
        },
    }
    assert(tasks_view(tasks@) =~= (match command {
        Commands::Setup => seq![setup_task()],
        Commands::Sync => seq![sync_task()],
        Commands::Build => seq![sync_task(), build_task()],
        Commands::Run { interface, port, skb_mode } => seq![
            sync_task(),
            build_task(),
            run_task(interface@, *port, *skb_mode),
        ],
        Commands::Ssh => seq![(None, interactive_invocation())],
        Commands::Check => seq![sync_task(), check_task()],
    }));
    tasks
}

} // verus!
