use pshred_router::xtask::{
    build_remote, check_remote, run, run_remote, setup_remote, ssh_cmd, ssh_interactive,
    sync_code, Commands, Invocation, Task, SETUP_SCRIPT,
};

fn inv(t: &Invocation) -> (String, Vec<String>) {
    (t.program.clone(), t.args.clone())
}

fn strs(v: &[&str]) -> Vec<String> {
    v.iter().map(|s| s.to_string()).collect()
}

fn notice(t: &Task) -> Option<String> {
    t.notice.clone()
}

#[test]
fn ssh_cmd_prefixes_key_and_host() {
    let i = ssh_cmd(&["echo", "hi"]);
    assert_eq!(
        inv(&i),
        ("ssh".to_string(), strs(&["-i", "~/.ssh/id_rsa", "root@YOUR_LINUX_HOST", "echo", "hi"]))
    );
}

#[test]
fn interactive_session_changes_into_the_remote_tree() {
    assert_eq!(
        inv(&ssh_interactive()),
        (
            "ssh".to_string(),
            strs(&["-i", "~/.ssh/id_rsa", "root@YOUR_LINUX_HOST", "-t", "cd /root/pshred-router; bash"])
        )
    );
}

#[test]
fn sync_uses_rsync_over_ssh() {
    let t = sync_code();
    assert_eq!(notice(&t), Some("Syncing code to remote...".to_string()));
    assert_eq!(
        inv(&t.invocation),
        (
            "rsync".to_string(),
            strs(&[
                "-avz",
                "--delete",
                "-e",
                "ssh -i ~/.ssh/id_rsa",
                "--exclude=target",
                "--exclude=.git",
                "--exclude=*.o",
                "--exclude=.DS_Store",
                ".",
                "root@YOUR_LINUX_HOST:/root/pshred-router",
            ])
        )
    );
}

#[test]
fn remote_build_and_check_commands() {
    let b = build_remote();
    assert_eq!(notice(&b), Some("Building on remote...".to_string()));
    assert_eq!(
        b.invocation.args[5],
        "cd /root/pshred-router && source ~/.cargo/env && cargo build --release -p pshred-loader"
    );
    let c = check_remote();
    assert_eq!(notice(&c), Some("Checking on remote...".to_string()));
    assert_eq!(
        inv(&c.invocation),
        (
            "ssh".to_string(),
            strs(&[
                "-i",
                "~/.ssh/id_rsa",
                "root@YOUR_LINUX_HOST",
                "bash",
                "-c",
                "cd /root/pshred-router && source ~/.cargo/env && cargo check --workspace",
            ])
        )
    );
}

#[test]
fn remote_run_passes_interface_port_and_mode() {
    let t = run_remote("eth0", 8001, false);
    assert_eq!(
        notice(&t),
        Some("Running on remote (interface=eth0, port=8001)...".to_string())
    );
    assert_eq!(
        t.invocation.args[5],
        "cd /root/pshred-router && source ~/.cargo/env && RUST_LOG=info cargo run --release -p pshred-loader -- --interface eth0 --port 8001"
    );
    let s = run_remote("lo", 9, true);
    assert!(s.invocation.args[5].ends_with("--interface lo --port 9 --skb-mode"));
}

#[test]
fn setup_runs_the_script_remotely() {
    let t = setup_remote();
    assert_eq!(notice(&t), Some("Setting up remote environment...".to_string()));
    assert_eq!(t.invocation.args[3..], strs(&["bash", "-c", SETUP_SCRIPT])[..]);
    assert!(SETUP_SCRIPT.contains("cargo install bpf-linker"));
}

#[test]
fn subcommands_run_their_steps_in_order() {
    let programs = |c: Commands| -> Vec<Option<String>> {
        run(&c).iter().map(|t| t.notice.clone()).collect()
    };
    let s = |x: &str| Some(x.to_string());
    assert_eq!(programs(Commands::Setup), vec![s("Setting up remote environment...")]);
    assert_eq!(programs(Commands::Sync), vec![s("Syncing code to remote...")]);
    assert_eq!(
        programs(Commands::Build),
        vec![s("Syncing code to remote..."), s("Building on remote...")]
    );
    assert_eq!(
        programs(Commands::Run { interface: "eth1".to_string(), port: 1, skb_mode: true }),
        vec![
            s("Syncing code to remote..."),
            s("Building on remote..."),
            s("Running on remote (interface=eth1, port=1)...")
        ]
    );
    assert_eq!(programs(Commands::Ssh), vec![None]);
    assert_eq!(
        programs(Commands::Check),
        vec![s("Syncing code to remote..."), s("Checking on remote...")]
    );
}
