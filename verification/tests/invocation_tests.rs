use pixi_pty::invocation::PtyCommandInvocation;
use pixi_pty::invocation::PtyInvocation;
use pixi_pty::invocation::PtyInvocationKind;
use pixi_pty::invocation::PtyShellInvocation;
use pixi_pty::invocation::PtyTaskInvocation;

fn task_invocation(environment: Option<&str>, args: &[&str]) -> PtyInvocation {
    PtyInvocation {
        cwd: "/ws".to_string(),
        manifest: "/ws/pixi.toml".to_string(),
        kind: PtyInvocationKind::Task(PtyTaskInvocation {
            task: "build".to_string(),
            environment: environment.map(|e| e.to_string()),
            args: args.iter().map(|a| a.to_string()).collect(),
        }),
    }
}

#[test]
fn task_argv_mapping() {
    let invocation = task_invocation(Some("dev"), &["--release"]);
    let argv = invocation.argv("run-binary");
    assert_eq!(
        argv,
        vec![
            "run-binary".to_string(),
            "run".to_string(),
            "--manifest-path".to_string(),
            "/ws/pixi.toml".to_string(),
            "--environment".to_string(),
            "dev".to_string(),
            "build".to_string(),
            "--release".to_string(),
        ]
    );
}

#[test]
fn task_argv_without_environment() {
    let invocation = task_invocation(None, &[]);
    let argv = invocation.argv("pixi");
    assert_eq!(
        argv,
        vec![
            "pixi".to_string(),
            "run".to_string(),
            "--manifest-path".to_string(),
            "/ws/pixi.toml".to_string(),
            "build".to_string(),
        ]
    );
}

#[test]
fn shell_argv_mapping() {
    let invocation = PtyInvocation {
        cwd: "/ws".to_string(),
        manifest: "/ws/pixi.toml".to_string(),
        kind: PtyInvocationKind::Shell(PtyShellInvocation {
            environment: "default".to_string(),
        }),
    };
    let argv = invocation.argv("pixi");
    assert_eq!(
        argv,
        vec![
            "pixi".to_string(),
            "shell".to_string(),
            "--manifest-path".to_string(),
            "/ws/pixi.toml".to_string(),
            "--environment".to_string(),
            "default".to_string(),
        ]
    );
}

#[test]
fn command_argv_mapping() {
    let invocation = PtyInvocation {
        cwd: "/ws".to_string(),
        manifest: "/ws/pixi.toml".to_string(),
        kind: PtyInvocationKind::Command(PtyCommandInvocation {
            command: "python -V".to_string(),
            environment: "dev".to_string(),
        }),
    };
    let argv = invocation.argv("pixi");
    assert_eq!(
        argv,
        vec![
            "pixi".to_string(),
            "run".to_string(),
            "--manifest-path".to_string(),
            "/ws/pixi.toml".to_string(),
            "--environment".to_string(),
            "dev".to_string(),
            "python -V".to_string(),
        ]
    );
}

#[test]
fn argv_is_stable_for_equal_inputs() {
    let a = task_invocation(Some("dev"), &["--release", "-v"]);
    let b = task_invocation(Some("dev"), &["--release", "-v"]);
    assert_eq!(a.argv("pixi"), b.argv("pixi"));
    assert_eq!(a.argv("pixi"), a.clone().argv("pixi"));
}
