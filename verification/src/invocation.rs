//! Invocation descriptors and their argument-vector mapping.
//!
//! An invocation says what a session runs: an interactive shell, a named
//! task, or a one-off command, always inside a workspace manifest. Building
//! the argument vector for the runner binary is a pure function of the
//! invocation, specified exactly by [`argv_spec`].

use vstd::prelude::*;

verus! {

/// What to run: an interactive shell inside an environment.
pub struct PtyShellInvocation {
    pub environment: String,
}

/// What to run: a named task, optionally inside an environment, with extra
/// arguments appended.
pub struct PtyTaskInvocation {
    pub task: String,
    pub environment: Option<String>,
    pub args: Vec<String>,
}

/// What to run: an arbitrary one-off command inside an environment.
pub struct PtyCommandInvocation {
    pub command: String,
    pub environment: String,
}

/// The three kinds of things a session can run.
pub enum PtyInvocationKind {
    Shell(PtyShellInvocation),
    Task(PtyTaskInvocation),
    Command(PtyCommandInvocation),
}

/// Immutable descriptor of what a session runs and where.
pub struct PtyInvocation {
    pub cwd: String,
    pub manifest: String,
    pub kind: PtyInvocationKind,
}

/// Mathematical image of a [`PtyInvocationKind`].
#[verifier::ext_equal]
#[allow(inconsistent_fields)]
pub enum InvocationKindModel {
    Shell { environment: Seq<char> },
    Task { task: Seq<char>, environment: Option<Seq<char>>, args: Seq<Seq<char>> },
    Command { command: Seq<char>, environment: Seq<char> },
}

/// Mathematical image of a [`PtyInvocation`].
#[verifier::ext_equal]
pub struct InvocationModel {
    pub cwd: Seq<char>,
    pub manifest: Seq<char>,
    pub kind: InvocationKindModel,
}

impl View for PtyInvocationKind {
    type V = InvocationKindModel;

    open spec fn view(&self) -> InvocationKindModel {
        match *self {
            PtyInvocationKind::Shell(ref d) => InvocationKindModel::Shell {
                environment: d.environment@,
            },
            PtyInvocationKind::Task(ref d) => InvocationKindModel::Task {
                task: d.task@,
                environment: match d.environment {
                    Some(ref e) => Some(e@),
                    None => None,
                },
                args: d.args.deep_view(),
            },
            PtyInvocationKind::Command(ref d) => InvocationKindModel::Command {
                command: d.command@,
                environment: d.environment@,
            },
        }
    }
}

impl View for PtyInvocation {
    type V = InvocationModel;

    open spec fn view(&self) -> InvocationModel {
        InvocationModel { cwd: self.cwd@, manifest: self.manifest@, kind: self.kind@ }
    }
}

impl Clone for PtyShellInvocation {
    fn clone(&self) -> (r: Self)
        ensures
            r.environment@ == self.environment@,
    {
        PtyShellInvocation { environment: self.environment.clone() }
    }
}

impl Clone for PtyTaskInvocation {
    fn clone(&self) -> (r: Self)
        ensures
            r.task@ == self.task@,
            r.environment == self.environment,
            r.args.deep_view() == self.args.deep_view(),
    {
        let environment = match &self.environment {
            Some(e) => Some(e.clone()),
            None => None,
        };
        let args = self.args.clone();
        proof {
            assert(args.deep_view() =~~= self.args.deep_view());
        }
        PtyTaskInvocation { task: self.task.clone(), environment, args }
    }
}

impl Clone for PtyCommandInvocation {
    fn clone(&self) -> (r: Self)
        ensures
            r.command@ == self.command@,
            r.environment@ == self.environment@,
    {
        PtyCommandInvocation {
            command: self.command.clone(),
            environment: self.environment.clone(),
        }
    }
}

impl Clone for PtyInvocationKind {
    fn clone(&self) -> (r: Self)
        ensures
            r@ == self@,
    {
        match self {
            PtyInvocationKind::Shell(d) => PtyInvocationKind::Shell(d.clone()),
            PtyInvocationKind::Task(d) => PtyInvocationKind::Task(d.clone()),
            PtyInvocationKind::Command(d) => PtyInvocationKind::Command(d.clone()),
        }
    }
}

impl Clone for PtyInvocation {
    fn clone(&self) -> (r: Self)
        ensures
            r@ == self@,
    {
        PtyInvocation {
            cwd: self.cwd.clone(),
            manifest: self.manifest.clone(),
            kind: self.kind.clone(),
        }
    }
}

/// The exact argument vector that an invocation maps to, given the path of
/// the runner binary. Pure and stable: equal inputs give equal vectors.
pub open spec fn argv_spec(inv: InvocationModel, runner: Seq<char>) -> Seq<Seq<char>> {
    match inv.kind {
        InvocationKindModel::Shell { environment } => seq![
            runner,
            "shell"@,
            "--manifest-path"@,
            inv.manifest,
            "--environment"@,
            environment,
        ],
        InvocationKindModel::Task { task, environment, args } => {
            let base = seq![runner, "run"@, "--manifest-path"@, inv.manifest];
            let env = match environment {
                Some(e) => seq!["--environment"@, e],
                None => Seq::<Seq<char>>::empty(),
            };
            base + env + seq![task] + args
        },
        InvocationKindModel::Command { command, environment } => seq![
            runner,
            "run"@,
            "--manifest-path"@,
            inv.manifest,
            "--environment"@,
            environment,
            command,
        ],
    }
}

impl PtyInvocation {
    /// Build the argument vector for the runner binary at `runner`.
    ///
    /// Resolving the runner binary itself queries the environment, so the
    /// caller passes the resolved path in; everything from there on is a
    /// pure function of the invocation.
    pub fn argv(&self, runner: &str) -> (r: Vec<String>)
        ensures
            r.deep_view() == argv_spec(self@, runner@),
    {
        match &self.kind {
            PtyInvocationKind::Shell(data) => {
                let mut r: Vec<String> = Vec::new();
                r.push(runner.to_owned());
                r.push("shell".to_owned());
                r.push("--manifest-path".to_owned());
                r.push(self.manifest.clone());
                r.push("--environment".to_owned());
                r.push(data.environment.clone());
                proof {
                    assert(r.deep_view() =~~= argv_spec(self@, runner@));
                }
                r
            },
            PtyInvocationKind::Task(data) => {
                let mut r: Vec<String> = Vec::new();
                r.push(runner.to_owned());
                r.push("run".to_owned());
                r.push("--manifest-path".to_owned());
                r.push(self.manifest.clone());
                if let Some(env) = &data.environment {
                    r.push("--environment".to_owned());
                    r.push(env.clone());
                }
                r.push(data.task.clone());
                let ghost head = r.deep_view();
                proof {
                    assert(head =~~= argv_spec(self@, runner@).take(head.len() as int));
                    assert(head.len() + data.args.deep_view().len() == argv_spec(
                        self@,
                        runner@,
                    ).len());
                }
                let n = data.args.len();
                let mut i: usize = 0;
                while i < n
                    invariant
                        i <= n,
                        n == data.args.len(),
                        r.deep_view() == head + data.args.deep_view().take(i as int),
                    decreases n - i,
                {
                    let arg = data.args[i].clone();
                    proof {
                        assert(arg.deep_view() == data.args.deep_view()[i as int]);
                    }
                    r.push(arg);
                    proof {
                        assert(r.deep_view() =~~= (head + data.args.deep_view().take(
                            i as int,
                        )).push(data.args.deep_view()[i as int]));
                        assert(r.deep_view() =~~= head + data.args.deep_view().take(
                            i as int + 1,
                        ));
                    }
                    i = i + 1;
                }
                proof {
                    assert(r.deep_view() =~~= argv_spec(self@, runner@));
                }
                r
            },
            PtyInvocationKind::Command(data) => {
                let mut r: Vec<String> = Vec::new();
                r.push(runner.to_owned());
                r.push("run".to_owned());
                r.push("--manifest-path".to_owned());
                r.push(self.manifest.clone());
                r.push("--environment".to_owned());
                r.push(data.environment.clone());
                r.push(data.command.clone());
                proof {
                    assert(r.deep_view() =~~= argv_spec(self@, runner@));
                }
                r
            },
        }
    }
}

} // verus!
