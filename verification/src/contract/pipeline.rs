use vstd::prelude::*;
use vstd::utf8::{decode_utf8, valid_utf8};

use crate::fs_path::{join, path_join};
use crate::text::{join_strings, join_with, opt_view, string_from_utf8, string_views, utf8_error_text};

verus! {

/// What a build needs done next by the one who drives it.
pub enum BuildAction {
    /// List the files of `dir` whose extension is `extension`.
    ListFiles { dir: String, extension: String },
    /// Run `program` with `args` (in `current_dir` when there is one) and
    /// report what it wrote to its standard error.
    Run { program: String, args: Vec<String>, current_dir: Option<String> },
    /// The build is over, with this outcome.
    Finish(Result<(), BuildError>),
}

/// What came of the last action.
pub enum BuildEvent {
    /// The files listed, or why the directory could not be listed.
    Listed(Result<Vec<String>, String>),
    /// What the program wrote to its standard error, or why it could not be run.
    Ran(Result<Vec<u8>, String>),
}

/// Why a build failed. A `String` payload is the cause reported by the
/// failed action.
pub enum BuildError {
    /// The compiler could not be run ("failed to compile source").
    CompileFailed(String),
    /// A tool wrote to its standard error: the text, or, when it is not
    /// UTF-8, the text of the decoding error.
    ToolOutput(Result<String, String>),
    /// The source directory could not be listed ("failed read source path").
    SourceUnreadable(String),
    /// The source directory holds no source file ("source file not find").
    NoSourceFile,
    /// The compiled binaries could not be listed ("failed generate *.bin file").
    BinUnreadable(String),
    /// The compiler produced no binary ("*.bin file not generate").
    NoBinFile,
    /// The interface files could not be listed ("failed generate *.abi file").
    AbiUnreadable(String),
    /// No interface file was produced ("*.abi file not generate").
    NoAbiFile,
    /// The binding generator could not be run ("failed to generate go file").
    GenerateFailed(String),
}

/// A `BuildError` with its text payloads seen as character sequences.
pub enum BuildFailure {
    CompileFailed(Seq<char>),
    ToolOutput(Result<Seq<char>, Seq<char>>),
    SourceUnreadable(Seq<char>),
    NoSourceFile,
    BinUnreadable(Seq<char>),
    NoBinFile,
    AbiUnreadable(Seq<char>),
    NoAbiFile,
    GenerateFailed(Seq<char>),
}

impl View for BuildError {
    type V = BuildFailure;

    open spec fn view(&self) -> BuildFailure {
        match self {
            BuildError::CompileFailed(c) => BuildFailure::CompileFailed(c@),
            BuildError::ToolOutput(t) => BuildFailure::ToolOutput(
                match t {
                    Ok(s) => Ok(s@),
                    Err(m) => Err(m@),
                },
            ),
            BuildError::SourceUnreadable(c) => BuildFailure::SourceUnreadable(c@),
            BuildError::NoSourceFile => BuildFailure::NoSourceFile,
            BuildError::BinUnreadable(c) => BuildFailure::BinUnreadable(c@),
            BuildError::NoBinFile => BuildFailure::NoBinFile,
            BuildError::AbiUnreadable(c) => BuildFailure::AbiUnreadable(c@),
            BuildError::NoAbiFile => BuildFailure::NoAbiFile,
            BuildError::GenerateFailed(c) => BuildFailure::GenerateFailed(c@),
        }
    }
}

/// The error reported for a tool's standard error output.
pub open spec fn tool_output_failure(stderr: Seq<u8>) -> BuildFailure {
    BuildFailure::ToolOutput(
        if valid_utf8(stderr) {
            Ok(decode_utf8(stderr))
        } else {
            Err(utf8_error_text(stderr))
        },
    )
}

/// `a` lists the files of `dir` with extension `ext`.
pub open spec fn lists(a: BuildAction, dir: Seq<char>, ext: Seq<char>) -> bool {
    a matches BuildAction::ListFiles { dir: d, extension: e } && d@ == dir && e@ == ext
}

/// `a` runs `program` with `args` in `cwd`.
pub open spec fn runs(
    a: BuildAction,
    program: Seq<char>,
    args: Seq<Seq<char>>,
    cwd: Option<Seq<char>>,
) -> bool {
    a matches BuildAction::Run { program: p, args: v, current_dir: c } && p@ == program
        && string_views(v@) == args && opt_view(c) == cwd
}

/// `a` ends the build successfully.
pub open spec fn finishes_ok(a: BuildAction) -> bool {
    a matches BuildAction::Finish(Ok(_))
}

/// `a` ends the build with the failure `f`.
pub open spec fn fails_with(a: BuildAction, f: BuildFailure) -> bool {
    a matches BuildAction::Finish(Err(e)) && e@ == f
}

/// The error for a tool whose standard error was not empty.
pub fn tool_output_error(stderr: Vec<u8>) -> (res: BuildError)
    ensures
        res@ == tool_output_failure(stderr@),
{
    BuildError::ToolOutput(string_from_utf8(stderr))
}

/// Where a build stands.
pub enum BuildStage {
    /// Waiting for the chaincode compiler to run.
    CompileChaincode,
    /// Waiting for the listing of the Solidity sources.
    ListSoliditySources,
    /// Waiting for the Solidity compiler to run.
    CompileSolidity,
    /// Waiting for the listing of the compiled binaries.
    ListBinFiles,
    /// Waiting for the listing of the interface files; the binaries found.
    ListAbiFiles { bin_files: Vec<String> },
    /// Waiting for the binding generator to run.
    GenerateBinding,
    /// The build is over.
    Finished,
}

impl BuildStage {
    /// How far along a build is; every step moves it further.
    pub open spec fn rank(&self) -> nat {
        match self {
            BuildStage::CompileChaincode => 0,
            BuildStage::ListSoliditySources => 0,
            BuildStage::CompileSolidity => 1,
            BuildStage::ListBinFiles => 2,
            BuildStage::ListAbiFiles { .. } => 3,
            BuildStage::GenerateBinding => 4,
            BuildStage::Finished => 5,
        }
    }

    /// Whether this stage waits for `event`: a run waits for its report,
    /// a listing for its files; a finished build waits for nothing.
    pub open spec fn awaits(&self, event: BuildEvent) -> bool {
        match self {
            BuildStage::CompileChaincode => event is Ran,
            BuildStage::CompileSolidity => event is Ran,
            BuildStage::GenerateBinding => event is Ran,
            BuildStage::ListSoliditySources => event is Listed,
            BuildStage::ListBinFiles => event is Listed,
            BuildStage::ListAbiFiles { .. } => event is Listed,
            BuildStage::Finished => false,
        }
    }
}

/// A build of the contract in the directory `path`, driven one action at
/// a time.
pub struct BuildProcess {
    pub path: String,
    pub stage: BuildStage,
}

/// What follows a tool run whose report is `event`: `next`/`action` when it
/// wrote nothing to its standard error, the failure `launch` when it could
/// not be run, and the tool output error otherwise.
pub open spec fn after_run(
    event: BuildEvent,
    launch: spec_fn(Seq<char>) -> BuildFailure,
    next_ok: BuildStage,
    action_ok: spec_fn(BuildAction) -> bool,
    next: BuildStage,
    action: BuildAction,
) -> bool {
    match event {
        BuildEvent::Ran(Err(cause)) => next is Finished && fails_with(action, launch(cause@)),
        BuildEvent::Ran(Ok(stderr)) => if stderr@.len() == 0 {
            next == next_ok && action_ok(action)
        } else {
            next is Finished && fails_with(action, tool_output_failure(stderr@))
        },
        _ => false,
    }
}

/// The arguments of the Solidity compiler for the sources `sources` of the
/// contract in `path`: binaries and interfaces are written next to the
/// sources, which are handed over as one argument, separated by spaces.
pub open spec fn solc_args(path: Seq<char>, sources: Seq<Seq<char>>) -> Seq<Seq<char>> {
    seq!["--overwrite"@, "--bin"@, "--abi"@, "-o"@, path, join_with(sources, " "@)]
}

/// The arguments of the binding generator for the binary `bin` and the
/// interface `abi` of the contract in `path`: a Go package `main` with the
/// type `contract`, written to `path/main.go`.
pub open spec fn abigen_args(path: Seq<char>, bin: Seq<char>, abi: Seq<char>) -> Seq<Seq<char>> {
    seq![
        "--bin"@,
        bin,
        "--abi"@,
        abi,
        "--pkg"@,
        "main"@,
        "--type"@,
        "contract"@,
        "--out"@,
        path_join(path, "main.go"@),
    ]
}

/// One step of a build of the contract in `path`: from `stage`, the
/// report `event` leads to `next`, which asks for `action`.
pub open spec fn build_step(
    stage: BuildStage,
    path: Seq<char>,
    event: BuildEvent,
    next: BuildStage,
    action: BuildAction,
) -> bool {
    match stage {
        BuildStage::CompileChaincode => after_run(
            event,
            |c: Seq<char>| BuildFailure::CompileFailed(c),
            BuildStage::Finished,
            |a: BuildAction| finishes_ok(a),
            next,
            action,
        ),
        BuildStage::ListSoliditySources => match event {
            BuildEvent::Listed(Err(cause)) => next is Finished && fails_with(
                action,
                BuildFailure::SourceUnreadable(cause@),
            ),
            BuildEvent::Listed(Ok(files)) => if files.len() == 0 {
                next is Finished && fails_with(action, BuildFailure::NoSourceFile)
            } else {
                next is CompileSolidity && runs(
                    action,
                    "solc"@,
                    solc_args(path, string_views(files@)),
                    None,
                )
            },
            _ => false,
        },
        BuildStage::CompileSolidity => after_run(
            event,
            |c: Seq<char>| BuildFailure::CompileFailed(c),
            BuildStage::ListBinFiles,
            |a: BuildAction| lists(a, path, "bin"@),
            next,
            action,
        ),
        BuildStage::ListBinFiles => match event {
            BuildEvent::Listed(Err(cause)) => next is Finished && fails_with(
                action,
                BuildFailure::BinUnreadable(cause@),
            ),
            BuildEvent::Listed(Ok(files)) => if files.len() == 0 {
                next is Finished && fails_with(action, BuildFailure::NoBinFile)
            } else {
                (next matches BuildStage::ListAbiFiles { bin_files } && string_views(bin_files@)
                    == string_views(files@)) && lists(action, path, "abi"@)
            },
            _ => false,
        },
        BuildStage::ListAbiFiles { bin_files } => match event {
            BuildEvent::Listed(Err(cause)) => next is Finished && fails_with(
                action,
                BuildFailure::AbiUnreadable(cause@),
            ),
            BuildEvent::Listed(Ok(files)) => if bin_files.len() == 0 {
                next is Finished && fails_with(action, BuildFailure::NoAbiFile)
            } else if files.len() == 0 {
                // no step: the binding generator would be handed a missing file
                false
            } else {
                next is GenerateBinding && runs(
                    action,
                    "abigen"@,
                    abigen_args(path, bin_files@[0]@, files@[0]@),
                    None,
                )
            },
            _ => false,
        },
        BuildStage::GenerateBinding => after_run(
            event,
            |c: Seq<char>| BuildFailure::GenerateFailed(c),
            BuildStage::Finished,
            |a: BuildAction| finishes_ok(a),
            next,
            action,
        ),
        BuildStage::Finished => false,
    }
}

/// Whether the report `event` is a clean one: a tool that wrote nothing
/// to its standard error, or a listing that found files.
pub open spec fn clean_report(event: BuildEvent) -> bool {
    match event {
        BuildEvent::Ran(Ok(stderr)) => stderr@.len() == 0,
        BuildEvent::Listed(Ok(files)) => files.len() > 0,
        _ => false,
    }
}

/// `stages`, `events` and `actions` record a run of a build of the
/// contract in `path`: each event took the build from one stage to the
/// next, which asked for the matching action.
pub open spec fn is_build_run(
    path: Seq<char>,
    stages: Seq<BuildStage>,
    events: Seq<BuildEvent>,
    actions: Seq<BuildAction>,
) -> bool {
    &&& stages.len() == events.len() + 1
    &&& actions.len() == events.len()
    &&& forall|i: int|
        #![trigger events[i]]
        0 <= i < events.len() ==> build_step(stages[i], path, events[i], stages[i + 1], actions[i])
}

/// Every step of a build moves it further along, and a step that is not
/// clean ends the build.
pub proof fn lemma_step_advances(
    stage: BuildStage,
    path: Seq<char>,
    event: BuildEvent,
    next: BuildStage,
    action: BuildAction,
)
    requires
        build_step(stage, path, event, next, action),
    ensures
        next.rank() > stage.rank(),
        !clean_report(event) ==> next is Finished,
        next is Finished <==> action is Finish,
        finishes_ok(action) ==> clean_report(event) && event is Ran,
{
}

/// Every tool a step of a build runs (the Solidity compiler, then the
/// binding generator) runs in the caller's working directory, where the
/// paths handed to it resolve: no run issued by a step has a working
/// directory of its own.
pub proof fn lemma_step_runs_in_place(
    stage: BuildStage,
    path: Seq<char>,
    event: BuildEvent,
    next: BuildStage,
    action: BuildAction,
)
    requires
        build_step(stage, path, event, next, action),
    ensures
        action matches BuildAction::Run { current_dir, .. } ==> current_dir is None,
{
}

/// A build is over after at most five reports: no run of a build has
/// more steps.
pub proof fn lemma_builds_end(
    path: Seq<char>,
    stages: Seq<BuildStage>,
    events: Seq<BuildEvent>,
    actions: Seq<BuildAction>,
)
    requires
        is_build_run(path, stages, events, actions),
    ensures
        events.len() <= 5,
{
    assert forall|k: int| 0 <= k < stages.len() implies #[trigger] stages[k].rank() >= k by {
        lemma_rank_grows(path, stages, events, actions, k);
    }
    assert(stages[stages.len() - 1].rank() >= stages.len() - 1);
}

/// Along a run, the `k`-th stage is at least `k` steps along.
proof fn lemma_rank_grows(
    path: Seq<char>,
    stages: Seq<BuildStage>,
    events: Seq<BuildEvent>,
    actions: Seq<BuildAction>,
    k: int,
)
    requires
        is_build_run(path, stages, events, actions),
        0 <= k < stages.len(),
    ensures
        stages[k].rank() >= k,
    decreases k,
{
    if k > 0 {
        lemma_rank_grows(path, stages, events, actions, k - 1);
        assert(build_step(stages[k - 1], path, events[k - 1], stages[k], actions[k - 1]));
        lemma_step_advances(stages[k - 1], path, events[k - 1], stages[k], actions[k - 1]);
    }
}

/// A build succeeds only when every report along its run was clean: each
/// tool wrote nothing to its standard error and each listing found files;
/// and success comes right after a tool run.
pub proof fn lemma_success_needs_clean_reports(
    path: Seq<char>,
    stages: Seq<BuildStage>,
    events: Seq<BuildEvent>,
    actions: Seq<BuildAction>,
)
    requires
        is_build_run(path, stages, events, actions),
        events.len() > 0,
        finishes_ok(actions.last()),
    ensures
        forall|i: int| 0 <= i < events.len() ==> clean_report(#[trigger] events[i]),
        events.last() is Ran,
{
    let n = events.len() as int;
    assert(build_step(stages[n - 1], path, events[n - 1], stages[n], actions[n - 1]));
    lemma_step_advances(stages[n - 1], path, events[n - 1], stages[n], actions[n - 1]);
    assert forall|i: int| 0 <= i < events.len() implies clean_report(#[trigger] events[i]) by {
        assert(build_step(stages[i], path, events[i], stages[i + 1], actions[i]));
        lemma_step_advances(stages[i], path, events[i], stages[i + 1], actions[i]);
        if i < n - 1 {
            assert(build_step(stages[i + 1], path, events[i + 1], stages[i + 2], actions[i + 1]));
        }
    }
}

impl BuildProcess {
    /// Takes the report of the last action and says what to do next.
    pub fn resume(&mut self, event: BuildEvent) -> (res: BuildAction)
        requires
            old(self).stage.awaits(event),
            old(self).stage matches BuildStage::ListAbiFiles { bin_files } && bin_files.len() > 0
                ==> (event matches BuildEvent::Listed(Ok(files)) ==> files.len() > 0),
        ensures
            final(self).path == old(self).path,
            build_step(old(self).stage, old(self).path@, event, final(self).stage, res),
            final(self).stage.rank() > old(self).stage.rank(),
            final(self).stage is Finished <==> res is Finish,
            finishes_ok(res) ==> (event matches BuildEvent::Ran(Ok(stderr)) && stderr@.len() == 0),
    {
        let mut stage = BuildStage::Finished;
        std::mem::swap(&mut stage, &mut self.stage);
        match stage {
            BuildStage::CompileChaincode => match event {
                BuildEvent::Ran(Err(cause)) => BuildAction::Finish(Err(BuildError::CompileFailed(cause))),
                BuildEvent::Ran(Ok(stderr)) => Self::finish_after_tool(stderr),
                BuildEvent::Listed(_) => {
                    proof {
                        assert(false);
                    }
                    BuildAction::Finish(Ok(()))
                },
            },
            BuildStage::ListSoliditySources => match event {
                BuildEvent::Listed(Err(cause)) => BuildAction::Finish(Err(BuildError::SourceUnreadable(cause))),
                BuildEvent::Listed(Ok(files)) => {
                    if files.len() == 0 {
                        BuildAction::Finish(Err(BuildError::NoSourceFile))
                    } else {
                        self.stage = BuildStage::CompileSolidity;
                        let sources = join_strings(&files, " ");
                        let args = vec![
                            String::from_str("--overwrite"),
                            String::from_str("--bin"),
                            String::from_str("--abi"),
                            String::from_str("-o"),
                            self.path.clone(),
                            sources,
                        ];
                        proof {
                            reveal_strlit(" ");
                            assert(string_views(args@) =~= solc_args(self.path@, string_views(files@)));
                        }
                        BuildAction::Run { program: String::from_str("solc"), args, current_dir: None }
                    }
                },
                BuildEvent::Ran(_) => {
                    proof {
                        assert(false);
                    }
                    BuildAction::Finish(Ok(()))
                },
            },
            BuildStage::CompileSolidity => match event {
                BuildEvent::Ran(Err(cause)) => BuildAction::Finish(Err(BuildError::CompileFailed(cause))),
                BuildEvent::Ran(Ok(stderr)) => {
                    if stderr.len() == 0 {
                        self.stage = BuildStage::ListBinFiles;
                        BuildAction::ListFiles { dir: self.path.clone(), extension: String::from_str("bin") }
                    } else {
                        BuildAction::Finish(Err(tool_output_error(stderr)))
                    }
                },
                BuildEvent::Listed(_) => {
                    proof {
                        assert(false);
                    }
                    BuildAction::Finish(Ok(()))
                },
            },
            BuildStage::ListBinFiles => match event {
                BuildEvent::Listed(Err(cause)) => BuildAction::Finish(Err(BuildError::BinUnreadable(cause))),
                BuildEvent::Listed(Ok(files)) => {
                    if files.len() == 0 {
                        BuildAction::Finish(Err(BuildError::NoBinFile))
                    } else {
                        self.stage = BuildStage::ListAbiFiles { bin_files: files };
                        BuildAction::ListFiles { dir: self.path.clone(), extension: String::from_str("abi") }
                    }
                },
                BuildEvent::Ran(_) => {
                    proof {
                        assert(false);
                    }
                    BuildAction::Finish(Ok(()))
                },
            },
            BuildStage::ListAbiFiles { bin_files } => match event {
                BuildEvent::Listed(Err(cause)) => BuildAction::Finish(Err(BuildError::AbiUnreadable(cause))),
                BuildEvent::Listed(Ok(files)) => {
                    if bin_files.len() == 0 {
                        BuildAction::Finish(Err(BuildError::NoAbiFile))
                    } else {
                        self.stage = BuildStage::GenerateBinding;
                        let out = join(self.path.as_str(), "main.go");
                        let args = vec![
                            String::from_str("--bin"),
                            bin_files[0].clone(),
                            String::from_str("--abi"),
                            files[0].clone(),
                            String::from_str("--pkg"),
                            String::from_str("main"),
                            String::from_str("--type"),
                            String::from_str("contract"),
                            String::from_str("--out"),
                            out,
                        ];
                        proof {
                            assert(string_views(args@) =~= abigen_args(self.path@, bin_files@[0]@, files@[0]@));
                        }
                        BuildAction::Run { program: String::from_str("abigen"), args, current_dir: None }
                    }
                },
                BuildEvent::Ran(_) => {
                    proof {
                        assert(false);
                    }
                    BuildAction::Finish(Ok(()))
                },
            },
            BuildStage::GenerateBinding => match event {
                BuildEvent::Ran(Err(cause)) => BuildAction::Finish(Err(BuildError::GenerateFailed(cause))),
                BuildEvent::Ran(Ok(stderr)) => Self::finish_after_tool(stderr),
                BuildEvent::Listed(_) => {
                    proof {
                        assert(false);
                    }
                    BuildAction::Finish(Ok(()))
                },
            },
            BuildStage::Finished => {
                proof {
                    assert(false);
                }
                BuildAction::Finish(Ok(()))
            },
        }
    }

    /// The end of a build after its last tool ran: success when the tool
    /// wrote nothing to its standard error, the tool output error otherwise.
    fn finish_after_tool(stderr: Vec<u8>) -> (res: BuildAction)
        ensures
            stderr@.len() == 0 ==> finishes_ok(res),
            stderr@.len() != 0 ==> fails_with(res, tool_output_failure(stderr@)),
            res is Finish,
    {
        if stderr.len() == 0 {
            BuildAction::Finish(Ok(()))
        } else {
            BuildAction::Finish(Err(tool_output_error(stderr)))
        }
    }
}

} // verus!
