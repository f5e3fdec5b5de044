use msvc_cache::{
    compile, Cacheable, CompileAction, CompileError, CompileEvent, CompileState, OutputKind,
    Outputs, ParsedArguments,
};

fn strings(items: &[&str]) -> Vec<String> {
    items.iter().map(|s| s.to_string()).collect()
}

fn outputs(items: Vec<(&str, String)>) -> Outputs {
    let mut outputs = Outputs::new();
    for (name, path) in items {
        outputs.insert(OutputKind::from_name(name).expect("a known kind of output"), path);
    }
    outputs
}

/// Stands in for the compiler: each command that is made takes the next
/// of the outcomes that were lined up, and gives it when it is run.
struct MockCreator {
    children: Vec<bool>,
}

impl MockCreator {
    fn new(exits: &[bool]) -> MockCreator {
        MockCreator { children: exits.iter().rev().cloned().collect() }
    }

    fn new_command(&mut self) -> Option<bool> {
        self.children.pop()
    }
}

/// What a scripted run of the compile step saw.
struct Trace {
    cacheable: Cacheable,
    probed: Vec<String>,
    written: Vec<String>,
    runs: Vec<Vec<String>>,
}

/// Plays the caller: answers probes from `existing`, writes the source
/// to `/scratch/<name>`, and makes the two commands before it runs the
/// first, the second to be thrown away when the first succeeds.
fn drive(creator: &mut MockCreator, parsed_args: &ParsedArguments, existing: &[&str]) -> Trace {
    let mut trace =
        Trace { cacheable: Cacheable::Yes, probed: vec![], written: vec![], runs: vec![] };
    let (mut state, mut action) = compile(parsed_args).unwrap();
    let mut commands = vec![creator.new_command(), creator.new_command()].into_iter();
    loop {
        assert_eq!(action, state.pending());
        let event = match action {
            CompileAction::ProbeDebugSymbols(path) => {
                let found = existing.contains(&path.as_str());
                trace.probed.push(path);
                CompileEvent::Probed(found)
            }
            CompileAction::WriteSource(name) => {
                let path = format!("/scratch/{}", name);
                trace.written.push(name);
                CompileEvent::SourceWritten(path)
            }
            CompileAction::Run(arguments) => {
                trace.runs.push(arguments);
                let child = commands.next().expect("no more than two runs");
                CompileEvent::Exited(child.expect("an outcome for each run"))
            }
            CompileAction::Finish(cacheable) => {
                assert!(state.is_finished());
                assert_eq!(cacheable, state.cacheable());
                trace.cacheable = cacheable;
                return trace;
            }
        };
        let (next_state, next_action) = state.step(event);
        state = next_state;
        action = next_action;
    }
}

/// The path of a file that a test says exists.
fn touch(name: &str) -> String {
    format!("/fixture/{}", name)
}

fn scripted(parsed_args: &ParsedArguments, existing: &[&str], exits: &[bool]) -> Trace {
    drive(&mut MockCreator::new(exits), parsed_args, existing)
}

#[test]
fn test_compile_simple() {
    let parsed_args = ParsedArguments {
        input: "foo.c".to_owned(),
        extension: "c".to_owned(),
        depfile: None,
        outputs: outputs(vec![("obj", "foo.obj".to_owned())]),
        preprocessor_args: vec![],
        common_args: vec![],
    };
    // Compiler invocation.
    let mut creator = MockCreator::new(&[true, false]);
    let trace = drive(&mut creator, &parsed_args, &[]);
    assert_eq!(Cacheable::Yes, trace.cacheable);
    // Ensure that we ran all processes.
    assert_eq!(0, creator.children.len());
    assert_eq!(trace.runs, vec![strings(&["-c", "-Fofoo.obj", "/scratch/foo.c"])]);
    assert_eq!(trace.written, &["foo.c"]);
    assert!(trace.probed.is_empty());
}

#[test]
fn test_compile_not_cacheable_pdb() {
    let pdb = touch("foo.pdb");
    let pdb = pdb.as_str();
    let parsed_args = ParsedArguments {
        input: "foo.c".to_owned(),
        extension: "c".to_owned(),
        depfile: None,
        outputs: outputs(vec![("obj", "foo.obj".to_owned()), ("pdb", pdb.to_owned())]),
        preprocessor_args: vec![],
        common_args: vec![],
    };
    // Compiler invocation.
    let mut creator = MockCreator::new(&[true, false]);
    let trace = drive(&mut creator, &parsed_args, &[pdb]);
    assert_eq!(Cacheable::No, trace.cacheable);
    // Ensure that we ran all processes.
    assert_eq!(0, creator.children.len());
    assert_eq!(trace.probed, &[pdb]);
    assert_eq!(1, trace.runs.len());
}

#[test]
fn test_compile_preprocessed_fails() {
    let parsed_args = ParsedArguments {
        input: "foo.c".to_owned(),
        extension: "c".to_owned(),
        depfile: None,
        outputs: outputs(vec![("obj", "foo.obj".to_owned())]),
        preprocessor_args: vec![],
        common_args: vec![],
    };
    // First compiler invocation fails. Second compiler invocation succeeds.
    let mut creator = MockCreator::new(&[false, true]);
    let trace = drive(&mut creator, &parsed_args, &[]);
    assert_eq!(Cacheable::Yes, trace.cacheable);
    // Ensure that we ran all processes.
    assert_eq!(0, creator.children.len());
    assert_eq!(
        trace.runs,
        vec![
            strings(&["-c", "-Fofoo.obj", "/scratch/foo.c"]),
            strings(&["-c", "foo.c", "-Fofoo.obj"]),
        ]
    );
}

fn with_symbols(pdb: &str) -> ParsedArguments {
    ParsedArguments {
        input: "src/foo.cpp".to_owned(),
        extension: "cpp".to_owned(),
        depfile: None,
        outputs: outputs(vec![("obj", "out/foo.obj".to_owned()), ("pdb", pdb.to_owned())]),
        preprocessor_args: vec![],
        common_args: strings(&["-Zi", "-Fdfoo.pdb", "-W4"]),
    }
}

#[test]
fn absent_symbols_file_leaves_the_result_cacheable() {
    let trace = scripted(&with_symbols("foo.pdb"), &["other.pdb"], &[true]);
    assert_eq!(Cacheable::Yes, trace.cacheable);
    assert_eq!(trace.probed, &["foo.pdb"]);
}

#[test]
fn tag_does_not_depend_on_which_attempt_ends_the_step() {
    for exits in [[true, true], [false, true], [false, false]] {
        assert_eq!(
            Cacheable::No,
            scripted(&with_symbols("foo.pdb"), &["foo.pdb"], &exits).cacheable
        );
        assert_eq!(Cacheable::Yes, scripted(&with_symbols("foo.pdb"), &[], &exits).cacheable);
    }
}

#[test]
fn failed_second_attempt_ends_the_step_too() {
    let mut creator = MockCreator::new(&[false, false, true]);
    let trace = drive(&mut creator, &with_symbols("foo.pdb"), &[]);
    assert_eq!(2, trace.runs.len());
    assert_eq!(creator.children, &[true]);
}

#[test]
fn commands_carry_the_flags_handed_on() {
    let trace = scripted(&with_symbols("foo.pdb"), &[], &[false, false]);
    assert_eq!(trace.written, &["foo.cpp"]);
    assert_eq!(
        trace.runs,
        vec![
            strings(&["-c", "-Foout/foo.obj", "-Zi", "-Fdfoo.pdb", "-W4", "/scratch/foo.cpp"]),
            strings(&["-c", "src/foo.cpp", "-Foout/foo.obj", "-Zi", "-Fdfoo.pdb", "-W4"]),
        ]
    );
}

#[test]
fn missing_object_output_is_an_error() {
    let parsed_args = ParsedArguments {
        input: "foo.c".to_owned(),
        extension: "c".to_owned(),
        depfile: None,
        outputs: outputs(vec![("pdb", "foo.pdb".to_owned())]),
        preprocessor_args: vec![],
        common_args: vec![],
    };
    assert_eq!(Err(CompileError::MissingObjectOutput), compile(&parsed_args));
}

#[test]
fn input_without_a_file_name_is_an_error() {
    for input in ["", "..", "/", "dir/.."] {
        let parsed_args = ParsedArguments {
            input: input.to_owned(),
            extension: "c".to_owned(),
            depfile: None,
            outputs: outputs(vec![("obj", "foo.obj".to_owned())]),
            preprocessor_args: vec![],
            common_args: vec![],
        };
        assert_eq!(Err(CompileError::MissingInputFilename), compile(&parsed_args), "{:?}", input);
    }
}

#[test]
fn start_takes_the_file_name_it_is_given() {
    let parsed_args = with_symbols("foo.pdb");
    assert_eq!(
        Err(CompileError::MissingInputFilename),
        CompileState::start(&parsed_args, None)
    );
    let (state, action) = CompileState::start(&parsed_args, Some("bar.cpp".to_owned())).unwrap();
    assert_eq!(CompileAction::ProbeDebugSymbols("foo.pdb".to_owned()), action);
    let (_, action) = state.step(CompileEvent::Probed(false));
    assert_eq!(CompileAction::WriteSource("bar.cpp".to_owned()), action);
}

#[test]
fn events_that_are_not_waited_for_change_nothing() {
    let (state, action) = compile(&with_symbols("foo.pdb")).unwrap();
    let (state, again) = state.step(CompileEvent::Exited(false));
    assert_eq!(action, again);
    let (state, again) = state.step(CompileEvent::SourceWritten("/scratch/x".to_owned()));
    assert_eq!(action, again);
    let (state, writing) = state.step(CompileEvent::Probed(true));
    assert_eq!(CompileAction::WriteSource("foo.cpp".to_owned()), writing);
    let (state, again) = state.step(CompileEvent::Probed(false));
    assert_eq!(writing, again);
    assert_eq!(Cacheable::No, state.cacheable());
    assert!(!state.is_finished());
}

#[test]
fn finished_step_stays_finished() {
    let (state, _) = compile(&with_symbols("foo.pdb")).unwrap();
    let (state, _) = state.step(CompileEvent::Probed(true));
    let (state, _) = state.step(CompileEvent::SourceWritten("/scratch/foo.cpp".to_owned()));
    let (state, done) = state.step(CompileEvent::Exited(true));
    assert_eq!(CompileAction::Finish(Cacheable::No), done);
    let (state, again) = state.step(CompileEvent::Exited(false));
    assert_eq!(done, again);
    let (state, again) = state.step(CompileEvent::Probed(false));
    assert_eq!(done, again);
    assert!(state.is_finished());
}
