//! The compile step: whether its result may be cached, the attempt on the
//! preprocessed source, and the second attempt on the source itself.
//!
//! The library decides and the caller acts: [`compile`] and
//! [`CompileState::step`] name the next thing to do, and the caller
//! reports back what came of it.

use crate::arguments::{OutputKind, ParsedArguments, ParsedView};
use crate::path::{file_name_agrees, file_name_of, path_file_name};
use crate::text::{lemma_views_push, option_view, views};
use vstd::prelude::*;
use vstd::string::StringExecFns;

verus! {

/// Whether the result of a compilation may be stored in the cache.
#[derive(Debug, Clone, Copy, PartialEq, Eq, Structural)]
pub enum Cacheable {
    Yes,
    No,
}

/// Why a compilation cannot be started.
#[derive(Debug, Clone, Copy, PartialEq, Eq, Structural)]
pub enum CompileError {
    /// The arguments name no object file.
    MissingObjectOutput,
    /// The path of the source has no file name.
    MissingInputFilename,
}

/// What stays the same during the compile step.
pub struct PlanView {
    pub object: Seq<char>,
    pub input: Seq<char>,
    pub file_name: Seq<char>,
    pub common_args: Seq<Seq<char>>,
}

/// How far the compile step has come.
pub enum PhaseView {
    /// Waiting to learn whether the symbols file exists already.
    Probing(Seq<char>),
    /// Waiting for the preprocessed source to be written.
    Writing,
    /// Waiting for the attempt on the preprocessed source at this path.
    Primary(Seq<char>),
    /// Waiting for the attempt on the source itself.
    Fallback,
    /// Done.
    Finished,
}

/// The text of a [`CompileState`].
pub struct CompileView {
    pub plan: PlanView,
    pub phase: PhaseView,
    pub cacheable: Cacheable,
}

/// The text of a [`CompileAction`].
pub enum ActionView {
    ProbeDebugSymbols(Seq<char>),
    WriteSource(Seq<char>),
    Run(Seq<Seq<char>>),
    Finish(Cacheable),
}

/// The text of a [`CompileEvent`].
pub enum EventView {
    Probed(bool),
    SourceWritten(Seq<char>),
    Exited(bool),
}

/// The arguments of the attempt on the preprocessed source at `source`.
pub open spec fn primary_command(plan: PlanView, source: Seq<char>) -> Seq<Seq<char>> {
    seq!["-c"@, "-Fo"@ + plan.object] + plan.common_args + seq![source]
}

/// The arguments of the attempt on the source itself.
pub open spec fn fallback_command(plan: PlanView) -> Seq<Seq<char>> {
    seq!["-c"@, plan.input, "-Fo"@ + plan.object] + plan.common_args
}

/// What the caller is to do in `state`.
pub open spec fn pending(state: CompileView) -> ActionView {
    match state.phase {
        PhaseView::Probing(path) => ActionView::ProbeDebugSymbols(path),
        PhaseView::Writing => ActionView::WriteSource(state.plan.file_name),
        PhaseView::Primary(source) => ActionView::Run(primary_command(state.plan, source)),
        PhaseView::Fallback => ActionView::Run(fallback_command(state.plan)),
        PhaseView::Finished => ActionView::Finish(state.cacheable),
    }
}

/// The state that follows `state` on `event`. An event that the state
/// does not wait for changes nothing.
pub open spec fn next(state: CompileView, event: EventView) -> CompileView {
    match (state.phase, event) {
        (PhaseView::Probing(_), EventView::Probed(found)) => CompileView {
            phase: PhaseView::Writing,
            cacheable: if found {
                Cacheable::No
            } else {
                Cacheable::Yes
            },
            ..state
        },
        (PhaseView::Writing, EventView::SourceWritten(source)) => CompileView {
            phase: PhaseView::Primary(source),
            ..state
        },
        (PhaseView::Primary(_), EventView::Exited(true)) => CompileView {
            phase: PhaseView::Finished,
            ..state
        },
        (PhaseView::Primary(_), EventView::Exited(false)) => CompileView {
            phase: PhaseView::Fallback,
            ..state
        },
        (PhaseView::Fallback, EventView::Exited(_)) => CompileView {
            phase: PhaseView::Finished,
            ..state
        },
        _ => state,
    }
}

/// The state in which the compile step begins, for a source whose file
/// name is `file_name`.
pub open spec fn initial(parsed: ParsedView, file_name: Seq<char>) -> CompileView {
    CompileView {
        plan: PlanView {
            object: parsed.outputs[OutputKind::Object],
            input: parsed.input,
            file_name,
            common_args: parsed.common_args,
        },
        phase: if parsed.outputs.dom().contains(OutputKind::DebugSymbols) {
            PhaseView::Probing(parsed.outputs[OutputKind::DebugSymbols])
        } else {
            PhaseView::Writing
        },
        cacheable: Cacheable::Yes,
    }
}

/// How a compilation begins, or why it cannot.
pub open spec fn started(parsed: ParsedView, file_name: Option<Seq<char>>) -> Result<
    CompileView,
    CompileError,
> {
    if !parsed.outputs.dom().contains(OutputKind::Object) {
        Err(CompileError::MissingObjectOutput)
    } else if file_name is None {
        Err(CompileError::MissingInputFilename)
    } else {
        Ok(initial(parsed, file_name->0))
    }
}

/// What the caller is to do next.
#[derive(Debug, Clone, PartialEq, Eq)]
pub enum CompileAction {
    /// Look whether the file at this path, relative to the working
    /// directory, exists, and report [`CompileEvent::Probed`].
    ProbeDebugSymbols(String),
    /// Write the preprocessed source to a file of this name in a
    /// directory of its own, and report [`CompileEvent::SourceWritten`].
    WriteSource(String),
    /// Run the compiler with these arguments in the working directory,
    /// and report [`CompileEvent::Exited`].
    Run(Vec<String>),
    /// Remove the directory made for the source. The result of the
    /// compilation is the outcome of the last run, with this tag.
    Finish(Cacheable),
}

impl View for CompileAction {
    type V = ActionView;

    open spec fn view(&self) -> ActionView {
        match self {
            CompileAction::ProbeDebugSymbols(path) => ActionView::ProbeDebugSymbols(path@),
            CompileAction::WriteSource(name) => ActionView::WriteSource(name@),
            CompileAction::Run(arguments) => ActionView::Run(views(arguments@)),
            CompileAction::Finish(cacheable) => ActionView::Finish(*cacheable),
        }
    }
}

/// What came of an action.
#[derive(Debug, Clone, PartialEq, Eq)]
pub enum CompileEvent {
    /// Whether the symbols file exists.
    Probed(bool),
    /// The path of the file that holds the preprocessed source.
    SourceWritten(String),
    /// Whether the compiler succeeded.
    Exited(bool),
}

impl View for CompileEvent {
    type V = EventView;

    open spec fn view(&self) -> EventView {
        match self {
            CompileEvent::Probed(found) => EventView::Probed(*found),
            CompileEvent::SourceWritten(path) => EventView::SourceWritten(path@),
            CompileEvent::Exited(success) => EventView::Exited(*success),
        }
    }
}

#[derive(Debug, Clone, PartialEq, Eq)]
enum Phase {
    Probing(String),
    Writing,
    Primary(String),
    Fallback,
    Finished,
}

impl View for Phase {
    type V = PhaseView;

    closed spec fn view(&self) -> PhaseView {
        match self {
            Phase::Probing(path) => PhaseView::Probing(path@),
            Phase::Writing => PhaseView::Writing,
            Phase::Primary(source) => PhaseView::Primary(source@),
            Phase::Fallback => PhaseView::Fallback,
            Phase::Finished => PhaseView::Finished,
        }
    }
}

/// A compile step that is under way.
#[derive(Debug, Clone, PartialEq, Eq)]
pub struct CompileState {
    object: String,
    input: String,
    file_name: String,
    common_args: Vec<String>,
    phase: Phase,
    cacheable: Cacheable,
}

impl View for CompileState {
    type V = CompileView;

    closed spec fn view(&self) -> CompileView {
        CompileView {
            plan: PlanView {
                object: self.object@,
                input: self.input@,
                file_name: self.file_name@,
                common_args: views(self.common_args@),
            },
            phase: self.phase@,
            cacheable: self.cacheable,
        }
    }
}

fn clone_all(list: &Vec<String>, into: &mut Vec<String>)
    ensures
        views(final(into)@) == views(old(into)@) + views(list@),
{
    let mut i: usize = 0;
    assert(views(into@) + views(list@).take(0) =~= views(into@));
    while i < list.len()
        invariant
            i <= list.len(),
            views(into@) == views(old(into)@) + views(list@).take(i as int),
        decreases list.len() - i,
    {
        proof {
            lemma_views_push(into@, list@[i as int]);
            assert(views(old(into)@) + views(list@).take(i + 1) =~= (views(old(into)@) + views(
                list@,
            ).take(i as int)).push(list@[i as int]@));
        }
        into.push(list[i].clone());
        i += 1;
    }
    assert(views(list@).take(i as int) =~= views(list@));
}

impl CompileState {
    fn output_flag(&self) -> (r: String)
        ensures
            r@ == "-Fo"@ + self.object@,
    {
        let mut flag = "-Fo".to_owned();
        flag.append(self.object.as_str());
        flag
    }

    /// The tag the result will carry. It is settled once the symbols file
    /// has been looked for.
    pub fn cacheable(&self) -> (r: Cacheable)
        ensures
            r == self@.cacheable,
    {
        self.cacheable
    }

    /// Whether the compile step has ended.
    pub fn is_finished(&self) -> (r: bool)
        ensures
            r == (self@.phase is Finished),
    {
        match self.phase {
            Phase::Finished => true,
            _ => false,
        }
    }

    /// What the caller is to do now.
    pub fn pending(&self) -> (r: CompileAction)
        ensures
            r@ == pending(self@),
    {
        match &self.phase {
            Phase::Probing(path) => CompileAction::ProbeDebugSymbols(path.clone()),
            Phase::Writing => CompileAction::WriteSource(self.file_name.clone()),
            Phase::Primary(source) => {
                let mut arguments: Vec<String> = Vec::new();
                arguments.push("-c".to_owned());
                arguments.push(self.output_flag());
                assert(views(arguments@) =~= seq!["-c"@, "-Fo"@ + self.object@]);
                clone_all(&self.common_args, &mut arguments);
                proof {
                    lemma_views_push(arguments@, *source);
                }
                arguments.push(source.clone());
                assert(views(arguments@) =~= primary_command(self@.plan, source@));
                CompileAction::Run(arguments)
            },
            Phase::Fallback => {
                let mut arguments: Vec<String> = Vec::new();
                arguments.push("-c".to_owned());
                arguments.push(self.input.clone());
                arguments.push(self.output_flag());
                assert(views(arguments@) =~= seq!["-c"@, self.input@, "-Fo"@ + self.object@]);
                clone_all(&self.common_args, &mut arguments);
                CompileAction::Run(arguments)
            },
            Phase::Finished => CompileAction::Finish(self.cacheable),
        }
    }

    /// Takes what came of the pending action, and names the next.
    pub fn step(self, event: CompileEvent) -> (r: (CompileState, CompileAction))
        ensures
            r.0@ == next(self@, event@),
            r.1@ == pending(r.0@),
    {
        let CompileState { object, input, file_name, common_args, phase, cacheable } = self;
        let (phase, cacheable) = match (phase, event) {
            (Phase::Probing(_), CompileEvent::Probed(found)) => (
                Phase::Writing,
                if found {
                    Cacheable::No
                } else {
                    Cacheable::Yes
                },
            ),
            (Phase::Writing, CompileEvent::SourceWritten(source)) => (
                Phase::Primary(source),
                cacheable,
            ),
            (Phase::Primary(_), CompileEvent::Exited(true)) => (Phase::Finished, cacheable),
            (Phase::Primary(_), CompileEvent::Exited(false)) => (Phase::Fallback, cacheable),
            (Phase::Fallback, CompileEvent::Exited(_)) => (Phase::Finished, cacheable),
            (phase, _) => (phase, cacheable),
        };
        let state = CompileState { object, input, file_name, common_args, phase, cacheable };
        let action = state.pending();
        (state, action)
    }

    /// Begins the compile step for a source whose file name is
    /// `file_name`.
    pub fn start(parsed_args: &ParsedArguments, file_name: Option<String>) -> (r: Result<
        (CompileState, CompileAction),
        CompileError,
    >)
        ensures
            match r {
                Ok((state, action)) => started(parsed_args@, option_view(file_name)) == Ok::<
                    CompileView,
                    CompileError,
                >(state@) && action@ == pending(state@),
                Err(error) => started(parsed_args@, option_view(file_name)) == Err::<
                    CompileView,
                    CompileError,
                >(error),
            },
    {
        let object = match parsed_args.outputs.get(OutputKind::Object) {
            Some(object) => object.clone(),
            None => {
                return Err(CompileError::MissingObjectOutput);
            },
        };
        let file_name = match file_name {
            Some(file_name) => file_name,
            None => {
                return Err(CompileError::MissingInputFilename);
            },
        };
        let phase = match parsed_args.outputs.get(OutputKind::DebugSymbols) {
            Some(path) => Phase::Probing(path.clone()),
            None => Phase::Writing,
        };
        let mut common_args: Vec<String> = Vec::new();
        clone_all(&parsed_args.common_args, &mut common_args);
        assert(views(common_args@) =~= views(parsed_args.common_args@));
        let state = CompileState {
            object,
            input: parsed_args.input.clone(),
            file_name,
            common_args,
            phase,
            cacheable: Cacheable::Yes,
        };
        let action = state.pending();
        Ok((state, action))
    }
}

/// Begins the compile step: names the first thing to do, or says why the
/// compilation cannot be started. The preprocessed source is written
/// under the file name of the source, as the platform's path syntax
/// defines it.
pub fn compile(parsed_args: &ParsedArguments) -> (r: Result<
    (CompileState, CompileAction),
    CompileError,
>)
    ensures
        match r {
            Ok((state, action)) => started(parsed_args@, file_name_of(parsed_args@.input)) == Ok::<
                CompileView,
                CompileError,
            >(state@) && action@ == pending(state@),
            Err(error) => started(parsed_args@, file_name_of(parsed_args@.input)) == Err::<
                CompileView,
                CompileError,
            >(error),
        },
        file_name_agrees(parsed_args@.input, file_name_of(parsed_args@.input)),
{
    let file_name = path_file_name(parsed_args.input.as_str());
    CompileState::start(parsed_args, file_name)
}

} // verus!
