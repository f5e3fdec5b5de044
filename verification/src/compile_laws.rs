//! What holds of every compile step.

use crate::arguments::{OutputKind, ParsedView};
use crate::compile::{
    fallback_command, initial, next, pending, primary_command, ActionView, Cacheable, CompileView,
    EventView, PhaseView,
};
use vstd::prelude::*;

verus! {

/// The state reached from `state` by `events`, taken in order.
pub open spec fn run(state: CompileView, events: Seq<EventView>) -> CompileView
    decreases events.len(),
{
    if events.len() == 0 {
        state
    } else {
        run(next(state, events[0]), events.skip(1))
    }
}

/// Once the symbols file has been looked for, or when there is none to
/// look for, nothing changes the tag.
pub proof fn law_tag_settled(state: CompileView, events: Seq<EventView>)
    requires
        !(state.phase is Probing),
    ensures
        run(state, events).cacheable == state.cacheable,
        run(state, events).plan == state.plan,
        !(run(state, events).phase is Probing),
    decreases events.len(),
{
    if events.len() > 0 {
        law_tag_settled(next(state, events[0]), events.skip(1));
    }
}

/// The result of a compilation may be cached unless it writes a symbols
/// file that exists before the compiler runs: with no symbols file among
/// the outputs the tag is `Yes` whatever happens; with one, the first
/// thing asked is whether it exists, and the answer alone decides.
pub proof fn law_cacheable(
    parsed: ParsedView,
    file_name: Seq<char>,
    found: bool,
    later: Seq<EventView>,
)
    ensures
        !parsed.outputs.dom().contains(OutputKind::DebugSymbols) ==> run(
            initial(parsed, file_name),
            later,
        ).cacheable == Cacheable::Yes,
        parsed.outputs.dom().contains(OutputKind::DebugSymbols) ==> {
            &&& pending(initial(parsed, file_name)) == ActionView::ProbeDebugSymbols(
                parsed.outputs[OutputKind::DebugSymbols],
            )
            &&& run(initial(parsed, file_name), seq![EventView::Probed(found)] + later).cacheable
                == (if found {
                Cacheable::No
            } else {
                Cacheable::Yes
            })
        },
{
    let start = initial(parsed, file_name);
    if parsed.outputs.dom().contains(OutputKind::DebugSymbols) {
        let events = seq![EventView::Probed(found)] + later;
        assert(events[0] == EventView::Probed(found));
        assert(events.skip(1) =~= later);
        law_tag_settled(next(start, events[0]), later);
    } else {
        law_tag_settled(start, later);
    }
}

/// When the attempt on the preprocessed source succeeds, the compile step
/// ends. When it fails, exactly one more attempt is made, on the source
/// itself, and the compile step ends with it whether it succeeds or not.
/// The tag is the same either way.
pub proof fn law_fallback(state: CompileView, source: Seq<char>, outcome: bool)
    requires
        state.phase == PhaseView::Primary(source),
    ensures
        pending(state) == ActionView::Run(primary_command(state.plan, source)),
        pending(next(state, EventView::Exited(true))) == ActionView::Finish(state.cacheable),
        ({
            let second = next(state, EventView::Exited(false));
            &&& pending(second) == ActionView::Run(fallback_command(state.plan))
            &&& fallback_command(state.plan).contains(state.plan.input)
            &&& pending(next(second, EventView::Exited(outcome))) == ActionView::Finish(
                state.cacheable,
            )
        }),
{
    assert(fallback_command(state.plan)[1] == state.plan.input);
}

/// A compile step that has ended stays ended: no event makes it ask for
/// another run.
pub proof fn law_finished_stays(state: CompileView, events: Seq<EventView>)
    requires
        state.phase is Finished,
    ensures
        run(state, events) == state,
        pending(state) == ActionView::Finish(state.cacheable),
    decreases events.len(),
{
    if events.len() > 0 {
        law_finished_stays(state, events.skip(1));
    }
}

} // verus!
