//! What a sequence of recorded commands makes the device do.

use crate::encoder::{Buffer, CommandView, ParamView, Pipeline};
use crate::size::MTLSize;
use vstd::prelude::*;

verus! {

/// One run of a kernel, with everything that it depends on.
pub struct Dispatch {
    pub pipeline: Option<Pipeline>,
    pub args: Map<nat, ParamView>,
    pub grid: MTLSize,
    pub group: MTLSize,
}

/// The pipeline that is selected after `commands`.
pub open spec fn selected_pipeline(commands: Seq<CommandView>) -> Option<Pipeline>
    decreases commands.len(),
{
    if commands.len() == 0 {
        None
    } else {
        match commands.last() {
            CommandView::SetPipeline(pipeline) => Some(pipeline),
            _ => selected_pipeline(commands.drop_last()),
        }
    }
}

/// The argument slots that are bound after `commands`, and what they hold: a
/// slot keeps what was bound to it last.
pub open spec fn bound_args(commands: Seq<CommandView>) -> Map<nat, ParamView>
    decreases commands.len(),
{
    if commands.len() == 0 {
        Map::empty()
    } else {
        match commands.last() {
            CommandView::Bind { index, param } => bound_args(commands.drop_last()).insert(
                index,
                param,
            ),
            _ => bound_args(commands.drop_last()),
        }
    }
}

/// The kernel runs that `commands` asks for, in order. Each runs with the
/// pipeline and the arguments that are set when it is encoded.
pub open spec fn dispatches(commands: Seq<CommandView>) -> Seq<Dispatch>
    decreases commands.len(),
{
    if commands.len() == 0 {
        Seq::empty()
    } else {
        let before = commands.drop_last();
        match commands.last() {
            CommandView::DispatchThreads { grid, group } => dispatches(before).push(
                Dispatch {
                    pipeline: selected_pipeline(before),
                    args: bound_args(before),
                    grid,
                    group,
                },
            ),
            _ => dispatches(before),
        }
    }
}

/// The buffers that `commands` binds for reading.
pub open spec fn reads(commands: Seq<CommandView>) -> Set<Buffer> {
    Set::new(
        |buffer: Buffer|
            exists|i: int|
                0 <= i < commands.len() && (#[trigger] commands[i] matches CommandView::Bind {
                    param,
                    ..
                } && param == ParamView::Read(buffer)),
    )
}

/// The buffers that `commands` binds for writing.
pub open spec fn writes(commands: Seq<CommandView>) -> Set<Buffer> {
    Set::new(
        |buffer: Buffer|
            exists|i: int|
                0 <= i < commands.len() && (#[trigger] commands[i] matches CommandView::Bind {
                    param,
                    ..
                } && param == ParamView::Write(buffer)),
    )
}

/// Whether `later` reads what `earlier` writes, so that an encoder which orders
/// dispatches by their bindings has to make `later` wait.
pub open spec fn must_wait(earlier: Seq<CommandView>, later: Seq<CommandView>) -> bool {
    exists|buffer: Buffer| #[trigger]
        writes(earlier).contains(buffer) && reads(later).contains(buffer)
}

/// The commands that bind `params` to the slots from zero on.
pub open spec fn binds(params: Seq<ParamView>) -> Seq<CommandView> {
    Seq::new(
        params.len(),
        |i: int| CommandView::Bind { index: i as nat, param: params[i] },
    )
}

/// `params` as argument slots from zero on.
pub open spec fn slots(params: Seq<ParamView>) -> Map<nat, ParamView> {
    Map::new(|i: nat| i < params.len(), |i: nat| params[i as int])
}

/// Nothing is set, bound or run where nothing is encoded.
pub proof fn lemma_empty()
    ensures
        selected_pipeline(Seq::empty()) is None,
        forall|slot: nat| !#[trigger] bound_args(Seq::empty()).contains_key(slot),
        dispatches(Seq::empty()).len() == 0,
{
}

/// One command more.
pub proof fn lemma_push(before: Seq<CommandView>, command: CommandView)
    ensures
        selected_pipeline(before.push(command)) == (match command {
            CommandView::SetPipeline(pipeline) => Some(pipeline),
            _ => selected_pipeline(before),
        }),
        bound_args(before.push(command)) == (match command {
            CommandView::Bind { index, param } => bound_args(before).insert(index, param),
            _ => bound_args(before),
        }),
        dispatches(before.push(command)) == (match command {
            CommandView::DispatchThreads { grid, group } => dispatches(before).push(
                Dispatch {
                    pipeline: selected_pipeline(before),
                    args: bound_args(before),
                    grid,
                    group,
                },
            ),
            _ => dispatches(before),
        }),
{
    assert(before.push(command).drop_last() =~= before);
}

/// Binding changes the argument slots and nothing else.
pub proof fn lemma_binds(before: Seq<CommandView>, params: Seq<ParamView>)
    ensures
        selected_pipeline(before + binds(params)) == selected_pipeline(before),
        bound_args(before + binds(params)) == bound_args(before).union_prefer_right(slots(params)),
        dispatches(before + binds(params)) == dispatches(before),
    decreases params.len(),
{
    if params.len() == 0 {
        assert(before + binds(params) =~= before);
        assert(bound_args(before).union_prefer_right(slots(params)) =~= bound_args(before));
    } else {
        let init = params.drop_last();
        let last = CommandView::Bind {
            index: (params.len() - 1) as nat,
            param: params.last(),
        };
        lemma_binds(before, init);
        assert(before + binds(params) =~= (before + binds(init)).push(last));
        lemma_push(before + binds(init), last);
        assert(bound_args(before).union_prefer_right(slots(params)) =~= bound_args(
            before,
        ).union_prefer_right(slots(init)).insert((params.len() - 1) as nat, params.last()));
    }
}

} // verus!
