//! What holds of decode steps as a whole.

use crate::encoder::{Buffer, Command, CommandView, Param, ParamView, Pipeline};
use crate::gdn::{DecodeStep, DECODE_STEP_KERNEL, MAX_GROUP_WIDTH};
use crate::label::{decimal, law_decimal_writes_its_number, writes_number};
use crate::trace::{
    binds, bound_args, dispatches, lemma_binds, lemma_push, must_wait, reads, selected_pipeline,
    slots, writes, Dispatch,
};
use vstd::arithmetic::div_mod::{lemma_fundamental_div_mod, lemma_fundamental_div_mod_converse};
use vstd::prelude::*;

verus! {

/// The buffers that a step takes its inputs from.
pub open spec fn inputs(step: DecodeStep) -> Set<Buffer> {
    set![step.q, step.k, step.v, step.g, step.beta, step.state_in]
}

/// The buffers that a step leaves its results in.
pub open spec fn outputs(step: DecodeStep) -> Set<Buffer> {
    set![step.state_out, step.out]
}

/// The kernel run of `step` on `pipeline` in an encoder whose argument slots
/// hold `args`: the step's own slots replace what was there.
pub open spec fn dispatch_of(
    step: DecodeStep,
    pipeline: Pipeline,
    args: Map<nat, ParamView>,
) -> Dispatch {
    Dispatch {
        pipeline: Some(pipeline),
        args: args.union_prefer_right(slots(step.params())),
        grid: step.grid(),
        group: step.group(),
    }
}

/// The commands of `steps`, one after the other, on `pipeline`.
pub open spec fn steps_commands(steps: Seq<DecodeStep>, pipeline: Pipeline) -> Seq<CommandView>
    decreases steps.len(),
{
    if steps.len() == 0 {
        Seq::empty()
    } else {
        steps_commands(steps.drop_last(), pipeline) + steps.last().commands(pipeline)
    }
}

proof fn lemma_step(before: Seq<CommandView>, step: DecodeStep, pipeline: Pipeline)
    ensures
        selected_pipeline(before + step.commands(pipeline)) == Some(pipeline),
        bound_args(before + step.commands(pipeline)) == bound_args(before).union_prefer_right(
            slots(step.params()),
        ),
        dispatches(before + step.commands(pipeline)) == dispatches(before).push(
            dispatch_of(step, pipeline, bound_args(before)),
        ),
{
    let select = CommandView::SetPipeline(pipeline);
    let label = CommandView::DebugGroup(step.label());
    let run = CommandView::DispatchThreads { grid: step.grid(), group: step.group() };
    let opened = before.push(select).push(label);
    let bound = opened + binds(step.params());
    assert(before + step.commands(pipeline) =~= bound.push(run));
    lemma_push(before, select);
    lemma_push(before.push(select), label);
    lemma_binds(opened, step.params());
    lemma_push(bound, run);
}

/// A decode step is exactly one dispatch, with the step's pipeline, arguments,
/// grid and threadgroup, whatever was encoded before it. A step whose pipeline
/// cannot be loaded is none, and leaves the encoder as it was.
pub proof fn law_one_dispatch<E>(
    step: DecodeStep,
    loaded: Result<Pipeline, E>,
    before: Seq<CommandView>,
    after: Seq<CommandView>,
    result: Result<(), E>,
)
    requires
        step.outcome(loaded, before, after, result),
    ensures
        result is Ok <==> loaded is Ok,
        loaded matches Ok(pipeline) ==> dispatches(after) == dispatches(before).push(
            dispatch_of(step, pipeline, bound_args(before)),
        ),
        loaded is Err ==> after == before,
{
    if let Ok(pipeline) = loaded {
        lemma_step(before, step, pipeline);
    }
}

/// The arguments of a step's dispatch are the step's own in all nine slots that
/// the kernel takes, whatever the slots held before.
pub proof fn law_arguments_are_the_steps_own(
    step: DecodeStep,
    pipeline: Pipeline,
    args: Map<nat, ParamView>,
    slot: nat,
)
    requires
        slot < step.params().len(),
    ensures
        step.params().len() == 9,
        dispatch_of(step, pipeline, args).args.contains_key(slot),
        dispatch_of(step, pipeline, args).args[slot] == step.params()[slot as int],
{
}

/// Steps that are encoded one after the other run one after the other, each with
/// its own arguments: none is left over from the step before. Afterwards the
/// slots hold the arguments of the last one.
pub proof fn law_steps_run_in_order(
    before: Seq<CommandView>,
    steps: Seq<DecodeStep>,
    pipeline: Pipeline,
)
    ensures
        dispatches(before + steps_commands(steps, pipeline)) == dispatches(before) + Seq::new(
            steps.len(),
            |i: int| dispatch_of(steps[i], pipeline, bound_args(before)),
        ),
        bound_args(before + steps_commands(steps, pipeline)) == (if steps.len() == 0 {
            bound_args(before)
        } else {
            bound_args(before).union_prefer_right(slots(steps.last().params()))
        }),
    decreases steps.len(),
{
    let all = Seq::new(
        steps.len(),
        |i: int| dispatch_of(steps[i], pipeline, bound_args(before)),
    );
    if steps.len() == 0 {
        assert(before + steps_commands(steps, pipeline) =~= before);
        assert(dispatches(before) + all =~= dispatches(before));
    } else {
        let init = steps.drop_last();
        let last = steps.last();
        let earlier = before + steps_commands(init, pipeline);
        law_steps_run_in_order(before, init, pipeline);
        lemma_step(earlier, last, pipeline);
        assert(before + steps_commands(steps, pipeline) =~= earlier + last.commands(pipeline));
        assert(bound_args(earlier).union_prefer_right(slots(last.params())) =~= bound_args(
            before,
        ).union_prefer_right(slots(last.params())));
        assert(dispatches(before) + all =~= (dispatches(before) + Seq::new(
            init.len(),
            |i: int| dispatch_of(init[i], pipeline, bound_args(before)),
        )).push(dispatch_of(last, pipeline, bound_args(earlier))));
    }
}

/// A step binds its inputs, and nothing else, for reading; it binds `state_out`
/// and `out`, and nothing else, for writing.
pub proof fn law_bindings(step: DecodeStep, pipeline: Pipeline)
    ensures
        reads(step.commands(pipeline)) == inputs(step),
        writes(step.commands(pipeline)) == outputs(step),
{
    let commands = step.commands(pipeline);
    assert forall|i: int| 0 <= i < 9 implies #[trigger] commands[i + 2] == (CommandView::Bind {
        index: i as nat,
        param: step.params()[i],
    }) by {}
    assert forall|buffer: Buffer| #[trigger]
        reads(commands).contains(buffer) == inputs(step).contains(buffer) by {
        if inputs(step).contains(buffer) {
            let i: int = if buffer == step.q {
                0
            } else if buffer == step.k {
                1
            } else if buffer == step.v {
                2
            } else if buffer == step.g {
                3
            } else if buffer == step.beta {
                4
            } else {
                5
            };
            assert(commands[i + 2] == (CommandView::Bind {
                index: i as nat,
                param: ParamView::Read(buffer),
            }));
        }
    }
    assert forall|buffer: Buffer| #[trigger]
        writes(commands).contains(buffer) == outputs(step).contains(buffer) by {
        if outputs(step).contains(buffer) {
            let i: int = if buffer == step.state_out {
                6
            } else {
                7
            };
            assert(commands[i + 2] == (CommandView::Bind {
                index: i as nat,
                param: ParamView::Write(buffer),
            }));
        }
    }
    assert(reads(commands) =~= inputs(step));
    assert(writes(commands) =~= outputs(step));
}

/// With fresh output buffers a step writes none of its inputs: `state_in` in
/// particular is left untouched. With one that is also an input it does not.
pub proof fn law_fresh_outputs_leave_inputs_untouched(step: DecodeStep, pipeline: Pipeline)
    ensures
        writes(step.commands(pipeline)).disjoint(inputs(step)) <==> (!inputs(step).contains(
            step.state_out,
        ) && !inputs(step).contains(step.out)),
{
    law_bindings(step, pipeline);
    assert(outputs(step).contains(step.state_out));
    assert(outputs(step).contains(step.out));
}

/// A step that starts from the state another step left has to wait for it: the
/// bindings of the two show the dependency. They show none but between an output
/// of the first and an input of the second.
pub proof fn law_next_step_waits(
    first: DecodeStep,
    first_pipeline: Pipeline,
    next: DecodeStep,
    next_pipeline: Pipeline,
)
    ensures
        next.state_in == first.state_out ==> must_wait(
            first.commands(first_pipeline),
            next.commands(next_pipeline),
        ),
        must_wait(first.commands(first_pipeline), next.commands(next_pipeline)) <==> (inputs(
            next,
        ).contains(first.state_out) || inputs(next).contains(first.out)),
{
    law_bindings(first, first_pipeline);
    law_bindings(next, next_pipeline);
    let written = writes(first.commands(first_pipeline));
    assert(written.contains(first.state_out));
    assert(written.contains(first.out));
}

/// The constants that the kernel gets are the dimensions themselves exactly where
/// these fit in 32 bits.
pub proof fn law_constants_are_the_dimensions(step: DecodeStep)
    ensures
        step.args().hk == step.hk <==> step.hk <= u32::MAX,
        step.args().hv == step.hv <==> step.hv <= u32::MAX,
        step.args().h == step.h <==> step.h <= u32::MAX,
{
}

/// The grid has one thread for each element of `out`: the thread at `(x, y, z)`
/// stands for the element `[z, y, x]` of a contiguous `[b, h, hv]` tensor, every
/// element has a thread, and no two threads share one.
pub proof fn law_one_thread_per_output_element(step: DecodeStep)
    ensures
        step.grid().volume() == step.b * step.h * step.hv,
        forall|x: int, y: int, z: int|
            step.grid().contains(x, y, z) ==> 0 <= #[trigger] step.grid().offset(x, y, z)
                < step.grid().volume(),
        forall|n: int| 0 <= n < step.grid().volume() ==> #[trigger] step.grid().reaches(n),
        forall|x: int, y: int, z: int, u: int, v: int, w: int|
            step.grid().contains(x, y, z) && step.grid().contains(u, v, w)
                && #[trigger] step.grid().offset(x, y, z) == #[trigger] step.grid().offset(u, v, w)
                ==> x == u && y == v && z == w,
{
    let grid = step.grid();
    let width = grid.width as int;
    let height = grid.height as int;
    let depth = grid.depth as int;
    assert forall|x: int, y: int, z: int| grid.contains(x, y, z) implies 0
        <= #[trigger] grid.offset(x, y, z) < grid.volume() by {
        assert(0 <= (z * height + y) * width + x < depth * height * width) by (nonlinear_arith)
            requires
                0 <= x < width,
                0 <= y < height,
                0 <= z < depth,
        {
            assert(0 <= z * height + y <= depth * height - 1);
            assert((z * height + y) * width <= (depth * height - 1) * width);
        }
    }
    assert forall|n: int| 0 <= n < grid.volume() implies #[trigger] grid.reaches(n) by {
        assert(width > 0 && height > 0) by (nonlinear_arith)
            requires
                0 <= n < depth * height * width,
                width >= 0,
                height >= 0,
                depth >= 0,
        ;
        let row = n / width;
        lemma_fundamental_div_mod(n, width);
        lemma_fundamental_div_mod(row, height);
        assert(0 <= row < depth * height) by (nonlinear_arith)
            requires
                n == width * row + n % width,
                0 <= n % width < width,
                0 <= n < depth * height * width,
        ;
        let z = row / height;
        assert(0 <= z < depth) by (nonlinear_arith)
            requires
                row == height * z + row % height,
                0 <= row % height < height,
                0 <= row < depth * height,
        ;
        assert(z * height == height * z) by (nonlinear_arith);
        assert(row * width == width * row) by (nonlinear_arith);
        assert(grid.contains(n % width, row % height, z));
        assert(grid.offset(n % width, row % height, z) == n);
    }
    assert forall|x: int, y: int, z: int, u: int, v: int, w: int|
        grid.contains(x, y, z) && grid.contains(u, v, w) && #[trigger] grid.offset(x, y, z)
            == #[trigger] grid.offset(u, v, w) implies x == u && y == v && z == w by {
        let n = grid.offset(x, y, z);
        lemma_fundamental_div_mod_converse(n, width, z * height + y, x);
        lemma_fundamental_div_mod_converse(n, width, w * height + v, u);
        lemma_fundamental_div_mod_converse(z * height + y, height, z, y);
        lemma_fundamental_div_mod_converse(w * height + v, height, w, v);
    }
}

/// A threadgroup has at most [`MAX_GROUP_WIDTH`] threads and lies within any grid
/// that has threads. It is as wide as the grid wherever that many are enough.
pub proof fn law_threadgroup_fits(step: DecodeStep)
    ensures
        step.group().volume() <= MAX_GROUP_WIDTH,
        step.group().width <= step.grid().width,
        step.hv <= MAX_GROUP_WIDTH ==> step.group().width == step.grid().width,
        step.grid().volume() > 0 ==> {
            &&& step.group().volume() > 0
            &&& step.group().height <= step.grid().height
            &&& step.group().depth <= step.grid().depth
        },
{
    let group = step.group();
    assert(group.depth * group.height * group.width == group.width) by (nonlinear_arith)
        requires
            group.depth == 1,
            group.height == 1,
    ;
    if step.grid().volume() > 0 {
        assert(step.hv > 0 && step.h > 0 && step.b > 0) by (nonlinear_arith)
            requires
                step.b * step.h * step.hv > 0,
        ;
    }
}

/// A successful step adds to the record and takes nothing from it; a failed one
/// hands on the very error that loading the pipeline gave.
pub proof fn law_earlier_commands_stay<E>(
    step: DecodeStep,
    loaded: Result<Pipeline, E>,
    before: Seq<CommandView>,
    after: Seq<CommandView>,
    result: Result<(), E>,
)
    requires
        step.outcome(loaded, before, after, result),
    ensures
        before.len() <= after.len(),
        forall|i: int| 0 <= i < before.len() ==> #[trigger] after[i] == before[i],
        loaded is Ok <==> after.len() == before.len() + 12,
        loaded is Err <==> after.len() == before.len(),
        loaded is Ok <==> result is Ok,
        loaded matches Err(e) ==> result matches Err(f) && f == e,
{
}

/// The kernel run of a step finds each tensor in the slot that the kernel takes
/// it from, whatever the dimensions. Slots zero to five hold, for reading, the
/// query, the key, the value, the decay, beta and the old state; slots six and
/// seven hold, for writing, the new state and the output. The run is on the loaded
/// pipeline.
pub proof fn law_each_tensor_in_its_slot<E>(
    step: DecodeStep,
    loaded: Result<Pipeline, E>,
    before: Seq<CommandView>,
    after: Seq<CommandView>,
    result: Result<(), E>,
)
    requires
        step.outcome(loaded, before, after, result),
        loaded is Ok,
    ensures
        dispatches(after).len() == dispatches(before).len() + 1,
        dispatches(after).drop_last() == dispatches(before),
        dispatches(after).last().pipeline == Some(loaded->Ok_0),
        forall|slot: nat| slot < 9 ==> #[trigger] dispatches(after).last().args.contains_key(slot),
        dispatches(after).last().args[0] == ParamView::Read(step.q),
        dispatches(after).last().args[1] == ParamView::Read(step.k),
        dispatches(after).last().args[2] == ParamView::Read(step.v),
        dispatches(after).last().args[3] == ParamView::Read(step.g),
        dispatches(after).last().args[4] == ParamView::Read(step.beta),
        dispatches(after).last().args[5] == ParamView::Read(step.state_in),
        dispatches(after).last().args[6] == ParamView::Write(step.state_out),
        dispatches(after).last().args[7] == ParamView::Write(step.out),
{
    lemma_step(before, step, loaded->Ok_0);
    assert(dispatches(after).drop_last() =~= dispatches(before));
}

/// The record shows the same of the bindings themselves: a command that a step
/// adds and that binds a slot binds the tensor of that slot, and the nine slots
/// are bound once each, in order.
pub proof fn law_each_slot_is_bound_once<E>(
    step: DecodeStep,
    loaded: Result<Pipeline, E>,
    before: Seq<CommandView>,
    after: Seq<CommandView>,
    result: Result<(), E>,
    i: int,
)
    requires
        step.outcome(loaded, before, after, result),
        before.len() <= i < after.len(),
    ensures
        after[i] is SetPipeline <==> i == before.len(),
        after[i] is DebugGroup <==> i == before.len() + 1,
        after[i] is Bind <==> before.len() + 2 <= i < before.len() + 11,
        after[i] is DispatchThreads <==> i == before.len() + 11,
        after[i] matches CommandView::SetPipeline(p) ==> loaded matches Ok(q) && p == q,
        after[i] matches CommandView::Bind { index, param } ==> {
            &&& index == i - before.len() - 2
            &&& index == 0 ==> param == ParamView::Read(step.q)
            &&& index == 1 ==> param == ParamView::Read(step.k)
            &&& index == 2 ==> param == ParamView::Read(step.v)
            &&& index == 3 ==> param == ParamView::Read(step.g)
            &&& index == 4 ==> param == ParamView::Read(step.beta)
            &&& index == 5 ==> param == ParamView::Read(step.state_in)
            &&& index == 6 ==> param == ParamView::Write(step.state_out)
            &&& index == 7 ==> param == ParamView::Write(step.out)
            &&& index == 8 ==> param is Bytes
        },
{
}

/// The constants in the ninth slot are three words: `hk`, `hv` and `h`, each
/// congruent to its dimension modulo two to the power of 32, and so equal to it
/// where it fits in a word.
pub proof fn law_constant_words<E>(
    step: DecodeStep,
    loaded: Result<Pipeline, E>,
    before: Seq<CommandView>,
    after: Seq<CommandView>,
    result: Result<(), E>,
)
    requires
        step.outcome(loaded, before, after, result),
        loaded is Ok,
    ensures
        dispatches(after).last().args[8] matches ParamView::Bytes(words) && {
            &&& words.len() == 3
            &&& (step.hk - words[0]) % 0x1_0000_0000 == 0
            &&& (step.hv - words[1]) % 0x1_0000_0000 == 0
            &&& (step.h - words[2]) % 0x1_0000_0000 == 0
            &&& step.hk <= u32::MAX ==> words[0] == step.hk
            &&& step.hv <= u32::MAX ==> words[1] == step.hv
            &&& step.h <= u32::MAX ==> words[2] == step.h
        },
        after[before.len() as int + 10] == (CommandView::Bind {
            index: 8,
            param: dispatches(after).last().args[8],
        }),
{
    lemma_step(before, step, loaded->Ok_0);
}

/// A thread is dispatched exactly where it stands for an element of `out`: the
/// thread at `(x, y, z)` for the element `[z, y, x]`, with `x` along the value
/// dimension, `y` along the heads and `z` along the batch. Its offset is that of
/// the element in a contiguous `[b, h, hv]` tensor.
pub proof fn law_threads_are_output_elements<E>(
    step: DecodeStep,
    loaded: Result<Pipeline, E>,
    before: Seq<CommandView>,
    after: Seq<CommandView>,
    result: Result<(), E>,
)
    requires
        step.outcome(loaded, before, after, result),
        loaded is Ok,
    ensures
        after.last() matches CommandView::DispatchThreads { grid, group } && {
            &&& grid == dispatches(after).last().grid
            &&& group == dispatches(after).last().group
        },
        dispatches(after).last().grid.width == step.hv,
        dispatches(after).last().grid.height == step.h,
        dispatches(after).last().grid.depth == step.b,
        forall|x: int, y: int, z: int| #[trigger]
            dispatches(after).last().grid.contains(x, y, z) <==> (0 <= x < step.hv && 0 <= y
                < step.h && 0 <= z < step.b),
        forall|x: int, y: int, z: int| #[trigger]
            dispatches(after).last().grid.offset(x, y, z) == (z * step.h + y) * step.hv + x,
{
    lemma_step(before, step, loaded->Ok_0);
}

/// Threadgroups lie along the value dimension alone and are as wide as they can
/// be with no more than 64 threads and no more than the grid has in a row.
pub proof fn law_threadgroup_is_widest<E>(
    step: DecodeStep,
    loaded: Result<Pipeline, E>,
    before: Seq<CommandView>,
    after: Seq<CommandView>,
    result: Result<(), E>,
    width: int,
)
    requires
        step.outcome(loaded, before, after, result),
        loaded is Ok,
    ensures
        dispatches(after).last().group.height == 1,
        dispatches(after).last().group.depth == 1,
        width <= dispatches(after).last().group.width <==> (width <= 64 && width <= step.hv),
{
    lemma_step(before, step, loaded->Ok_0);
}

/// The recurrent state is carried from a step to the next: where the next step
/// starts from the buffer that the first leaves its state in, the first kernel
/// run writes that buffer in the slot for the new state, and the run after it
/// reads it in the slot for the old one. The value is read in its own slot.
pub proof fn law_state_is_carried<E>(
    first: DecodeStep,
    next: DecodeStep,
    first_loaded: Result<Pipeline, E>,
    next_loaded: Result<Pipeline, E>,
    before: Seq<CommandView>,
    between: Seq<CommandView>,
    after: Seq<CommandView>,
    first_result: Result<(), E>,
    next_result: Result<(), E>,
)
    requires
        first.outcome(first_loaded, before, between, first_result),
        next.outcome(next_loaded, between, after, next_result),
        first_result is Ok,
        next_result is Ok,
        next.state_in == first.state_out,
    ensures
        dispatches(after).len() == dispatches(before).len() + 2,
        ({
            let earlier = dispatches(after)[dispatches(before).len() as int];
            let later = dispatches(after)[dispatches(before).len() as int + 1];
            &&& earlier.args[6] == ParamView::Write(first.state_out)
            &&& later.args[5] == ParamView::Read(first.state_out)
            &&& earlier.args[5] == ParamView::Read(first.state_in)
            &&& later.args[6] == ParamView::Write(next.state_out)
            &&& earlier.args[2] == ParamView::Read(first.v)
            &&& later.args[2] == ParamView::Read(next.v)
            &&& earlier.args[7] == ParamView::Write(first.out)
            &&& later.args[7] == ParamView::Write(next.out)
        }),
{
    law_each_tensor_in_its_slot(first, first_loaded, before, between, first_result);
    law_each_tensor_in_its_slot(next, next_loaded, between, after, next_result);
    assert(dispatches(after)[dispatches(before).len() as int] == dispatches(
        after,
    ).drop_last()[dispatches(before).len() as int]);
}

/// The debug group of a step spells out its dimensions: its label is the name of
/// the step with the batch, the heads, the key and the value dimension behind it,
/// each written in decimal.
pub proof fn law_label_spells_the_dimensions<E>(
    step: DecodeStep,
    loaded: Result<Pipeline, E>,
    before: Seq<CommandView>,
    after: Seq<CommandView>,
    result: Result<(), E>,
)
    requires
        step.outcome(loaded, before, after, result),
        loaded is Ok,
    ensures
        exists|b: Seq<char>, h: Seq<char>, hk: Seq<char>, hv: Seq<char>| #[trigger]
            writes_number(b, step.b as int) && #[trigger] writes_number(h, step.h as int)
                && #[trigger] writes_number(hk, step.hk as int) && #[trigger] writes_number(
                hv,
                step.hv as int,
            ) && after[before.len() as int + 1] == CommandView::DebugGroup(
                "gdn_decode_step b="@ + b + " h="@ + h + " hk="@ + hk + " hv="@ + hv,
            ),
        after[before.len() as int + 1] == CommandView::DebugGroup(
            "gdn_decode_step b="@ + decimal(step.b as nat) + " h="@ + decimal(step.h as nat)
                + " hk="@ + decimal(step.hk as nat) + " hv="@ + decimal(step.hv as nat),
        ),
{
    law_decimal_writes_its_number(step.b as nat);
    law_decimal_writes_its_number(step.h as nat);
    law_decimal_writes_its_number(step.hk as nat);
    law_decimal_writes_its_number(step.hv as nat);
    let (b, h, hk, hv) = (
        decimal(step.b as nat),
        decimal(step.h as nat),
        decimal(step.hk as nat),
        decimal(step.hv as nat),
    );
    assert(after[before.len() as int + 1] == CommandView::DebugGroup(
        "gdn_decode_step b="@ + b + " h="@ + h + " hk="@ + hk + " hv="@ + hv,
    ));
}

/// What an argument slot is said to hold is what the recorded parameter holds.
pub proof fn law_param_view_is_faithful(param: Param, buffer: Buffer, words: Seq<u32>)
    ensures
        param@ == ParamView::Read(buffer) <==> param == Param::Read(buffer),
        param@ == ParamView::Write(buffer) <==> param == Param::Write(buffer),
        param@ == ParamView::Bytes(words) <==> (param matches Param::Bytes(recorded) && recorded@
            == words),
{
}

/// What a command is said to do is what the recorded command holds.
pub proof fn law_command_view_is_faithful(command: Command)
    ensures
        match command {
            Command::SetPipeline(pipeline) => command@ == CommandView::SetPipeline(pipeline),
            Command::DebugGroup(label) => command@ == CommandView::DebugGroup(label@),
            Command::Bind { index, param } => command@ == (CommandView::Bind {
                index: index as nat,
                param: param@,
            }),
            Command::DispatchThreads { grid, group } => command@ == (CommandView::DispatchThreads {
                grid,
                group,
            }),
        },
{
}

/// The kernel that is asked for.
pub proof fn law_kernel_name()
    ensures
        DECODE_STEP_KERNEL@ == "kernel_gdn_decode_step_f32"@,
        MAX_GROUP_WIDTH == 64,
{
}

} // verus!
