use gdn_dispatch::encoder::{Buffer, Command, ComputeCommandEncoder, Param, Pipeline};
use gdn_dispatch::gdn::{
    call_gdn_decode_step_f32, encode_gdn_decode_step_f32, Source, DECODE_STEP_KERNEL,
    MAX_GROUP_WIDTH,
};
use gdn_dispatch::size::MTLSize;

fn read(index: usize, id: u64) -> Command {
    Command::Bind { index, param: Param::Read(Buffer { id }) }
}

fn write(index: usize, id: u64) -> Command {
    Command::Bind { index, param: Param::Write(Buffer { id }) }
}

/// Encodes a step on the buffers with handles `ids`, in parameter order.
fn encode(
    loaded: Result<Pipeline, &'static str>,
    encoder: &mut ComputeCommandEncoder,
    dims: (usize, usize, usize, usize),
    ids: [u64; 8],
) -> Result<(), &'static str> {
    let (b, h, hk, hv) = dims;
    let at = |i: usize| Buffer { id: ids[i] };
    let (mut state_out, mut out) = (at(6), at(7));
    let result = encode_gdn_decode_step_f32(
        loaded,
        encoder,
        b,
        h,
        hk,
        hv,
        &at(0),
        &at(1),
        &at(2),
        &at(3),
        &at(4),
        &at(5),
        &mut state_out,
        &mut out,
    );
    assert_eq!((state_out, out), (at(6), at(7)));
    result
}

fn step_commands(pipeline: u64, dims: (usize, usize, usize, usize), ids: [u64; 8]) -> Vec<Command> {
    let mut encoder = ComputeCommandEncoder::new();
    assert_eq!(encode(Ok(Pipeline { id: pipeline }), &mut encoder, dims, ids), Ok(()));
    let mut commands = Vec::new();
    for command in encoder.commands() {
        commands.push(match command {
            Command::SetPipeline(p) => Command::SetPipeline(*p),
            Command::DebugGroup(l) => Command::DebugGroup(l.clone()),
            Command::Bind { index, param: Param::Read(x) } => read(*index, x.id),
            Command::Bind { index, param: Param::Write(x) } => write(*index, x.id),
            Command::Bind { index, param: Param::Bytes(w) } => {
                Command::Bind { index: *index, param: Param::Bytes(w.clone()) }
            }
            Command::DispatchThreads { grid, group } => {
                Command::DispatchThreads { grid: *grid, group: *group }
            }
        });
    }
    commands
}

const IDS: [u64; 8] = [10, 11, 12, 13, 14, 15, 16, 17];

#[test]
fn step_encodes_its_commands_in_order() {
    let expected = vec![
        Command::SetPipeline(Pipeline { id: 7 }),
        Command::DebugGroup("gdn_decode_step b=2 h=16 hk=128 hv=130".to_string()),
        read(0, 10),
        read(1, 11),
        read(2, 12),
        read(3, 13),
        read(4, 14),
        read(5, 15),
        write(6, 16),
        write(7, 17),
        Command::Bind { index: 8, param: Param::Bytes(vec![128, 130, 16]) },
        Command::DispatchThreads {
            grid: MTLSize { width: 130, height: 16, depth: 2 },
            group: MTLSize { width: 64, height: 1, depth: 1 },
        },
    ];
    assert_eq!(step_commands(7, (2, 16, 128, 130), IDS), expected);
}

#[test]
fn kernel_is_loaded_by_source_and_name() {
    let mut encoder = ComputeCommandEncoder::new();
    let x = Buffer { id: 1 };
    let (mut state_out, mut out) = (Buffer { id: 2 }, Buffer { id: 3 });
    let mut asked = Vec::new();
    let result: Result<(), String> = call_gdn_decode_step_f32(
        |source, name| {
            asked.push((source, name));
            Ok(Pipeline { id: 5 })
        },
        &mut encoder,
        1,
        1,
        1,
        1,
        &x,
        &x,
        &x,
        &x,
        &x,
        &x,
        &mut state_out,
        &mut out,
    );
    assert_eq!(result, Ok(()));
    assert_eq!(asked, vec![(Source::Gdn, "kernel_gdn_decode_step_f32")]);
    assert_eq!(DECODE_STEP_KERNEL, "kernel_gdn_decode_step_f32");
    assert_eq!(encoder.commands()[0], Command::SetPipeline(Pipeline { id: 5 }));
    assert_eq!(encoder.commands().len(), 12);
}

#[test]
fn failed_load_is_handed_on_and_encodes_nothing() {
    let mut encoder = ComputeCommandEncoder::new();
    let x = Buffer { id: 1 };
    let (mut state_out, mut out) = (Buffer { id: 2 }, Buffer { id: 3 });
    let result: Result<(), String> = call_gdn_decode_step_f32(
        |_, name| Err(format!("no function {name}")),
        &mut encoder,
        1,
        2,
        3,
        4,
        &x,
        &x,
        &x,
        &x,
        &x,
        &x,
        &mut state_out,
        &mut out,
    );
    assert_eq!(result, Err("no function kernel_gdn_decode_step_f32".to_string()));
    assert!(encoder.commands().is_empty());
}

#[test]
fn failed_load_keeps_what_is_encoded() {
    let mut encoder = ComputeCommandEncoder::new();
    assert_eq!(encode(Ok(Pipeline { id: 1 }), &mut encoder, (1, 1, 1, 1), IDS), Ok(()));
    assert_eq!(encode(Err("lost device"), &mut encoder, (1, 1, 1, 1), IDS), Err("lost device"));
    assert_eq!(encoder.commands().len(), 12);
}

#[test]
fn steps_are_encoded_one_after_the_other() {
    let mut encoder = ComputeCommandEncoder::new();
    let next = [20, 21, 22, 23, 24, 16, 15, 27];
    assert_eq!(encode(Ok(Pipeline { id: 1 }), &mut encoder, (1, 4, 8, 8), IDS), Ok(()));
    assert_eq!(encode(Ok(Pipeline { id: 2 }), &mut encoder, (1, 4, 8, 8), next), Ok(()));
    let mut expected = step_commands(1, (1, 4, 8, 8), IDS);
    expected.extend(step_commands(2, (1, 4, 8, 8), next));
    assert_eq!(*encoder.commands(), expected);
}

#[test]
fn next_step_reads_what_the_step_before_writes() {
    let first = step_commands(1, (1, 4, 8, 8), IDS);
    let next = step_commands(1, (1, 4, 8, 8), [20, 21, 22, 23, 24, 16, 15, 27]);
    assert!(first.contains(&write(6, 16)));
    assert!(next.contains(&read(5, 16)));
}

#[test]
fn each_step_dispatches_once() {
    for command in step_commands(1, (3, 4, 8, 8), IDS).iter().take(11) {
        assert!(!matches!(command, Command::DispatchThreads { .. }));
    }
    assert!(matches!(
        step_commands(1, (3, 4, 8, 8), IDS)[11],
        Command::DispatchThreads { .. }
    ));
}

#[test]
fn only_the_two_outputs_are_bound_for_writing() {
    let mut written = Vec::new();
    for command in step_commands(1, (3, 4, 8, 8), IDS) {
        if let Command::Bind { param: Param::Write(buffer), .. } = command {
            written.push(buffer.id);
        }
    }
    assert_eq!(written, vec![16, 17]);
}

fn sizes(dims: (usize, usize, usize, usize)) -> (MTLSize, MTLSize) {
    match step_commands(1, dims, IDS).pop() {
        Some(Command::DispatchThreads { grid, group }) => (grid, group),
        _ => panic!("a step ends with its dispatch"),
    }
}

#[test]
fn threadgroup_is_narrower_than_its_limit_only_in_narrow_grids() {
    assert_eq!(MAX_GROUP_WIDTH, 64);
    for (hv, width) in [(0, 0), (1, 1), (63, 63), (64, 64), (65, 64), (4096, 64)] {
        let (grid, group) = sizes((2, 3, 5, hv));
        assert_eq!(grid, MTLSize { width: hv, height: 3, depth: 2 });
        assert_eq!(group, MTLSize { width, height: 1, depth: 1 });
    }
}

#[test]
fn grid_has_a_thread_for_each_output_element() {
    let (grid, _) = sizes((2, 3, 5, 7));
    assert_eq!(grid.width * grid.height * grid.depth, 2 * 3 * 7);
}

#[test]
fn dimensions_beyond_a_word_keep_their_low_bits() {
    let dims = (1, 0x1_0000_0003, 0x2_0000_0005, 0xffff_ffff);
    let commands = step_commands(1, dims, IDS);
    assert_eq!(
        commands[10],
        Command::Bind { index: 8, param: Param::Bytes(vec![5, 0xffff_ffff, 3]) }
    );
    let (grid, _) = sizes(dims);
    assert_eq!(grid, MTLSize { width: 0xffff_ffff, height: 0x1_0000_0003, depth: 1 });
}

#[test]
fn label_spells_the_dimensions() {
    let label = |dims| step_commands(1, dims, IDS).swap_remove(1);
    assert_eq!(
        label((0, 9, 10, 1234567890)),
        Command::DebugGroup("gdn_decode_step b=0 h=9 hk=10 hv=1234567890".to_string())
    );
    assert_eq!(
        label((100, 101, 99, usize::MAX)),
        Command::DebugGroup(format!("gdn_decode_step b=100 h=101 hk=99 hv={}", usize::MAX))
    );
}
