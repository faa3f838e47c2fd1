//! A compute command encoder that records what is encoded.
//!
//! The recorded commands are handed to the device in order. Everything that is
//! said here of an encoder is said of that sequence.

use crate::size::MTLSize;
use vstd::prelude::*;

verus! {

/// The handle of a device buffer. Equal handles name the same memory.
#[derive(Clone, Copy, Debug, PartialEq, Eq, Structural)]
pub struct Buffer {
    pub id: u64,
}

/// The handle of a loaded compute pipeline.
#[derive(Clone, Copy, Debug, PartialEq, Eq, Structural)]
pub struct Pipeline {
    pub id: u64,
}

/// What an argument slot of a kernel holds.
#[derive(Debug, PartialEq, Eq)]
pub enum Param {
    /// A buffer that the kernel reads.
    Read(Buffer),
    /// A buffer that the kernel writes.
    Write(Buffer),
    /// Constant data, copied into the command stream as 32-bit words.
    Bytes(Vec<u32>),
}

/// The model of [`Param`].
pub enum ParamView {
    Read(Buffer),
    Write(Buffer),
    Bytes(Seq<u32>),
}

impl View for Param {
    type V = ParamView;

    open spec fn view(&self) -> ParamView {
        match *self {
            Param::Read(buffer) => ParamView::Read(buffer),
            Param::Write(buffer) => ParamView::Write(buffer),
            Param::Bytes(words) => ParamView::Bytes(words@),
        }
    }
}

/// One recorded command.
#[derive(Debug, PartialEq, Eq)]
pub enum Command {
    SetPipeline(Pipeline),
    DebugGroup(String),
    Bind { index: usize, param: Param },
    DispatchThreads { grid: MTLSize, group: MTLSize },
}

/// The model of [`Command`].
pub enum CommandView {
    SetPipeline(Pipeline),
    DebugGroup(Seq<char>),
    Bind { index: nat, param: ParamView },
    DispatchThreads { grid: MTLSize, group: MTLSize },
}

impl View for Command {
    type V = CommandView;

    open spec fn view(&self) -> CommandView {
        match *self {
            Command::SetPipeline(pipeline) => CommandView::SetPipeline(pipeline),
            Command::DebugGroup(label) => CommandView::DebugGroup(label@),
            Command::Bind { index, param } => CommandView::Bind {
                index: index as nat,
                param: param@,
            },
            Command::DispatchThreads { grid, group } => CommandView::DispatchThreads {
                grid,
                group,
            },
        }
    }
}

/// A compute command encoder: the commands encoded so far, oldest first.
#[derive(Debug)]
pub struct ComputeCommandEncoder {
    commands: Vec<Command>,
}

impl View for ComputeCommandEncoder {
    type V = Seq<CommandView>;

    closed spec fn view(&self) -> Seq<CommandView> {
        self.commands@.map_values(|c: Command| c@)
    }
}

impl ComputeCommandEncoder {
    /// An encoder with nothing encoded.
    pub fn new() -> (encoder: Self)
        ensures
            encoder@ == Seq::<CommandView>::empty(),
    {
        let encoder = ComputeCommandEncoder { commands: Vec::new() };
        assert(encoder@ =~= Seq::<CommandView>::empty());
        encoder
    }

    /// The commands encoded so far, oldest first.
    pub fn commands(&self) -> (commands: &Vec<Command>)
        ensures
            commands@.map_values(|c: Command| c@) == self@,
    {
        &self.commands
    }

    fn push(&mut self, command: Command)
        ensures
            final(self)@ == old(self)@.push(command@),
    {
        self.commands.push(command);
        assert(self@ =~= old(self)@.push(command@));
    }

    /// Selects the pipeline of the dispatches that follow.
    pub fn set_compute_pipeline_state(&mut self, pipeline: &Pipeline)
        ensures
            final(self)@ == old(self)@.push(CommandView::SetPipeline(*pipeline)),
    {
        self.push(Command::SetPipeline(*pipeline));
    }

    /// Opens a debug group.
    pub fn debug_group(&mut self, label: String)
        ensures
            final(self)@ == old(self)@.push(CommandView::DebugGroup(label@)),
    {
        self.push(Command::DebugGroup(label));
    }

    /// Binds `buffer` to slot `position`, for reading.
    pub fn set_buffer(&mut self, position: usize, buffer: &Buffer)
        ensures
            final(self)@ == old(self)@.push(
                (CommandView::Bind { index: position as nat, param: ParamView::Read(*buffer) }),
            ),
    {
        self.push(Command::Bind { index: position, param: Param::Read(*buffer) });
    }

    /// Binds `buffer` to slot `position`, for writing.
    pub fn set_output_buffer(&mut self, position: usize, buffer: &Buffer)
        ensures
            final(self)@ == old(self)@.push(
                (CommandView::Bind { index: position as nat, param: ParamView::Write(*buffer) }),
            ),
    {
        self.push(Command::Bind { index: position, param: Param::Write(*buffer) });
    }

    /// Copies `words` into slot `position`.
    pub fn set_bytes(&mut self, position: usize, words: Vec<u32>)
        ensures
            final(self)@ == old(self)@.push(
                (CommandView::Bind { index: position as nat, param: ParamView::Bytes(words@) }),
            ),
    {
        self.push(Command::Bind { index: position, param: Param::Bytes(words) });
    }

    /// Runs the selected pipeline on a grid of threads, in groups of `group`.
    pub fn dispatch_threads(&mut self, grid: MTLSize, group: MTLSize)
        ensures
            final(self)@ == old(self)@.push((CommandView::DispatchThreads { grid, group })),
    {
        self.push(Command::DispatchThreads { grid, group });
    }
}

/// A value that can be bound to an argument slot.
pub trait EncoderParam: Sized {
    /// What the slot holds once the value is bound to it.
    spec fn param(self) -> ParamView;

    /// Binds `data` to slot `position`.
    fn set_param(encoder: &mut ComputeCommandEncoder, position: usize, data: Self)
        ensures
            final(encoder)@ == old(encoder)@.push(
                (CommandView::Bind { index: position as nat, param: data.param() }),
            ),
    ;
}

impl EncoderParam for &Buffer {
    open spec fn param(self) -> ParamView {
        ParamView::Read(*self)
    }

    fn set_param(encoder: &mut ComputeCommandEncoder, position: usize, data: Self)
        ensures
            final(encoder)@ == old(encoder)@.push(
                (CommandView::Bind { index: position as nat, param: ParamView::Read(*data) }),
            ),
    {
        encoder.set_buffer(position, data);
    }
}

/// A buffer that is bound for writing. Making one takes exclusive access to the
/// handle.
#[derive(Debug)]
pub struct Output {
    buffer: Buffer,
}

impl Output {
    /// The buffer that is written.
    pub closed spec fn buffer(self) -> Buffer {
        self.buffer
    }

    /// Marks `buffer` as written. The handle itself stays as it is.
    pub fn new(buffer: &mut Buffer) -> (output: Output)
        ensures
            output.buffer() == *old(buffer),
            *final(buffer) == *old(buffer),
    {
        Output { buffer: *buffer }
    }
}

impl EncoderParam for Output {
    open spec fn param(self) -> ParamView {
        ParamView::Write(self.buffer())
    }

    fn set_param(encoder: &mut ComputeCommandEncoder, position: usize, data: Self)
        ensures
            final(encoder)@ == old(encoder)@.push(
                (CommandView::Bind {
                    index: position as nat,
                    param: ParamView::Write(data.buffer()),
                }),
            ),
    {
        encoder.set_output_buffer(position, &data.buffer);
    }
}

} // verus!
