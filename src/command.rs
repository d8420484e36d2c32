use vstd::prelude::*;
use crate::ops::TensorOp;
use crate::shape::{byte_size, Kind, TensorError};
use crate::tensor::TensorGpu;

verus! {

/// A command recorded for the device, in the order it is to run.
pub enum Command<'a, B> {
    /// Copy `size` bytes from the start of `source` to the start of `destination`.
    Copy { source: &'a B, destination: &'a B, size: usize },
    /// Run one kernel.
    Dispatch(TensorOp<'a, B>),
}

/// Recording of buffer-to-buffer copies.
pub trait TensorCommand<'a, B> {
    /// The commands recorded so far.
    spec fn recorded(&self) -> Seq<Command<'a, B>>;

    /// Records a copy of the whole of `source` into `destination`, after
    /// checking that the two have the same shape; nothing is recorded otherwise.
    fn copy_tensor(&mut self, source: &'a TensorGpu<B>, destination: &'a TensorGpu<B>) -> (r:
        Result<(), TensorError>)
        requires
            source.wf(),
            source.kind == Kind::ReadWrite,
            source.scalar == destination.scalar,
        ensures
            r == source.shape.check_spec(destination.shape),
            r is Ok ==> final(self).recorded() == old(self).recorded().push(
                Command::Copy {
                    source: &source.buffer,
                    destination: &destination.buffer,
                    size: byte_size(source.shape, source.scalar) as usize,
                },
            ),
            r is Err ==> final(self).recorded() == old(self).recorded(),
    ;
}

/// Recording of kernel dispatches.
pub trait TensorPass<'a, B> {
    /// The commands recorded so far.
    spec fn dispatched(&self) -> Seq<Command<'a, B>>;

    /// Records a run of `op`.
    fn execute_tensor_op(&mut self, op: TensorOp<'a, B>)
        ensures
            final(self).dispatched() == old(self).dispatched().push(Command::Dispatch(op)),
    ;
}

/// A list of device commands, recorded in order and submitted together.
pub struct CommandList<'a, B> {
    pub commands: Vec<Command<'a, B>>,
}

impl<'a, B> CommandList<'a, B> {
    pub fn new() -> (r: Self)
        ensures
            r.commands@ == Seq::<Command<'a, B>>::empty(),
    {
        CommandList { commands: Vec::new() }
    }
}

impl<'a, B> TensorCommand<'a, B> for CommandList<'a, B> {
    open spec fn recorded(&self) -> Seq<Command<'a, B>> {
        self.commands@
    }

    fn copy_tensor(&mut self, source: &'a TensorGpu<B>, destination: &'a TensorGpu<B>) -> (r:
        Result<(), TensorError>)
    {
        source.check_shape(destination.shape)?;
        let size = source.size();
        self.commands.push(
            Command::Copy { source: &source.buffer, destination: &destination.buffer, size },
        );
        Ok(())
    }
}

impl<'a, B> TensorPass<'a, B> for CommandList<'a, B> {
    open spec fn dispatched(&self) -> Seq<Command<'a, B>> {
        self.commands@
    }

    fn execute_tensor_op(&mut self, op: TensorOp<'a, B>) {
        self.commands.push(Command::Dispatch(op));
    }
}

} // verus!
