//! The bytes that may wait for a helper's pipe.
use crate::command::{write_command, ParentCommand};
use crate::command;
use crate::model::Protocol;
use crate::wire::{WireError, MAX_CONTROL_BYTES};
use vstd::prelude::*;

verus! {

/// How many commands may wait for a pipe.
pub const MAX_QUEUED_COMMANDS: usize = 64;

/// Why bytes are not taken for a pipe.
#[derive(Debug, Clone, Copy, PartialEq, Eq, Structural)]
pub enum PipeRefusal {
    /// Too many bytes wait already.
    Budget,
    /// Too many commands wait already, or nobody writes them any more.
    Queue,
}

impl PipeRefusal {
    pub open spec fn text_of(self) -> Seq<char> {
        match self {
            PipeRefusal::Budget => "helper pipe byte budget exhausted"@,
            PipeRefusal::Queue => "helper command queue full or closed"@,
        }
    }

    pub fn message(&self) -> (text: &'static str)
        ensures
            text@ == self.text_of(),
    {
        match self {
            PipeRefusal::Budget => "helper pipe byte budget exhausted",
            PipeRefusal::Queue => "helper command queue full or closed",
        }
    }
}

/// Counts the bytes that wait for a pipe, so that a stalled helper costs a
/// bounded amount of memory and blocks nobody.
#[derive(Debug, Clone, Copy, PartialEq, Eq, Structural)]
pub struct PipeBudget {
    pub queued: usize,
    pub limit: usize,
}

impl PipeBudget {
    pub open spec fn within_limit(self) -> bool {
        self.queued <= self.limit
    }

    pub open spec fn takes(self, length: usize) -> bool {
        self.queued + length <= self.limit
    }

    pub open spec fn with(self, length: usize) -> PipeBudget {
        PipeBudget { queued: (self.queued + length) as usize, ..self }
    }

    pub open spec fn without(self, length: usize) -> PipeBudget {
        PipeBudget { queued: (self.queued - length) as usize, ..self }
    }

    /// Room for two clipboard transfers and a control message.
    pub fn new(protocol: &Protocol) -> (budget: Self)
        requires
            2 * protocol.clipboard_wire_bytes + MAX_CONTROL_BYTES <= usize::MAX,
        ensures
            budget.queued == 0,
            budget.limit == 2 * protocol.clipboard_wire_bytes + MAX_CONTROL_BYTES,
            budget.within_limit(),
    {
        PipeBudget { queued: 0, limit: 2 * protocol.clipboard_wire_bytes + MAX_CONTROL_BYTES }
    }

    /// Reserves room for bytes, or refuses them without waiting.
    pub fn reserve(&mut self, length: usize) -> (reserved: Result<(), PipeRefusal>)
        requires
            old(self).within_limit(),
        ensures
            reserved == (if old(self).takes(length) {
                Ok(())
            } else {
                Err(PipeRefusal::Budget)
            }),
            *final(self) == (if old(self).takes(length) {
                old(self).with(length)
            } else {
                *old(self)
            }),
            final(self).within_limit(),
    {
        if length > self.limit - self.queued {
            return Err(PipeRefusal::Budget);
        }
        self.queued = self.queued + length;
        Ok(())
    }

    /// Records whether bytes that have their room were taken by the queue; those
    /// that were not give it back.
    pub fn queue(&mut self, length: usize, taken: bool) -> (queued: Result<(), PipeRefusal>)
        requires
            length <= old(self).queued,
        ensures
            queued == (if taken {
                Ok(())
            } else {
                Err(PipeRefusal::Queue)
            }),
            *final(self) == (if taken {
                *old(self)
            } else {
                old(self).without(length)
            }),
    {
        if taken {
            return Ok(());
        }
        self.release(length);
        Err(PipeRefusal::Queue)
    }

    /// Gives back the room of bytes that were written.
    pub fn release(&mut self, length: usize)
        requires
            length <= old(self).queued,
        ensures
            *final(self) == old(self).without(length),
    {
        self.queued = self.queued - length;
    }
}

/// Bytes that are reserved and released again leave the budget as it was.
pub proof fn release_undoes_reserve(budget: PipeBudget, length: usize)
    requires
        budget.within_limit(),
        budget.takes(length),
    ensures
        budget.with(length).within_limit(),
        budget.with(length).without(length) == budget,
{
}

/// The bytes of a command on their way to a helper.
pub fn command_frame(command: &ParentCommand, protocol: &Protocol, chat_valid: bool) -> (result:
    Result<Vec<u8>, WireError>)
    ensures
        match command::command_refusal(command@, *protocol, chat_valid) {
            None => result is Ok && result->Ok_0@ == command::command_bytes(command@),
            Some(error) => result == Err::<Vec<u8>, WireError>(error),
        },
{
    let mut bytes: Vec<u8> = Vec::new();
    write_command(&mut bytes, command, protocol, chat_valid)?;
    assert(bytes@ =~= command::command_bytes(command@));
    Ok(bytes)
}

/// Whether the bridge to a helper's own loop closes after an item: a stop
/// command or a pipe that cannot be read is its last.
pub fn bridge_closes(command: &Result<ParentCommand, WireError>) -> (closes: bool)
    ensures
        closes == (command matches Ok(value) ==> value is Stop),
{
    match command {
        Ok(ParentCommand::Stop) => true,
        Ok(_) => false,
        Err(_) => true,
    }
}

/// A command waits only where there is room for all of it, and then takes exactly
/// its length; once it is written the room is free again.
pub proof fn commands_take_their_length(budget: PipeBudget, length: usize, next: usize)
    requires
        budget.within_limit(),
    ensures
        budget.takes(length) <==> budget.queued + length <= budget.limit,
        budget.takes(length) ==> budget.with(length).queued == budget.queued + length
            && budget.with(length).limit == budget.limit && budget.with(length).within_limit(),
        budget.takes(length) ==> (budget.with(length).takes(next) <==> budget.queued + length + next
            <= budget.limit),
        length <= budget.queued ==> budget.without(length).queued == budget.queued - length
            && budget.without(length).limit == budget.limit,
{
}

/// A refusal tells too many bytes from too many commands.
pub proof fn refusals_tell_bytes_from_commands(refusal: PipeRefusal)
    ensures
        refusal == PipeRefusal::Budget ==> refusal.text_of()
            == "helper pipe byte budget exhausted"@,
        refusal == PipeRefusal::Queue ==> refusal.text_of()
            == "helper command queue full or closed"@,
{
}

} // verus!
