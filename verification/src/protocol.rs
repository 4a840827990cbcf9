use vstd::prelude::*;

use crate::errors::Error;
use crate::registry::Registry;

verus! {

/// The keeper's command stream: everything that may touch the registry
/// arrives as one of these, and the keeper applies them one at a time.
#[derive(Debug)]
pub enum DM2Deck {
    /// Hand back a read-only view of the registry; sent once at startup.
    Init,
    /// Register a unit under the given name and reply with its id.
    Registration(String),
    /// Remove the record with the given id; no reply, absent ids are fine.
    Deregistration(i32),
    /// Append a heartbeat event to the record with the given id; no reply.
    Heartbeat(i32, u64),
}

/// The replies the keeper sends back to the facade.
#[derive(Debug)]
pub enum DM2DJ {
    /// The outcome of a registration: the assigned id, or why it failed.
    ID(Result<i32, Error>),
    /// The registry view handed over during the startup handshake.
    ARM(Registry),
}

/// One turn of the keeper: applies a single command to the registry it owns
/// and produces the reply the command calls for, if any.
///
/// This is the sole writer of the registry; a runtime feeds it commands from
/// a channel so that writes from any number of senders are serialized.
pub fn deck_step(registry: &mut Registry, command: DM2Deck) -> (reply: Option<DM2DJ>)
    requires
        old(registry)@.wf(),
        (command matches DM2Deck::Registration(name) && name@.len() != 0) ==> old(
            registry,
        )@.next_id < i32::MAX,
    ensures
        final(registry)@.wf(),
        match command {
            DM2Deck::Init => {
                &&& final(registry)@ == old(registry)@
                &&& reply matches Some(DM2DJ::ARM(view)) && view@ == old(registry)@
            },
            DM2Deck::Registration(name) => {
                &&& name@.len() == 0 ==> (reply == Some(
                    DM2DJ::ID(Err(Error::ValidationFailed)),
                ) && final(registry)@ == old(registry)@)
                &&& name@.len() != 0 ==> (reply matches Some(DM2DJ::ID(Ok(id)))
                    && id as int == old(registry)@.next_id
                    && final(registry)@ =~~= old(registry)@.register(name@))
            },
            DM2Deck::Deregistration(id) => {
                &&& final(registry)@ =~~= old(registry)@.deregister(id as int)
                &&& reply is None
            },
            DM2Deck::Heartbeat(id, event) => {
                &&& final(registry)@ =~~= old(registry)@.appended(id as int, event)
                &&& reply is None
            },
        },
{
    match command {
        DM2Deck::Init => Some(DM2DJ::ARM(registry.snapshot())),
        DM2Deck::Registration(name) => Some(DM2DJ::ID(registry.register(name))),
        DM2Deck::Deregistration(id) => {
            registry.deregister(id);
            None
        },
        DM2Deck::Heartbeat(id, event) => {
            registry.append_event(id, event);
            None
        },
    }
}

/// The facade's side of a registration exchange: turns what came back over
/// the reply channel into the id or the one error kind owed.
///
/// `None` stands for a reply channel that closed before a reply arrived.
/// A reply of the wrong shape is surfaced as [`Error::UnexpectedReply`],
/// never silently coerced.
pub fn interpret_id_reply(reply: Option<DM2DJ>) -> (result: Result<i32, Error>)
    ensures
        match reply {
            Option::None => result == Err::<i32, Error>(Error::ReceiveFailed),
            Option::Some(DM2DJ::ID(r)) => result == r,
            Option::Some(DM2DJ::ARM(_)) => result == Err::<i32, Error>(Error::UnexpectedReply),
        },
{
    match reply {
        None => Err(Error::ReceiveFailed),
        Some(DM2DJ::ID(r)) => r,
        Some(DM2DJ::ARM(_)) => Err(Error::UnexpectedReply),
    }
}

/// The facade's side of the startup handshake: the registry view, or the one
/// error kind owed when the channel closed or the wrong reply arrived.
pub fn interpret_init_reply(reply: Option<DM2DJ>) -> (result: Result<Registry, Error>)
    ensures
        match reply {
            Option::None => result matches Err(e) && e == Error::ReceiveFailed,
            Option::Some(DM2DJ::ID(_)) => result matches Err(e) && e == Error::UnexpectedReply,
            Option::Some(DM2DJ::ARM(view)) => result matches Ok(out) && out == view,
        },
{
    match reply {
        None => Err(Error::ReceiveFailed),
        Some(DM2DJ::ID(_)) => Err(Error::UnexpectedReply),
        Some(DM2DJ::ARM(view)) => Ok(view),
    }
}

} // verus!
