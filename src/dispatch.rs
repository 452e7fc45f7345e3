//! Routing of chat events to the actors of their conversations, and the
//! bookkeeping of the poll loop that fetches them.
use vstd::prelude::*;
use std::collections::HashMap;

use crate::args::HandleEvent;
use crate::telegram::UpdateResponse;

verus! {

broadcast use vstd::std_specs::hash::group_hash_axioms;

/// Where an event goes, in the contracts.
pub ghost enum RouteKind {
    /// The conversation is not allowed: the event is dropped.
    Ignore,
    /// To the live actor with this number.
    Deliver(u64),
    /// To a new actor with this number, which is started for it.
    Spawn(u64),
}

/// Where an event goes, with the event.
#[derive(Debug, PartialEq, Eq)]
pub enum Route {
    /// The conversation is not allowed: the event is dropped.
    Ignore,
    /// Deliver the event to the queue of the actor with this number.
    Deliver { actor: u64, event: HandleEvent },
    /// Start a new actor with this number and a new queue, with the event as
    /// the first item.
    Spawn { actor: u64, event: HandleEvent },
}

impl Route {
    pub open spec fn kind(&self) -> RouteKind {
        match self {
            Route::Ignore => RouteKind::Ignore,
            Route::Deliver { actor, .. } => RouteKind::Deliver(*actor),
            Route::Spawn { actor, .. } => RouteKind::Spawn(*actor),
        }
    }

    /// Whether the route carries `e` on.
    pub open spec fn carries(&self, e: HandleEvent) -> bool {
        match self {
            Route::Ignore => true,
            Route::Deliver { event, .. } => *event == e,
            Route::Spawn { event, .. } => *event == e,
        }
    }
}

/// The routing table, in the contracts.
pub ghost struct DispatcherModel {
    /// The conversations that may reach an actor; empty when all may.
    pub allowed: Seq<u64>,
    /// The actor registered for each conversation.
    pub actors: Map<u64, u64>,
    /// The number that the next actor started gets.
    pub next_actor: u64,
}

/// Whether events of conversation `chat` are routed at all.
pub open spec fn is_allowed(m: DispatcherModel, chat: u64) -> bool {
    m.allowed.len() == 0 || m.allowed.contains(chat)
}

/// Every registered actor has a number below the next one.
pub open spec fn well_formed(m: DispatcherModel) -> bool {
    forall|c: u64| #[trigger] m.actors.contains_key(c) ==> m.actors[c] < m.next_actor
}

/// `m` with a new actor registered for `chat`.
pub open spec fn with_new_actor(m: DispatcherModel, chat: u64) -> DispatcherModel {
    DispatcherModel {
        actors: m.actors.insert(chat, m.next_actor),
        next_actor: (m.next_actor + 1) as u64,
        ..m
    }
}

/// Where an event of `chat` goes, and the table after it: nowhere if the
/// conversation is not allowed; to its registered actor if it has one; else
/// to a new actor, which is registered.
pub open spec fn route_step(m: DispatcherModel, chat: u64) -> (DispatcherModel, RouteKind) {
    if !is_allowed(m, chat) {
        (m, RouteKind::Ignore)
    } else if m.actors.contains_key(chat) {
        (m, RouteKind::Deliver(m.actors[chat]))
    } else {
        (with_new_actor(m, chat), RouteKind::Spawn(m.next_actor))
    }
}

/// Two events of one allowed conversation, routed one after the other, go to
/// the same actor: the first starts it if there is none, the second never
/// starts another. Its queue then hands them over in the order routed.
pub proof fn same_conversation_same_actor(m: DispatcherModel, chat: u64)
    requires
        well_formed(m),
        m.next_actor < u64::MAX,
        is_allowed(m, chat),
    ensures
        ({
            let (m1, first) = route_step(m, chat);
            let (m2, second) = route_step(m1, chat);
            let actor = if m.actors.contains_key(chat) {
                m.actors[chat]
            } else {
                m.next_actor
            };
            &&& first == if m.actors.contains_key(chat) {
                RouteKind::Deliver(actor)
            } else {
                RouteKind::Spawn(actor)
            }
            &&& second == RouteKind::Deliver(actor)
            &&& m2 == m1
        }),
{
}

/// When the actor of a conversation has ended, the event that found it gone
/// starts exactly one new actor, with a number that no actor had; the events
/// that follow go to that actor and start no other.
pub proof fn replacement_is_started_once(m: DispatcherModel, chat: u64)
    requires
        well_formed(m),
        m.next_actor < u64::MAX,
        is_allowed(m, chat),
    ensures
        forall|c: u64| #[trigger] m.actors.contains_key(c) ==> m.actors[c] != m.next_actor,
        well_formed(with_new_actor(m, chat)),
        route_step(with_new_actor(m, chat), chat) == (
            with_new_actor(m, chat),
            RouteKind::Deliver(m.next_actor),
        ),
{
    assert(is_allowed(with_new_actor(m, chat), chat));
}

/// The routing table: which conversations are allowed, and the actor
/// registered for each conversation. An entry stays after its actor has
/// ended; a failed delivery to it then starts a replacement.
pub struct Dispatcher {
    allowed: Vec<u64>,
    actors: HashMap<u64, u64>,
    next_actor: u64,
}

impl View for Dispatcher {
    type V = DispatcherModel;

    closed spec fn view(&self) -> DispatcherModel {
        DispatcherModel { allowed: self.allowed@, actors: self.actors@, next_actor: self.next_actor }
    }
}

impl Dispatcher {
    /// A table with no actors. An empty `allowed` lets every conversation in.
    pub fn new(allowed: Vec<u64>) -> (r: Dispatcher)
        ensures
            r@ == (DispatcherModel { allowed: allowed@, actors: Map::empty(), next_actor: 0 }),
            well_formed(r@),
    {
        Dispatcher { allowed, actors: HashMap::new(), next_actor: 0 }
    }

    /// Whether another actor can still be numbered.
    pub fn can_spawn(&self) -> (r: bool)
        ensures
            r == (self@.next_actor < u64::MAX),
    {
        self.next_actor < u64::MAX
    }

    /// Whether events of conversation `chat` are routed.
    pub fn allows(&self, chat: u64) -> (r: bool)
        ensures
            r == is_allowed(self@, chat),
    {
        if self.allowed.len() == 0 {
            return true;
        }
        let mut i: usize = 0;
        while i < self.allowed.len()
            invariant
                i <= self.allowed@.len(),
                forall|j: int| 0 <= j < i ==> self.allowed@[j] != chat,
            decreases self.allowed@.len() - i,
        {
            if self.allowed[i] == chat {
                return true;
            }
            i = i + 1;
        }
        false
    }

    fn register(&mut self, chat: u64) -> (actor: u64)
        requires
            old(self)@.next_actor < u64::MAX,
            well_formed(old(self)@),
        ensures
            actor == old(self)@.next_actor,
            final(self)@ == with_new_actor(old(self)@, chat),
            well_formed(final(self)@),
    {
        let actor = self.next_actor;
        self.actors.insert(chat, actor);
        self.next_actor = self.next_actor + 1;
        actor
    }

    /// Decides where an event of conversation `chat` goes.
    pub fn route(&mut self, chat: u64, event: HandleEvent) -> (r: Route)
        requires
            old(self)@.next_actor < u64::MAX,
            well_formed(old(self)@),
        ensures
            (final(self)@, r.kind()) == route_step(old(self)@, chat),
            r.carries(event),
            well_formed(final(self)@),
    {
        if !self.allows(chat) {
            return Route::Ignore;
        }
        match self.actors.get(&chat) {
            Some(actor) => Route::Deliver { actor: *actor, event },
            None => {
                let actor = self.register(chat);
                Route::Spawn { actor, event }
            },
        }
    }

    /// Decides where an event goes whose delivery failed because the actor of
    /// conversation `chat` has ended: a new actor is registered and started
    /// with it.
    pub fn actor_gone(&mut self, chat: u64, event: HandleEvent) -> (r: Route)
        requires
            old(self)@.next_actor < u64::MAX,
            well_formed(old(self)@),
        ensures
            final(self)@ == with_new_actor(old(self)@, chat),
            r.kind() == RouteKind::Spawn(old(self)@.next_actor),
            r.carries(event),
            well_formed(final(self)@),
    {
        let actor = self.register(chat);
        Route::Spawn { actor, event }
    }
}

/// The longest wait between polls, as a power of two of seconds.
pub const MAX_BACKOFF_EXPONENT: u32 = 5;

/// The poll loop's bookkeeping: failures in a row, and the first update that
/// has not been seen.
pub struct PollState {
    pub failures: u32,
    pub next_update_id: u64,
}

impl PollState {
    /// Nothing polled yet.
    pub fn new() -> (r: PollState)
        ensures
            r.failures == 0,
            r.next_update_id == 0,
    {
        PollState { failures: 0, next_update_id: 0 }
    }

    /// Counts a failed poll and returns how many seconds to wait: two to the
    /// power of the failures in a row, at most five of them.
    pub fn failed(&mut self) -> (secs: u64)
        requires
            old(self).failures <= MAX_BACKOFF_EXPONENT,
        ensures
            final(self).failures == if old(self).failures < MAX_BACKOFF_EXPONENT {
                old(self).failures + 1
            } else {
                MAX_BACKOFF_EXPONENT as int
            },
            final(self).next_update_id == old(self).next_update_id,
            secs == vstd::arithmetic::power2::pow2(final(self).failures as nat),
    {
        if self.failures < MAX_BACKOFF_EXPONENT {
            self.failures = self.failures + 1;
        }
        let mut secs: u64 = 1;
        let mut i: u32 = 0;
        proof {
            vstd::arithmetic::power2::lemma2_to64();
        }
        while i < self.failures
            invariant
                i <= self.failures <= MAX_BACKOFF_EXPONENT,
                secs == vstd::arithmetic::power2::pow2(i as nat),
                secs <= 32,
            decreases self.failures - i,
        {
            proof {
                vstd::arithmetic::power2::lemma_pow2_unfold((i + 1) as nat);
                vstd::arithmetic::power2::lemma_pow2_strictly_increases(i as nat, 5);
                vstd::arithmetic::power2::lemma2_to64();
            }
            secs = secs * 2;
            i = i + 1;
        }
        secs
    }

    /// Counts a successful poll.
    pub fn succeeded(&mut self)
        ensures
            final(self).failures == 0,
            final(self).next_update_id == old(self).next_update_id,
    {
        self.failures = 0;
    }

    /// Records that update `update_id` was seen: the next poll asks for the
    /// updates after it.
    pub fn seen(&mut self, update_id: u64)
        ensures
            final(self).failures == old(self).failures,
            final(self).next_update_id == if update_id < u64::MAX && update_id + 1 > old(
                self,
            ).next_update_id {
                (update_id + 1) as u64
            } else if update_id == u64::MAX {
                u64::MAX
            } else {
                old(self).next_update_id
            },
    {
        if update_id == u64::MAX {
            self.next_update_id = u64::MAX;
        } else if update_id + 1 > self.next_update_id {
            self.next_update_id = update_id + 1;
        }
    }
}

impl UpdateResponse {
    /// The conversation and the event of an update: its message, else the
    /// tap on a button (in the conversation of the message it belongs to);
    /// `None` for an update with neither.
    pub fn into_event(self) -> (r: Option<(u64, HandleEvent)>)
        ensures
            match self.message {
                Some(m) => r == Some((m.chat.id, HandleEvent::Message(m))),
                None => match self.callback_query {
                    Some(q) => r == Some((q.message.chat.id, HandleEvent::Callback(q))),
                    None => r is None,
                },
            },
    {
        match self.message {
            Some(m) => Some((m.chat.id, HandleEvent::Message(m))),
            None => match self.callback_query {
                Some(q) => Some((q.message.chat.id, HandleEvent::Callback(q))),
                None => None,
            },
        }
    }
}

} // verus!
