//! Handing one event to a list of algorithms.

use vstd::prelude::*;
use crate::algorithms::Algorithm;
use crate::command::Command;
use crate::event::{is_suppressed, suppressed};
use crate::state::{Session, State};

verus! {

/// What `algorithms` do with one event when each is handed it in turn, in
/// the order of the list, on one session: each finds the session as the one
/// before it left it, and the commands follow one another in that order.
pub open spec fn chain<C, A: Algorithm<C>>(
    algorithms: Seq<A>,
    stamp: u64,
    message: Seq<u8>,
    session: Session,
) -> (Session, Seq<Command<C>>)
    decreases algorithms.len(),
{
    if algorithms.len() == 0 {
        (session, Seq::empty())
    } else {
        let before = chain(algorithms.drop_last(), stamp, message, session);
        let last = algorithms.last().reaction(stamp, message, before.0);
        (last.0, before.1 + last.1)
    }
}

/// What `algorithms` do with one event that the source delivers: nothing at
/// all where the event is one of those that are dropped, else [`chain`].
pub open spec fn dispatched<C, A: Algorithm<C>>(
    algorithms: Seq<A>,
    stamp: u64,
    message: Seq<u8>,
    session: Session,
) -> (Session, Seq<Command<C>>) {
    if is_suppressed(message) {
        (session, Seq::empty())
    } else {
        chain(algorithms, stamp, message, session)
    }
}

/// Hands the event `message` that arrived at `stamp` to each of
/// `algorithms` in turn, on the session `state`, and returns their commands
/// in that order. One algorithm is a list of one.
pub fn dispatch<C, A: Algorithm<C>>(
    algorithms: &[A],
    stamp: u64,
    message: &[u8],
    state: &mut State,
) -> (commands: Vec<Command<C>>)
    ensures
        final(state)@ == dispatched(algorithms@, stamp, message@, old(state)@).0,
        commands@ == dispatched(algorithms@, stamp, message@, old(state)@).1,
{
    let mut commands: Vec<Command<C>> = Vec::new();
    if suppressed(message) {
        return commands;
    }
    let mut i: usize = 0;
    while i < algorithms.len()
        invariant
            i <= algorithms.len(),
            state@ == chain(algorithms@.take(i as int), stamp, message@, old(state)@).0,
            commands@ == chain(algorithms@.take(i as int), stamp, message@, old(state)@).1,
        decreases algorithms.len() - i,
    {
        let mut more = algorithms[i].go(stamp, message, state);
        commands.append(&mut more);
        assert(algorithms@.take(i + 1).drop_last() =~= algorithms@.take(i as int));
        i += 1;
    }
    assert(algorithms@.take(i as int) =~= algorithms@);
    commands
}

/// Whether an algorithm works on the session that all share, or on one of
/// its own.
#[derive(Clone, Copy, Debug, PartialEq, Eq)]
pub enum Ownership {
    Shared,
    Private,
}

/// An algorithm in an engine, with the session of its own if it has one.
pub struct Slot<A> {
    pub algorithm: A,
    pub own: Option<State>,
}

/// An ordered list of algorithms and their sessions: one shared by those
/// that are built to work on the same figures, and one for each of the
/// others.
pub struct Engine<A> {
    pub started: u64,
    pub shared: State,
    pub slots: Vec<Slot<A>>,
}

/// The sessions of an engine as the contracts see them: the shared one, and
/// for each algorithm in turn its own, if it has one.
pub struct Sessions {
    pub shared: Session,
    pub own: Seq<Option<Session>>,
}

/// What the algorithms of an engine do with one event. Each is handed it in
/// turn, in the order of the list; one with a session of its own works on
/// that and leaves the shared one alone, the others work on the shared one
/// as the one before left it.
pub open spec fn sweep<C, A: Algorithm<C>>(
    algorithms: Seq<A>,
    stamp: u64,
    message: Seq<u8>,
    sessions: Sessions,
) -> (Sessions, Seq<Command<C>>)
    decreases algorithms.len(),
{
    if algorithms.len() == 0 || sessions.own.len() != algorithms.len() {
        (sessions, Seq::empty())
    } else {
        let before = sweep(
            algorithms.drop_last(),
            stamp,
            message,
            Sessions { shared: sessions.shared, own: sessions.own.drop_last() },
        );
        match sessions.own.last() {
            Some(own) => {
                let last = algorithms.last().reaction(stamp, message, own);
                (
                    Sessions { shared: before.0.shared, own: before.0.own.push(Some(last.0)) },
                    before.1 + last.1,
                )
            },
            None => {
                let last = algorithms.last().reaction(stamp, message, before.0.shared);
                (Sessions { shared: last.0, own: before.0.own.push(None) }, before.1 + last.1)
            },
        }
    }
}

/// What the algorithms of an engine do with one event that the source
/// delivers: nothing at all where the event is one of those that are
/// dropped, else [`sweep`].
pub open spec fn handled<C, A: Algorithm<C>>(
    algorithms: Seq<A>,
    stamp: u64,
    message: Seq<u8>,
    sessions: Sessions,
) -> (Sessions, Seq<Command<C>>) {
    if is_suppressed(message) {
        (sessions, Seq::empty())
    } else {
        sweep(algorithms, stamp, message, sessions)
    }
}

impl<A> Engine<A> {
    /// The algorithms, in the order in which events are handed to them.
    pub open spec fn algorithms(&self) -> Seq<A> {
        Seq::new(self.slots@.len(), |i: int| self.slots@[i].algorithm)
    }

    /// The sessions.
    pub open spec fn sessions(&self) -> Sessions {
        Sessions {
            shared: self.shared@,
            own: Seq::new(
                self.slots@.len(),
                |i: int|
                    match self.slots@[i].own {
                        Some(state) => Some(state@),
                        None => None,
                    },
            ),
        }
    }

    /// An engine without algorithms, for a session that starts at `started`.
    pub fn new(started: u64) -> (engine: Engine<A>)
        ensures
            engine.started == started,
            engine.algorithms() == Seq::<A>::empty(),
            engine.sessions() == (Sessions {
                shared: Session::fresh(started),
                own: Seq::<Option<Session>>::empty(),
            }),
    {
        let engine = Engine { started, shared: State::new(started), slots: Vec::new() };
        assert(engine.sessions().own =~= Seq::<Option<Session>>::empty());
        engine
    }

    /// Puts `algorithm` at the end of the list. With [`Ownership::Private`]
    /// it gets a session of its own, as fresh as the shared one was at the
    /// start.
    pub fn attach(&mut self, algorithm: A, ownership: Ownership)
        ensures
            final(self).started == old(self).started,
            final(self).algorithms() == old(self).algorithms().push(algorithm),
            final(self).sessions() == (Sessions {
                shared: old(self).sessions().shared,
                own: old(self).sessions().own.push(
                    match ownership {
                        Ownership::Private => Some(Session::fresh(old(self).started)),
                        Ownership::Shared => None,
                    },
                ),
            }),
    {
        let own = match ownership {
            Ownership::Private => Some(State::new(self.started)),
            Ownership::Shared => None,
        };
        self.slots.push(Slot { algorithm, own });
        assert(self.sessions().own =~= old(self).sessions().own.push(
            match ownership {
                Ownership::Private => Some(Session::fresh(old(self).started)),
                Ownership::Shared => None,
            },
        ));
    }

    /// Handles the event `message` that arrived at `stamp`: an event that is
    /// to be dropped changes nothing; any other is handed to each algorithm
    /// in turn, and the commands come back in that order.
    pub fn on_event<C>(&mut self, stamp: u64, message: &[u8]) -> (commands: Vec<Command<C>>) where
        A: Algorithm<C>,

        ensures
            final(self).started == old(self).started,
            final(self).algorithms() == old(self).algorithms(),
            final(self).sessions() == handled::<C, A>(
                old(self).algorithms(),
                stamp,
                message@,
                old(self).sessions(),
            ).0,
            commands@ == handled::<C, A>(
                old(self).algorithms(),
                stamp,
                message@,
                old(self).sessions(),
            ).1,
    {
        let mut commands: Vec<Command<C>> = Vec::new();
        if suppressed(message) {
            return commands;
        }
        let ghost algorithms = self.algorithms();
        let ghost before = self.sessions();
        let mut i: usize = 0;
        while i < self.slots.len()
            invariant
                i <= self.slots@.len(),
                self.started == old(self).started,
                self.algorithms() == algorithms,
                self.sessions().own.len() == before.own.len(),
                forall|j: int| i <= j < before.own.len() ==> self.sessions().own[j] == before.own[j],
                (Sessions { shared: self.shared@, own: self.sessions().own.take(i as int) })
                    == sweep::<C, A>(
                    algorithms.take(i as int),
                    stamp,
                    message@,
                    Sessions { shared: before.shared, own: before.own.take(i as int) },
                ).0,
                commands@ == sweep::<C, A>(
                    algorithms.take(i as int),
                    stamp,
                    message@,
                    Sessions { shared: before.shared, own: before.own.take(i as int) },
                ).1,
            decreases self.slots@.len() - i,
        {
            let ghost entry = self.sessions();
            let slot = &mut self.slots[i];
            let mut more = match &mut slot.own {
                Some(state) => slot.algorithm.go(stamp, message, state),
                None => slot.algorithm.go(stamp, message, &mut self.shared),
            };
            commands.append(&mut more);
            proof {
                let n = i as int;
                assert(algorithms.take(n + 1).drop_last() =~= algorithms.take(n));
                assert(before.own.take(n + 1).drop_last() =~= before.own.take(n));
                assert(self.sessions().own.take(n + 1) =~= entry.own.take(n).push(
                    self.sessions().own[n],
                ));
            }
            i += 1;
        }
        proof {
            assert(algorithms.take(i as int) =~= algorithms);
            assert(before.own.take(i as int) =~= before.own);
            assert(self.sessions().own.take(i as int) =~= self.sessions().own);
        }
        commands
    }
}

} // verus!
