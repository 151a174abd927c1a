//! The state of one session: what has been seen since the measurement window
//! opened.

use vstd::prelude::*;
use vstd::string::StringExecFns;
use crate::text::{numeral, write_numeral};
use crate::window::{elapsed, elapsed_micros, hits_per_minute, rate};

verus! {

/// Whether `identifier` occurs in `identifiers`.
pub fn holds(identifiers: &[u8], identifier: u8) -> (found: bool)
    ensures
        found == identifiers@.contains(identifier),
{
    let mut i: usize = 0;
    while i < identifiers.len()
        invariant
            i <= identifiers.len(),
            forall|j: int| 0 <= j < i ==> identifiers@[j] != identifier,
        decreases identifiers.len() - i,
    {
        if identifiers[i] == identifier {
            return true;
        }
        i += 1;
    }
    false
}

/// A session as the contracts see it.
pub struct Session {
    /// Hits counted since the window opened.
    pub hits: nat,
    /// The timestamp at which the window opened.
    pub window_start: u64,
    /// The rate that was computed last; kept to be looked at, never read by
    /// a decision.
    pub last_rate: nat,
    /// The identifiers hit since the window opened.
    pub identifiers: Set<u8>,
}

impl Session {
    /// A session that starts at `start`: nothing counted, nothing seen.
    pub open spec fn fresh(start: u64) -> Session {
        Session { hits: 0, window_start: start, last_rate: 0, identifiers: Set::empty() }
    }

    /// What every session that a [`State`] stands for has: a count that the
    /// counter can hold, a rate that fits, and finitely many identifiers.
    pub open spec fn valid(self) -> bool {
        &&& self.hits <= usize::MAX
        &&& self.last_rate <= u128::MAX
        &&& self.identifiers.finite()
    }

    /// The number of distinct identifiers hit since the window opened.
    pub open spec fn variety(self) -> nat {
        self.identifiers.len()
    }

    /// The session after one more hit was counted. A counter that is full
    /// stays as it is.
    pub open spec fn counted(self) -> Session {
        Session { hits: if self.hits < usize::MAX { self.hits + 1 } else { self.hits }, ..self }
    }

    /// The session after `identifier` was noted. Noting one that was seen
    /// before changes nothing.
    pub open spec fn noted(self, identifier: u8) -> Session {
        Session { identifiers: self.identifiers.insert(identifier), ..self }
    }

    /// The session after `rate` was recorded as the last one computed.
    pub open spec fn rated(self, rate: nat) -> Session {
        Session { last_rate: rate, ..self }
    }

    /// The session after its window was closed at `stamp`: the count is zero,
    /// no identifier is left, and the next window opens at `stamp`.
    pub open spec fn reset(self, stamp: u64) -> Session {
        Session { hits: 0, window_start: stamp, identifiers: Set::empty(), ..self }
    }

    /// The session in one line: the opening of the window, the count and the
    /// last rate, each in decimal.
    pub open spec fn text(self) -> Seq<char> {
        "timestamp: "@ + numeral(self.window_start as nat, 10) + " hits: "@ + numeral(
            self.hits,
            10,
        ) + " last_hpm: "@ + numeral(self.last_rate, 10) + " "@
    }
}

/// The state of one session. It is made once, when the session starts, and
/// changed by the algorithms that events are handed to.
#[derive(Debug)]
pub struct State {
    hits: usize,
    start_timestamp: u64,
    last_hpm: u128,
    hit_tracker: Vec<u8>,
}

impl View for State {
    type V = Session;

    closed spec fn view(&self) -> Session {
        Session {
            hits: self.hits as nat,
            window_start: self.start_timestamp,
            last_rate: self.last_hpm as nat,
            identifiers: self.hit_tracker@.to_set(),
        }
    }
}

impl State {
    /// No identifier is held twice.
    #[verifier::type_invariant]
    pub closed spec fn wf(&self) -> bool {
        self.hit_tracker@.no_duplicates()
    }

    /// A state that satisfies [`State::wf`] stands for a valid session.
    pub proof fn lemma_valid(&self)
        requires
            self.wf(),
        ensures
            self@.valid(),
    {
    }

    /// The tracker holds each identifier of the session once.
    proof fn lemma_tracker(&self)
        requires
            self.wf(),
        ensures
            self@.variety() == self.hit_tracker@.len(),
            forall|id: u8| self@.identifiers.contains(id) <==> self.hit_tracker@.contains(id),
    {
        self.hit_tracker@.unique_seq_to_set();
    }

    /// The state of a session that starts at `start_timestamp`.
    pub fn new(start_timestamp: u64) -> (state: State)
        ensures
            state@ == Session::fresh(start_timestamp),
    {
        let state = State { hits: 0, start_timestamp, last_hpm: 0, hit_tracker: Vec::new() };
        assert(state.hit_tracker@.to_set() =~= Set::<u8>::empty());
        state
    }

    /// Microseconds from the opening of the window to `stamp`; zero where
    /// `stamp` lies before the opening.
    pub fn time_since_last(&self, stamp: u64) -> (e: u64)
        ensures
            e == elapsed(stamp, self@.window_start),
    {
        elapsed_micros(stamp, self.start_timestamp)
    }

    /// Hits per minute, from the hits counted so far in a window of
    /// `measurement_micros` microseconds.
    pub fn calculate_hpm(&self, measurement_micros: u64) -> (hpm: u128)
        ensures
            hpm == rate(self@.hits, measurement_micros as nat),
    {
        hits_per_minute(self.hits, measurement_micros)
    }

    /// Hits counted since the window opened.
    pub fn hits(&self) -> (hits: usize)
        ensures
            hits == self@.hits,
    {
        self.hits
    }

    /// The timestamp at which the window opened.
    pub fn start_timestamp(&self) -> (stamp: u64)
        ensures
            stamp == self@.window_start,
    {
        self.start_timestamp
    }

    /// The rate that was computed last.
    pub fn last_hpm(&self) -> (hpm: u128)
        ensures
            hpm == self@.last_rate,
    {
        self.last_hpm
    }

    /// The number of distinct identifiers hit since the window opened.
    pub fn variety(&self) -> (variety: usize)
        ensures
            variety == self@.variety(),
    {
        proof {
            use_type_invariant(self);
            self.lemma_tracker();
        }
        self.hit_tracker.len()
    }

    /// Whether `identifier` was hit since the window opened.
    pub fn seen(&self, identifier: u8) -> (seen: bool)
        ensures
            seen == self@.identifiers.contains(identifier),
    {
        proof {
            use_type_invariant(self);
            self.lemma_tracker();
        }
        holds(self.hit_tracker.as_slice(), identifier)
    }

    /// The state in one line, for the eye.
    pub fn to_text(&self) -> (text: String)
        ensures
            text@ == self@.text(),
    {
        let mut text = String::from_str("timestamp: ");
        write_numeral(&mut text, self.start_timestamp as u128, 10);
        text.append(" hits: ");
        write_numeral(&mut text, self.hits as u128, 10);
        text.append(" last_hpm: ");
        write_numeral(&mut text, self.last_hpm, 10);
        text.append(" ");
        text
    }

    /// Counts one more hit. A counter that is full stays as it is.
    pub fn count(&mut self)
        ensures
            final(self)@ == old(self)@.counted(),
    {
        proof {
            use_type_invariant(&*self);
        }
        if self.hits < usize::MAX {
            self.hits = self.hits + 1;
        }
    }

    /// Notes that `identifier` was hit. One that was seen before in this
    /// window is not noted again.
    pub fn note(&mut self, identifier: u8)
        ensures
            final(self)@ == old(self)@.noted(identifier),
    {
        proof {
            use_type_invariant(&*self);
            self.lemma_tracker();
        }
        if !holds(self.hit_tracker.as_slice(), identifier) {
            let mut tracker: Vec<u8> = Vec::new();
            std::mem::swap(&mut tracker, &mut self.hit_tracker);
            tracker.push(identifier);
            self.hit_tracker = tracker;
            assert(self.hit_tracker@.to_set() =~= old(self).hit_tracker@.to_set().insert(
                identifier,
            )) by {
                let before = old(self).hit_tracker@;
                let after = self.hit_tracker@;
                assert forall|id: u8| after.contains(id) <==> before.contains(id) || id
                    == identifier by {
                    if before.contains(id) {
                        let j = choose|j: int| 0 <= j < before.len() && before[j] == id;
                        assert(after[j] == id);
                    }
                    if id == identifier {
                        assert(after[before.len() as int] == id);
                    }
                }
            }
        } else {
            assert(self@.identifiers =~= old(self)@.identifiers.insert(identifier));
        }
    }

    /// Records `rate` as the last one computed.
    pub fn record(&mut self, rate: u128)
        ensures
            final(self)@ == old(self)@.rated(rate as nat),
    {
        proof {
            use_type_invariant(&*self);
        }
        self.last_hpm = rate;
    }

    /// Closes the window at `new_stamp`.
    pub fn reset(&mut self, new_stamp: u64)
        ensures
            final(self)@ == old(self)@.reset(new_stamp),
    {
        proof {
            use_type_invariant(&*self);
        }
        self.hits = 0;
        self.start_timestamp = new_stamp;
        self.hit_tracker = Vec::new();
        assert(self.hit_tracker@.to_set() =~= Set::<u8>::empty());
    }
}

} // verus!
