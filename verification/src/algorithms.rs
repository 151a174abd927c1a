//! The algorithms: each takes one event and the session state, changes the
//! state and says what is to be done.

use vstd::prelude::*;
use crate::command::{Command, Xy, FULL_BRIGHTNESS};
use crate::event::{hit, is_hit};
use crate::state::{holds, Session, State};
use crate::tiers::{selected, TierTable};
use crate::window::{is_closed, rate, window_closed};

verus! {

/// What an algorithm is. Every algorithm handed to the engine implements
/// this, the ones of this module and any other.
pub trait Algorithm<C> {
    /// The session that one event leaves behind, and the commands that it
    /// gives rise to.
    spec fn reaction(&self, stamp: u64, message: Seq<u8>, session: Session) -> (
        Session,
        Seq<Command<C>>,
    );

    /// Handles the event `message` that arrived at `stamp`.
    fn go(&self, stamp: u64, message: &[u8], state: &mut State) -> (commands: Vec<Command<C>>)
        ensures
            final(state)@ == self.reaction(stamp, message@, old(state)@).0,
            commands@ == self.reaction(stamp, message@, old(state)@).1,
    ;
}

/// The command that shows `color`.
pub open spec fn shows<C>(color: C, transition: u8) -> Command<C> {
    Command::Color { color, brightness: FULL_BRIGHTNESS, transition }
}

/// The commands of one blink: off, wait, on.
pub open spec fn blinks<C>(transition: u8, delay: u64) -> Seq<Command<C>> {
    seq![
        Command::Power { on: false, brightness: FULL_BRIGHTNESS, transition },
        Command::Pause { millis: delay },
        Command::Power { on: true, brightness: FULL_BRIGHTNESS, transition },
    ]
}

/// One blink: the lights go off at once and, after `delay` milliseconds, on
/// again.
pub fn debounce<C>(transition: u8, delay: u64) -> (commands: Vec<Command<C>>)
    ensures
        commands@ == blinks::<C>(transition, delay),
{
    let mut commands: Vec<Command<C>> = Vec::new();
    commands.push(Command::Power { on: false, brightness: FULL_BRIGHTNESS, transition });
    commands.push(Command::Pause { millis: delay });
    commands.push(Command::Power { on: true, brightness: FULL_BRIGHTNESS, transition });
    commands
}

/// What an algorithm that classifies the rate does with one event.
///
/// Where the window has run out, the rate of the hits counted in it selects
/// the color, the rate is recorded and the window is closed; the event that
/// closed it is not counted. Otherwise a hit is counted. Anything else
/// changes nothing.
pub open spec fn rate_reaction<C>(
    base: C,
    tiers: Map<u64, C>,
    measurement_micros: u64,
    transition: u8,
    stamp: u64,
    message: Seq<u8>,
    session: Session,
) -> (Session, Seq<Command<C>>) {
    if is_closed(stamp, session.window_start, measurement_micros) {
        let hpm = rate(session.hits, measurement_micros as nat);
        (session.rated(hpm).reset(stamp), seq![shows(selected(base, tiers, hpm), transition)])
    } else if is_hit(message) {
        (session.counted(), Seq::empty())
    } else {
        (session, Seq::empty())
    }
}

/// The delay of a blink where none is asked for, in milliseconds.
pub const DEFAULT_DELAY: u64 = 10;

/// Blinks on a hit: the lights go off and, after `delay` milliseconds, on
/// again. With `midi_notes` only hits on these identifiers count; without,
/// every hit does.
///
/// The caller waits out the delay before it takes the next event, so a blink
/// holds back every event that arrives meanwhile.
pub struct Blink {
    pub duration: u8,
    pub midi_notes: Option<Vec<u8>>,
    pub delay: u64,
}

impl Blink {
    /// Whether the event is a hit that this algorithm answers.
    pub open spec fn answers(&self, message: Seq<u8>) -> bool {
        &&& is_hit(message)
        &&& match self.midi_notes {
            Some(notes) => notes@.contains(message[1]),
            None => true,
        }
    }
}

impl<C> Algorithm<C> for Blink {
    open spec fn reaction(&self, stamp: u64, message: Seq<u8>, session: Session) -> (
        Session,
        Seq<Command<C>>,
    ) {
        if self.answers(message) {
            (session, blinks(self.duration, self.delay))
        } else {
            (session, Seq::empty())
        }
    }

    fn go(&self, stamp: u64, message: &[u8], state: &mut State) -> (commands: Vec<Command<C>>) {
        if hit(message) {
            let wanted = match &self.midi_notes {
                Some(notes) => holds(notes.as_slice(), message[1]),
                None => true,
            };
            if wanted {
                return debounce(self.duration, self.delay);
            }
        }
        Vec::new()
    }
}

impl Default for Blink {
    fn default() -> (blink: Blink)
        ensures
            blink.duration == 1,
            blink.midi_notes is None,
            blink.delay == DEFAULT_DELAY,
    {
        Blink { duration: 1, midi_notes: None, delay: DEFAULT_DELAY }
    }
}

/// Reports every hit and does nothing else. The session is left as it was.
#[derive(Default)]
pub struct Debug;

impl<C> Algorithm<C> for Debug {
    open spec fn reaction(&self, stamp: u64, message: Seq<u8>, session: Session) -> (
        Session,
        Seq<Command<C>>,
    ) {
        if is_hit(message) {
            (
                session,
                seq![
                    Command::Report {
                        status: message[0],
                        identifier: message[1],
                        velocity: message[2],
                    },
                ],
            )
        } else {
            (session, Seq::empty())
        }
    }

    fn go(&self, stamp: u64, message: &[u8], state: &mut State) -> (commands: Vec<Command<C>>) {
        let mut commands: Vec<Command<C>> = Vec::new();
        if hit(message) {
            commands.push(
                Command::Report {
                    status: message[0],
                    identifier: message[1],
                    velocity: message[2],
                },
            );
        }
        commands
    }
}

/// Hits per minute: at the end of each window the rate of the hits counted
/// in it is looked up in a tier table, and the lights take the color found.
///
/// - `table` maps rates to colors: from each threshold on its color, below
///   all of them the base color
/// - `measurement_micros` is the length of the window, in microseconds
/// - `transition_milliseconds` says how fast the lights change color
pub struct HPM<C> {
    pub table: TierTable<C>,
    pub measurement_micros: u64,
    pub transition_milliseconds: u8,
}

impl<C: Copy> Algorithm<C> for HPM<C> {
    open spec fn reaction(&self, stamp: u64, message: Seq<u8>, session: Session) -> (
        Session,
        Seq<Command<C>>,
    ) {
        rate_reaction(
            self.table.base_output,
            self.table.tiers@,
            self.measurement_micros,
            self.transition_milliseconds,
            stamp,
            message,
            session,
        )
    }

    fn go(&self, stamp: u64, message: &[u8], state: &mut State) -> (commands: Vec<Command<C>>) {
        let mut commands: Vec<Command<C>> = Vec::new();
        if window_closed(stamp, state.start_timestamp(), self.measurement_micros) {
            let hpm = state.calculate_hpm(self.measurement_micros);
            let color = *self.table.select(hpm);
            commands.push(
                Command::Color {
                    color,
                    brightness: FULL_BRIGHTNESS,
                    transition: self.transition_milliseconds,
                },
            );
            state.record(hpm);
            state.reset(stamp);
        } else if hit(message) {
            state.count();
        }
        commands
    }
}

/// Hits per minute against one threshold: `high` where the rate reaches
/// `threshold`, `low` where it does not. It is [`HPM`] with a table of one
/// tier.
pub struct RateBinary<C> {
    pub low: C,
    pub high: C,
    pub threshold: u64,
    pub measurement_micros: u64,
    pub transition_milliseconds: u8,
}

impl<C: Copy> RateBinary<C> {
    /// The same algorithm with its table written out.
    pub fn tiered(&self) -> (hpm: HPM<C>)
        ensures
            hpm.table.base_output == self.low,
            hpm.table.tiers@ == Map::<u64, C>::empty().insert(self.threshold, self.high),
            hpm.measurement_micros == self.measurement_micros,
            hpm.transition_milliseconds == self.transition_milliseconds,
    {
        HPM {
            table: TierTable::binary(self.low, self.threshold, self.high),
            measurement_micros: self.measurement_micros,
            transition_milliseconds: self.transition_milliseconds,
        }
    }
}

impl<C: Copy> Algorithm<C> for RateBinary<C> {
    open spec fn reaction(&self, stamp: u64, message: Seq<u8>, session: Session) -> (
        Session,
        Seq<Command<C>>,
    ) {
        rate_reaction(
            self.low,
            Map::<u64, C>::empty().insert(self.threshold, self.high),
            self.measurement_micros,
            self.transition_milliseconds,
            stamp,
            message,
            session,
        )
    }

    fn go(&self, stamp: u64, message: &[u8], state: &mut State) -> (commands: Vec<Command<C>>) {
        self.tiered().go(stamp, message, state)
    }
}

/// Variety: at the end of each window the number of distinct identifiers
/// hit in it is held against `variety_threshold`, and the lights take
/// `above` where it is reached and `below` where it is not.
pub struct Variety<C> {
    pub below: C,
    pub above: C,
    pub variety_threshold: u8,
    pub measurement_micros: u64,
    pub transition_milliseconds: u8,
}

impl<C> Variety<C> {
    /// The color for `variety` distinct identifiers. A variety equal to the
    /// threshold reaches it.
    pub open spec fn choice(&self, variety: nat) -> C {
        if variety >= self.variety_threshold {
            self.above
        } else {
            self.below
        }
    }
}

impl<C: Copy> Algorithm<C> for Variety<C> {
    open spec fn reaction(&self, stamp: u64, message: Seq<u8>, session: Session) -> (
        Session,
        Seq<Command<C>>,
    ) {
        if is_closed(stamp, session.window_start, self.measurement_micros) {
            (
                session.reset(stamp),
                seq![shows(self.choice(session.variety()), self.transition_milliseconds)],
            )
        } else if is_hit(message) {
            (session.counted().noted(message[1]), Seq::empty())
        } else {
            (session, Seq::empty())
        }
    }

    fn go(&self, stamp: u64, message: &[u8], state: &mut State) -> (commands: Vec<Command<C>>) {
        let mut commands: Vec<Command<C>> = Vec::new();
        if window_closed(stamp, state.start_timestamp(), self.measurement_micros) {
            let variety = state.variety();
            let color = if variety >= self.variety_threshold as usize {
                self.above
            } else {
                self.below
            };
            commands.push(
                Command::Color {
                    color,
                    brightness: FULL_BRIGHTNESS,
                    transition: self.transition_milliseconds,
                },
            );
            state.reset(stamp);
        } else if hit(message) {
            state.count();
            state.note(message[1]);
        }
        commands
    }
}

/// The algorithms of this module under one type, so that a list can hold
/// any mix of them.
pub enum Classifier<C> {
    /// The rate, looked up in a table of tiers.
    RateTiered(HPM<C>),
    /// The rate, held against one threshold.
    RateBinary(RateBinary<C>),
    /// The variety, held against one threshold.
    VarietyBinary(Variety<C>),
    /// A blink on every hit.
    Blink(Blink),
    /// A blink on the hits that a filter lets through.
    SpecializedBlink(Blink),
    /// A report of every hit.
    Debug(Debug),
}

impl<C> Classifier<C> {
    /// The blinking algorithm under the variant that its filter calls for.
    pub fn blink(blink: Blink) -> (classifier: Classifier<C>)
        ensures
            blink.midi_notes is None ==> classifier == Classifier::<C>::Blink(blink),
            blink.midi_notes is Some ==> classifier == Classifier::<C>::SpecializedBlink(blink),
    {
        if blink.midi_notes.is_some() {
            Classifier::SpecializedBlink(blink)
        } else {
            Classifier::Blink(blink)
        }
    }
}

impl<C: Copy> Algorithm<C> for Classifier<C> {
    open spec fn reaction(&self, stamp: u64, message: Seq<u8>, session: Session) -> (
        Session,
        Seq<Command<C>>,
    ) {
        match self {
            Classifier::RateTiered(a) => a.reaction(stamp, message, session),
            Classifier::RateBinary(a) => a.reaction(stamp, message, session),
            Classifier::VarietyBinary(a) => a.reaction(stamp, message, session),
            Classifier::Blink(a) => a.reaction(stamp, message, session),
            Classifier::SpecializedBlink(a) => a.reaction(stamp, message, session),
            Classifier::Debug(a) => a.reaction(stamp, message, session),
        }
    }

    fn go(&self, stamp: u64, message: &[u8], state: &mut State) -> (commands: Vec<Command<C>>) {
        match self {
            Classifier::RateTiered(a) => a.go(stamp, message, state),
            Classifier::RateBinary(a) => a.go(stamp, message, state),
            Classifier::VarietyBinary(a) => a.go(stamp, message, state),
            Classifier::Blink(a) => a.go(stamp, message, state),
            Classifier::SpecializedBlink(a) => a.go(stamp, message, state),
            Classifier::Debug(a) => a.go(stamp, message, state),
        }
    }
}

impl Default for HPM<Xy> {
    /// Three tiers over a window of one second: from 0, from 200 and from
    /// 600 hits per minute.
    fn default() -> (hpm: HPM<Xy>)
        ensures
            hpm.table.base_output == (Xy { x: 3174, y: 3207 }),
            hpm.table.tiers@ == Map::<u64, Xy>::empty().insert(
                0,
                Xy { x: 10000, y: 10000 },
            ).insert(200, Xy { x: 1585, y: 884 }).insert(600, Xy { x: 10000, y: 0 }),
            hpm.measurement_micros == 1_000_000,
            hpm.transition_milliseconds == 1,
    {
        let mut table = TierTable::new(Xy { x: 3174, y: 3207 });
        table.insert(0, Xy { x: 10000, y: 10000 });
        table.insert(200, Xy { x: 1585, y: 884 });
        table.insert(600, Xy { x: 10000, y: 0 });
        HPM { table, measurement_micros: 1_000_000, transition_milliseconds: 1 }
    }
}

impl Default for Variety<Xy> {
    /// Three distinct identifiers within seven tenths of a second.
    fn default() -> (variety: Variety<Xy>)
        ensures
            variety.below == (Xy { x: 10000, y: 10000 }),
            variety.above == (Xy { x: 10000, y: 0 }),
            variety.variety_threshold == 3,
            variety.measurement_micros == 700_000,
            variety.transition_milliseconds == 1,
    {
        Variety {
            below: Xy { x: 10000, y: 10000 },
            above: Xy { x: 10000, y: 0 },
            variety_threshold: 3,
            measurement_micros: 700_000,
            transition_milliseconds: 1,
        }
    }
}

} // verus!
