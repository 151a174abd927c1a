//! What holds of the library whatever the events are, stated over the same
//! spec functions as the contracts.

use vstd::prelude::*;
use vstd::arithmetic::div_mod::{lemma_fundamental_div_mod, lemma_mod_bound};
use crate::algorithms::{rate_reaction, shows, Algorithm, Classifier, Variety};
use crate::command::Command;
use crate::engine::{chain, dispatched, sweep, Sessions};
use crate::event::{is_hit, is_suppressed};
use crate::state::Session;
use crate::tiers::{is_greatest_met, selected};
use crate::window::{elapsed, is_closed, rate, MICROS_PER_MINUTE, MICROS_PER_SECOND};

verus! {

/// The rate of `hits` hits in a window of `duration` microseconds, where the
/// window has a length, is `hits * 60` over the length in seconds, rounded
/// toward zero: the greatest whole number that, times the length, does not
/// exceed the hits of a minute.
pub proof fn law_rate_rounds_down(hits: nat, duration: nat)
    requires
        duration > 0,
    ensures
        rate(hits, duration) == (hits * 60 * (MICROS_PER_SECOND as nat)) / duration,
        rate(hits, duration) * duration <= hits * 60 * (MICROS_PER_SECOND as nat),
        hits * 60 * (MICROS_PER_SECOND as nat) < (rate(hits, duration) + 1) * duration,
{
    let scaled: int = (hits * 60 * (MICROS_PER_SECOND as nat)) as int;
    let d = duration as int;
    lemma_fundamental_div_mod(scaled, d);
    lemma_mod_bound(scaled, d);
    let q = scaled / d;
    assert(q * d == d * q && (q + 1) * d == d * q + d) by (nonlinear_arith);
}

/// No hits give the rate zero, whatever the window's length.
pub proof fn law_no_hits_no_rate(duration: nat)
    ensures
        rate(0, duration) == 0,
{
}

/// A timestamp that lies before the opening of the window counts as no time
/// gone by, and closes no window.
pub proof fn law_clock_anomaly(now: u64, window_start: u64, duration: u64)
    requires
        now < window_start,
    ensures
        elapsed(now, window_start) == 0,
        !is_closed(now, window_start, duration),
{
}

/// A window closes only once more than its length has gone by: at exactly
/// its length it is still open, and a window of no length closes at the
/// first later timestamp.
pub proof fn law_window_closes_late(now: u64, window_start: u64, duration: u64)
    requires
        now >= window_start,
    ensures
        is_closed(now, window_start, duration) <==> now - window_start > duration,
        now - window_start == duration ==> !is_closed(now, window_start, duration),
        duration == 0 ==> (is_closed(now, window_start, duration) <==> now > window_start),
{
}

/// Among finitely many thresholds of which `metric` reaches at least one,
/// one is the greatest that it reaches.
pub proof fn law_greatest_exists<C>(tiers: Map<u64, C>, metric: nat)
    requires
        tiers.dom().finite(),
        exists|t: u64| tiers.contains_key(t) && t <= metric,
    ensures
        exists|t: u64| is_greatest_met(tiers, metric, t),
    decreases tiers.dom().len(),
{
    let t = choose|t: u64| tiers.contains_key(t) && t <= metric;
    let rest = tiers.remove(t);
    assert forall|u: u64| tiers.contains_key(u) && u != t implies rest.contains_key(u) by {}
    if exists|u: u64| rest.contains_key(u) && u <= metric {
        law_greatest_exists(rest, metric);
        let g = choose|g: u64| is_greatest_met(rest, metric, g);
        if g >= t {
            assert(is_greatest_met(tiers, metric, g));
        } else {
            assert(is_greatest_met(tiers, metric, t));
        }
    } else {
        assert(is_greatest_met(tiers, metric, t));
    }
}

/// The output selected is that of the greatest threshold that the metric
/// reaches, and the base output where it reaches none. A metric equal to a
/// threshold reaches it.
pub proof fn law_selection<C>(base: C, tiers: Map<u64, C>, metric: nat)
    requires
        tiers.dom().finite(),
    ensures
        forall|t: u64| is_greatest_met(tiers, metric, t) ==> selected(base, tiers, metric) == tiers[t],
        (exists|t: u64| tiers.contains_key(t) && t <= metric) ==> exists|t: u64|
            is_greatest_met(tiers, metric, t) && selected(base, tiers, metric) == tiers[t],
        (forall|t: u64| tiers.contains_key(t) ==> t > metric) ==> selected(base, tiers, metric)
            == base,
{
    if exists|t: u64| tiers.contains_key(t) && t <= metric {
        law_greatest_exists(tiers, metric);
    }
    if exists|t: u64| is_greatest_met(tiers, metric, t) {
        let chosen = choose|t: u64| is_greatest_met(tiers, metric, t);
        assert forall|t: u64| is_greatest_met(tiers, metric, t) implies t == chosen by {}
    }
}

/// A table without thresholds gives the base output for every metric.
pub proof fn law_empty_table<C>(base: C, metric: nat)
    ensures
        selected(base, Map::<u64, C>::empty(), metric) == base,
{
}

/// A table of one tier is a choice of two: `high` where the metric reaches
/// the threshold, `low` where it does not.
pub proof fn law_one_tier<C>(low: C, threshold: u64, high: C, metric: nat)
    ensures
        selected(low, Map::<u64, C>::empty().insert(threshold, high), metric) == if metric
            >= threshold {
            high
        } else {
            low
        },
{
    let tiers = Map::<u64, C>::empty().insert(threshold, high);
    if metric >= threshold {
        assert(is_greatest_met(tiers, metric, threshold));
    }
}

/// The color that the variety selects is that of a table of one tier.
pub proof fn law_variety_is_one_tier<C>(algorithm: Variety<C>, variety: nat)
    ensures
        algorithm.choice(variety) == selected(
            algorithm.below,
            Map::<u64, C>::empty().insert(algorithm.variety_threshold as u64, algorithm.above),
            variety,
        ),
{
    law_one_tier(algorithm.below, algorithm.variety_threshold as u64, algorithm.above, variety);
}

/// Noting an identifier that was hit before in the window changes nothing,
/// and noting any identifier adds at most one to the variety.
pub proof fn law_identifier_noted_once(session: Session, identifier: u8)
    requires
        session.valid(),
    ensures
        session.noted(identifier).noted(identifier) == session.noted(identifier),
        session.identifiers.contains(identifier) ==> session.noted(identifier).variety()
            == session.variety(),
        !session.identifiers.contains(identifier) ==> session.noted(identifier).variety()
            == session.variety() + 1,
        session.noted(identifier).valid(),
{
    assert(session.identifiers.insert(identifier).insert(identifier) =~= session.identifiers.insert(
        identifier,
    ));
}

/// Two hits on one identifier while the window is open raise the variety by
/// no more than one hit does: after the first the identifier is known, and
/// the second leaves the variety as it is.
pub proof fn law_repeated_hits<C: Copy>(
    algorithm: Variety<C>,
    session: Session,
    first_stamp: u64,
    first: Seq<u8>,
    second_stamp: u64,
    second: Seq<u8>,
)
    requires
        session.valid(),
        is_hit(first),
        is_hit(second),
        first[1] == second[1],
        !is_closed(first_stamp, session.window_start, algorithm.measurement_micros),
        !is_closed(second_stamp, session.window_start, algorithm.measurement_micros),
    ensures
        ({
            let once = algorithm.reaction(first_stamp, first, session).0;
            let twice = algorithm.reaction(second_stamp, second, once).0;
            &&& once.identifiers.contains(first[1])
            &&& once.variety() <= session.variety() + 1
            &&& twice.variety() == once.variety()
            &&& twice.identifiers == once.identifiers
        }),
{
    law_identifier_noted_once(session, first[1]);
    let once = algorithm.reaction(first_stamp, first, session).0;
    law_identifier_noted_once(once, first[1]);
}

/// Closing a window is idempotent: closed twice at one timestamp, the
/// session is as after the first time.
pub proof fn law_reset_idempotent(session: Session, stamp: u64)
    ensures
        session.reset(stamp).reset(stamp) == session.reset(stamp),
        session.reset(stamp).hits == 0,
        session.reset(stamp).identifiers == Set::<u8>::empty(),
        session.reset(stamp).window_start == stamp,
        session.reset(stamp).last_rate == session.last_rate,
{
}

/// A window that closes without a hit in it has the rate zero: the lights
/// take the color that the table gives for zero, and the session is left
/// with no hits and no identifiers. So it is each time that this happens
/// again.
pub proof fn law_empty_window<C>(
    base: C,
    tiers: Map<u64, C>,
    measurement_micros: u64,
    transition: u8,
    stamp: u64,
    message: Seq<u8>,
    session: Session,
)
    requires
        session.hits == 0,
        is_closed(stamp, session.window_start, measurement_micros),
    ensures
        ({
            let after = rate_reaction(
                base,
                tiers,
                measurement_micros,
                transition,
                stamp,
                message,
                session,
            );
            &&& after.1 == seq![shows(selected(base, tiers, 0), transition)]
            &&& after.0.last_rate == 0
            &&& after.0.hits == 0
            &&& after.0.identifiers == Set::<u8>::empty()
            &&& after.0.window_start == stamp
        }),
{
}

/// The window that a classifier measures by, if it measures by one.
pub open spec fn window_of<C>(classifier: Classifier<C>) -> Option<u64> {
    match classifier {
        Classifier::RateTiered(a) => Some(a.measurement_micros),
        Classifier::RateBinary(a) => Some(a.measurement_micros),
        Classifier::VarietyBinary(a) => Some(a.measurement_micros),
        Classifier::Blink(_) => None,
        Classifier::SpecializedBlink(_) => None,
        Classifier::Debug(_) => None,
    }
}

/// Whether the event at `stamp` closes the window that `classifier`
/// measures by.
pub open spec fn closes<C>(classifier: Classifier<C>, stamp: u64, session: Session) -> bool {
    match window_of(classifier) {
        Some(duration) => is_closed(stamp, session.window_start, duration),
        None => false,
    }
}

/// What one event does to the session, whatever the classifier.
///
/// Either the window closes or the event is taken in, never both. The window
/// closes only for a classifier that measures by one, and only when it has
/// run out: then the count returns to zero, no identifier is left, the next
/// window opens at the event's timestamp, which is later than the last
/// opening, and exactly one command goes to the lights. Otherwise the window
/// stays open and the lights get no color; the count grows by at most one,
/// and only on a hit for a classifier that measures; no identifier is
/// forgotten. A valid session stays valid.
pub proof fn law_one_step<C: Copy>(
    classifier: Classifier<C>,
    stamp: u64,
    message: Seq<u8>,
    session: Session,
)
    requires
        session.valid(),
    ensures
        ({
            let after = classifier.reaction(stamp, message, session);
            &&& after.0.valid()
            &&& after.0.window_start >= session.window_start
            &&& closes(classifier, stamp, session) ==> {
                &&& after.0.hits == 0
                &&& after.0.identifiers == Set::<u8>::empty()
                &&& after.0.window_start == stamp
                &&& stamp > session.window_start
                &&& after.1.len() == 1
                &&& after.1[0] is Color
            }
            &&& !closes(classifier, stamp, session) ==> {
                &&& after.0.window_start == session.window_start
                &&& after.0.last_rate == session.last_rate
                &&& session.hits <= after.0.hits <= session.hits + 1
                &&& session.identifiers.subset_of(after.0.identifiers)
                &&& forall|i: int| 0 <= i < after.1.len() ==> !(after.1[i] is Color)
                &&& (!is_hit(message) || window_of(classifier) is None) ==> after.0 == session
            }
        }),
{
}

/// The rate recorded last is kept to be looked at and read by no decision:
/// with any other in its place the commands are the same, and so is the
/// rest of the session afterwards.
pub proof fn law_last_rate_unread<C: Copy>(
    classifier: Classifier<C>,
    stamp: u64,
    message: Seq<u8>,
    session: Session,
    other: nat,
)
    ensures
        ({
            let with_own = classifier.reaction(stamp, message, session);
            let with_other = classifier.reaction(stamp, message, session.rated(other));
            &&& with_own.1 == with_other.1
            &&& with_own.0.hits == with_other.0.hits
            &&& with_own.0.window_start == with_other.0.window_start
            &&& with_own.0.identifiers == with_other.0.identifiers
        }),
{
}

/// An event that is no hit, such as one with the velocity zero, is counted
/// by no classifier and answered by none: unless it closes a window, it
/// changes nothing and gives rise to no command.
pub proof fn law_no_hit_no_trace<C: Copy>(
    classifier: Classifier<C>,
    stamp: u64,
    message: Seq<u8>,
    session: Session,
)
    requires
        !is_hit(message),
        !closes(classifier, stamp, session),
    ensures
        classifier.reaction(stamp, message, session) == (session, Seq::<Command<C>>::empty()),
        message.len() == 3 && message[2] == 0 ==> !is_hit(message),
{
}

/// An event that starts with the reserved status is dropped before any
/// algorithm sees it: whatever the algorithms and the time, the session stays
/// as it is and nothing is commanded.
pub proof fn law_suppressed_is_unseen<C, A: Algorithm<C>>(
    algorithms: Seq<A>,
    stamp: u64,
    message: Seq<u8>,
    session: Session,
)
    requires
        is_suppressed(message),
    ensures
        dispatched(algorithms, stamp, message, session) == (session, Seq::<Command<C>>::empty()),
{
}

/// One algorithm in a list does with an event what it does alone.
pub proof fn law_list_of_one<C, A: Algorithm<C>>(
    algorithm: A,
    stamp: u64,
    message: Seq<u8>,
    session: Session,
)
    ensures
        chain(seq![algorithm], stamp, message, session) == algorithm.reaction(
            stamp,
            message,
            session,
        ),
{
    assert(chain(seq![algorithm].drop_last(), stamp, message, session) == (
        session,
        Seq::<Command<C>>::empty(),
    ));
}

/// No algorithm has a session of its own.
pub open spec fn all_shared(own: Seq<Option<Session>>) -> bool {
    forall|i: int| 0 <= i < own.len() ==> own[i] is None
}

/// Algorithms that all work on the shared session do in an engine what they
/// do in a plain list, and stay without sessions of their own.
pub proof fn law_shared_engine_is_list<C, A: Algorithm<C>>(
    algorithms: Seq<A>,
    stamp: u64,
    message: Seq<u8>,
    sessions: Sessions,
)
    requires
        sessions.own.len() == algorithms.len(),
        all_shared(sessions.own),
    ensures
        ({
            let swept = sweep(algorithms, stamp, message, sessions);
            let listed = chain(algorithms, stamp, message, sessions.shared);
            &&& swept.0.shared == listed.0
            &&& swept.0.own == sessions.own
            &&& swept.1 == listed.1
        }),
    decreases algorithms.len(),
{
    if algorithms.len() > 0 {
        let front = Sessions { shared: sessions.shared, own: sessions.own.drop_last() };
        law_shared_engine_is_list(algorithms.drop_last(), stamp, message, front);
    }
}

/// An algorithm with a session of its own works on that one: the shared
/// session is as the algorithms before it left it, and its commands come
/// after theirs.
pub proof fn law_private_session_apart<C, A: Algorithm<C>>(
    algorithms: Seq<A>,
    stamp: u64,
    message: Seq<u8>,
    sessions: Sessions,
)
    requires
        algorithms.len() > 0,
        sessions.own.len() == algorithms.len(),
        sessions.own.last() is Some,
    ensures
        ({
            let front = Sessions { shared: sessions.shared, own: sessions.own.drop_last() };
            let before = sweep(algorithms.drop_last(), stamp, message, front);
            let alone = algorithms.last().reaction(stamp, message, sessions.own.last()->0);
            let swept = sweep(algorithms, stamp, message, sessions);
            &&& swept.0.shared == before.0.shared
            &&& swept.0.own == before.0.own.push(Some(alone.0))
            &&& swept.1 == before.1 + alone.1
        }),
{
}

} // verus!
