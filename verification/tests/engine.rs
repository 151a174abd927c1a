use drue::algorithms::{Blink, Classifier, Variety, HPM};
use drue::command::Command;
use drue::engine::{dispatch, Engine, Ownership};
use drue::state::State;
use drue::tiers::TierTable;

const PAD_40: [u8; 3] = [144, 40, 100];

fn tempo() -> Classifier<char> {
    let mut table = TierTable::new('-');
    table.insert(0, 'A');
    table.insert(200, 'B');
    table.insert(600, 'C');
    Classifier::RateTiered(HPM { table, measurement_micros: 1_000_000, transition_milliseconds: 1 })
}

fn distinct() -> Classifier<char> {
    Classifier::VarietyBinary(Variety {
        below: 'v',
        above: 'V',
        variety_threshold: 2,
        measurement_micros: 1_000_000,
        transition_milliseconds: 1,
    })
}

fn report() -> Command<char> {
    Command::Report { status: 144, identifier: 40, velocity: 100 }
}

fn off() -> Command<char> {
    Command::Power { on: false, brightness: 254, transition: 1 }
}

fn on() -> Command<char> {
    Command::Power { on: true, brightness: 254, transition: 1 }
}

fn show(color: char) -> Command<char> {
    Command::Color { color, brightness: 254, transition: 1 }
}

#[test]
fn dispatch_without_algorithms_does_nothing() {
    let algorithms: Vec<Classifier<char>> = vec![];
    let mut state = State::new(0);
    assert_eq!(dispatch(&algorithms, 5_000_000, &PAD_40, &mut state), vec![]);
    assert_eq!(state.hits(), 0);
    assert_eq!(state.start_timestamp(), 0);
}

#[test]
fn dispatch_hands_the_event_to_one_algorithm() {
    let algorithms = vec![tempo()];
    let mut state = State::new(0);
    assert_eq!(dispatch(&algorithms, 1, &PAD_40, &mut state), vec![]);
    assert_eq!(state.hits(), 1);
    assert_eq!(dispatch(&algorithms, 1_000_001, &PAD_40, &mut state), vec![show('A')]);
}

#[test]
fn dispatch_keeps_the_order_of_the_list() {
    let blink: Classifier<char> = Classifier::blink(Blink::default());
    let debug: Classifier<char> = Classifier::Debug(drue::algorithms::Debug);
    let mut state = State::new(0);
    assert_eq!(
        dispatch(&[blink, debug], 1, &PAD_40, &mut state),
        vec![off(), Command::Pause { millis: 10 }, on(), report()]
    );
    let blink: Classifier<char> = Classifier::blink(Blink::default());
    let debug: Classifier<char> = Classifier::Debug(drue::algorithms::Debug);
    assert_eq!(
        dispatch(&[debug, blink], 1, &PAD_40, &mut state),
        vec![report(), off(), Command::Pause { millis: 10 }, on()]
    );
}

#[test]
fn dispatch_drops_suppressed_events() {
    let algorithms = vec![tempo(), Classifier::Debug(drue::algorithms::Debug), Classifier::blink(Blink::default())];
    let mut state = State::new(0);
    assert_eq!(dispatch(&algorithms, 1, &[169, 40, 100], &mut state), vec![]);
    assert_eq!(state.hits(), 0);
    assert_eq!(dispatch(&algorithms, 9_000_000, &[169, 40, 100], &mut state), vec![]);
    assert_eq!(state.start_timestamp(), 0);
    assert_eq!(dispatch(&algorithms, 9_000_000, &[169], &mut state), vec![]);
    assert_eq!(state.start_timestamp(), 0);
}

#[test]
fn dispatch_tolerates_empty_events() {
    let algorithms = vec![tempo(), Classifier::Debug(drue::algorithms::Debug)];
    let mut state = State::new(0);
    assert_eq!(dispatch(&algorithms, 1, &[], &mut state), vec![]);
    assert_eq!(state.hits(), 0);
    assert_eq!(dispatch(&algorithms, 1_000_001, &[], &mut state), vec![show('A')]);
    assert_eq!(state.start_timestamp(), 1_000_001);
}

#[test]
fn later_algorithm_sees_what_the_earlier_one_did() {
    let algorithms = vec![tempo(), distinct()];
    let mut state = State::new(0);
    assert_eq!(dispatch(&algorithms, 1, &PAD_40, &mut state), vec![]);
    assert_eq!(state.hits(), 2);
    assert_eq!(state.variety(), 1);
    // The first closes the window; the second finds a new one, open, and
    // takes the event in.
    assert_eq!(dispatch(&algorithms, 1_000_001, &PAD_40, &mut state), vec![show('A')]);
    assert_eq!(state.last_hpm(), 120);
    assert_eq!(state.start_timestamp(), 1_000_001);
    assert_eq!(state.hits(), 1);
    assert_eq!(state.variety(), 1);
}

#[test]
fn engine_starts_empty() {
    let mut engine: Engine<Classifier<char>> = Engine::new(42);
    assert_eq!(engine.started, 42);
    assert_eq!(engine.shared.start_timestamp(), 42);
    assert_eq!(engine.shared.hits(), 0);
    assert!(engine.slots.is_empty());
    assert_eq!(engine.on_event(1_000_000_000, &PAD_40), vec![]);
    assert_eq!(engine.shared.start_timestamp(), 42);
}

#[test]
fn engine_attaches_in_order() {
    let mut engine: Engine<Classifier<char>> = Engine::new(7);
    engine.attach(tempo(), Ownership::Shared);
    engine.attach(distinct(), Ownership::Private);
    engine.attach(Classifier::Debug(drue::algorithms::Debug), Ownership::Shared);
    assert_eq!(engine.slots.len(), 3);
    assert!(matches!(engine.slots[0].algorithm, Classifier::RateTiered(_)));
    assert!(engine.slots[0].own.is_none());
    assert!(matches!(engine.slots[1].algorithm, Classifier::VarietyBinary(_)));
    let own = engine.slots[1].own.as_ref().unwrap();
    assert_eq!(own.start_timestamp(), 7);
    assert_eq!(own.hits(), 0);
    assert_eq!(own.variety(), 0);
    assert!(engine.slots[2].own.is_none());
    assert_eq!(engine.started, 7);
}

#[test]
fn engine_with_shared_sessions_is_dispatch() {
    let mut engine: Engine<Classifier<char>> = Engine::new(0);
    engine.attach(tempo(), Ownership::Shared);
    engine.attach(distinct(), Ownership::Shared);
    let algorithms = vec![tempo(), distinct()];
    let mut state = State::new(0);
    for (stamp, message) in [
        (1u64, &PAD_40[..]),
        (2, &[144, 41, 1][..]),
        (3, &[169, 41, 1][..]),
        (1_000_001, &PAD_40[..]),
        (1_000_002, &[][..]),
        (2_000_002, &PAD_40[..]),
    ] {
        assert_eq!(engine.on_event(stamp, message), dispatch(&algorithms, stamp, message, &mut state));
        assert_eq!(engine.shared.hits(), state.hits());
        assert_eq!(engine.shared.variety(), state.variety());
        assert_eq!(engine.shared.start_timestamp(), state.start_timestamp());
        assert_eq!(engine.shared.last_hpm(), state.last_hpm());
    }
}

#[test]
fn private_session_is_left_alone_by_the_others() {
    let mut engine: Engine<Classifier<char>> = Engine::new(0);
    engine.attach(tempo(), Ownership::Shared);
    engine.attach(distinct(), Ownership::Private);
    assert_eq!(engine.on_event(1, &PAD_40), vec![]);
    assert_eq!(engine.on_event(2, &[144, 41, 100]), vec![]);
    assert_eq!(engine.shared.hits(), 2);
    assert_eq!(engine.shared.variety(), 0);
    assert_eq!(engine.slots[1].own.as_ref().unwrap().hits(), 2);
    assert_eq!(engine.slots[1].own.as_ref().unwrap().variety(), 2);
    // Both windows have run out: each algorithm closes its own.
    assert_eq!(engine.on_event(1_000_001, &PAD_40), vec![show('A'), show('V')]);
    assert_eq!(engine.shared.last_hpm(), 120);
    assert_eq!(engine.shared.hits(), 0);
    assert_eq!(engine.shared.start_timestamp(), 1_000_001);
    assert_eq!(engine.slots[1].own.as_ref().unwrap().hits(), 0);
    assert_eq!(engine.slots[1].own.as_ref().unwrap().variety(), 0);
    assert_eq!(engine.slots[1].own.as_ref().unwrap().start_timestamp(), 1_000_001);
    assert_eq!(engine.slots[1].own.as_ref().unwrap().last_hpm(), 0);
}

#[test]
fn engine_drops_suppressed_events() {
    let mut engine: Engine<Classifier<char>> = Engine::new(0);
    engine.attach(tempo(), Ownership::Shared);
    engine.attach(Classifier::Debug(drue::algorithms::Debug), Ownership::Private);
    assert_eq!(engine.on_event(5_000_000, &[169, 40, 100]), vec![]);
    assert_eq!(engine.shared.start_timestamp(), 0);
    assert_eq!(engine.shared.hits(), 0);
    assert_eq!(engine.on_event(5_000_000, &PAD_40), vec![show('A'), report()]);
}

#[test]
fn no_event_is_handled_during_a_pause() {
    let blink: Classifier<char> = Classifier::blink(Blink::default());
    let debug: Classifier<char> = Classifier::Debug(drue::algorithms::Debug);
    let algorithms = [blink, debug];
    let mut state = State::new(0);
    let mut log: Vec<String> = vec![];
    // Two events wait at the source. Each is handled to its end, the pause
    // included, before the next is taken.
    for (stamp, message) in [(1u64, [144u8, 40, 100]), (2, [144, 41, 100])] {
        log.push(format!("event {}", stamp));
        for command in dispatch(&algorithms, stamp, &message, &mut state) {
            log.push(match command {
                Command::Power { on, .. } => format!("power {}", on),
                Command::Pause { millis } => format!("pause {}", millis),
                Command::Report { identifier, .. } => format!("report {}", identifier),
                Command::Color { color, .. } => format!("color {}", color),
            });
        }
    }
    assert_eq!(
        log,
        [
            "event 1",
            "power false",
            "pause 10",
            "power true",
            "report 40",
            "event 2",
            "power false",
            "pause 10",
            "power true",
            "report 41",
        ]
    );
}
