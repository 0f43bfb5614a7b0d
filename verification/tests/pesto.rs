use norcina::event::Event;
use norcina::pesto::event::{CustomEvent, EventSessionList, MaybeCustomEvent, Session};
use norcina::pesto::solve::{clock_of, start_of, Clock, Penalty};
use norcina::pesto::timer::Timer;

#[test]
fn events() {
    assert_eq!(Event::default(), Event::Cube3);
    assert_eq!(Event::Cube3.str_id(), "333");
    assert_eq!(Event::Square1.str_id(), "sq-1");
    assert_eq!(Event::Blind3.full_name(), "3x3x3 Blindfolded");
    assert_eq!(Event::OneHanded.short_name(), "OH");
    assert_eq!(Event::Cube2.id(), 0);
    assert_eq!(Event::Square1.id(), 16);
    for (place, event) in Event::ALL.into_iter().enumerate() {
        assert_eq!(event.id() as usize, place);
        assert_eq!(Event::from_id(event.id()), Some(event));
    }
    assert_eq!(Event::from_id(17), None);
}

#[test]
fn sessions_and_custom_events() {
    assert_eq!(Session::Main.name(), "main");
    assert_eq!(Session::Main.id(), 0);
    let session = Session::Custom { name: "slow".to_string(), id: 3 };
    assert_eq!(session.name(), "slow");
    assert_eq!(session.id(), 3);
    let official = MaybeCustomEvent::Official(Event::Pyraminx);
    assert_eq!(official.scramble_type(), Some(Event::Pyraminx));
    assert_eq!(official.short_name(), "Pyraminx");
    assert_eq!(official.id(), 14);
    let custom = CustomEvent { id: 17, name: "mirror".to_string(), scramble_type: Some(Event::Cube3) };
    let event = MaybeCustomEvent::Unofficial(custom.clone());
    assert_eq!(event.scramble_type(), Some(Event::Cube3));
    assert_eq!(event.short_name(), "mirror");
    assert_eq!(event.id(), 17);
    assert!(matches!(MaybeCustomEvent::default(), MaybeCustomEvent::Official(Event::Cube3)));
    let mut sessions = vec![vec![Session::Main]; 17];
    sessions.push(vec![Session::Main, session]);
    let list = EventSessionList { custom_events: vec![custom], sessions };
    let events = list.events();
    assert_eq!(events.len(), 18);
    assert_eq!(list.event_count(), 18);
    assert!(matches!(events[1], MaybeCustomEvent::Official(Event::Cube3)));
    assert_eq!(events[17].id(), 17);
    assert_eq!(list.sessions_of(event).len(), 2);
    assert_eq!(list.sessions_of(official).len(), 1);
}

#[test]
fn penalties_and_clocks() {
    assert_eq!(Penalty::NoPenalty.index(), 0);
    assert_eq!(Penalty::Plus2.index(), 1);
    assert_eq!(Penalty::DNF.index(), 2);
    for penalty in [Penalty::NoPenalty, Penalty::Plus2, Penalty::DNF] {
        assert_eq!(Penalty::from_index(penalty.index()), Some(penalty));
    }
    assert_eq!(Penalty::from_index(3), None);
    assert_eq!(clock_of(83_456), Clock { minutes: 1, seconds: 23, millis: 456 });
    assert_eq!(clock_of(59_999), Clock { minutes: 0, seconds: 59, millis: 999 });
    assert_eq!(start_of(10_000, 4_000), Some(6_000));
    assert_eq!(start_of(3_000, 4_000), None);
}

#[test]
fn timer_states() {
    let mut timer = Timer::default();
    assert_eq!(timer, Timer::Idle);
    assert_eq!(timer.press(1_000, 500), None);
    assert!(timer.is_pressed());
    assert_eq!(timer.press(1_050, 500), None);
    assert_eq!(timer, Timer::Pressed { press_start: 1_000 });
    // Let go too soon: idle again.
    timer.release(1_060, 100);
    assert_eq!(timer, Timer::Idle);
    timer.release(1_070, 100);
    assert_eq!(timer, Timer::Idle);
    assert_eq!(timer.press(2_000, 500), None);
    timer.release(2_100, 100);
    assert!(timer.is_running());
    assert_eq!(timer, Timer::Running { start: 2_100 });
    assert_eq!(timer.shown(2_600), 500);
    assert_eq!(timer.press(12_345, 500), Some(10_245));
    assert_eq!(timer, Timer::Stopped { time: 10_245, stopped_instant: 12_345 });
    assert_eq!(timer.shown(20_000), 10_245);
    // The press that stopped the timer does not hold it at once.
    assert_eq!(timer.press(12_400, 500), None);
    assert_eq!(timer, Timer::Stopped { time: 10_245, stopped_instant: 12_345 });
    assert_eq!(timer.press(12_845, 500), None);
    assert_eq!(timer, Timer::Pressed { press_start: 12_845 });
    assert_eq!(timer.shown(12_900), 0);
}
