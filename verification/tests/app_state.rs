use helpcenter_pipeline::app_state::{AppState, CounterFault, CurrentState, MonitorTurn, State};
use helpcenter_pipeline::bus::Received;
use helpcenter_pipeline::events::{
    ActiveCount, EventType, FetcherRequest, RequestUrl, StateUpdate,
};

fn idle() -> MonitorTurn {
    MonitorTurn { publish: Vec::new(), refused: None, running: true }
}

fn take(monitor: &mut AppState, update: StateUpdate) -> MonitorTurn {
    monitor.monitor_state(Received::Event(EventType::UpdateState(update)))
}

#[test]
fn a_record_walks_through_its_phases() {
    let mut record = State::new();
    assert_eq!(record.current_state(), CurrentState::Initialized);
    assert_eq!(record.active_count(), 0);
    assert_eq!(record.update_service_state(ActiveCount::Increment), Ok(()));
    assert_eq!(record.current_state(), CurrentState::Active);
    assert_eq!(record.active_count(), 1);
    assert_eq!(record.update_service_state(ActiveCount::Increment), Ok(()));
    assert_eq!(record.current_state(), CurrentState::Active);
    assert_eq!(record.active_count(), 2);
    assert_eq!(record.update_service_state(ActiveCount::Decrement), Ok(()));
    assert_eq!(record.current_state(), CurrentState::Active);
    assert_eq!(record.update_service_state(ActiveCount::Decrement), Ok(()));
    assert_eq!(record.current_state(), CurrentState::Inactive);
    assert_eq!(record.active_count(), 0);
    assert_eq!(record.update_service_state(ActiveCount::Increment), Ok(()));
    assert_eq!(record.current_state(), CurrentState::Active);
}

#[test]
fn a_decrement_at_zero_is_refused() {
    let mut record = State::new();
    assert_eq!(record.update_service_state(ActiveCount::Decrement), Err(CounterFault::Underflow));
    assert_eq!(record.current_state(), CurrentState::Initialized);
    assert_eq!(record.active_count(), 0);
    assert_eq!(record.update_service_state(ActiveCount::Increment), Ok(()));
    assert_eq!(record.update_service_state(ActiveCount::Decrement), Ok(()));
    assert_eq!(record.update_service_state(ActiveCount::Decrement), Err(CounterFault::Underflow));
    assert_eq!(record.current_state(), CurrentState::Inactive);
}

#[test]
fn balanced_deltas_return_to_inactive() {
    let (up, down) = (ActiveCount::Increment, ActiveCount::Decrement);
    let sequences: [&[ActiveCount]; 4] = [
        &[up, down],
        &[up, up, down, down],
        &[up, down, up, down, up, down],
        &[up, up, down, up, down, down],
    ];
    for actions in sequences {
        let mut record = State::new();
        for action in actions {
            assert_eq!(record.update_service_state(*action), Ok(()));
        }
        assert_eq!(record.active_count(), 0);
        assert_eq!(record.current_state(), CurrentState::Inactive);
    }
}

#[test]
fn shutdown_waits_for_every_service() {
    let mut monitor = AppState::new();
    assert!(!monitor.check_all_services_inactive());
    assert_eq!(take(&mut monitor, StateUpdate::Fetcher(ActiveCount::Increment)), idle());
    assert_eq!(take(&mut monitor, StateUpdate::Fetcher(ActiveCount::Decrement)), idle());
    // Every counter reads zero, but two services have not worked yet.
    assert!(!monitor.check_all_services_inactive());
    assert_eq!(take(&mut monitor, StateUpdate::Categories(ActiveCount::Increment)), idle());
    assert_eq!(take(&mut monitor, StateUpdate::FileWriter(ActiveCount::Increment)), idle());
    // The category counter returns to zero while the file service is at work.
    assert_eq!(take(&mut monitor, StateUpdate::Categories(ActiveCount::Decrement)), idle());
    assert!(!monitor.shutdown_issued());
    let last = take(&mut monitor, StateUpdate::FileWriter(ActiveCount::Decrement));
    assert_eq!(
        last,
        MonitorTurn { publish: vec![EventType::Shutdown], refused: None, running: true }
    );
    assert!(monitor.check_all_services_inactive());
    assert!(monitor.shutdown_issued());
}

#[test]
fn shutdown_goes_out_once() {
    let mut monitor = AppState::new();
    for update in [
        StateUpdate::Fetcher(ActiveCount::Increment),
        StateUpdate::Categories(ActiveCount::Increment),
        StateUpdate::FileWriter(ActiveCount::Increment),
        StateUpdate::Fetcher(ActiveCount::Decrement),
        StateUpdate::Categories(ActiveCount::Decrement),
    ] {
        assert_eq!(take(&mut monitor, update), idle());
    }
    let fired = take(&mut monitor, StateUpdate::FileWriter(ActiveCount::Decrement));
    assert_eq!(fired.publish, vec![EventType::Shutdown]);
    // A second round of work comes to rest again: nothing more goes out.
    assert_eq!(take(&mut monitor, StateUpdate::Fetcher(ActiveCount::Increment)), idle());
    assert!(!monitor.check_all_services_inactive());
    assert_eq!(take(&mut monitor, StateUpdate::Fetcher(ActiveCount::Decrement)), idle());
    assert!(monitor.check_all_services_inactive());
    assert!(monitor.shutdown_issued());
}

#[test]
fn an_underflow_is_reported_and_changes_nothing() {
    let mut monitor = AppState::new();
    let update = StateUpdate::FileWriter(ActiveCount::Decrement);
    assert_eq!(
        take(&mut monitor, update),
        MonitorTurn { publish: Vec::new(), refused: Some(update), running: true }
    );
    assert_eq!(monitor.service_state(update).active_count(), 0);
    assert_eq!(monitor.service_state(update).current_state(), CurrentState::Initialized);
    assert!(!monitor.shutdown_issued());
}

#[test]
fn the_monitor_passes_over_what_is_not_for_it() {
    let mut monitor = AppState::new();
    let request = EventType::FetcherRequest(FetcherRequest::Categories(RequestUrl {
        url: "categories.json".to_string(),
    }));
    assert_eq!(monitor.monitor_state(Received::Event(request)), idle());
    assert_eq!(monitor.monitor_state(Received::LagFault(12)), idle());
    assert!(!monitor.shutdown_issued());
}

#[test]
fn the_monitor_stops_on_shutdown_and_on_a_closed_bus() {
    let stopped = MonitorTurn { publish: Vec::new(), refused: None, running: false };
    let mut monitor = AppState::new();
    assert_eq!(monitor.monitor_state(Received::Event(EventType::Shutdown)), stopped);
    assert_eq!(monitor.monitor_state(Received::Closed), stopped);
}

#[test]
fn each_delta_reaches_its_own_record() {
    let mut monitor = AppState::new();
    let _ = take(&mut monitor, StateUpdate::Categories(ActiveCount::Increment));
    let _ = take(&mut monitor, StateUpdate::Categories(ActiveCount::Increment));
    let _ = take(&mut monitor, StateUpdate::Fetcher(ActiveCount::Increment));
    let probe = ActiveCount::Increment;
    assert_eq!(monitor.service_state(StateUpdate::Categories(probe)).active_count(), 2);
    assert_eq!(monitor.service_state(StateUpdate::Fetcher(probe)).active_count(), 1);
    assert_eq!(monitor.service_state(StateUpdate::FileWriter(probe)).active_count(), 0);
    assert_eq!(
        monitor.service_state(StateUpdate::FileWriter(probe)).current_state(),
        CurrentState::Initialized
    );
}
