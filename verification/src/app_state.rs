//! The lifecycle monitor: one activity record per service, and the rule that
//! ends the pipeline once every service has come to rest.

use crate::bus::{Received, ReceivedView};
use crate::events::{ActiveCount, EventType, EventView, StateUpdate};
use vstd::prelude::*;

verus! {

/// Where a service stands: not yet started, at work, or at rest after work.
#[derive(Debug, Clone, Copy, PartialEq, Eq, Structural)]
pub enum CurrentState {
    Initialized,
    Active,
    Inactive,
}

/// Why a delta was refused.
#[derive(Debug, Clone, Copy, PartialEq, Eq, Structural)]
pub enum CounterFault {
    /// A decrement arrived while no unit of work was open.
    Underflow,
    /// An increment arrived while the counter stood at its largest value.
    Overflow,
}

/// The activity record of one service.
#[derive(Debug, Clone, Copy)]
pub struct State {
    active_count: usize,
    current_state: CurrentState,
}

/// The mathematical value of a [`State`]: the number of open units of work
/// and the phase.
pub struct StateView {
    pub active_count: nat,
    pub current_state: CurrentState,
}

impl StateView {
    /// A record that no delta has reached yet.
    pub open spec fn initial() -> StateView {
        StateView { active_count: 0, current_state: CurrentState::Initialized }
    }

    /// The phase is `Active` exactly while units of work are open.
    pub open spec fn wf(self) -> bool {
        (self.current_state == CurrentState::Active) == (self.active_count > 0)
    }

    /// A decrement is accepted only while a unit of work is open.
    pub open spec fn accepts(self, action: ActiveCount) -> bool {
        action == ActiveCount::Increment || self.active_count > 0
    }

    /// The record after an accepted delta: the first increment makes the
    /// service `Active`, the decrement that closes the last open unit makes it
    /// `Inactive`. A refused delta leaves the record as it is.
    pub open spec fn after(self, action: ActiveCount) -> StateView {
        match action {
            ActiveCount::Increment => StateView {
                active_count: self.active_count + 1,
                current_state: if self.active_count == 0 {
                    CurrentState::Active
                } else {
                    self.current_state
                },
            },
            ActiveCount::Decrement => if self.active_count == 0 {
                self
            } else {
                StateView {
                    active_count: (self.active_count - 1) as nat,
                    current_state: if self.active_count == 1 {
                        CurrentState::Inactive
                    } else {
                        self.current_state
                    },
                }
            },
        }
    }

    /// The record after the deltas of `actions`, applied in order.
    pub open spec fn after_all(self, actions: Seq<ActiveCount>) -> StateView
        decreases actions.len(),
    {
        if actions.len() == 0 {
            self
        } else {
            self.after_all(actions.drop_last()).after(actions.last())
        }
    }
}

impl StateView {
    /// The increments of `actions` less its decrements.
    pub open spec fn net(actions: Seq<ActiveCount>) -> int
        decreases actions.len(),
    {
        if actions.len() == 0 {
            0
        } else {
            Self::net(actions.drop_last()) + if actions.last() == ActiveCount::Increment {
                1int
            } else {
                -1int
            }
        }
    }

    /// No decrement of `actions` comes before the increment it closes: at no
    /// point have more units been closed than opened.
    pub open spec fn never_negative(actions: Seq<ActiveCount>) -> bool {
        forall|k: int| 0 <= k <= actions.len() ==> Self::net(#[trigger] actions.take(k)) >= 0
    }

    /// Every increment of `actions` is matched by a later decrement, and
    /// every decrement closes an earlier increment.
    pub open spec fn balanced(actions: Seq<ActiveCount>) -> bool {
        Self::never_negative(actions) && Self::net(actions) == 0
    }

    /// Over deltas that never close more than was opened, a record at rest
    /// counts exactly the units still open, stays well formed, and has left
    /// `Initialized` as soon as one delta has reached it.
    pub proof fn lemma_after_all(self, actions: Seq<ActiveCount>)
        requires
            self.wf(),
            self.active_count == 0,
            Self::never_negative(actions),
        ensures
            self.after_all(actions).wf(),
            self.after_all(actions).active_count == Self::net(actions),
            actions.len() > 0 ==> self.after_all(actions).current_state
                != CurrentState::Initialized,
            actions.len() == 0 ==> self.after_all(actions) == self,
        decreases actions.len(),
    {
        if actions.len() > 0 {
            let init = actions.drop_last();
            assert forall|k: int| 0 <= k <= init.len() implies Self::net(
                #[trigger] init.take(k),
            ) >= 0 by {
                assert(init.take(k) == actions.take(k));
            }
            self.lemma_after_all(init);
            assert(actions.take(actions.len() as int) == actions);
        }
    }

    /// Counter balance: a record at rest that takes a balanced sequence of
    /// deltas refuses none of them and is at rest again afterwards, with no
    /// unit open; if the sequence was not empty, its phase is `Inactive`.
    pub proof fn lemma_counter_balance(self, actions: Seq<ActiveCount>)
        requires
            self.wf(),
            self.active_count == 0,
            Self::balanced(actions),
        ensures
            self.after_all(actions).active_count == 0,
            actions.len() > 0 ==> self.after_all(actions).current_state == CurrentState::Inactive,
            actions.len() == 0 ==> self.after_all(actions) == self,
            forall|k: int|
                0 <= k < actions.len() ==> (#[trigger] self.after_all(actions.take(k))).accepts(
                    actions[k],
                ),
    {
        self.lemma_after_all(actions);
        assert forall|k: int| 0 <= k < actions.len() implies (#[trigger] self.after_all(
            actions.take(k),
        )).accepts(actions[k]) by {
            let upto = actions.take(k);
            let next = actions.take(k + 1);
            assert forall|j: int| 0 <= j <= upto.len() implies Self::net(
                #[trigger] upto.take(j),
            ) >= 0 by {
                assert(upto.take(j) == actions.take(j));
            }
            self.lemma_after_all(upto);
            assert(next.drop_last() == upto);
        }
    }
}

impl View for State {
    type V = StateView;

    closed spec fn view(&self) -> StateView {
        StateView { active_count: self.active_count as nat, current_state: self.current_state }
    }
}

impl State {
    #[verifier::type_invariant]
    spec fn inv(self) -> bool {
        self@.wf()
    }

    /// A record that no delta has reached yet.
    pub fn new() -> (state: Self)
        ensures
            state@ == StateView::initial(),
    {
        State { active_count: 0, current_state: CurrentState::Initialized }
    }

    /// The number of open units of work.
    pub fn active_count(&self) -> (count: usize)
        ensures
            count == self@.active_count,
            self@.wf(),
    {
        proof {
            use_type_invariant(self);
        }
        self.active_count
    }

    /// The phase of the service.
    pub fn current_state(&self) -> (phase: CurrentState)
        ensures
            phase == self@.current_state,
            self@.wf(),
    {
        proof {
            use_type_invariant(self);
        }
        self.current_state
    }

    /// Applies one delta, or refuses it and leaves the record as it is.
    pub fn update_service_state(&mut self, action: ActiveCount) -> (result: Result<(), CounterFault>)
        ensures
            old(self)@.wf(),
            final(self)@.wf(),
            match result {
                Ok(()) => {
                    &&& old(self)@.accepts(action)
                    &&& final(self)@ == old(self)@.after(action)
                },
                Err(CounterFault::Underflow) => {
                    &&& action == ActiveCount::Decrement
                    &&& old(self)@.active_count == 0
                    &&& final(self)@ == old(self)@
                },
                Err(CounterFault::Overflow) => {
                    &&& action == ActiveCount::Increment
                    &&& old(self)@.active_count == usize::MAX
                    &&& final(self)@ == old(self)@
                },
            },
    {
        proof {
            use_type_invariant(&*self);
        }
        match action {
            ActiveCount::Increment => {
                if self.active_count == usize::MAX {
                    return Err(CounterFault::Overflow);
                }
                let count: usize = self.active_count + 1;
                let phase = if count == 1 {
                    CurrentState::Active
                } else {
                    self.current_state
                };
                *self = State { active_count: count, current_state: phase };
                Ok(())
            },
            ActiveCount::Decrement => {
                if self.active_count == 0 {
                    return Err(CounterFault::Underflow);
                }
                let count: usize = self.active_count - 1;
                let phase = if count == 0 {
                    CurrentState::Inactive
                } else {
                    self.current_state
                };
                *self = State { active_count: count, current_state: phase };
                Ok(())
            },
        }
    }
}

/// What the monitor does in answer to one received item.
#[derive(Debug, PartialEq, Eq)]
pub struct MonitorTurn {
    /// The events to publish: the shutdown signal, or nothing.
    pub publish: Vec<EventType>,
    /// The delta that was refused, where the received item carried one that
    /// the addressed record could not take.
    pub refused: Option<StateUpdate>,
    /// Whether the monitor goes on receiving.
    pub running: bool,
}

/// The mathematical value of a [`MonitorTurn`].
pub struct MonitorTurnView {
    pub publish: Seq<EventView>,
    pub refused: Option<StateUpdate>,
    pub running: bool,
}

impl View for MonitorTurn {
    type V = MonitorTurnView;

    open spec fn view(&self) -> MonitorTurnView {
        MonitorTurnView {
            publish: self.publish.deep_view(),
            refused: self.refused,
            running: self.running,
        }
    }
}

/// The lifecycle monitor.
#[derive(Debug)]
pub struct AppState {
    categories: State,
    fetcher: State,
    file_writer: State,
    shutdown_issued: bool,
}

/// The mathematical value of an [`AppState`].
pub struct AppStateView {
    pub categories: StateView,
    pub fetcher: StateView,
    pub file_writer: StateView,
    /// Whether the shutdown signal has gone out.
    pub shutdown_issued: bool,
}

impl AppStateView {
    /// A monitor that no delta has reached yet.
    pub open spec fn initial() -> AppStateView {
        AppStateView {
            categories: StateView::initial(),
            fetcher: StateView::initial(),
            file_writer: StateView::initial(),
            shutdown_issued: false,
        }
    }

    /// Every record is well formed, and the shutdown signal has gone out if
    /// the pipeline is at rest.
    pub open spec fn wf(self) -> bool {
        &&& self.categories.wf()
        &&& self.fetcher.wf()
        &&& self.file_writer.wf()
        &&& self.all_inactive() ==> self.shutdown_issued
    }

    /// The pipeline is at rest: every tracked service has worked and has come
    /// back to `Inactive`.
    pub open spec fn all_inactive(self) -> bool {
        &&& self.categories.current_state == CurrentState::Inactive
        &&& self.fetcher.current_state == CurrentState::Inactive
        &&& self.file_writer.current_state == CurrentState::Inactive
    }

    /// No service has a unit of work open.
    pub open spec fn all_counters_zero(self) -> bool {
        &&& self.categories.active_count == 0
        &&& self.fetcher.active_count == 0
        &&& self.file_writer.active_count == 0
    }

    /// Every service has opened a unit of work at least once.
    pub open spec fn all_started(self) -> bool {
        &&& self.categories.current_state != CurrentState::Initialized
        &&& self.fetcher.current_state != CurrentState::Initialized
        &&& self.file_writer.current_state != CurrentState::Initialized
    }

    /// Some service has a unit of work open.
    pub open spec fn some_active(self) -> bool {
        ||| self.categories.current_state == CurrentState::Active
        ||| self.fetcher.current_state == CurrentState::Active
        ||| self.file_writer.current_state == CurrentState::Active
    }

    /// The direction of a delta.
    pub open spec fn action_of(update: StateUpdate) -> ActiveCount {
        match update {
            StateUpdate::Categories(action) => action,
            StateUpdate::Fetcher(action) => action,
            StateUpdate::FileWriter(action) => action,
        }
    }

    /// The record that a delta addresses.
    pub open spec fn record(self, update: StateUpdate) -> StateView {
        match update {
            StateUpdate::Categories(_) => self.categories,
            StateUpdate::Fetcher(_) => self.fetcher,
            StateUpdate::FileWriter(_) => self.file_writer,
        }
    }

    /// Whether the addressed record takes the delta.
    pub open spec fn accepts(self, update: StateUpdate) -> bool {
        self.record(update).accepts(Self::action_of(update))
    }

    /// The monitor with the delta applied to the record it addresses, and to
    /// nothing else.
    pub open spec fn applied(self, update: StateUpdate) -> AppStateView {
        let record = self.record(update).after(Self::action_of(update));
        match update {
            StateUpdate::Categories(_) => AppStateView { categories: record, ..self },
            StateUpdate::Fetcher(_) => AppStateView { fetcher: record, ..self },
            StateUpdate::FileWriter(_) => AppStateView { file_writer: record, ..self },
        }
    }

    /// Whether the shutdown signal goes out on the turn that takes `update`:
    /// the delta is accepted, it leaves the pipeline at rest, and the signal
    /// has not gone out before.
    pub open spec fn fires(self, update: StateUpdate) -> bool {
        &&& self.accepts(update)
        &&& self.applied(update).all_inactive()
        &&& !self.shutdown_issued
    }

    /// The monitor after `received`: an accepted delta is applied and the
    /// shutdown signal recorded where it goes out; nothing else changes the
    /// monitor.
    pub open spec fn after(self, received: ReceivedView) -> AppStateView {
        match received {
            ReceivedView::Event(EventView::UpdateState(update)) => if self.accepts(update) {
                AppStateView {
                    shutdown_issued: self.shutdown_issued || self.fires(update),
                    ..self.applied(update)
                }
            } else {
                self
            },
            _ => self,
        }
    }

    /// The monitor's answer to `received`: a delta is applied or reported as
    /// refused, and the shutdown signal is published where it goes out; the
    /// shutdown signal itself, or a closed bus, ends the monitor; anything
    /// else, a lag fault included, is passed over.
    pub open spec fn turn_for(self, received: ReceivedView) -> MonitorTurnView {
        match received {
            ReceivedView::Event(EventView::UpdateState(update)) => MonitorTurnView {
                publish: if self.fires(update) {
                    seq![EventView::Shutdown]
                } else {
                    Seq::empty()
                },
                refused: if self.accepts(update) {
                    None
                } else {
                    Some(update)
                },
                running: true,
            },
            ReceivedView::Event(EventView::Shutdown) | ReceivedView::Closed => MonitorTurnView {
                publish: Seq::empty(),
                refused: None,
                running: false,
            },
            _ => MonitorTurnView { publish: Seq::empty(), refused: None, running: true },
        }
    }

    /// Whether the counters can take `received` without leaving the range of
    /// the machine: it is no increment for a record whose counter stands at
    /// its largest value.
    pub open spec fn fits(self, received: ReceivedView) -> bool {
        match received {
            ReceivedView::Event(EventView::UpdateState(update)) => {
                Self::action_of(update) == ActiveCount::Decrement || self.record(
                    update,
                ).active_count < usize::MAX
            },
            _ => true,
        }
    }

    /// The answer to a delta that does not fit: it is reported as refused and
    /// nothing is published.
    pub open spec fn refusal(received: ReceivedView) -> MonitorTurnView {
        MonitorTurnView {
            publish: Seq::empty(),
            refused: match received {
                ReceivedView::Event(EventView::UpdateState(update)) => Some(update),
                _ => None,
            },
            running: true,
        }
    }
}

impl AppStateView {
    /// A turn keeps the monitor well formed.
    pub proof fn lemma_after_wf(self, received: ReceivedView)
        requires
            self.wf(),
        ensures
            self.after(received).wf(),
    {
    }

    /// Quiescence: the shutdown signal is published on a turn exactly when
    /// that turn applies a delta which leaves every tracked service
    /// `Inactive`, and it has not been published before. At that moment no
    /// service has a unit of work open; and while any service is `Active`,
    /// nothing is published, whatever the other counters read.
    pub proof fn lemma_quiescence(self, received: ReceivedView)
        requires
            self.wf(),
        ensures
            self.turn_for(received).publish == seq![EventView::Shutdown] || self.turn_for(
                received,
            ).publish == Seq::<EventView>::empty(),
            self.turn_for(received).publish == seq![EventView::Shutdown] <==> {
                &&& received matches ReceivedView::Event(EventView::UpdateState(update))
                &&& self.accepts(update)
                &&& self.after(received).all_inactive()
                &&& !self.shutdown_issued
            },
            self.turn_for(received).publish == seq![EventView::Shutdown] ==> self.after(
                received,
            ).all_counters_zero(),
            self.after(received).some_active() ==> self.turn_for(received).publish
                == Seq::<EventView>::empty(),
    {
    }

    /// Once every service has started, the pipeline is at rest exactly when
    /// all counters read zero; before that, counters at zero do not make it
    /// at rest.
    pub proof fn lemma_at_rest_means_idle(self)
        requires
            self.wf(),
        ensures
            self.all_inactive() ==> self.all_counters_zero() && self.all_started(),
            self.all_started() ==> (self.all_inactive() <==> self.all_counters_zero()),
            self.all_inactive() ==> self.shutdown_issued,
    {
    }

    /// Read off the counters: on a turn that applies a delta, with every
    /// service started and the signal not yet out, the shutdown signal is
    /// published if and only if all counters read zero afterwards.
    pub proof fn lemma_shutdown_iff_counters_zero(self, update: StateUpdate)
        requires
            self.wf(),
            self.accepts(update),
            !self.shutdown_issued,
            self.applied(update).all_started(),
        ensures
            self.turn_for(ReceivedView::Event(EventView::UpdateState(update))).publish
                == seq![EventView::Shutdown] <==> self.applied(update).all_counters_zero(),
    {
        assert(seq![EventView::Shutdown].len() == 1);
    }

    /// The shutdown signal goes out once: after it has, no turn publishes
    /// anything, and the monitor remembers that it went out.
    pub proof fn lemma_shutdown_once(self, received: ReceivedView)
        requires
            self.wf(),
            self.shutdown_issued,
        ensures
            self.turn_for(received).publish == Seq::<EventView>::empty(),
            self.after(received).shutdown_issued,
    {
    }
}

impl AppStateView {
    /// The monitor after the items of `items` have reached it in order.
    pub open spec fn after_all(self, items: Seq<ReceivedView>) -> AppStateView
        decreases items.len(),
    {
        if items.len() == 0 {
            self
        } else {
            self.after_all(items.drop_last()).after(items.last())
        }
    }

    /// Everything the monitor publishes while the items of `items` reach it
    /// in order.
    pub open spec fn published_over(self, items: Seq<ReceivedView>) -> Seq<EventView>
        decreases items.len(),
    {
        if items.len() == 0 {
            Seq::empty()
        } else {
            self.published_over(items.drop_last()) + self.after_all(items.drop_last()).turn_for(
                items.last(),
            ).publish
        }
    }

    /// Whatever reaches the monitor, and in whatever order, it publishes at
    /// most one event, and that is the shutdown signal; a monitor whose
    /// signal is out publishes nothing.
    pub proof fn lemma_shutdown_at_most_once(self, items: Seq<ReceivedView>)
        requires
            self.wf(),
        ensures
            self.after_all(items).wf(),
            self.published_over(items) == Seq::<EventView>::empty() || self.published_over(items)
                == seq![EventView::Shutdown],
            self.shutdown_issued ==> self.published_over(items) == Seq::<EventView>::empty(),
            self.published_over(items) == seq![EventView::Shutdown] ==> self.after_all(
                items,
            ).shutdown_issued,
            self.shutdown_issued ==> self.after_all(items).shutdown_issued,
        decreases items.len(),
    {
        if items.len() > 0 {
            let earlier = items.drop_last();
            let before = self.after_all(earlier);
            self.lemma_shutdown_at_most_once(earlier);
            before.lemma_after_wf(items.last());
            before.lemma_quiescence(items.last());
            if self.published_over(earlier) == seq![EventView::Shutdown] {
                before.lemma_shutdown_once(items.last());
            }
        }
    }
}

impl View for AppState {
    type V = AppStateView;

    closed spec fn view(&self) -> AppStateView {
        AppStateView {
            categories: self.categories@,
            fetcher: self.fetcher@,
            file_writer: self.file_writer@,
            shutdown_issued: self.shutdown_issued,
        }
    }
}

impl AppState {
    #[verifier::type_invariant]
    spec fn inv(self) -> bool {
        self@.wf()
    }

    /// A monitor that no delta has reached yet.
    pub fn new() -> (monitor: Self)
        ensures
            monitor@ == AppStateView::initial(),
    {
        AppState {
            categories: State::new(),
            fetcher: State::new(),
            file_writer: State::new(),
            shutdown_issued: false,
        }
    }

    /// Whether every tracked service is `Inactive`.
    pub fn check_all_services_inactive(&self) -> (at_rest: bool)
        ensures
            at_rest == self@.all_inactive(),
            self@.wf(),
    {
        proof {
            use_type_invariant(self);
        }
        self.categories.current_state() == CurrentState::Inactive && self.fetcher.current_state()
            == CurrentState::Inactive && self.file_writer.current_state() == CurrentState::Inactive
    }

    /// Whether the shutdown signal has gone out.
    pub fn shutdown_issued(&self) -> (issued: bool)
        ensures
            issued == self@.shutdown_issued,
    {
        self.shutdown_issued
    }

    /// The record of the service that `update` addresses.
    pub fn service_state(&self, update: StateUpdate) -> (record: State)
        ensures
            record@ == self@.record(update),
    {
        match update {
            StateUpdate::Categories(_) => self.categories,
            StateUpdate::Fetcher(_) => self.fetcher,
            StateUpdate::FileWriter(_) => self.file_writer,
        }
    }

    /// Answers one received item.
    pub fn monitor_state(&mut self, received: Received) -> (turn: MonitorTurn)
        ensures
            old(self)@.wf(),
            final(self)@.wf(),
            old(self)@.fits(received@) ==> {
                &&& final(self)@ == old(self)@.after(received@)
                &&& turn@ == old(self)@.turn_for(received@)
            },
            !old(self)@.fits(received@) ==> {
                &&& final(self)@ == old(self)@
                &&& turn@ == AppStateView::refusal(received@)
            },
    {
        proof {
            use_type_invariant(&*self);
        }
        match received {
            Received::Event(EventType::UpdateState(update)) => {
                let action = match update {
                    StateUpdate::Categories(action) => action,
                    StateUpdate::Fetcher(action) => action,
                    StateUpdate::FileWriter(action) => action,
                };
                let mut record = self.service_state(update);
                let mut publish: Vec<EventType> = Vec::new();
                match record.update_service_state(action) {
                    Ok(()) => {
                        let (categories, fetcher, file_writer) = match update {
                            StateUpdate::Categories(_) => (record, self.fetcher, self.file_writer),
                            StateUpdate::Fetcher(_) => (self.categories, record, self.file_writer),
                            StateUpdate::FileWriter(_) => (self.categories, self.fetcher, record),
                        };
                        let at_rest = categories.current_state() == CurrentState::Inactive
                            && fetcher.current_state() == CurrentState::Inactive
                            && file_writer.current_state() == CurrentState::Inactive;
                        let fires = at_rest && !self.shutdown_issued;
                        if fires {
                            publish.push(EventType::Shutdown);
                            assert(publish.deep_view() =~= seq![EventView::Shutdown]);
                        } else {
                            assert(publish.deep_view() =~= Seq::<EventView>::empty());
                        }
                        *self = AppState {
                            categories,
                            fetcher,
                            file_writer,
                            shutdown_issued: self.shutdown_issued || fires,
                        };
                        MonitorTurn { publish, refused: None, running: true }
                    },
                    Err(_) => {
                        assert(publish.deep_view() =~= Seq::<EventView>::empty());
                        MonitorTurn { publish, refused: Some(update), running: true }
                    },
                }
            },
            Received::Event(EventType::Shutdown) | Received::Closed => {
                let publish: Vec<EventType> = Vec::new();
                assert(publish.deep_view() =~= Seq::<EventView>::empty());
                MonitorTurn { publish, refused: None, running: false }
            },
            _ => {
                let publish: Vec<EventType> = Vec::new();
                assert(publish.deep_view() =~= Seq::<EventView>::empty());
                MonitorTurn { publish, refused: None, running: true }
            },
        }
    }
}

} // verus!
