//! The fetch service: turns fetch requests into calls on the remote API and
//! republishes what came back.

use crate::bus::{Received, ReceivedView};
use crate::categories::{CategoriesResponse, CategoriesResponseView};
use crate::events::{
    ActiveCount, EventType, EventView, FetcherRequest, FetcherRequestView, FetcherResponse,
    FetcherResponseView, StateUpdate,
};
use vstd::prelude::*;
use vstd::string::*;

verus! {

/// Where the remote API lives and how to authenticate against it.
#[derive(Debug, PartialEq, Eq)]
pub struct FetcherConfig {
    pub base_url: String,
    pub language: String,
    pub email: String,
    pub password: String,
}

/// The mathematical value of a [`FetcherConfig`].
pub struct FetcherConfigView {
    pub base_url: Seq<char>,
    pub language: Seq<char>,
    pub email: Seq<char>,
    pub password: Seq<char>,
}

impl View for FetcherConfig {
    type V = FetcherConfigView;

    open spec fn view(&self) -> FetcherConfigView {
        FetcherConfigView {
            base_url: self.base_url@,
            language: self.language@,
            email: self.email@,
            password: self.password@,
        }
    }
}

impl Clone for FetcherConfig {
    fn clone(&self) -> (r: Self)
        ensures
            r@ == self@,
    {
        FetcherConfig {
            base_url: self.base_url.clone(),
            language: self.language.clone(),
            email: self.email.clone(),
            password: self.password.clone(),
        }
    }
}

/// What came of one call on the remote API.
#[derive(Debug, PartialEq, Eq)]
pub enum FetchOutcome {
    /// The body arrived and decoded into a page.
    Page(CategoriesResponse),
    /// The body arrived but is no category page.
    Undecodable,
    /// The call itself failed, for the reason given.
    Failed { reason: String },
}

/// The mathematical value of a [`FetchOutcome`].
pub enum FetchOutcomeView {
    Page(CategoriesResponseView),
    Undecodable,
    Failed { reason: Seq<char> },
}

impl View for FetchOutcome {
    type V = FetchOutcomeView;

    open spec fn view(&self) -> FetchOutcomeView {
        match self {
            FetchOutcome::Page(page) => FetchOutcomeView::Page(page@),
            FetchOutcome::Undecodable => FetchOutcomeView::Undecodable,
            FetchOutcome::Failed { reason } => FetchOutcomeView::Failed { reason: reason@ },
        }
    }
}

/// What the fetch service does in answer to one received item.
#[derive(Debug, PartialEq, Eq)]
pub struct FetcherTurn {
    /// The events to publish, in order, before anything else is done.
    pub publish: Vec<EventType>,
    /// The address to call, where a fetch is to be started.
    pub fetch: Option<String>,
    /// Whether the service goes on receiving.
    pub running: bool,
}

/// The mathematical value of a [`FetcherTurn`].
pub struct FetcherTurnView {
    pub publish: Seq<EventView>,
    pub fetch: Option<Seq<char>>,
    pub running: bool,
}

impl View for FetcherTurn {
    type V = FetcherTurnView;

    open spec fn view(&self) -> FetcherTurnView {
        FetcherTurnView {
            publish: self.publish.deep_view(),
            fetch: self.fetch.deep_view(),
            running: self.running,
        }
    }
}

/// The fetch service.
pub struct Fetcher {
    config: FetcherConfig,
}

impl View for Fetcher {
    type V = FetcherConfigView;

    /// The fetch service has no state but its configuration.
    closed spec fn view(&self) -> FetcherConfigView {
        self.config@
    }
}

impl Fetcher {
    /// The message published when a body does not decode.
    pub open spec fn undecodable_message() -> Seq<char> {
        "Response did not match expected CategoriesResponse"@
    }

    /// The message published when the call failed for `reason`.
    pub open spec fn failure_message(reason: Seq<char>) -> Seq<char> {
        "Failed to fetch data: "@ + reason
    }

    /// The address of the page at `url`: the base address, the help-center
    /// API prefix, the language segment and the relative location.
    pub open spec fn endpoint_of(config: FetcherConfigView, url: Seq<char>) -> Seq<char> {
        config.base_url + "/api/v2/help_center/"@ + config.language + "/"@ + url
    }

    /// The service's answer to `received` under `config`: a fetch request
    /// opens a unit of work and starts a fetch, a shutdown or a closed bus
    /// ends the service, and anything else, a lag fault included, is passed
    /// over.
    pub open spec fn turn_for(config: FetcherConfigView, received: ReceivedView) -> FetcherTurnView {
        match received {
            ReceivedView::Event(EventView::FetcherRequest(FetcherRequestView::Categories(request))) => {
                FetcherTurnView {
                    publish: seq![
                        EventView::UpdateState(StateUpdate::Fetcher(ActiveCount::Increment)),
                    ],
                    fetch: Some(Self::endpoint_of(config, request.url)),
                    running: true,
                }
            },
            ReceivedView::Event(EventView::Shutdown) | ReceivedView::Closed => FetcherTurnView {
                publish: Seq::empty(),
                fetch: None,
                running: false,
            },
            _ => FetcherTurnView { publish: Seq::empty(), fetch: None, running: true },
        }
    }

    /// The response event that reports `outcome`.
    pub open spec fn response_for(outcome: FetchOutcomeView) -> EventView {
        EventView::FetcherResponse(
            match outcome {
                FetchOutcomeView::Page(page) => FetcherResponseView::Categories(page),
                FetchOutcomeView::Undecodable => FetcherResponseView::FetchFailed {
                    error: Self::undecodable_message(),
                },
                FetchOutcomeView::Failed { reason } => FetcherResponseView::FetchFailed {
                    error: Self::failure_message(reason),
                },
            },
        )
    }

    /// What is published when a fetch ends with `outcome`: the response, then
    /// the decrement that closes the unit of work.
    pub open spec fn completion_for(outcome: FetchOutcomeView) -> Seq<EventView> {
        seq![
            Self::response_for(outcome),
            EventView::UpdateState(StateUpdate::Fetcher(ActiveCount::Decrement)),
        ]
    }

    /// Every unit of work is closed: a turn opens a unit exactly when it
    /// starts a fetch, and the end of a fetch, whatever its outcome, is
    /// reported as one response followed by the one decrement that closes the
    /// unit.
    pub proof fn lemma_unit_is_bracketed(
        config: FetcherConfigView,
        received: ReceivedView,
        outcome: FetchOutcomeView,
    )
        ensures
            Self::turn_for(config, received).fetch is Some <==> Self::turn_for(
                config,
                received,
            ).publish == seq![EventView::UpdateState(StateUpdate::Fetcher(ActiveCount::Increment))],
            Self::turn_for(config, received).fetch is None <==> Self::turn_for(
                config,
                received,
            ).publish == Seq::<EventView>::empty(),
            Self::completion_for(outcome).len() == 2,
            Self::completion_for(outcome)[0] is FetcherResponse,
            Self::completion_for(outcome)[1] == EventView::UpdateState(
                StateUpdate::Fetcher(ActiveCount::Decrement),
            ),
    {
        assert(seq![
            EventView::UpdateState(StateUpdate::Fetcher(ActiveCount::Increment)),
        ].len() == 1);
    }

    /// A fetch service for the API that `config` describes.
    pub fn new(config: FetcherConfig) -> (fetcher: Self)
        ensures
            fetcher@ == config@,
    {
        Fetcher { config }
    }

    /// The configuration the service was made with.
    pub fn config(&self) -> (config: &FetcherConfig)
        ensures
            config@ == self@,
    {
        &self.config
    }

    /// The address to call for the page at `url`.
    pub fn endpoint(&self, url: &str) -> (address: String)
        ensures
            address@ == Self::endpoint_of(self@, url@),
    {
        let mut address = self.config.base_url.clone();
        address.append("/api/v2/help_center/");
        address.append(self.config.language.as_str());
        address.append("/");
        address.append(url);
        address
    }

    /// Answers one received item.
    pub fn run(&self, received: Received) -> (turn: FetcherTurn)
        ensures
            turn@ == Self::turn_for(self@, received@),
    {
        match received {
            Received::Event(EventType::FetcherRequest(FetcherRequest::Categories(request))) => {
                let address = self.endpoint(request.url.as_str());
                let mut publish: Vec<EventType> = Vec::new();
                publish.push(EventType::UpdateState(StateUpdate::Fetcher(ActiveCount::Increment)));
                assert(publish.deep_view() =~= seq![
                    EventView::UpdateState(StateUpdate::Fetcher(ActiveCount::Increment)),
                ]);
                FetcherTurn { publish, fetch: Some(address), running: true }
            },
            Received::Event(EventType::Shutdown) | Received::Closed => {
                let publish: Vec<EventType> = Vec::new();
                assert(publish.deep_view() =~= Seq::<EventView>::empty());
                FetcherTurn { publish, fetch: None, running: false }
            },
            _ => {
                let publish: Vec<EventType> = Vec::new();
                assert(publish.deep_view() =~= Seq::<EventView>::empty());
                FetcherTurn { publish, fetch: None, running: true }
            },
        }
    }

    /// Reports the end of a fetch: whatever the outcome, the response is
    /// followed by exactly one decrement.
    pub fn complete(outcome: FetchOutcome) -> (publish: Vec<EventType>)
        ensures
            publish.deep_view() == Self::completion_for(outcome@),
    {
        let response = match outcome {
            FetchOutcome::Page(page) => FetcherResponse::Categories(page),
            FetchOutcome::Undecodable => FetcherResponse::FetchFailed {
                error: String::from_str("Response did not match expected CategoriesResponse"),
            },
            FetchOutcome::Failed { reason } => {
                let mut error = String::from_str("Failed to fetch data: ");
                error.append(reason.as_str());
                FetcherResponse::FetchFailed { error }
            },
        };
        let mut publish: Vec<EventType> = Vec::new();
        publish.push(EventType::FetcherResponse(response));
        publish.push(EventType::UpdateState(StateUpdate::Fetcher(ActiveCount::Decrement)));
        publish
    }
}

} // verus!
