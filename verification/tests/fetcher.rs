use helpcenter_pipeline::bus::Received;
use helpcenter_pipeline::categories::{CategoriesResponse, Category};
use helpcenter_pipeline::events::{
    ActiveCount, EventType, FetcherRequest, FetcherResponse, FileRequest, RequestUrl, StateUpdate,
};
use helpcenter_pipeline::fetcher::{FetchOutcome, Fetcher, FetcherConfig, FetcherTurn};

fn config() -> FetcherConfig {
    FetcherConfig {
        base_url: "https://example.zendesk.com".to_string(),
        language: "en-001".to_string(),
        email: "someone@example.com".to_string(),
        password: "irrelevant".to_string(),
    }
}

fn decrement() -> EventType {
    EventType::UpdateState(StateUpdate::Fetcher(ActiveCount::Decrement))
}

#[test]
fn the_endpoint_joins_base_language_and_location() {
    let fetcher = Fetcher::new(config());
    assert_eq!(
        fetcher.endpoint("categories.json"),
        "https://example.zendesk.com/api/v2/help_center/en-001/categories.json"
    );
    assert_eq!(fetcher.endpoint(""), "https://example.zendesk.com/api/v2/help_center/en-001/");
    assert_eq!(fetcher.config().email, "someone@example.com");
}

#[test]
fn a_request_opens_a_unit_and_starts_a_fetch() {
    let fetcher = Fetcher::new(config());
    let request = EventType::FetcherRequest(FetcherRequest::Categories(RequestUrl {
        url: "categories.json?page=2".to_string(),
    }));
    assert_eq!(
        fetcher.run(Received::Event(request)),
        FetcherTurn {
            publish: vec![EventType::UpdateState(StateUpdate::Fetcher(ActiveCount::Increment))],
            fetch: Some(
                "https://example.zendesk.com/api/v2/help_center/en-001/categories.json?page=2"
                    .to_string()
            ),
            running: true,
        }
    );
}

#[test]
fn the_fetcher_passes_over_everything_else() {
    let fetcher = Fetcher::new(config());
    let idle = FetcherTurn { publish: Vec::new(), fetch: None, running: true };
    let file = EventType::FileRequest(FileRequest::Markdown {
        path: "a".to_string(),
        data: "b".to_string(),
    });
    assert_eq!(fetcher.run(Received::Event(file)), idle);
    assert_eq!(fetcher.run(Received::Event(decrement())), idle);
    assert_eq!(fetcher.run(Received::LagFault(3)), idle);
    let failed = EventType::FetcherResponse(FetcherResponse::FetchFailed { error: "x".to_string() });
    assert_eq!(fetcher.run(Received::Event(failed)), idle);
}

#[test]
fn the_fetcher_stops_on_shutdown_and_on_a_closed_bus() {
    let fetcher = Fetcher::new(config());
    let stopped = FetcherTurn { publish: Vec::new(), fetch: None, running: false };
    assert_eq!(fetcher.run(Received::Event(EventType::Shutdown)), stopped);
    assert_eq!(fetcher.run(Received::Closed), stopped);
}

#[test]
fn a_page_is_republished_and_the_unit_closed() {
    let page = CategoriesResponse {
        categories: vec![Category { id: 1, name: "Billing".to_string(), url: "u".to_string() }],
        next_page: Some("next".to_string()),
    };
    let same = CategoriesResponse {
        categories: vec![Category { id: 1, name: "Billing".to_string(), url: "u".to_string() }],
        next_page: Some("next".to_string()),
    };
    assert_eq!(
        Fetcher::complete(FetchOutcome::Page(page)),
        vec![EventType::FetcherResponse(FetcherResponse::Categories(same)), decrement()]
    );
}

#[test]
fn a_failed_fetch_is_reported_and_the_unit_closed() {
    assert_eq!(
        Fetcher::complete(FetchOutcome::Failed { reason: "connection refused".to_string() }),
        vec![
            EventType::FetcherResponse(FetcherResponse::FetchFailed {
                error: "Failed to fetch data: connection refused".to_string()
            }),
            decrement()
        ]
    );
}

#[test]
fn an_undecodable_body_is_reported_and_the_unit_closed() {
    assert_eq!(
        Fetcher::complete(FetchOutcome::Undecodable),
        vec![
            EventType::FetcherResponse(FetcherResponse::FetchFailed {
                error: "Response did not match expected CategoriesResponse".to_string()
            }),
            decrement()
        ]
    );
}
