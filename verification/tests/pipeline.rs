use helpcenter_pipeline::app_state::AppState;
use helpcenter_pipeline::bus::{EventBus, Received, SubscriberId};
use helpcenter_pipeline::categories::{Categories, CategoriesResponse, Category};
use helpcenter_pipeline::events::EventType;
use helpcenter_pipeline::fetcher::{FetchOutcome, Fetcher, FetcherConfig};
use helpcenter_pipeline::file_writer::{FileWriter, WriteJob};

/// What a run of the whole pipeline left behind.
struct Run {
    fetched: Vec<String>,
    written: Vec<WriteJob>,
    shutdowns: usize,
    all_stopped: bool,
    at_rest: bool,
}

fn config() -> FetcherConfig {
    FetcherConfig {
        base_url: "https://example.zendesk.com".to_string(),
        language: "en-001".to_string(),
        email: "someone@example.com".to_string(),
        password: "irrelevant".to_string(),
    }
}

fn next(bus: &mut EventBus, id: SubscriberId, running: bool) -> Option<Received> {
    if running {
        bus.receive(id)
    } else {
        None
    }
}

/// How the test hands out turns.
#[derive(Clone, Copy, PartialEq)]
enum Schedule {
    /// Every service takes one item per round.
    RoundRobin,
    /// The monitor takes an item only when no other service has one.
    MonitorLast,
}

/// Runs the four services over one bus and answers each fetch with what
/// `remote` returns for its address.
fn run_pipeline(schedule: Schedule, remote: &dyn Fn(&str) -> FetchOutcome) -> Run {
    let mut bus = EventBus::new(100);
    let monitor_id = bus.subscribe();
    let fetcher_id = bus.subscribe();
    let writer_id = bus.subscribe();
    let categories_id = bus.subscribe();
    let probe = bus.subscribe();

    let mut monitor = AppState::new();
    let fetcher = Fetcher::new(config());
    let writer = FileWriter::new();
    let mut categories = Categories::new();
    let mut running = [true, true, true, true];
    let mut run =
        Run { fetched: Vec::new(), written: Vec::new(), shutdowns: 0, all_stopped: false, at_rest: false };

    bus.publish(categories.seed()).unwrap();
    for _ in 0..1000 {
        let mut progress = false;
        if schedule == Schedule::RoundRobin {
            if let Some(received) = next(&mut bus, monitor_id, running[0]) {
                progress = true;
                let turn = monitor.monitor_state(received);
                assert_eq!(turn.refused, None);
                bus.publish_all(turn.publish).unwrap();
                running[0] = turn.running;
            }
        }
        if let Some(received) = next(&mut bus, fetcher_id, running[1]) {
            progress = true;
            let turn = fetcher.run(received);
            bus.publish_all(turn.publish).unwrap();
            if let Some(address) = turn.fetch {
                let outcome = remote(&address);
                run.fetched.push(address);
                bus.publish_all(Fetcher::complete(outcome)).unwrap();
            }
            running[1] = turn.running;
        }
        if let Some(received) = next(&mut bus, writer_id, running[2]) {
            progress = true;
            let turn = writer.run(received);
            bus.publish_all(turn.before).unwrap();
            if let Some(job) = turn.write {
                run.written.push(job);
            }
            bus.publish_all(turn.after).unwrap();
            running[2] = turn.running;
        }
        if let Some(received) = next(&mut bus, categories_id, running[3]) {
            progress = true;
            let turn = categories.run(received);
            assert_eq!(turn.failure, None);
            bus.publish_all(turn.publish).unwrap();
            running[3] = turn.running;
        }
        if schedule == Schedule::MonitorLast && !progress {
            if let Some(received) = next(&mut bus, monitor_id, running[0]) {
                progress = true;
                let turn = monitor.monitor_state(received);
                assert_eq!(turn.refused, None);
                bus.publish_all(turn.publish).unwrap();
                running[0] = turn.running;
            }
        }
        while let Some(seen) = bus.receive(probe) {
            if seen == Received::Event(EventType::Shutdown) {
                run.shutdowns += 1;
            }
        }
        if !progress {
            break;
        }
    }
    run.all_stopped = running == [false, false, false, false];
    run.at_rest = monitor.check_all_services_inactive();
    run
}

fn front_matter_bytes(title: &str) -> Vec<u8> {
    format!("---\ntitle: \"{}\"\n---\n\n", title).into_bytes()
}

#[test]
fn one_category_ends_in_one_file_and_one_shutdown() {
    let remote = |address: &str| {
        assert_eq!(address, "https://example.zendesk.com/api/v2/help_center/en-001/categories.json");
        FetchOutcome::Page(CategoriesResponse {
            categories: vec![Category {
                id: 1,
                name: "Billing".to_string(),
                url: "https://example.zendesk.com/hc/en-001/categories/1".to_string(),
            }],
            next_page: None,
        })
    };
    for schedule in [Schedule::RoundRobin, Schedule::MonitorLast] {
        let run = run_pipeline(schedule, &remote);
        assert_eq!(run.fetched.len(), 1);
        assert_eq!(
            run.written,
            vec![WriteJob {
                path: "data/Billing/_index.md".to_string(),
                data: front_matter_bytes("Billing"),
            }]
        );
        assert_eq!(run.shutdowns, 1);
        assert!(run.at_rest);
        assert!(run.all_stopped);
    }
}

fn three_pages(address: &str) -> FetchOutcome {
    let prefix = "https://example.zendesk.com/api/v2/help_center/en-001/";
    let location = address.strip_prefix(prefix).unwrap();
    let (names, next_page): (&[&str], Option<&str>) = match location {
        "categories.json" => (&["Getting Started!", "A/B Test"], Some("page-2")),
        "page-2" => (&["Billing"], Some("page-3")),
        "page-3" => (&["Returns", "Shipping"], None),
        _ => unreachable!(),
    };
    FetchOutcome::Page(CategoriesResponse {
        categories: names
            .iter()
            .enumerate()
            .map(|(n, name)| Category { id: n as i64, name: name.to_string(), url: String::new() })
            .collect(),
        next_page: next_page.map(|cursor| cursor.to_string()),
    })
}

fn three_pages_paths() -> Vec<String> {
    vec![
        "data/AB_Test/_index.md".to_string(),
        "data/Billing/_index.md".to_string(),
        "data/Getting_Started/_index.md".to_string(),
        "data/Returns/_index.md".to_string(),
        "data/Shipping/_index.md".to_string(),
    ]
}

#[test]
fn three_pages_are_fetched_and_every_category_written() {
    let run = run_pipeline(Schedule::MonitorLast, &three_pages);
    assert_eq!(
        run.fetched,
        vec![
            "https://example.zendesk.com/api/v2/help_center/en-001/categories.json".to_string(),
            "https://example.zendesk.com/api/v2/help_center/en-001/page-2".to_string(),
            "https://example.zendesk.com/api/v2/help_center/en-001/page-3".to_string(),
        ]
    );
    let mut paths: Vec<String> = run.written.iter().map(|job| job.path.clone()).collect();
    paths.sort();
    assert_eq!(paths, three_pages_paths());
    assert_eq!(run.shutdowns, 1);
    assert!(run.at_rest);
    assert!(run.all_stopped);
}

#[test]
fn a_shutdown_may_overtake_pages_still_in_flight() {
    // Quiescence is read off the counters alone: with every service taking
    // turns, all three come to rest between two pages, and the shutdown goes
    // out before the last page is worked off.
    let run = run_pipeline(Schedule::RoundRobin, &three_pages);
    assert_eq!(run.shutdowns, 1);
    assert!(run.all_stopped);
    assert!(!run.fetched.is_empty() && run.fetched.len() <= 3);
    assert!(!run.written.is_empty() && run.written.len() <= 5);
    for job in &run.written {
        assert!(three_pages_paths().contains(&job.path));
    }
}

#[test]
fn a_listing_without_categories_leaves_the_file_service_unstarted() {
    let remote =
        |_: &str| FetchOutcome::Page(CategoriesResponse { categories: Vec::new(), next_page: None });
    let run = run_pipeline(Schedule::MonitorLast, &remote);
    assert_eq!(run.fetched.len(), 1);
    assert!(run.written.is_empty());
    // The file service never worked, so the pipeline never counts as at rest.
    assert!(!run.at_rest);
    assert_eq!(run.shutdowns, 0);
    assert!(!run.all_stopped);
}

#[test]
fn a_cyclic_listing_is_fetched_once_per_page() {
    let remote = |address: &str| {
        let next_page = if address.ends_with("/categories.json") {
            "page-2"
        } else {
            "categories.json"
        };
        FetchOutcome::Page(CategoriesResponse {
            categories: vec![Category { id: 1, name: "Loop".to_string(), url: String::new() }],
            next_page: Some(next_page.to_string()),
        })
    };
    let run = run_pipeline(Schedule::MonitorLast, &remote);
    assert_eq!(run.fetched.len(), 2);
    assert_eq!(run.written.len(), 2);
    assert_eq!(run.shutdowns, 1);
    assert!(run.all_stopped);
}
