use autokuma::config::CaddyConfig as Settings;
use autokuma::entity::MonitorDraft;
use autokuma::error::Error;
use autokuma::sources::caddy_source::{
    check_status, client_error, decode_error, is_success_status, request_error, CaddyApps,
    CaddyConfig, CaddyHttp, CaddyMatcher, CaddyRoute, CaddyServer, CaddySource, CycleStep,
    ServerMap, FETCH_TIMEOUT_SECS,
};

fn settings(enabled: bool, use_https: bool) -> Settings {
    Settings {
        enabled,
        url: "http://localhost:2019/config/".to_string(),
        use_https,
        monitor_name_prefix: Some("Test - ".to_string()),
        parent_name: Some("test-group".to_string()),
    }
}

fn sample_config() -> CaddyConfig {
    let rule = |hosts: &[&str]| CaddyMatcher {
        host: Some(hosts.iter().map(|h| h.to_string()).collect()),
    };
    let mut map = ServerMap::new();
    map.insert(
        "srv0".to_string(),
        CaddyServer {
            routes: Some(vec![
                CaddyRoute { matchers: Some(vec![rule(&["example.com", "www.example.com"])]) },
                CaddyRoute { matchers: Some(vec![rule(&["*.wildcard.com"])]) },
            ]),
        },
    );
    CaddyConfig { apps: Some(CaddyApps { http: Some(CaddyHttp { servers: Some(map) }) }) }
}

fn render(draft: &MonitorDraft, _: &Vec<(String, String)>) -> Result<String, String> {
    Ok(draft.url.clone())
}

#[test]
fn source_is_called_caddy() {
    assert_eq!(CaddySource::new(settings(true, true)).name(), "Caddy");
}

#[test]
fn source_keeps_its_settings() {
    let source = CaddySource::new(settings(true, false));
    assert!(source.config().enabled);
    assert!(!source.config().use_https);
    assert_eq!(source.config().url, "http://localhost:2019/config/");
    assert_eq!(source.config().monitor_name_prefix, Some("Test - ".to_string()));
    assert_eq!(source.config().parent_name, Some("test-group".to_string()));
}

#[test]
fn disabled_source_asks_for_no_request() {
    let source = CaddySource::new(settings(false, true));
    let mut fetches = 0;
    let drafts = match source.start_cycle() {
        CycleStep::Skip => Vec::new(),
        CycleStep::Fetch { .. } => {
            fetches += 1;
            source.get_drafts(Ok(sample_config()))
        }
    };
    assert_eq!(fetches, 0);
    assert_eq!(drafts.len(), 0);
}

#[test]
fn disabled_source_yields_nothing_whatever_it_is_handed() {
    let source = CaddySource::new(settings(false, true));
    assert_eq!(source.get_drafts(Ok(sample_config())).len(), 0);
    assert_eq!(source.get_entities(Ok(sample_config()), render).len(), 0);
}

#[test]
fn enabled_source_asks_for_its_url_with_the_timeout() {
    let source = CaddySource::new(settings(true, true));
    match source.start_cycle() {
        CycleStep::Fetch { url, timeout_secs } => {
            assert_eq!(url, "http://localhost:2019/config/");
            assert_eq!(timeout_secs, 10);
            assert_eq!(timeout_secs, FETCH_TIMEOUT_SECS);
        }
        CycleStep::Skip => panic!("an enabled source asks for the configuration"),
    }
}

#[test]
fn failed_request_yields_nothing() {
    let source = CaddySource::new(settings(true, true));
    let unreachable = Error::IO("Failed to fetch Caddy config: connection refused".to_string());
    assert_eq!(source.get_drafts(Err(unreachable.clone())).len(), 0);
    assert_eq!(source.get_entities(Err(unreachable), render).len(), 0);
    let malformed = Error::DeserializeError("Failed to parse Caddy config: EOF".to_string());
    assert_eq!(source.get_drafts(Err(malformed.clone())).len(), 0);
    assert_eq!(source.get_entities(Err(malformed), render).len(), 0);
}

#[test]
fn refused_status_yields_nothing() {
    let source = CaddySource::new(settings(true, true));
    let refused = check_status(503, "503 Service Unavailable").unwrap_err();
    assert_eq!(source.get_drafts(Err(refused)).len(), 0);
}

#[test]
fn status_outside_200_to_299_is_an_io_failure() {
    assert!(check_status(200, "200 OK").is_ok());
    assert!(check_status(204, "204 No Content").is_ok());
    assert!(check_status(299, "299").is_ok());
    for (status, text) in [
        (199, "199"),
        (300, "300 Multiple Choices"),
        (404, "404 Not Found"),
        (500, "500 Internal Server Error"),
        (0, "0"),
        (u16::MAX, "65535"),
    ] {
        match check_status(status, text) {
            Err(Error::IO(message)) => {
                assert_eq!(message, format!("Caddy API returned error status: {}", text))
            }
            other => panic!("status {} gave {:?}", status, other),
        }
    }
}

#[test]
fn failures_of_the_request_name_their_cause() {
    match client_error("no TLS backend") {
        Error::IO(message) => assert_eq!(message, "Failed to create HTTP client: no TLS backend"),
        other => panic!("{:?}", other),
    }
    match request_error("connection refused") {
        Error::IO(message) => assert_eq!(message, "Failed to fetch Caddy config: connection refused"),
        other => panic!("{:?}", other),
    }
    match decode_error("expected value at line 1 column 1") {
        Error::DeserializeError(message) => assert_eq!(
            message,
            "Failed to parse Caddy config: expected value at line 1 column 1"
        ),
        other => panic!("{:?}", other),
    }
}

#[test]
fn failure_gives_its_message() {
    assert_eq!(Error::IO("a".to_string()).message(), "a");
    assert_eq!(Error::DeserializeError("b".to_string()).message(), "b");
    assert_eq!(
        request_error("timed out").message(),
        "Failed to fetch Caddy config: timed out"
    );
}

#[test]
fn empty_config_yields_no_drafts() {
    let source = CaddySource::new(settings(true, true));
    assert_eq!(source.get_drafts(Ok(CaddyConfig { apps: None })).len(), 0);
    assert_eq!(source.get_entities(Ok(CaddyConfig { apps: None }), render).len(), 0);
}

#[test]
fn cycle_yields_one_draft_for_each_host() {
    let source = CaddySource::new(settings(true, true));
    let drafts = source.get_drafts(Ok(sample_config()));
    let ids: Vec<&str> = drafts.iter().map(|d| d.id.as_str()).collect();
    assert_eq!(ids, vec!["caddy/example.com", "caddy/wildcard.com", "caddy/www.example.com"]);
    let urls: Vec<&str> = drafts.iter().map(|d| d.url.as_str()).collect();
    assert_eq!(
        urls,
        vec!["https://example.com", "https://wildcard.com", "https://www.example.com"]
    );
    let names: Vec<&str> = drafts.iter().map(|d| d.name.as_str()).collect();
    assert_eq!(
        names,
        vec!["Test - example.com", "Test - wildcard.com", "Test - www.example.com"]
    );
    for draft in &drafts {
        assert_eq!(draft.parent_name, Some("test-group".to_string()));
    }
}

#[test]
fn cycle_over_http() {
    let source = CaddySource::new(settings(true, false));
    let urls: Vec<String> =
        source.get_drafts(Ok(sample_config())).into_iter().map(|d| d.url).collect();
    assert_eq!(urls, vec!["http://example.com", "http://wildcard.com", "http://www.example.com"]);
}

#[test]
fn two_cycles_yield_the_same_identifiers() {
    let source = CaddySource::new(settings(true, true));
    let first: Vec<String> =
        source.get_drafts(Ok(sample_config())).into_iter().map(|d| d.id).collect();
    let second: Vec<String> =
        source.get_drafts(Ok(sample_config())).into_iter().map(|d| d.id).collect();
    assert_eq!(first, second);
    let entities_first = source.get_entities(Ok(sample_config()), render);
    let entities_second = source.get_entities(Ok(sample_config()), render);
    assert_eq!(entities_first, entities_second);
}

#[test]
fn cycle_yields_the_entities_of_its_drafts() {
    let source = CaddySource::new(settings(true, true));
    assert_eq!(
        source.get_entities(Ok(sample_config()), render),
        vec![
            ("caddy/example.com".to_string(), "https://example.com".to_string()),
            ("caddy/wildcard.com".to_string(), "https://wildcard.com".to_string()),
            ("caddy/www.example.com".to_string(), "https://www.example.com".to_string()),
        ]
    );
}

#[test]
fn failure_on_one_host_does_not_fail_the_cycle() {
    let source = CaddySource::new(settings(true, true));
    let failures = std::cell::RefCell::new(Vec::new());
    let entities = source.get_entities(
        Ok(sample_config()),
        |draft: &MonitorDraft, context: &Vec<(String, String)>| {
            if draft.host == "wildcard.com" {
                failures.borrow_mut().push(draft.id.clone());
                Err("template error")
            } else {
                Ok(context.clone())
            }
        },
    );
    assert_eq!(entities.len(), 2);
    assert_eq!(entities[0].0, "caddy/example.com");
    assert_eq!(entities[1].0, "caddy/www.example.com");
    assert_eq!(
        entities[1].1,
        vec![
            ("host".to_string(), "www.example.com".to_string()),
            ("url".to_string(), "https://www.example.com".to_string())
        ]
    );
    assert_eq!(*failures.borrow(), vec!["caddy/wildcard.com"]);
}

#[test]
fn success_is_a_status_from_200_to_299() {
    for status in 0..=u16::MAX {
        assert_eq!(is_success_status(status), (200..300).contains(&status));
    }
    assert!(is_success_status(200));
    assert!(is_success_status(204));
    assert!(is_success_status(299));
    assert!(!is_success_status(199));
    assert!(!is_success_status(300));
    assert!(!is_success_status(404));
    assert!(!is_success_status(500));
}
