use autokuma::config::CaddyConfig;
use autokuma::entity::{
    build_drafts, build_entities, select_entities, MonitorDraft, CHECK_INTERVAL, MAX_RETRIES,
    RETRY_INTERVAL,
};

fn settings(use_https: bool, prefix: Option<&str>, parent: Option<&str>) -> CaddyConfig {
    CaddyConfig {
        enabled: true,
        url: "http://localhost:2019/config/".to_string(),
        use_https,
        monitor_name_prefix: prefix.map(|p| p.to_string()),
        parent_name: parent.map(|p| p.to_string()),
    }
}

fn hosts(names: &[&str]) -> Vec<String> {
    names.iter().map(|n| n.to_string()).collect()
}

#[test]
fn draft_of_a_host_over_https() {
    let draft = MonitorDraft::for_host(&settings(true, None, None), "example.com");
    assert_eq!(draft.id, "caddy/example.com");
    assert_eq!(draft.host, "example.com");
    assert_eq!(draft.monitor_type, "http");
    assert_eq!(draft.name, "example.com");
    assert_eq!(draft.url, "https://example.com");
    assert_eq!(draft.interval, 60);
    assert_eq!(draft.retry_interval, 60);
    assert_eq!(draft.max_retries, 3);
    assert_eq!(draft.parent_name, None);
}

#[test]
fn draft_of_a_host_over_http() {
    let draft = MonitorDraft::for_host(&settings(false, None, None), "example.com");
    assert_eq!(draft.url, "http://example.com");
    assert_eq!(draft.id, "caddy/example.com");
}

#[test]
fn draft_takes_prefix_and_group_from_the_settings() {
    let draft =
        MonitorDraft::for_host(&settings(true, Some("Test - "), Some("test-group")), "a.test");
    assert_eq!(draft.name, "Test - a.test");
    assert_eq!(draft.parent_name, Some("test-group".to_string()));
    assert_eq!(draft.id, "caddy/a.test");
    assert_eq!(draft.url, "https://a.test");
}

#[test]
fn monitor_constants() {
    assert_eq!(CHECK_INTERVAL, 60);
    assert_eq!(RETRY_INTERVAL, 60);
    assert_eq!(MAX_RETRIES, 3);
}

#[test]
fn one_draft_for_each_host_in_order() {
    let names = hosts(&["b.test", "a.test", "c.test"]);
    let drafts = build_drafts(&settings(false, Some("p/"), Some("g")), &names);
    assert_eq!(drafts.len(), 3);
    let ids: Vec<&str> = drafts.iter().map(|d| d.id.as_str()).collect();
    assert_eq!(ids, vec!["caddy/b.test", "caddy/a.test", "caddy/c.test"]);
    for (draft, host) in drafts.iter().zip(names.iter()) {
        assert_eq!(&draft.host, host);
        assert_eq!(draft.url, format!("http://{}", host));
        assert_eq!(draft.name, format!("p/{}", host));
        assert_eq!(draft.parent_name, Some("g".to_string()));
    }
}

#[test]
fn protocol_follows_the_settings_for_every_host() {
    let names = hosts(&["a.test", "b.test", "c.test", "d.test"]);
    for draft in build_drafts(&settings(true, None, None), &names) {
        assert_eq!(draft.url, format!("https://{}", draft.host));
    }
    for draft in build_drafts(&settings(false, None, None), &names) {
        assert_eq!(draft.url, format!("http://{}", draft.host));
    }
}

#[test]
fn no_hosts_no_drafts() {
    assert_eq!(build_drafts(&settings(true, None, None), &Vec::new()).len(), 0);
}

#[test]
fn drafts_are_the_same_on_every_run() {
    let names = hosts(&["a.test", "b.test"]);
    let config = settings(true, Some("x "), None);
    let first: Vec<String> = build_drafts(&config, &names).into_iter().map(|d| d.id).collect();
    let second: Vec<String> = build_drafts(&config, &names).into_iter().map(|d| d.id).collect();
    assert_eq!(first, second);
    assert_eq!(first, vec!["caddy/a.test", "caddy/b.test"]);
}

#[test]
fn template_context_holds_host_and_url() {
    let draft = MonitorDraft::for_host(&settings(true, Some("n "), None), "a.test");
    assert_eq!(
        draft.template_context(),
        vec![
            ("host".to_string(), "a.test".to_string()),
            ("url".to_string(), "https://a.test".to_string())
        ]
    );
}

#[test]
fn select_entities_keeps_entities_and_order() {
    let outcomes: Vec<(String, Result<u32, String>)> = vec![
        ("caddy/a".to_string(), Ok(1)),
        ("caddy/b".to_string(), Err("no".to_string())),
        ("caddy/c".to_string(), Ok(3)),
        ("caddy/d".to_string(), Err("no".to_string())),
    ];
    assert_eq!(
        select_entities(outcomes),
        vec![("caddy/a".to_string(), 1), ("caddy/c".to_string(), 3)]
    );
    assert_eq!(select_entities(Vec::<(String, Result<u32, String>)>::new()).len(), 0);
}

#[test]
fn one_failing_host_is_left_out_alone() {
    let names = hosts(&["a.test", "b.test", "c.test", "d.test"]);
    let drafts = build_drafts(&settings(true, None, None), &names);
    let entities = build_entities(&drafts, |draft: &MonitorDraft, context: &Vec<(String, String)>| {
        if draft.host == "c.test" {
            Err(format!("cannot render {}", draft.id))
        } else {
            Ok(format!("{} at {}", context[0].1, context[1].1))
        }
    });
    assert_eq!(entities.len(), names.len() - 1);
    assert_eq!(
        entities,
        vec![
            ("caddy/a.test".to_string(), "a.test at https://a.test".to_string()),
            ("caddy/b.test".to_string(), "b.test at https://b.test".to_string()),
            ("caddy/d.test".to_string(), "d.test at https://d.test".to_string()),
        ]
    );
}

#[test]
fn collaborator_sees_each_draft_once_and_in_order() {
    let names = hosts(&["a.test", "b.test", "c.test"]);
    let drafts = build_drafts(&settings(false, None, None), &names);
    let seen = std::cell::RefCell::new(Vec::new());
    let entities = build_entities(&drafts, |draft: &MonitorDraft, _: &Vec<(String, String)>| {
        seen.borrow_mut().push(draft.id.clone());
        Ok::<usize, String>(seen.borrow().len())
    });
    assert_eq!(*seen.borrow(), vec!["caddy/a.test", "caddy/b.test", "caddy/c.test"]);
    assert_eq!(
        entities,
        vec![
            ("caddy/a.test".to_string(), 1),
            ("caddy/b.test".to_string(), 2),
            ("caddy/c.test".to_string(), 3)
        ]
    );
}
