use instance_inventory::{
    get_instance_request, instance_map, map_tags, normalize_instance, parse_selector, plan_regions,
    process_all_regions, process_reservations, region_list, Details, FetchOutcome, InstanceState,
    PageResult, RawInstance, RegionCollector, Reservation, Selector, Tag, ALL_REGIONS, OPTION_SEPARATOR,
    PAGE_SIZE, UNKNOWN_REGION_TEXT,
};

fn tag(k: &str, v: &str) -> Tag {
    Tag { key: Some(k.to_string()), value: Some(v.to_string()) }
}

fn bare_instance(id: &str) -> RawInstance {
    RawInstance {
        instance_id: Some(id.to_string()),
        instance_type: None,
        key_name: None,
        launch_time: None,
        source_dest_check: None,
        state: None,
        tags: None,
    }
}

fn page(ids: &[&str], token: Option<&str>) -> PageResult {
    PageResult {
        reservations: Some(vec![Reservation {
            instances: Some(ids.iter().map(|i| bare_instance(i)).collect()),
        }]),
        next_token: token.map(|t| t.to_string()),
    }
}

fn ids(ds: &[Details]) -> Vec<String> {
    ds.iter().map(|d| d.instance_id.clone().unwrap()).collect()
}

#[test]
fn tags_last_write_wins() {
    let tm = map_tags(Some(vec![
        tag("Name", "web1"),
        tag("Project", "core"),
        tag("Name", "web1-renamed"),
    ]));
    assert_eq!(tm.name.as_deref(), Some("web1-renamed"));
    assert_eq!(tm.project.as_deref(), Some("core"));
    assert_eq!(tm.environment, None);
}

#[test]
fn tags_absent_or_unrecognised() {
    let tm = map_tags(None);
    assert!(tm.name.is_none() && tm.project.is_none() && tm.environment.is_none());
    let tm = map_tags(Some(vec![
        tag("Owner", "ops"),
        Tag { key: None, value: Some("x".to_string()) },
        tag("Environment", "prod"),
        tag("name", "lower"),
    ]));
    assert_eq!(tm.environment.as_deref(), Some("prod"));
    assert_eq!(tm.name, None);
    assert_eq!(tm.project, None);
}

#[test]
fn tags_absent_value_overwrites() {
    let tm = map_tags(Some(vec![tag("Project", "core"), Tag { key: Some("Project".to_string()), value: None }]));
    assert_eq!(tm.project, None);
}

#[test]
fn normalizer_copies_fields_and_stamps_region() {
    let raw = RawInstance {
        instance_id: Some("i-9".to_string()),
        instance_type: Some("t3.micro".to_string()),
        key_name: Some("k".to_string()),
        launch_time: Some("2020-01-01T00:00:00Z".to_string()),
        source_dest_check: Some(true),
        state: Some(InstanceState { name: Some("running".to_string()) }),
        tags: Some(vec![tag("Environment", "dev")]),
    };
    let d = normalize_instance(&raw, &"eu-west-1".to_string());
    assert_eq!(d.instance_id.as_deref(), Some("i-9"));
    assert_eq!(d.instance_type.as_deref(), Some("t3.micro"));
    assert_eq!(d.key_name.as_deref(), Some("k"));
    assert_eq!(d.launch_time.as_deref(), Some("2020-01-01T00:00:00Z"));
    assert_eq!(d.source_dest_check, Some(true));
    assert_eq!(d.state.as_deref(), Some("running"));
    assert_eq!(d.environment.as_deref(), Some("dev"));
    assert_eq!(d.region, "eu-west-1");
    let d = normalize_instance(
        &RawInstance { state: Some(InstanceState { name: None }), ..bare_instance("i-2") },
        &"us-east-1".to_string(),
    );
    assert_eq!(d.state, None);
}

#[test]
fn instance_map_absent_and_present() {
    let r = "ca-central-1".to_string();
    assert!(instance_map(None, &r).is_none());
    let out = instance_map(Some(vec![bare_instance("a"), bare_instance("b")]), &r).unwrap();
    assert_eq!(ids(&out), vec!["a", "b"]);
    assert!(out.iter().all(|d| d.region == "ca-central-1"));
}

#[test]
fn flattener_absent_versus_empty() {
    let r = "us-west-2".to_string();
    assert!(process_reservations(None, &r).is_none());
    let empty = process_reservations(Some(vec![]), &r);
    assert!(empty.is_some());
    assert_eq!(empty.unwrap().len(), 0);
    let hollow = process_reservations(Some(vec![Reservation { instances: None }, Reservation { instances: Some(vec![]) }]), &r);
    assert_eq!(hollow.unwrap().len(), 0);
}

#[test]
fn flattener_keeps_order_across_reservations() {
    let r = "sa-east-1".to_string();
    let out = process_reservations(
        Some(vec![
            Reservation { instances: Some(vec![bare_instance("a"), bare_instance("b")]) },
            Reservation { instances: None },
            Reservation { instances: Some(vec![bare_instance("c")]) },
        ]),
        &r,
    )
    .unwrap();
    assert_eq!(ids(&out), vec!["a", "b", "c"]);
}

#[test]
fn request_shape() {
    let q = get_instance_request(Some(PAGE_SIZE));
    assert_eq!(q.max_results, Some(25));
    assert!(q.next_token.is_none());
    assert_eq!(get_instance_request(None).max_results, None);
}

#[test]
fn paginator_threads_tokens() {
    let mut c = RegionCollector::new("us-east-1".to_string());
    let q1 = c.next_request().unwrap();
    assert_eq!(q1.max_results, Some(25));
    assert!(q1.next_token.is_none());
    c.on_fetch(FetchOutcome::Fetched(page(&["a"], Some("t1"))));
    let q2 = c.next_request().unwrap();
    assert_eq!(q2.next_token.as_deref(), Some("t1"));
    assert_eq!(q2.max_results, Some(25));
    c.on_fetch(FetchOutcome::Fetched(page(&["b"], Some("t2"))));
    let q3 = c.next_request().unwrap();
    assert_eq!(q3.next_token.as_deref(), Some("t2"));
    c.on_fetch(FetchOutcome::Fetched(page(&["c"], None)));
    assert!(c.next_request().is_none());
    assert!(c.is_done());
    c.on_fetch(FetchOutcome::Fetched(page(&["d"], None)));
    assert_eq!(ids(&c.into_results()), vec!["a", "b", "c"]);
}

#[test]
fn paginator_failure_truncates() {
    let mut c = RegionCollector::new("eu-north-1".to_string());
    c.on_fetch(FetchOutcome::Fetched(page(&["a", "b"], Some("t1"))));
    assert!(c.next_request().is_some());
    c.on_fetch(FetchOutcome::Failed);
    assert!(c.next_request().is_none());
    c.on_fetch(FetchOutcome::Fetched(page(&["z"], None)));
    let out = c.into_results();
    assert_eq!(ids(&out), vec!["a", "b"]);
    assert!(out.iter().all(|d| d.region == "eu-north-1"));
}

#[test]
fn paginator_absent_page_contributes_nothing() {
    let mut c = RegionCollector::new("me-south-1".to_string());
    c.on_fetch(FetchOutcome::Fetched(PageResult { reservations: None, next_token: Some("t".to_string()) }));
    c.on_fetch(FetchOutcome::Fetched(page(&["x"], None)));
    assert_eq!(ids(&c.into_results()), vec!["x"]);
}

#[test]
fn end_to_end_single_region() {
    let sel = parse_selector("ap-south-1").unwrap();
    let regions = plan_regions(&sel);
    assert_eq!(regions, vec!["ap-south-1".to_string()]);
    let mut parts = Vec::new();
    for r in regions {
        let mut c = RegionCollector::new(r);
        while c.next_request().is_some() {
            c.on_fetch(FetchOutcome::Fetched(PageResult {
                reservations: Some(vec![Reservation {
                    instances: Some(vec![RawInstance {
                        tags: Some(vec![tag("Name", "svc")]),
                        ..bare_instance("i-1")
                    }]),
                }]),
                next_token: None,
            }));
        }
        assert_eq!(c.region(), "ap-south-1");
        parts.push(c.into_results());
    }
    let out = process_all_regions(parts);
    assert_eq!(out.len(), 1);
    let d = &out[0];
    assert_eq!(d.instance_id.as_deref(), Some("i-1"));
    assert_eq!(d.name.as_deref(), Some("svc"));
    assert_eq!(d.project, None);
    assert_eq!(d.environment, None);
    assert_eq!(d.region, "ap-south-1");
    assert_eq!(d.instance_type, None);
    assert_eq!(d.key_name, None);
    assert_eq!(d.launch_time, None);
    assert_eq!(d.source_dest_check, None);
    assert_eq!(d.state, None);
}

#[test]
fn invalid_region_is_refused() {
    assert!(parse_selector("mars-1").is_err());
    assert!(parse_selector("").is_err());
    assert!(parse_selector("US-EAST-1").is_err());
}

#[test]
fn selector_accepts_catalog_and_sentinel() {
    assert!(matches!(parse_selector(ALL_REGIONS), Ok(Selector::All)));
    match parse_selector("af-south-1") {
        Ok(Selector::Single(s)) => assert_eq!(s, "af-south-1"),
        _ => panic!("af-south-1 is a catalog region"),
    }
}

#[test]
fn catalog_order() {
    let list = region_list();
    assert_eq!(list.len(), 23);
    assert_eq!(list[0], "ap-east-1");
    assert_eq!(list[16], "us-east-1");
    assert_eq!(list[22], "af-south-1");
    let plan = plan_regions(&Selector::All);
    let expect: Vec<String> = list.iter().map(|s| s.to_string()).collect();
    assert_eq!(plan, expect);
}

#[test]
fn all_regions_joined_in_order() {
    let plan = plan_regions(&Selector::All);
    let mut parts = Vec::new();
    for (k, r) in plan.iter().enumerate() {
        let mut c = RegionCollector::new(r.clone());
        let name = format!("i-{}", k);
        if k % 2 == 0 {
            c.on_fetch(FetchOutcome::Fetched(page(&[name.as_str()], None)));
        } else {
            c.on_fetch(FetchOutcome::Failed);
        }
        parts.push(c.into_results());
    }
    let out = process_all_regions(parts);
    assert_eq!(out.len(), 12);
    for (j, d) in out.iter().enumerate() {
        assert_eq!(d.region, plan[2 * j]);
        assert_eq!(d.instance_id.clone().unwrap(), format!("i-{}", 2 * j));
    }
}

#[test]
fn refusal_message_lists_catalog() {
    let err = parse_selector("mars-1").unwrap_err();
    let msg = err.message();
    assert!(msg.starts_with(UNKNOWN_REGION_TEXT));
    let listed: Vec<&str> = msg[UNKNOWN_REGION_TEXT.len()..].split(OPTION_SEPARATOR).collect();
    let mut expect = region_list();
    expect.push(ALL_REGIONS);
    assert_eq!(listed, expect);
    assert!(msg.ends_with("af-south-1,\nall"));
}
