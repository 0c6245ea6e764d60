use kubewatcher::aggregator::merge_streams;
use kubewatcher::api_resource::{api_resource_for, ApiResource, ConfigResource};
use kubewatcher::codec::{from_json, to_json};
use kubewatcher::notifier::{
    ConfigTrigger, Delivery, HttpNotification, Notifier, SnsNotification, SqsNotification,
};
use kubewatcher::object::{DynamicObject, JsonValue, ObjectMeta, TypeMeta};
use kubewatcher::retry::{run_webhook_delivery, DeliveryState, ResponseClass};
use kubewatcher::supervisor::{drain_units, supervisor_step, SupervisorEvent, SupervisorState};
use kubewatcher::retry::classify_status;
use kubewatcher::watcher::{stamp_types, EngineAction, WatchEngine, Watcher, WatchItem};

fn pod_named(name: &str, namespace: &str) -> DynamicObject {
    DynamicObject {
        types: None,
        metadata: ObjectMeta {
            name: Some(name.to_string()),
            namespace: Some(namespace.to_string()),
            resource_version: None,
            labels: Vec::new(),
        },
        data: Vec::new(),
    }
}

fn pod_resource() -> ConfigResource {
    ConfigResource {
        group: None,
        api_version: None,
        kind: "Pod".to_string(),
        plural: None,
        label_selector: None,
        field_selector: None,
        namespace: Some("default".to_string()),
    }
}

#[test]
fn default_resource_identity_for_pods() {
    let api = api_resource_for(&pod_resource());
    assert_eq!(api.group, "");
    assert_eq!(api.version, "v1");
    assert_eq!(api.api_version, "v1");
    assert_eq!(api.kind, "Pod");
    assert_eq!(api.plural, "pods");
}

#[test]
fn grouped_resource_identity() {
    let r = ConfigResource {
        group: Some("apps".to_string()),
        api_version: Some("v1".to_string()),
        kind: "Deployment".to_string(),
        plural: None,
        label_selector: None,
        field_selector: None,
        namespace: None,
    };
    let api = api_resource_for(&r);
    assert_eq!(api.api_version, "apps/v1");
    assert_eq!(api.plural, "deployments");
}

#[test]
fn stamping_fills_missing_descriptor() {
    let api = api_resource_for(&pod_resource());
    let stamped = stamp_types(pod_named("a", "default"), &api);
    assert_eq!(
        stamped.types,
        Some(TypeMeta { api_version: "v1".to_string(), kind: "Pod".to_string() })
    );
    assert_eq!(stamped.metadata.name, Some("a".to_string()));
}

#[test]
fn stamping_keeps_existing_descriptor() {
    let api = api_resource_for(&pod_resource());
    let mut o = pod_named("a", "default");
    o.types = Some(TypeMeta { api_version: "batch/v1".to_string(), kind: "Job".to_string() });
    let stamped = stamp_types(o, &api);
    assert_eq!(
        stamped.types,
        Some(TypeMeta { api_version: "batch/v1".to_string(), kind: "Job".to_string() })
    );
}

#[test]
fn fan_out_reaches_every_sink_despite_one_permanent_failure() {
    let notifier = Notifier::new(ConfigTrigger {
        http: Some(vec![
            HttpNotification { url: "http://one/hook".to_string(), retry: Some(1) },
            HttpNotification { url: "http://two/hook".to_string(), retry: Some(1) },
        ]),
        sns: Some(vec![SnsNotification { topic_arn: "arn:topic".to_string() }]),
        sqs: Some(vec![SqsNotification { url: "http://queue/q".to_string() }]),
    });
    let o = pod_named("a", "default");
    let plan = notifier.plan_at(&o, "2024-01-01T00:00:00Z");
    assert_eq!(plan.len(), 4);
    // sink 0 fails permanently; the others still complete on their own
    let outcomes = vec![
        vec![ResponseClass::Permanent],
        vec![ResponseClass::Success],
        vec![ResponseClass::Success],
        vec![ResponseClass::Success],
    ];
    let reports = kubewatcher::notifier::dispatch_reports(&plan, &outcomes);
    assert_eq!(reports[0].state, DeliveryState::GivenUp);
    assert_eq!(reports[1].state, DeliveryState::Succeeded);
    assert_eq!(reports[2].state, DeliveryState::Succeeded);
    assert_eq!(reports[3].state, DeliveryState::Succeeded);
    for r in &reports[1..] {
        assert_eq!(r.attempts, 1);
    }
}

#[test]
fn webhook_attempts_bounded_and_delays_exponential() {
    let outcomes = vec![
        ResponseClass::Transient,
        ResponseClass::Transient,
        ResponseClass::Transient,
        ResponseClass::Transient,
        ResponseClass::Transient,
    ];
    let rec = run_webhook_delivery(3, 10, &outcomes);
    assert_eq!(rec.attempts, 4); // first attempt plus at most 3 retries
    assert_eq!(rec.state, DeliveryState::GivenUp);
    assert_eq!(rec.delays, vec![10, 20, 40]);
    for (k, d) in rec.delays.iter().enumerate() {
        assert!(*d >= 10 * (1u64 << k));
    }
}

#[test]
fn permanent_failure_gives_up_without_consuming_retries() {
    let outcomes = vec![ResponseClass::Permanent, ResponseClass::Success];
    let rec = run_webhook_delivery(3, 10, &outcomes);
    assert_eq!(rec.attempts, 1);
    assert_eq!(rec.state, DeliveryState::GivenUp);
    assert!(rec.delays.is_empty());
}

#[test]
fn round_trip_preserves_metadata_and_payload() {
    let o = DynamicObject {
        types: Some(TypeMeta { api_version: "v1".to_string(), kind: "Pod".to_string() }),
        metadata: ObjectMeta {
            name: Some("a".to_string()),
            namespace: Some("default".to_string()),
            resource_version: Some("42".to_string()),
            labels: vec![("app".to_string(), "web".to_string())],
        },
        data: vec![
            ("spec".to_string(),
             JsonValue::Obj(vec![
                 ("replicas".to_string(), JsonValue::Int(3)),
                 ("paused".to_string(), JsonValue::Bool(false)),
                 ("args".to_string(),
                  JsonValue::Arr(vec![JsonValue::Str("x".to_string()), JsonValue::Null])),
             ])),
        ],
    };
    let expected = DynamicObject {
        types: o.types.clone(),
        metadata: ObjectMeta {
            name: o.metadata.name.clone(),
            namespace: o.metadata.namespace.clone(),
            resource_version: o.metadata.resource_version.clone(),
            labels: o.metadata.labels.clone(),
        },
        data: vec![
            ("spec".to_string(),
             JsonValue::Obj(vec![
                 ("replicas".to_string(), JsonValue::Int(3)),
                 ("paused".to_string(), JsonValue::Bool(false)),
                 ("args".to_string(),
                  JsonValue::Arr(vec![JsonValue::Str("x".to_string()), JsonValue::Null])),
             ])),
        ],
    };
    let decoded = from_json(to_json(&o));
    assert_eq!(decoded, Some(expected));
}

#[test]
fn round_trip_without_descriptor() {
    let o = pod_named("a", "default");
    let decoded = from_json(to_json(&o)).expect("decodes");
    assert_eq!(decoded.types, None);
    assert_eq!(decoded.metadata.name, Some("a".to_string()));
    assert_eq!(decoded.data, Vec::new());
}

#[test]
fn decode_rejects_non_object() {
    assert_eq!(from_json(JsonValue::Int(1)), None);
    assert_eq!(from_json(JsonValue::Obj(vec![("x".to_string(), JsonValue::Null)])), None);
}

#[test]
fn duplicate_delivery_two_independent_successes() {
    let notifier = Notifier::new(ConfigTrigger {
        http: Some(vec![HttpNotification { url: "http://one/hook".to_string(), retry: None }]),
        sns: None,
        sqs: None,
    });
    let o = pod_named("a", "default");
    let plan1 = notifier.plan_at(&o, "2024-01-01T00:00:00Z");
    let plan2 = notifier.plan_at(&o, "2024-01-01T00:00:00Z");
    assert_eq!(plan1, plan2);
    let outcomes = vec![vec![ResponseClass::Success]];
    let r1 = kubewatcher::notifier::dispatch_reports(&plan1, &outcomes);
    let r2 = kubewatcher::notifier::dispatch_reports(&plan2, &outcomes);
    assert_eq!(r1[0].state, DeliveryState::Succeeded);
    assert_eq!(r2[0].state, DeliveryState::Succeeded);
    assert_eq!(r1[0].attempts, 1);
    assert_eq!(r2[0].attempts, 1);
}

#[test]
fn shutdown_grace_period_abandons_long_delivery() {
    let in_flight = vec![10, 10, 10, 10, 10, 120];
    let report = drain_units(60, &in_flight);
    assert_eq!(report.completed, 5);
    assert_eq!(report.abandoned, 1);
    assert_eq!(report.elapsed, 60);
    assert!(!report.clean);
    let state = supervisor_step(SupervisorState::Draining, SupervisorEvent::GraceElapsed);
    assert_eq!(state, SupervisorState::Failed);
}

#[test]
fn shutdown_clean_when_everything_finishes_in_time() {
    let report = drain_units(60, &vec![10, 20, 30]);
    assert_eq!(report.completed, 3);
    assert_eq!(report.abandoned, 0);
    assert_eq!(report.elapsed, 30);
    assert!(report.clean);
    let state = supervisor_step(SupervisorState::Draining, SupervisorEvent::AllUnitsDone);
    assert_eq!(state, SupervisorState::Stopped);
}

#[test]
fn end_to_end_pod_appears_and_webhook_succeeds_third_try() {
    // one configured resource, one webhook sink with two retries
    let api = api_resource_for(&pod_resource());
    let mut engine = WatchEngine::new(api);
    let action = engine.handle(WatchItem::Applied(pod_named("a", "default")));
    let event = match action {
        EngineAction::Forward(o) => o,
        other => panic!("expected a forwarded event, got {:?}", other),
    };
    assert_eq!(
        event.types,
        Some(TypeMeta { api_version: "v1".to_string(), kind: "Pod".to_string() })
    );

    let notifier = Notifier::new(ConfigTrigger {
        http: Some(vec![HttpNotification { url: "http://x/hook".to_string(), retry: Some(2) }]),
        sns: None,
        sqs: None,
    });
    let plan = notifier.plan_at(&event, "2024-01-01T00:00:00Z");
    assert_eq!(plan.len(), 1);
    let (url, max_retries, body) = match &plan[0] {
        Delivery::Http { url, max_retries, body } => (url.clone(), *max_retries, body.clone()),
        other => panic!("expected a webhook delivery, got {:?}", other),
    };
    assert_eq!(url, "http://x/hook");
    assert_eq!(max_retries, 2);
    assert!(body.contains("\"name\":\"a\""));
    assert!(body.contains("\"source\":\"io.k8s-watcher\""));

    // the endpoint returns a server error twice, then succeeds
    let outcomes = vec![
        ResponseClass::Transient,
        ResponseClass::Transient,
        ResponseClass::Success,
    ];
    let rec = run_webhook_delivery(max_retries, 10, &outcomes);
    assert_eq!(rec.attempts, 3);
    assert_eq!(rec.state, DeliveryState::Succeeded);
}

#[test]
fn merge_is_round_robin_and_keeps_per_source_order() {
    let sources = vec![
        vec![pod_named("a1", "ns"), pod_named("a2", "ns")],
        vec![pod_named("b1", "ns")],
    ];
    let merged = merge_streams(&sources);
    let tags: Vec<usize> = merged.iter().map(|p| p.0).collect();
    assert_eq!(tags, vec![0, 1, 0]);
    let names: Vec<String> = merged
        .iter()
        .map(|p| p.1.metadata.name.clone().unwrap())
        .collect();
    assert_eq!(names, vec!["a1".to_string(), "b1".to_string(), "a2".to_string()]);
}

#[test]
fn merge_of_empty_sources_is_empty() {
    let sources: Vec<Vec<DynamicObject>> = vec![Vec::new(), Vec::new()];
    assert_eq!(merge_streams(&sources).len(), 0);
}

#[test]
fn supervisor_lifecycle_transitions() {
    let s = SupervisorState::Starting;
    let s = supervisor_step(s, SupervisorEvent::AllLaunched);
    assert_eq!(s, SupervisorState::Running);
    let s = supervisor_step(s, SupervisorEvent::ShutdownRequested);
    assert_eq!(s, SupervisorState::Draining);
    let s = supervisor_step(s, SupervisorEvent::AllUnitsDone);
    assert_eq!(s, SupervisorState::Stopped);
    assert_eq!(
        supervisor_step(SupervisorState::Running, SupervisorEvent::UnitFailed),
        SupervisorState::Failed
    );
    assert_eq!(
        supervisor_step(SupervisorState::Stopped, SupervisorEvent::UnitFailed),
        SupervisorState::Stopped
    );
}

#[test]
fn api_resource_struct_holds_its_parts() {
    let api = ApiResource {
        group: "apps".to_string(),
        version: "v1".to_string(),
        api_version: "apps/v1".to_string(),
        kind: "Deployment".to_string(),
        plural: "deployments".to_string(),
    };
    assert_eq!(api.clone(), api);
}

#[test]
fn status_codes_classify_by_error_class() {
    assert_eq!(classify_status(200), ResponseClass::Success);
    assert_eq!(classify_status(204), ResponseClass::Success);
    assert_eq!(classify_status(404), ResponseClass::Permanent);
    assert_eq!(classify_status(400), ResponseClass::Permanent);
    assert_eq!(classify_status(500), ResponseClass::Transient);
    assert_eq!(classify_status(503), ResponseClass::Transient);
    assert_eq!(classify_status(302), ResponseClass::Transient);
}

#[test]
fn watcher_builds_one_identity_per_configured_resource() {
    let w = Watcher::new(vec![
        pod_resource(),
        ConfigResource {
            group: Some("apps".to_string()),
            api_version: Some("v1".to_string()),
            kind: "StatefulSet".to_string(),
            plural: Some("statefulsets".to_string()),
            label_selector: None,
            field_selector: None,
            namespace: None,
        },
    ]);
    let ids = w.identities();
    assert_eq!(ids.len(), 2);
    assert_eq!(ids[0].plural, "pods");
    assert_eq!(ids[1].api_version, "apps/v1");
    assert_eq!(ids[1].kind, "StatefulSet");
}
