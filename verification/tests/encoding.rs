use kubewatcher::api_resource::ascii_lower;
use kubewatcher::json::encode_json;
use kubewatcher::notifier::{
    envelope_body, sms_summary, sns_message, ConfigTrigger, HttpNotification, Notifier,
    SqsNotification,
};
use kubewatcher::object::{DynamicObject, JsonValue, ObjectMeta, TypeMeta};
use kubewatcher::supervisor::{pump_step, PumpAction};
use kubewatcher::watcher::{EngineAction, ReflectorCache, WatchEngine, WatchItem, WatchSubsystem};

fn obj(name: &str, ns: Option<&str>) -> DynamicObject {
    DynamicObject {
        types: None,
        metadata: ObjectMeta {
            name: Some(name.to_string()),
            namespace: ns.map(|s| s.to_string()),
            resource_version: None,
            labels: Vec::new(),
        },
        data: Vec::new(),
    }
}

#[test]
fn scalars_encode_exactly() {
    assert_eq!(encode_json(&JsonValue::Null), "null");
    assert_eq!(encode_json(&JsonValue::Bool(true)), "true");
    assert_eq!(encode_json(&JsonValue::Bool(false)), "false");
    assert_eq!(encode_json(&JsonValue::Int(0)), "0");
    assert_eq!(encode_json(&JsonValue::Int(1234567890)), "1234567890");
    assert_eq!(encode_json(&JsonValue::Int(-42)), "-42");
    assert_eq!(encode_json(&JsonValue::Int(i64::MIN)), "-9223372036854775808");
}

#[test]
fn strings_escape_quotes_backslashes_and_controls() {
    let s = JsonValue::Str("a\"b\\c\nd\u{1}".to_string());
    assert_eq!(encode_json(&s), "\"a\\\"b\\\\c\\nd\\u0001\"");
}

#[test]
fn arrays_and_objects_encode_with_commas() {
    let v = JsonValue::Arr(vec![
        JsonValue::Int(1),
        JsonValue::Str("x".to_string()),
        JsonValue::Obj(vec![("k".to_string(), JsonValue::Null)]),
    ]);
    assert_eq!(encode_json(&v), "[1,\"x\",{\"k\":null}]");
    assert_eq!(encode_json(&JsonValue::Arr(Vec::new())), "[]");
    assert_eq!(encode_json(&JsonValue::Obj(Vec::new())), "{}");
}

#[test]
fn envelope_has_source_timestamp_and_object() {
    let mut o = obj("a", Some("default"));
    o.types = Some(TypeMeta { api_version: "v1".to_string(), kind: "Pod".to_string() });
    let body = envelope_body(&o, "2024-01-01T00:00:00Z");
    assert_eq!(
        body,
        "{\"source\":\"io.k8s-watcher\",\"timestamp\":\"2024-01-01T00:00:00Z\",\
         \"object\":{\"apiVersion\":\"v1\",\"kind\":\"Pod\",\
         \"metadata\":{\"name\":\"a\",\"namespace\":\"default\",\"labels\":{}}}}"
    );
}

#[test]
fn envelope_is_well_formed_json() {
    let mut o = obj("a\"quote", Some("default"));
    o.data = vec![("extra".to_string(), JsonValue::Int(7))];
    let body = envelope_body(&o, "2024-01-01T00:00:00Z");
    let parsed: serde_json::Value = serde_json::from_str(&body).expect("valid JSON");
    assert_eq!(parsed["source"], "io.k8s-watcher");
    assert_eq!(parsed["object"]["metadata"]["name"], "a\"quote");
    assert_eq!(parsed["object"]["extra"], 7);
}

#[test]
fn sms_summary_uses_defaults_for_missing_parts() {
    assert_eq!(sms_summary(&obj("a", Some("ns"))), "Object ns/a");
    assert_eq!(sms_summary(&obj("a", None)), "Object default/a");
    let mut nameless = obj("x", Some("ns"));
    nameless.metadata.name = None;
    assert_eq!(sms_summary(&nameless), "Object ns/unknown");
}

#[test]
fn sns_message_serves_every_subscriber_protocol() {
    let m = sns_message("BODY", "SMS");
    let parsed: serde_json::Value = serde_json::from_str(&m).expect("valid JSON");
    assert_eq!(parsed["default"], "BODY");
    assert_eq!(parsed["sms"], "SMS");
    assert_eq!(parsed["email-json"], "BODY");
    assert_eq!(parsed["http"], "BODY");
    assert_eq!(parsed["https"], "BODY");
    assert_eq!(parsed["sqs"], "BODY");
}

#[test]
fn ascii_lower_folds_only_ascii_uppercase() {
    assert_eq!(ascii_lower("PodList"), "podlist");
    assert_eq!(ascii_lower("abc-123"), "abc-123");
}

#[test]
fn cache_applies_updates_and_removals_by_identity() {
    let mut cache = ReflectorCache::new();
    assert!(!cache.ready);
    cache.apply(obj("a", Some("ns")));
    cache.apply(obj("b", Some("ns")));
    let mut a2 = obj("a", Some("ns"));
    a2.metadata.resource_version = Some("2".to_string());
    cache.apply(a2);
    assert_eq!(cache.entries.len(), 2);
    assert_eq!(cache.entries[0].metadata.resource_version, Some("2".to_string()));
    cache.remove(&obj("a", Some("ns")));
    assert_eq!(cache.names(), vec!["b".to_string()]);
    cache.remove(&obj("gone", Some("ns")));
    assert_eq!(cache.entries.len(), 1);
}

#[test]
fn engine_self_heals_with_growing_backoff_and_stalls_on_permanent_errors() {
    let mut engine = WatchEngine::new(kubewatcher::api_resource::api_resource_for(
        &kubewatcher::api_resource::ConfigResource {
            group: None,
            api_version: None,
            kind: "Pod".to_string(),
            plural: None,
            label_selector: None,
            field_selector: None,
            namespace: None,
        },
    ));
    let d1 = match engine.handle(WatchItem::TransientError) {
        EngineAction::Backoff(d) => d,
        other => panic!("expected backoff, got {:?}", other),
    };
    let d2 = match engine.handle(WatchItem::TransientError) {
        EngineAction::Backoff(d) => d,
        other => panic!("expected backoff, got {:?}", other),
    };
    assert!(d2 > d1);
    assert_eq!(engine.handle(WatchItem::PersistentError), EngineAction::Stall(30));
    // a delivered object heals the failure count
    match engine.handle(WatchItem::Applied(obj("a", None))) {
        EngineAction::Forward(_) => {}
        other => panic!("expected forward, got {:?}", other),
    }
    assert_eq!(engine.failures, 0);
    // removals update the cache but are never forwarded
    assert_eq!(engine.handle(WatchItem::Removed(obj("a", None))), EngineAction::Silent);
    assert_eq!(engine.cache.entries.len(), 0);
    assert_eq!(engine.handle(WatchItem::InitialSyncDone), EngineAction::Silent);
    assert!(engine.cache.ready);
}

#[test]
fn reporting_tick_lists_names_and_stops_on_shutdown() {
    let mut cache = ReflectorCache::new();
    cache.apply(obj("a", Some("ns")));
    let subsystem = WatchSubsystem { reader: cache };
    let (names, keep_going) = subsystem.tick(false);
    assert_eq!(names, vec!["a".to_string()]);
    assert!(keep_going);
    let (_, keep_going) = subsystem.tick(true);
    assert!(!keep_going);
}

#[test]
fn pump_delivers_then_stops_or_naps() {
    let d = pump_step(false, true, false);
    assert!(d.deliver);
    assert_eq!(d.action, PumpAction::Sleep(3));
    let d = pump_step(false, true, true);
    assert!(d.deliver);
    assert_eq!(d.action, PumpAction::Stop);
    let d = pump_step(true, false, false);
    assert!(!d.deliver);
    assert_eq!(d.action, PumpAction::Stop);
}

#[test]
fn endpoint_validation_flags_malformed_urls() {
    let good = Notifier::new(ConfigTrigger {
        http: Some(vec![HttpNotification { url: "http://x/hook".to_string(), retry: None }]),
        sns: None,
        sqs: Some(vec![SqsNotification { url: "https://queue.example/q".to_string() }]),
    });
    assert!(good.valid_endpoints());
    let bad = Notifier::new(ConfigTrigger {
        http: Some(vec![HttpNotification { url: "not a url".to_string(), retry: None }]),
        sns: None,
        sqs: None,
    });
    assert!(!bad.valid_endpoints());
}

#[test]
fn notify_builds_one_delivery_per_sink_with_the_envelope() {
    let notifier = Notifier::new(ConfigTrigger {
        http: Some(vec![HttpNotification { url: "http://x/hook".to_string(), retry: None }]),
        sns: None,
        sqs: None,
    });
    let plan = notifier.notify(&obj("a", Some("default")));
    assert_eq!(plan.len(), 1);
    match &plan[0] {
        kubewatcher::notifier::Delivery::Http { url, max_retries, body } => {
            assert_eq!(url, "http://x/hook");
            assert_eq!(*max_retries, 3);
            assert!(body.contains("\"source\":\"io.k8s-watcher\""));
            assert!(body.contains("\"name\":\"a\""));
        }
        other => panic!("expected a webhook delivery, got {:?}", other),
    }
}
