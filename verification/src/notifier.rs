//! Fan-out notification: the configured sinks, the envelope every sink
//! serializes, the delivery plan built for one event, and the per-sink
//! delivery reports.
//!
//! One event yields exactly one delivery per configured sink; a sink's
//! report depends on nothing but its own configured policy and its own
//! attempt outcomes.

use crate::codec::{encode_obj, to_json};
use crate::json::{encode_json, jtext};
use crate::object::{
    lemma_view_entry_seq_push, view_dyn, view_entry_seq, view_json, DynamicObject, JVal, JsonValue,
    ObjModel, MetaModel,
};
use crate::retry::{spec_deliver, spec_delivery_step, DeliveryState, ResponseClass, run_webhook_delivery};
use vstd::prelude::*;
use vstd::string::StringExecFns;

verus! {

/// A webhook sink: where to post, and how many retries beyond the first
/// attempt it gets (3 when unset).
pub struct HttpNotification {
    pub url: String,
    pub retry: Option<u32>,
}

/// A topic sink: a single publish, no retry.
pub struct SnsNotification {
    pub topic_arn: String,
}

/// A queue sink: a single send, no retry.
pub struct SqsNotification {
    pub url: String,
}

/// The trigger configuration: each sink category optional.
pub struct ConfigTrigger {
    pub http: Option<Vec<HttpNotification>>,
    pub sns: Option<Vec<SnsNotification>>,
    pub sqs: Option<Vec<SqsNotification>>,
}

/// All configured sinks, categories defaulted to empty.
pub struct Notifier {
    pub http: Vec<HttpNotification>,
    pub sns: Vec<SnsNotification>,
    pub sqs: Vec<SqsNotification>,
}

/// The envelope every sink serializes: a constant source marker, the issue
/// time, and the full watched object.
pub open spec fn envelope_jval(o: ObjModel, ts: Seq<char>) -> JVal {
    JVal::Obj(
        seq![
            ("source"@, JVal::Str("io.k8s-watcher"@)),
            ("timestamp"@, JVal::Str(ts)),
            ("object"@, encode_obj(o)),
        ],
    )
}

/// The wire text of the envelope.
pub open spec fn spec_envelope_body(o: ObjModel, ts: Seq<char>) -> Seq<char> {
    jtext(envelope_jval(o, ts))
}

/// Build the envelope for one event at one issue time.
pub fn build_envelope(o: &DynamicObject, ts: &str) -> (r: JsonValue)
    ensures
        view_json(r) == envelope_jval(view_dyn(*o), ts@),
{
    let mut entries: Vec<(String, JsonValue)> = Vec::new();
    let e0 = (String::from_str("source"), JsonValue::Str(String::from_str("io.k8s-watcher")));
    proof {
        lemma_view_entry_seq_push(entries@, e0);
    }
    entries.push(e0);
    let e1 = (String::from_str("timestamp"), JsonValue::Str(String::from_str(ts)));
    proof {
        lemma_view_entry_seq_push(entries@, e1);
    }
    entries.push(e1);
    let e2 = (String::from_str("object"), to_json(o));
    proof {
        lemma_view_entry_seq_push(entries@, e2);
    }
    entries.push(e2);
    proof {
        assert(view_entry_seq(entries@) =~= envelope_jval(view_dyn(*o), ts@)->Obj_0);
    }
    JsonValue::Obj(entries)
}

/// The envelope's wire text for one event at one issue time.
pub fn envelope_body(o: &DynamicObject, ts: &str) -> (r: String)
    ensures
        r@ == spec_envelope_body(view_dyn(*o), ts@),
{
    let v = build_envelope(o, ts);
    encode_json(&v)
}

/// The short human-readable summary a topic sink adds for SMS subscribers.
pub open spec fn spec_sms_summary(m: MetaModel) -> Seq<char> {
    "Object "@ + (match m.namespace {
        Some(ns) => ns,
        None => "default"@,
    }) + "/"@ + (match m.name {
        Some(n) => n,
        None => "unknown"@,
    })
}

/// Build the SMS summary for one event.
pub fn sms_summary(o: &DynamicObject) -> (r: String)
    ensures
        r@ == spec_sms_summary(view_dyn(*o).metadata),
{
    let ns = match &o.metadata.namespace {
        Some(s) => s.clone(),
        None => String::from_str("default"),
    };
    let name = match &o.metadata.name {
        Some(s) => s.clone(),
        None => String::from_str("unknown"),
    };
    let r = String::from_str("Object ").concat(ns.as_str()).concat("/").concat(name.as_str());
    proof {
        assert(r@ =~= spec_sms_summary(view_dyn(*o).metadata));
    }
    r
}

/// The multi-protocol message a topic sink publishes: one payload variant
/// per subscriber protocol, so a single publish serves them all.
pub open spec fn sns_message_jval(body: Seq<char>, sms: Seq<char>) -> JVal {
    JVal::Obj(
        seq![
            ("default"@, JVal::Str(body)),
            ("sms"@, JVal::Str(sms)),
            ("email-json"@, JVal::Str(body)),
            ("http"@, JVal::Str(body)),
            ("https"@, JVal::Str(body)),
            ("sqs"@, JVal::Str(body)),
        ],
    )
}

/// Build the topic sink's multi-protocol message text.
pub fn sns_message(body: &str, sms: &str) -> (r: String)
    ensures
        r@ == jtext(sns_message_jval(body@, sms@)),
{
    let mut entries: Vec<(String, JsonValue)> = Vec::new();
    let e0 = (String::from_str("default"), JsonValue::Str(String::from_str(body)));
    proof {
        lemma_view_entry_seq_push(entries@, e0);
    }
    entries.push(e0);
    let e1 = (String::from_str("sms"), JsonValue::Str(String::from_str(sms)));
    proof {
        lemma_view_entry_seq_push(entries@, e1);
    }
    entries.push(e1);
    let e2 = (String::from_str("email-json"), JsonValue::Str(String::from_str(body)));
    proof {
        lemma_view_entry_seq_push(entries@, e2);
    }
    entries.push(e2);
    let e3 = (String::from_str("http"), JsonValue::Str(String::from_str(body)));
    proof {
        lemma_view_entry_seq_push(entries@, e3);
    }
    entries.push(e3);
    let e4 = (String::from_str("https"), JsonValue::Str(String::from_str(body)));
    proof {
        lemma_view_entry_seq_push(entries@, e4);
    }
    entries.push(e4);
    let e5 = (String::from_str("sqs"), JsonValue::Str(String::from_str(body)));
    proof {
        lemma_view_entry_seq_push(entries@, e5);
    }
    entries.push(e5);
    let v = JsonValue::Obj(entries);
    proof {
        assert(view_entry_seq(entries@) =~= sns_message_jval(body@, sms@)->Obj_0);
    }
    encode_json(&v)
}

/// One prepared delivery: everything a transport needs for one sink.
#[derive(Debug, PartialEq)]
pub enum Delivery {
    /// Post this body to the webhook, with this retry budget.
    Http { url: String, max_retries: u32, body: String },
    /// Publish this multi-protocol message to the topic.
    Sns { topic_arn: String, subject: String, message: String },
    /// Send this body to the queue.
    Sqs { url: String, body: String },
}

/// The webhook retry budget: as configured, or 3.
pub open spec fn spec_retries(h: HttpNotification) -> u32 {
    match h.retry {
        Some(r) => r,
        None => 3,
    }
}

/// What a delivery plan for one event at one issue time looks like: exactly
/// one entry per configured sink, webhooks first, then topics, then queues,
/// each carrying the envelope built for that issue time.
pub open spec fn plan_matches(
    n: Notifier,
    om: ObjModel,
    ts: Seq<char>,
    plan: Seq<Delivery>,
) -> bool {
    let body = spec_envelope_body(om, ts);
    let nh = n.http@.len() as int;
    let ns = n.sns@.len() as int;
    let nq = n.sqs@.len() as int;
    &&& plan.len() == nh + ns + nq
    &&& forall|i: int|
        0 <= i < nh ==> ((#[trigger] plan[i]) matches Delivery::Http { url, max_retries, body: b }
            && url@ == n.http@[i].url@ && max_retries == spec_retries(n.http@[i]) && b@ == body)
    &&& forall|i: int|
        0 <= i < ns ==> ((#[trigger] plan[nh + i]) matches Delivery::Sns {
            topic_arn,
            subject,
            message,
        } && topic_arn@ == n.sns@[i].topic_arn@ && subject@ == "K8s Watcher notification"@
            && message@ == jtext(sns_message_jval(body, spec_sms_summary(om.metadata))))
    &&& forall|i: int|
        0 <= i < nq ==> ((#[trigger] plan[nh + ns + i]) matches Delivery::Sqs { url, body: b }
            && url@ == n.sqs@[i].url@ && b@ == body)
}

impl Notifier {
    /// Gather the configured sinks, absent categories read as empty.
    pub fn new(triggers: ConfigTrigger) -> (n: Notifier)
        ensures
            n.http@ == (match triggers.http {
                Some(v) => v@,
                None => Seq::<HttpNotification>::empty(),
            }),
            n.sns@ == (match triggers.sns {
                Some(v) => v@,
                None => Seq::<SnsNotification>::empty(),
            }),
            n.sqs@ == (match triggers.sqs {
                Some(v) => v@,
                None => Seq::<SqsNotification>::empty(),
            }),
    {
        let http = match triggers.http {
            Some(v) => v,
            None => Vec::new(),
        };
        let sns = match triggers.sns {
            Some(v) => v,
            None => Vec::new(),
        };
        let sqs = match triggers.sqs {
            Some(v) => v,
            None => Vec::new(),
        };
        Notifier { http, sns, sqs }
    }

    /// The delivery plan for one event at a given issue time: one delivery
    /// per configured sink, none skipped, none repeated.
    #[verifier::loop_isolation(false)]
    pub fn plan_at(&self, o: &DynamicObject, ts: &str) -> (plan: Vec<Delivery>)
        ensures
            plan_matches(*self, view_dyn(*o), ts@, plan@),
    {
        let body = envelope_body(o, ts);
        let sms = sms_summary(o);
        let message = sns_message(body.as_str(), sms.as_str());
        let mut plan: Vec<Delivery> = Vec::new();
        let nh = self.http.len();
        let mut i: usize = 0;
        while i < nh
            invariant
                i <= nh,
                plan@.len() == i,
                forall|j: int|
                    0 <= j < i ==> ((#[trigger] plan@[j]) matches Delivery::Http {
                        url,
                        max_retries,
                        body: b,
                    } && url@ == self.http@[j].url@ && max_retries == spec_retries(self.http@[j])
                        && b@ == spec_envelope_body(view_dyn(*o), ts@)),
            decreases nh - i,
        {
            let h = &self.http[i];
            let retries = match h.retry {
                Some(r) => r,
                None => 3,
            };
            plan.push(
                Delivery::Http { url: h.url.clone(), max_retries: retries, body: body.clone() },
            );
            i = i + 1;
        }
        let ns = self.sns.len();
        let mut i2: usize = 0;
        while i2 < ns
            invariant
                i2 <= ns,
                plan@.len() == nh + i2,
                forall|j: int|
                    0 <= j < nh ==> ((#[trigger] plan@[j]) matches Delivery::Http {
                        url,
                        max_retries,
                        body: b,
                    } && url@ == self.http@[j].url@ && max_retries == spec_retries(self.http@[j])
                        && b@ == spec_envelope_body(view_dyn(*o), ts@)),
                forall|j: int|
                    0 <= j < i2 ==> ((#[trigger] plan@[nh + j]) matches Delivery::Sns {
                        topic_arn,
                        subject,
                        message: msg,
                    } && topic_arn@ == self.sns@[j].topic_arn@ && subject@
                        == "K8s Watcher notification"@ && msg@ == jtext(
                        sns_message_jval(
                            spec_envelope_body(view_dyn(*o), ts@),
                            spec_sms_summary(view_dyn(*o).metadata),
                        ),
                    )),
            decreases ns - i2,
        {
            let s = &self.sns[i2];
            plan.push(
                Delivery::Sns {
                    topic_arn: s.topic_arn.clone(),
                    subject: String::from_str("K8s Watcher notification"),
                    message: message.clone(),
                },
            );
            i2 = i2 + 1;
        }
        let nq = self.sqs.len();
        let mut i3: usize = 0;
        while i3 < nq
            invariant
                i3 <= nq,
                plan@.len() == nh + ns + i3,
                forall|j: int|
                    0 <= j < nh ==> ((#[trigger] plan@[j]) matches Delivery::Http {
                        url,
                        max_retries,
                        body: b,
                    } && url@ == self.http@[j].url@ && max_retries == spec_retries(self.http@[j])
                        && b@ == spec_envelope_body(view_dyn(*o), ts@)),
                forall|j: int|
                    0 <= j < ns ==> ((#[trigger] plan@[nh + j]) matches Delivery::Sns {
                        topic_arn,
                        subject,
                        message: msg,
                    } && topic_arn@ == self.sns@[j].topic_arn@ && subject@
                        == "K8s Watcher notification"@ && msg@ == jtext(
                        sns_message_jval(
                            spec_envelope_body(view_dyn(*o), ts@),
                            spec_sms_summary(view_dyn(*o).metadata),
                        ),
                    )),
                forall|j: int|
                    0 <= j < i3 ==> ((#[trigger] plan@[nh + ns + j]) matches Delivery::Sqs {
                        url,
                        body: b,
                    } && url@ == self.sqs@[j].url@ && b@ == spec_envelope_body(view_dyn(*o), ts@)),
            decreases nq - i3,
        {
            let q = &self.sqs[i3];
            plan.push(Delivery::Sqs { url: q.url.clone(), body: body.clone() });
            i3 = i3 + 1;
        }
        plan
    }

    /// The delivery plan for one event, enveloped at the present moment.
    /// Stateless: the plan depends only on the configured sinks, the event,
    /// and the issue time just read from the clock.
    pub fn notify(&self, o: &DynamicObject) -> (plan: Vec<Delivery>)
        ensures
            exists|ts: Seq<char>| plan_matches(*self, view_dyn(*o), ts, plan@),
            plan@.len() == self.http@.len() + self.sns@.len() + self.sqs@.len(),
    {
        let ts = now_rfc3339();
        let plan = self.plan_at(o, ts.as_str());
        proof {
            assert(plan_matches(*self, view_dyn(*o), ts@, plan@));
        }
        plan
    }

    /// Whether every webhook and queue endpoint is a well-formed URL; a
    /// malformed endpoint is a permanent sink error and can never succeed.
    #[verifier::loop_isolation(false)]
    pub fn valid_endpoints(&self) -> (r: bool)
        ensures
            r == ((forall|i: int| 0 <= i < self.http@.len() ==> url_accepted(self.http@[i].url@))
                && (forall|i: int|
                0 <= i < self.sqs@.len() ==> url_accepted(self.sqs@[i].url@))),
    {
        let mut i: usize = 0;
        while i < self.http.len()
            invariant
                i <= self.http@.len(),
                forall|j: int| 0 <= j < i ==> url_accepted(self.http@[j].url@),
            decreases self.http@.len() - i,
        {
            if !url_ok(self.http[i].url.as_str()) {
                return false;
            }
            i = i + 1;
        }
        let mut i2: usize = 0;
        while i2 < self.sqs.len()
            invariant
                i2 <= self.sqs@.len(),
                forall|j: int| 0 <= j < i2 ==> url_accepted(self.sqs@[j].url@),
            decreases self.sqs@.len() - i2,
        {
            if !url_ok(self.sqs[i2].url.as_str()) {
                return false;
            }
            i2 = i2 + 1;
        }
        true
    }
}

/// Relies on chrono's `Utc::now().to_rfc3339()`: the issue time in RFC 3339
/// text form. The result depends on the clock, so nothing is promised of it.
#[verifier::external_body]
fn now_rfc3339() -> String {
    chrono::Utc::now().to_rfc3339()
}

/// Whether `url::Url::parse` accepts a text; the answer depends on the text
/// alone.
pub uninterp spec fn url_accepted(s: Seq<char>) -> bool;

/// Relies on `url::Url::parse`: whether the text is a URL the transports
/// can address.
#[verifier::external_body]
fn url_ok(s: &str) -> (r: bool)
    ensures
        r == url_accepted(s@),
{
    url::Url::parse(s).is_ok()
}

/// The attempt budget of one delivery: the first attempt plus the webhook's
/// configured retries; topic and queue sinks get a single attempt.
pub open spec fn spec_budget(d: Delivery) -> u32 {
    match d {
        Delivery::Http { max_retries, .. } => if max_retries < u32::MAX {
            (max_retries + 1) as u32
        } else {
            u32::MAX
        },
        _ => 1,
    }
}

/// What one delivery comes to against its own attempt outcomes: how many
/// attempts are made and where the state machine ends.
pub open spec fn spec_report(d: Delivery, outs: Seq<ResponseClass>) -> (nat, DeliveryState) {
    spec_deliver(DeliveryState::Attempting(1), spec_budget(d), outs, 0)
}

/// One sink's delivery report.
#[derive(Debug, PartialEq)]
pub struct SinkReport {
    pub attempts: u32,
    pub state: DeliveryState,
}

/// Drive every delivery of a plan against its own outcome column. Each
/// report is a function of that sink's entry and that sink's outcomes
/// alone: no report waits on, or changes with, any other sink.
#[verifier::loop_isolation(false)]
pub fn dispatch_reports(plan: &Vec<Delivery>, outcomes: &Vec<Vec<ResponseClass>>) -> (rs: Vec<
    SinkReport,
>)
    requires
        outcomes@.len() == plan@.len(),
    ensures
        rs@.len() == plan@.len(),
        forall|i: int|
            0 <= i < rs@.len() ==> ((#[trigger] rs@[i]).attempts as nat, rs@[i].state)
                == spec_report(plan@[i], outcomes@[i]@),
{
    let mut rs: Vec<SinkReport> = Vec::new();
    let mut i: usize = 0;
    while i < plan.len()
        invariant
            i <= plan@.len(),
            rs@.len() == i,
            forall|j: int|
                0 <= j < i ==> ((#[trigger] rs@[j]).attempts as nat, rs@[j].state) == spec_report(
                    plan@[j],
                    outcomes@[j]@,
                ),
        decreases plan@.len() - i,
    {
        let max_retries = match &plan[i] {
            Delivery::Http { max_retries, .. } => if *max_retries < u32::MAX {
                *max_retries
            } else {
                u32::MAX - 1
            },
            _ => 0,
        };
        let rec = run_webhook_delivery(max_retries, 0, &outcomes[i]);
        rs.push(SinkReport { attempts: rec.attempts, state: rec.state });
        i = i + 1;
    }
    rs
}

/// A sink's report depends only on its own plan entry and its own outcome
/// column: two outcome tables that agree on column `j` give sink `j` the
/// same report, however every other sink fares.
pub proof fn lemma_sink_independence(
    plan: Seq<Delivery>,
    t1: Seq<Seq<ResponseClass>>,
    t2: Seq<Seq<ResponseClass>>,
    j: int,
)
    requires
        0 <= j < plan.len(),
        0 <= j < t1.len(),
        0 <= j < t2.len(),
        t1[j] == t2[j],
    ensures
        spec_report(plan[j], t1[j]) == spec_report(plan[j], t2[j]),
{
}

/// Duplicate delivery is tolerated: delivering the same event to the same
/// sink twice yields two reports, each the same function of that sink's
/// own outcomes, with no record of the first delivery affecting the second.
pub proof fn lemma_duplicate_delivery(d: Delivery, o1: Seq<ResponseClass>, o2: Seq<ResponseClass>)
    requires
        o1.len() >= 1,
        o1[0] is Success,
        o2.len() >= 1,
        o2[0] is Success,
    ensures
        spec_report(d, o1) == (1nat, DeliveryState::Succeeded),
        spec_report(d, o2) == (1nat, DeliveryState::Succeeded),
{
    let b = spec_budget(d);
    let s1 = spec_delivery_step(DeliveryState::Attempting(1), b, o1[0]);
    assert(s1 == DeliveryState::Succeeded);
    assert(spec_deliver(DeliveryState::Attempting(1), b, o1, 0) == spec_deliver(
        s1,
        b,
        o1.drop_first(),
        1,
    ));
    assert(spec_deliver(s1, b, o1.drop_first(), 1) == (1nat, DeliveryState::Succeeded));
    let s2 = spec_delivery_step(DeliveryState::Attempting(1), b, o2[0]);
    assert(s2 == DeliveryState::Succeeded);
    assert(spec_deliver(DeliveryState::Attempting(1), b, o2, 0) == spec_deliver(
        s2,
        b,
        o2.drop_first(),
        1,
    ));
    assert(spec_deliver(s2, b, o2.drop_first(), 1) == (1nat, DeliveryState::Succeeded));
}

} // verus!
