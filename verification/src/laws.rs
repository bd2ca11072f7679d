//! Laws of the provisioning state machine, proved over the transition
//! function `spec_handle` and its runs over whole event sequences.

use vstd::prelude::*;
use crate::handler::{
    spec_handle, spec_sub_topic, spec_topic_cert_accepted, spec_topic_create_cert,
    spec_topic_provision, spec_topic_provision_accepted, CommandView, MqttEvent,
    lemma_sub_topics_distinct,
};
use crate::state::{AppState, SUB_TOPIC_COUNT};
use crate::codec::spec_parse_credential;

verus! {

/// Whether a command publishes the certificate-creation request.
pub open spec fn is_cert_request(c: CommandView) -> bool {
    c matches CommandView::Publish { topic, .. } && topic == spec_topic_create_cert()
}

/// How many commands publish the certificate-creation request.
pub open spec fn count_cert_requests(cs: Seq<CommandView>) -> nat
    decreases cs.len(),
{
    if cs.len() == 0 {
        0
    } else {
        (if is_cert_request(cs[0]) {
            1nat
        } else {
            0nat
        }) + count_cert_requests(cs.drop_first())
    }
}

proof fn lemma_count_concat(a: Seq<CommandView>, b: Seq<CommandView>)
    ensures
        count_cert_requests(a + b) == count_cert_requests(a) + count_cert_requests(b),
    decreases a.len(),
{
    if a.len() == 0 {
        assert(a + b =~= b);
    } else {
        assert((a + b)[0] == a[0]);
        assert((a + b).drop_first() =~= a.drop_first() + b);
        lemma_count_concat(a.drop_first(), b);
    }
}

proof fn lemma_count_singleton(c: CommandView)
    ensures
        count_cert_requests(seq![c]) == (if is_cert_request(c) {
            1nat
        } else {
            0nat
        }),
{
    assert(seq![c][0] == c);
    assert(seq![c].drop_first() =~= Seq::<CommandView>::empty());
    assert(count_cert_requests(seq![c]) == (if is_cert_request(c) {
        1nat
    } else {
        0nat
    }) + count_cert_requests(Seq::<CommandView>::empty()));
}

proof fn lemma_count_triple(c0: CommandView, c1: CommandView, c2: CommandView)
    ensures
        count_cert_requests(seq![c0, c1, c2]) == count_cert_requests(seq![c0])
            + count_cert_requests(seq![c1]) + count_cert_requests(seq![c2]),
{
    assert(seq![c0, c1, c2] =~= seq![c0] + (seq![c1] + seq![c2]));
    lemma_count_concat(seq![c1], seq![c2]);
    lemma_count_concat(seq![c0], seq![c1] + seq![c2]);
}

proof fn lemma_provision_is_not_create()
    ensures
        spec_topic_provision() != spec_topic_create_cert(),
        spec_topic_provision_accepted() != spec_topic_cert_accepted(),
{
    reveal_strlit("$aws/certificates/create/json");
    reveal_strlit("$aws/provisioning-templates/iot_provisioning_template/provision/json");
    reveal_strlit("$aws/certificates/create/json/accepted");
    reveal_strlit("$aws/provisioning-templates/iot_provisioning_template/provision/json/accepted");
    assert(spec_topic_provision().len() != spec_topic_create_cert().len());
    assert(spec_topic_provision_accepted().len() != spec_topic_cert_accepted().len());
}

/// Every reachable snapshot keeps `0 <= sub_count <= 4`, and one handler
/// step never decreases `sub_count`: it rises by one exactly on a
/// subscription acknowledgment that still has registry entries left.
pub proof fn lemma_step_sub_count(s: AppState, e: MqttEvent)
    requires
        s.wf(),
    ensures
        spec_handle(s, e) matches Option::Some(p) ==> {
            &&& p.0.wf()
            &&& p.0.sub_count == (if e matches MqttEvent::SubAck && s.sub_count < SUB_TOPIC_COUNT {
                s.sub_count + 1
            } else {
                s.sub_count as int
            })
            &&& p.0.serial_number == s.serial_number
        },
{
}

/// Whether a command subscribes to the given topic.
pub open spec fn is_subscribe_to(c: CommandView, t: Seq<char>) -> bool {
    c matches CommandView::Subscribe { topic } && topic == t
}

/// Subscriptions occur strictly in registry order: whenever one handler
/// step subscribes to registry entry `i`, the snapshot it leaves behind
/// already has `sub_count >= i`, so entry `i` is never subscribed
/// before the count has reached `i`.
pub proof fn lemma_subscribe_in_order(s: AppState, e: MqttEvent)
    requires
        s.wf(),
    ensures
        spec_handle(s, e) matches Option::Some(p) ==> forall|i: int, j: int|
            0 <= i < SUB_TOPIC_COUNT && 0 <= j < p.1.len() && is_subscribe_to(
                p.1[j],
                spec_sub_topic(i),
            ) ==> i <= p.0.sub_count,
{
    lemma_sub_topics_distinct();
    if spec_handle(s, e) is Some {
        let p = spec_handle(s, e).unwrap();
        assert forall|i: int, j: int|
            0 <= i < SUB_TOPIC_COUNT && 0 <= j < p.1.len() && is_subscribe_to(
                p.1[j],
                spec_sub_topic(i),
            ) implies i <= p.0.sub_count by {
            match e {
                MqttEvent::ConnAck => {
                    if !s.provisioned {
                        assert(p.1[j] == CommandView::Subscribe { topic: spec_sub_topic(0) });
                        assert(spec_sub_topic(i) == spec_sub_topic(0));
                        assert(i == 0);
                    }
                },
                MqttEvent::SubAck => {
                    if s.sub_count < SUB_TOPIC_COUNT {
                        let n = s.sub_count + 1;
                        if n < SUB_TOPIC_COUNT {
                            assert(p.1[j] == CommandView::Subscribe {
                                topic: spec_sub_topic(n as int),
                            });
                            assert(spec_sub_topic(i) == spec_sub_topic(n as int));
                            assert(i == n);
                        }
                    }
                },
                MqttEvent::Publish { topic, payload } => {},
                MqttEvent::Other => {},
            }
        }
    }
}

/// One handler step publishes the certificate-creation request exactly
/// once when a subscription acknowledgment completes the registry —
/// `sub_count` reaching 4 — and never otherwise.
pub proof fn lemma_step_cert_request(s: AppState, e: MqttEvent)
    requires
        s.wf(),
    ensures
        spec_handle(s, e) matches Option::Some(p) ==> count_cert_requests(p.1) == (
        if e matches MqttEvent::SubAck && s.sub_count + 1 == SUB_TOPIC_COUNT {
            1nat
        } else {
            0nat
        }),
{
    lemma_provision_is_not_create();
    crate::handler::lemma_request_topics_not_subscribed();
    if spec_handle(s, e) is Some {
        let p = spec_handle(s, e).unwrap();
        match e {
            MqttEvent::ConnAck => {
                if !s.provisioned {
                    lemma_count_singleton(p.1[0]);
                    assert(p.1 =~= seq![p.1[0]]);
                }
            },
            MqttEvent::SubAck => {
                if s.sub_count < SUB_TOPIC_COUNT {
                    lemma_count_singleton(p.1[0]);
                    assert(p.1 =~= seq![p.1[0]]);
                }
            },
            MqttEvent::Publish { topic, payload } => {
                if topic@ == spec_topic_cert_accepted() && spec_parse_credential(payload@)
                    is Some {
                    lemma_count_triple(p.1[0], p.1[1], p.1[2]);
                    lemma_count_singleton(p.1[0]);
                    lemma_count_singleton(p.1[1]);
                    lemma_count_singleton(p.1[2]);
                    assert(p.1 =~= seq![p.1[0], p.1[1], p.1[2]]);
                }
            },
            MqttEvent::Other => {},
        }
    }
}

/// Whether an event is a message on the registration-accepted topic.
pub open spec fn is_provision_acceptance(e: MqttEvent) -> bool {
    e matches MqttEvent::Publish { topic, .. } && topic@ == spec_topic_provision_accepted()
}

/// Receiving a message on the registration-accepted topic sets
/// `provisioned`, and it is the only path to that state: after any
/// handler step the snapshot is provisioned exactly when it already was
/// or the step consumed such a message.
pub proof fn lemma_provisioned_only_by_acceptance(s: AppState, e: MqttEvent)
    requires
        s.wf(),
    ensures
        spec_handle(s, e) matches Option::Some(p) ==> (p.0.provisioned <==> (s.provisioned
            || is_provision_acceptance(e))),
{
    lemma_provision_is_not_create();
}

/// A handler step fails — with a codec error, changing no state and
/// issuing no command — exactly when it consumes a message on the
/// certificate-creation-accepted topic whose payload does not encode a
/// credential.
pub proof fn lemma_codec_failure(s: AppState, e: MqttEvent)
    ensures
        spec_handle(s, e) is None <==> (e matches MqttEvent::Publish { topic, payload } && topic@
            == spec_topic_cert_accepted() && spec_parse_credential(payload@) is None),
{
}

// ---------------------------------------------------------------------
// Runs over whole event sequences.
// ---------------------------------------------------------------------

/// The flow driven over a sequence of events: each event is handled in
/// turn, commands accumulate in order, and a codec failure stops the
/// flow where it stands.
pub open spec fn spec_run_events(s: AppState, es: Seq<MqttEvent>) -> (AppState, Seq<CommandView>)
    decreases es.len(),
{
    if es.len() == 0 {
        (s, Seq::empty())
    } else {
        match spec_handle(s, es[0]) {
            Option::None => (s, Seq::empty()),
            Option::Some(p) => {
                let rest = spec_run_events(p.0, es.drop_first());
                (rest.0, p.1 + rest.1)
            },
        }
    }
}

/// Across any event sequence, `sub_count` never leaves `0..=4` and
/// never decreases, and the serial number never changes.
pub proof fn lemma_run_sub_count_monotone(s: AppState, es: Seq<MqttEvent>)
    requires
        s.wf(),
    ensures
        spec_run_events(s, es).0.wf(),
        spec_run_events(s, es).0.sub_count >= s.sub_count,
        spec_run_events(s, es).0.serial_number == s.serial_number,
    decreases es.len(),
{
    if es.len() > 0 {
        match spec_handle(s, es[0]) {
            Option::None => {},
            Option::Some(p) => {
                lemma_step_sub_count(s, es[0]);
                lemma_run_sub_count_monotone(p.0, es.drop_first());
            },
        }
    }
}

/// Across any event sequence with no message on the
/// registration-accepted topic, an unprovisioned device stays
/// unprovisioned: acceptance of the registration request is the only
/// path to the provisioned state.
pub proof fn lemma_run_provisioned_needs_acceptance(s: AppState, es: Seq<MqttEvent>)
    requires
        s.wf(),
        !s.provisioned,
        forall|k: int| 0 <= k < es.len() ==> !is_provision_acceptance(#[trigger] es[k]),
    ensures
        !spec_run_events(s, es).0.provisioned,
    decreases es.len(),
{
    if es.len() > 0 {
        match spec_handle(s, es[0]) {
            Option::None => {},
            Option::Some(p) => {
                lemma_provisioned_only_by_acceptance(s, es[0]);
                lemma_step_sub_count(s, es[0]);
                assert forall|k: int| 0 <= k < es.drop_first().len() implies !is_provision_acceptance(
                    #[trigger] es.drop_first()[k],
                ) by {
                    assert(es.drop_first()[k] == es[k + 1]);
                }
                lemma_run_provisioned_needs_acceptance(p.0, es.drop_first());
            },
        }
    }
}

/// Over any whole run that starts below a full registry, the
/// certificate-creation request is published exactly once if the run
/// completes the registry — `sub_count` reaching 4 — and never
/// otherwise.
pub proof fn lemma_run_cert_request_once(s: AppState, es: Seq<MqttEvent>)
    requires
        s.wf(),
    ensures
        count_cert_requests(spec_run_events(s, es).1) == (if s.sub_count < SUB_TOPIC_COUNT
            && spec_run_events(s, es).0.sub_count == SUB_TOPIC_COUNT {
            1nat
        } else {
            0nat
        }),
    decreases es.len(),
{
    if es.len() > 0 {
        match spec_handle(s, es[0]) {
            Option::None => {},
            Option::Some(p) => {
                let rest = spec_run_events(p.0, es.drop_first());
                lemma_step_sub_count(s, es[0]);
                lemma_step_cert_request(s, es[0]);
                lemma_run_cert_request_once(p.0, es.drop_first());
                lemma_run_sub_count_monotone(p.0, es.drop_first());
                lemma_count_concat(p.1, rest.1);
            },
        }
    }
}

} // verus!
