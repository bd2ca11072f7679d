//! The provisioning event handler: consumes one inbound transport event,
//! updates the state snapshot through the store, and returns the
//! outbound work as command values for the driver to perform.

use vstd::prelude::*;
use crate::codec::{
    build_registration_body, parse_credential, spec_parse_credential, spec_registration_body,
    RegistrationParameters, RegistrationRequest,
};
use crate::state::{AppAction, AppError, AppState, SUB_TOPIC_COUNT};
use crate::store::{Action, Store};
use crate::util::clone_bytes;

verus! {

// ---------------------------------------------------------------------
// The topic registry.
// ---------------------------------------------------------------------

/// Topic the certificate-creation request is published to.
pub open spec fn spec_topic_create_cert() -> Seq<char> {
    "$aws/certificates/create/json"@
}

/// Topic a successful certificate-creation response arrives on.
pub open spec fn spec_topic_cert_accepted() -> Seq<char> {
    "$aws/certificates/create/json/accepted"@
}

/// Topic a certificate-creation rejection arrives on.
pub open spec fn spec_topic_cert_rejected() -> Seq<char> {
    "$aws/certificates/create/json/rejected"@
}

/// Topic the registration request is published to.
pub open spec fn spec_topic_provision() -> Seq<char> {
    "$aws/provisioning-templates/iot_provisioning_template/provision/json"@
}

/// Topic a successful registration response arrives on.
pub open spec fn spec_topic_provision_accepted() -> Seq<char> {
    "$aws/provisioning-templates/iot_provisioning_template/provision/json/accepted"@
}

/// Topic a registration rejection arrives on.
pub open spec fn spec_topic_provision_rejected() -> Seq<char> {
    "$aws/provisioning-templates/iot_provisioning_template/provision/json/rejected"@
}

/// The fixed ordered registry of subscription topics that gate progress:
/// both certificate-creation response topics, then both registration
/// response topics.
pub open spec fn spec_sub_topic(i: int) -> Seq<char> {
    if i == 0 {
        spec_topic_cert_accepted()
    } else if i == 1 {
        spec_topic_cert_rejected()
    } else if i == 2 {
        spec_topic_provision_accepted()
    } else {
        spec_topic_provision_rejected()
    }
}

/// The registry entry at `i`.
pub fn sub_topic(i: usize) -> (t: String)
    requires
        i < SUB_TOPIC_COUNT,
    ensures
        t@ == spec_sub_topic(i as int),
{
    if i == 0 {
        "$aws/certificates/create/json/accepted".to_owned()
    } else if i == 1 {
        "$aws/certificates/create/json/rejected".to_owned()
    } else if i == 2 {
        "$aws/provisioning-templates/iot_provisioning_template/provision/json/accepted".to_owned()
    } else {
        "$aws/provisioning-templates/iot_provisioning_template/provision/json/rejected".to_owned()
    }
}

/// The four registry topics are pairwise distinct.
pub proof fn lemma_sub_topics_distinct()
    ensures
        forall|i: int, j: int|
            0 <= i < SUB_TOPIC_COUNT && 0 <= j < SUB_TOPIC_COUNT && i != j ==> spec_sub_topic(i)
                != spec_sub_topic(j),
{
    reveal_strlit("$aws/certificates/create/json/accepted");
    reveal_strlit("$aws/certificates/create/json/rejected");
    reveal_strlit("$aws/provisioning-templates/iot_provisioning_template/provision/json/accepted");
    reveal_strlit("$aws/provisioning-templates/iot_provisioning_template/provision/json/rejected");
    assert(spec_sub_topic(0).len() != spec_sub_topic(2).len());
    assert(spec_sub_topic(0).len() != spec_sub_topic(3).len());
    assert(spec_sub_topic(1).len() != spec_sub_topic(2).len());
    assert(spec_sub_topic(1).len() != spec_sub_topic(3).len());
    assert(spec_sub_topic(0)[30] != spec_sub_topic(1)[30]);
    assert(spec_sub_topic(2)[69] != spec_sub_topic(3)[69]);
}

/// Neither request topic is in the registry.
pub proof fn lemma_request_topics_not_subscribed()
    ensures
        forall|i: int|
            0 <= i < SUB_TOPIC_COUNT ==> spec_sub_topic(i) != spec_topic_create_cert()
                && spec_sub_topic(i) != spec_topic_provision(),
{
    reveal_strlit("$aws/certificates/create/json");
    reveal_strlit("$aws/provisioning-templates/iot_provisioning_template/provision/json");
    reveal_strlit("$aws/certificates/create/json/accepted");
    reveal_strlit("$aws/certificates/create/json/rejected");
    reveal_strlit("$aws/provisioning-templates/iot_provisioning_template/provision/json/accepted");
    reveal_strlit("$aws/provisioning-templates/iot_provisioning_template/provision/json/rejected");
    assert forall|i: int| 0 <= i < SUB_TOPIC_COUNT implies spec_sub_topic(i)
        != spec_topic_create_cert() && spec_sub_topic(i) != spec_topic_provision() by {
        assert(spec_sub_topic(i).len() != spec_topic_create_cert().len());
        assert(spec_sub_topic(i).len() != spec_topic_provision().len());
    }
}

// ---------------------------------------------------------------------
// Events and commands.
// ---------------------------------------------------------------------

/// An inbound transport event, as plain values.  The driver translates
/// its transport library's packets into these.
pub enum MqttEvent {
    /// The connection was established.
    ConnAck,
    /// A subscription was acknowledged.
    SubAck,
    /// A message arrived on a subscribed topic.
    Publish { topic: String, payload: Vec<u8> },
    /// Anything else; the handler ignores it.
    Other,
}

/// Outbound work the driver performs after a handler step.  Every
/// subscription and publication uses at-least-once delivery, and every
/// publication is non-retained.
pub enum Command {
    /// Subscribe to the topic.
    Subscribe { topic: String },
    /// Publish the payload to the topic.
    Publish { topic: String, payload: Vec<u8> },
    /// Write the contents to the file, replacing what was there.
    WriteFile { path: String, contents: Vec<u8> },
}

/// Spec-level image of a command.
#[verifier::ext_equal]
pub enum CommandView {
    Subscribe { topic: Seq<char> },
    Publish { topic: Seq<char>, payload: Seq<u8> },
    WriteFile { path: Seq<char>, contents: Seq<u8> },
}

impl View for Command {
    type V = CommandView;

    open spec fn view(&self) -> CommandView {
        match self {
            Command::Subscribe { topic } => CommandView::Subscribe { topic: topic@ },
            Command::Publish { topic, payload } => CommandView::Publish {
                topic: topic@,
                payload: payload@,
            },
            Command::WriteFile { path, contents } => CommandView::WriteFile {
                path: path@,
                contents: contents@,
            },
        }
    }
}

/// The commands of an exec command vector, as their spec images.
pub open spec fn cmd_views(cs: Seq<Command>) -> Seq<CommandView> {
    cs.map_values(|c: Command| c@)
}

/// A malformed inbound payload: the flow fails fatally, with no retry.
#[derive(Debug)]
pub struct CodecError;

// ---------------------------------------------------------------------
// The transition function.
// ---------------------------------------------------------------------

/// What one handler step does: the next snapshot and the outbound
/// commands, or nothing when the payload is malformed (the step then
/// changes no state and issues no command).
///
/// On connection establishment the sequencer starts at registry entry 0
/// unless the device is already provisioned.  Each subscription
/// acknowledgment advances the count; the next registry entry is
/// subscribed while entries remain, and once all are active the empty
/// certificate-creation request is published — acknowledgments beyond
/// the registry length change nothing.  A certificate-creation response
/// is parsed, its two credential files are written, and the framed
/// registration request is published.  The two rejection topics record
/// the terminal error; the registration-accepted topic marks the device
/// provisioned.  Every other event is a no-op.
pub open spec fn spec_handle(s: AppState, e: MqttEvent) -> Option<(AppState, Seq<CommandView>)> {
    match e {
        MqttEvent::ConnAck => Option::Some(
            (
                s,
                if !s.provisioned {
                    seq![CommandView::Subscribe { topic: spec_sub_topic(0) }]
                } else {
                    Seq::empty()
                },
            ),
        ),
        MqttEvent::SubAck => {
            if s.sub_count < SUB_TOPIC_COUNT {
                let n = (s.sub_count + 1) as usize;
                let s2 = spec_reduce_sub(s, n);
                let cmds = if n < SUB_TOPIC_COUNT {
                    seq![CommandView::Subscribe { topic: spec_sub_topic(n as int) }]
                } else {
                    seq![
                        CommandView::Publish {
                            topic: spec_topic_create_cert(),
                            payload: Seq::empty(),
                        },
                    ]
                };
                Option::Some((s2, cmds))
            } else {
                Option::Some((s, Seq::empty()))
            }
        },
        MqttEvent::Publish { topic, payload } => {
            if topic@ == spec_topic_cert_accepted() {
                match spec_parse_credential(payload@) {
                    Option::None => Option::None,
                    Option::Some(f) => Option::Some(
                        (
                            s,
                            seq![
                                CommandView::WriteFile {
                                    path: "certificate.pem"@,
                                    contents: f.certificate_pem,
                                },
                                CommandView::WriteFile {
                                    path: "private_key.pem"@,
                                    contents: f.private_key,
                                },
                                CommandView::Publish {
                                    topic: spec_topic_provision(),
                                    payload: spec_registration_body(
                                        f.ownership_token,
                                        s.serial_number@,
                                        f.certificate_id,
                                    ),
                                },
                            ],
                        ),
                    ),
                }
            } else if topic@ == spec_topic_provision_accepted() {
                Option::Some(
                    (
                        crate::state::spec_reduce(s, AppAction::SetProvisioned(true)),
                        Seq::empty(),
                    ),
                )
            } else if topic@ == spec_topic_cert_rejected() {
                Option::Some(
                    (
                        crate::state::spec_reduce(
                            s,
                            AppAction::SetError(AppError::CertificateCreationError(payload)),
                        ),
                        Seq::empty(),
                    ),
                )
            } else if topic@ == spec_topic_provision_rejected() {
                Option::Some(
                    (
                        crate::state::spec_reduce(
                            s,
                            AppAction::SetError(AppError::ProvisioningRequestError(payload)),
                        ),
                        Seq::empty(),
                    ),
                )
            } else {
                Option::Some((s, Seq::empty()))
            }
        },
        MqttEvent::Other => Option::Some((s, Seq::empty())),
    }
}

/// The snapshot after a subscription acknowledgment advanced the count.
pub open spec fn spec_reduce_sub(s: AppState, n: usize) -> AppState {
    crate::state::spec_reduce(s, AppAction::SetSubCount(n))
}

/// A command vector with nothing in it.
fn empty_commands() -> (r: Vec<Command>)
    ensures
        cmd_views(r@) == Seq::<CommandView>::empty(),
{
    let r: Vec<Command> = Vec::new();
    proof {
        assert(cmd_views(r@) =~= Seq::<CommandView>::empty());
    }
    r
}

/// Whether `topic` is the given exact topic string.
fn topic_is(topic: &String, lit: &str) -> (r: bool)
    ensures
        r == (topic@ == lit@),
{
    let l: String = lit.to_owned();
    *topic == l
}

/// Handles one inbound event: dispatches the state changes of
/// `spec_handle` into the store and returns its commands for the driver
/// to perform, or fails with a codec error — leaving the snapshot
/// untouched — exactly when `spec_handle` rejects the payload.
pub fn handle_mqtt_event(store: &mut Store, e: MqttEvent) -> (r: Result<Vec<Command>, CodecError>)
    requires
        old(store)@.wf(),
    ensures
        final(store)@.wf(),
        match r {
            Result::Ok(cmds) => {
                &&& spec_handle(old(store)@, e) matches Option::Some(p)
                &&& final(store)@ == p.0
                &&& cmd_views(cmds@) == p.1
            },
            Result::Err(_) => {
                &&& spec_handle(old(store)@, e) is None
                &&& final(store)@ == old(store)@
            },
        },
{
    match e {
        MqttEvent::ConnAck => {
            let mut cmds: Vec<Command> = Vec::new();
            if !store.provisioned() {
                cmds.push(Command::Subscribe { topic: sub_topic(0) });
                proof {
                    assert(cmd_views(cmds@) =~= seq![
                        CommandView::Subscribe { topic: spec_sub_topic(0) },
                    ]);
                }
            } else {
                proof {
                    assert(cmd_views(cmds@) =~= Seq::<CommandView>::empty());
                }
            }
            Result::Ok(cmds)
        },
        MqttEvent::SubAck => {
            let sc = store.sub_count();
            let mut cmds: Vec<Command> = Vec::new();
            if sc < SUB_TOPIC_COUNT {
                let n = sc + 1;
                store.dispatch(Action::Direct(AppAction::SetSubCount(n)));
                if n < SUB_TOPIC_COUNT {
                    cmds.push(Command::Subscribe { topic: sub_topic(n) });
                    proof {
                        assert(cmd_views(cmds@) =~= seq![
                            CommandView::Subscribe { topic: spec_sub_topic(n as int) },
                        ]);
                    }
                } else {
                    cmds.push(
                        Command::Publish {
                            topic: "$aws/certificates/create/json".to_owned(),
                            payload: Vec::new(),
                        },
                    );
                    proof {
                        assert(cmd_views(cmds@) =~= seq![
                            CommandView::Publish {
                                topic: spec_topic_create_cert(),
                                payload: Seq::empty(),
                            },
                        ]);
                    }
                }
            } else {
                proof {
                    assert(cmd_views(cmds@) =~= Seq::<CommandView>::empty());
                }
            }
            Result::Ok(cmds)
        },
        MqttEvent::Publish { topic, payload } => {
            if topic_is(&topic, "$aws/certificates/create/json/accepted") {
                match parse_credential(&payload) {
                    Option::None => Result::Err(CodecError),
                    Option::Some(cred) => {
                        let serial = clone_bytes(store.serial_number());
                        let req = RegistrationRequest {
                            ownership_token: cred.ownership_token,
                            parameters: RegistrationParameters {
                                serial_number: serial,
                                certificate_id: cred.certificate_id,
                            },
                        };
                        let body = build_registration_body(&req);
                        let mut cmds: Vec<Command> = Vec::new();
                        cmds.push(
                            Command::WriteFile {
                                path: "certificate.pem".to_owned(),
                                contents: cred.certificate_pem,
                            },
                        );
                        cmds.push(
                            Command::WriteFile {
                                path: "private_key.pem".to_owned(),
                                contents: cred.private_key,
                            },
                        );
                        cmds.push(
                            Command::Publish {
                                topic:
                                    "$aws/provisioning-templates/iot_provisioning_template/provision/json".to_owned(),
                                payload: body,
                            },
                        );
                        proof {
                            let f = spec_parse_credential(payload@).unwrap();
                            assert(cmd_views(cmds@) =~= seq![
                                CommandView::WriteFile {
                                    path: "certificate.pem"@,
                                    contents: f.certificate_pem,
                                },
                                CommandView::WriteFile {
                                    path: "private_key.pem"@,
                                    contents: f.private_key,
                                },
                                CommandView::Publish {
                                    topic: spec_topic_provision(),
                                    payload: spec_registration_body(
                                        f.ownership_token,
                                        old(store)@.serial_number@,
                                        f.certificate_id,
                                    ),
                                },
                            ]);
                        }
                        Result::Ok(cmds)
                    },
                }
            } else if topic_is(&topic, "$aws/provisioning-templates/iot_provisioning_template/provision/json/accepted") {
                store.dispatch(Action::Direct(AppAction::SetProvisioned(true)));
                Result::Ok(empty_commands())
            } else if topic_is(&topic, "$aws/certificates/create/json/rejected") {
                store.dispatch(
                    Action::Direct(AppAction::SetError(AppError::CertificateCreationError(payload))),
                );
                Result::Ok(empty_commands())
            } else if topic_is(&topic, "$aws/provisioning-templates/iot_provisioning_template/provision/json/rejected") {
                store.dispatch(
                    Action::Direct(AppAction::SetError(AppError::ProvisioningRequestError(payload))),
                );
                Result::Ok(empty_commands())
            } else {
                Result::Ok(empty_commands())
            }
        },
        MqttEvent::Other => Result::Ok(empty_commands()),
    }
}

} // verus!
