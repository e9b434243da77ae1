//! The PDU daemon provider: one actuator per port of every configured PDU.

use crate::error::{ActuatorError, BootstrapError, ProviderConfigError, RegistryError};
use crate::properties::{
    lemma_extend, lemma_insert, pairs_view, Properties, PropertiesView, PROVIDER_NAME,
};
use crate::registry::{Registry, RegistryView};
use crate::text::{decimal, decimal_string, lemma_decimal_injective, str_eq};
use pdudaemon_client::PduDaemon;
use vstd::prelude::*;
use vstd::string::*;

verus! {

/// The provider kind under which PDU ports are registered.
pub const PROVIDER: &'static str = "pdudaemon";

/// Key of the attribute that names the PDU an actuator belongs to.
pub const PDU_KEY: &'static str = "pdudaemon.pdu";

/// Key of the attribute that names the port an actuator switches.
pub const PORT_KEY: &'static str = "pdudaemon.port";

/// The ports of one PDU: a count, or the port labels one by one.
#[derive(Debug)]
pub enum Ports {
    /// Ports `1` to the given count.
    Num(u16),
    /// The listed labels, in this order.
    Ports(Vec<String>),
}

/// One PDU of the provider's parameters.
#[derive(Debug)]
pub struct Pdu {
    pub name: String,
    pub ports: Ports,
}

/// The provider's parameters: where the daemon is, and the PDUs behind it.
#[derive(Debug)]
pub struct PduDaemonParameters {
    pub uri: String,
    pub pdus: Vec<Pdu>,
}

/// The character sequences of a sequence of strings.
pub open spec fn strings_view(v: Seq<String>) -> Seq<Seq<char>> {
    Seq::new(v.len(), |i: int| v[i]@)
}

/// Labels `1` to `count` in decimal notation.
pub open spec fn counted_labels(count: nat) -> Seq<Seq<char>> {
    Seq::new(count, |i: int| decimal((i + 1) as nat))
}

/// No label occurs twice.
pub open spec fn distinct(labels: Seq<Seq<char>>) -> bool {
    forall|i: int, j: int| 0 <= i < j < labels.len() ==> labels[i] != labels[j]
}

impl Ports {
    /// The port labels that these ports stand for, in order.
    pub open spec fn labels_spec(self) -> Seq<Seq<char>> {
        match self {
            Ports::Num(count) => counted_labels(count as nat),
            Ports::Ports(labels) => strings_view(labels@),
        }
    }

    /// Ports are valid when every port is named once.
    pub open spec fn valid(self) -> bool {
        distinct(self.labels_spec())
    }
}

/// A count always names distinct ports.
pub proof fn lemma_counted_labels_distinct(count: nat)
    ensures
        distinct(counted_labels(count)),
{
    let labels = counted_labels(count);
    assert forall|i: int, j: int| 0 <= i < j < labels.len() implies labels[i] != labels[j] by {
        if labels[i] == labels[j] {
            lemma_decimal_injective((i + 1) as nat, (j + 1) as nat);
        }
    }
}

/// A count and the list of the labels `1` to that count stand for the same
/// ports in the same order.
pub proof fn lemma_count_and_list_agree(count: u16, labels: Vec<String>)
    requires
        strings_view(labels@) == counted_labels(count as nat),
    ensures
        Ports::Num(count).labels_spec() == Ports::Ports(labels).labels_spec(),
        Ports::Num(count).labels_spec().len() == count,
        Ports::Num(count).valid(),
        Ports::Ports(labels).valid(),
{
    lemma_counted_labels_distinct(count as nat);
}

impl Ports {
    /// The port labels, in order: `1` to the count, or the list as given.
    pub fn labels(&self) -> (r: Vec<String>)
        ensures
            strings_view(r@) == self.labels_spec(),
    {
        let mut out: Vec<String> = Vec::new();
        match self {
            Ports::Num(count) => {
                let count: u16 = *count;
                let mut i: u16 = 0;
                while i < count
                    invariant
                        i <= count,
                        out@.len() == i,
                        strings_view(out@) == counted_labels(i as nat),
                    decreases count - i,
                {
                    let ghost before = out@;
                    i = i + 1;
                    out.push(decimal_string(i));
                    assert forall|k: int| 0 <= k < i implies strings_view(out@)[k]
                        == counted_labels(i as nat)[k] by {
                        if k < i - 1 {
                            assert(strings_view(before)[k] == counted_labels((i - 1) as nat)[k]);
                        }
                    }
                    assert(strings_view(out@) =~= counted_labels(i as nat));
                }
            },
            Ports::Ports(labels) => {
                let mut i: usize = 0;
                while i < labels.len()
                    invariant
                        i <= labels.len(),
                        out@.len() == i,
                        strings_view(out@) == strings_view(labels@).take(i as int),
                    decreases labels.len() - i,
                {
                    let ghost before = out@;
                    out.push(labels[i].clone());
                    i = i + 1;
                    assert forall|k: int| 0 <= k < i implies strings_view(out@)[k] == strings_view(
                        labels@,
                    ).take(i as int)[k] by {
                        if k < i - 1 {
                            assert(strings_view(before)[k] == strings_view(labels@).take(i - 1)[k]);
                        }
                    }
                    assert(strings_view(out@) =~= strings_view(labels@).take(i as int));
                }
                assert(strings_view(labels@).take(i as int) =~= strings_view(labels@));
            },
        }
        out
    }

    /// The port labels, or `InvalidPortSpec` when a label occurs twice.
    pub fn canonicalize(&self) -> (r: Result<Vec<String>, ProviderConfigError>)
        ensures
            match r {
                Ok(labels) => self.valid() && strings_view(labels@) == self.labels_spec(),
                Err(e) => !self.valid() && e == ProviderConfigError::InvalidPortSpec,
            },
    {
        let labels = self.labels();
        if all_distinct(&labels) {
            Ok(labels)
        } else {
            Err(ProviderConfigError::InvalidPortSpec)
        }
    }
}

/// Whether no string of `labels` occurs twice.
pub fn all_distinct(labels: &Vec<String>) -> (r: bool)
    ensures
        r == distinct(strings_view(labels@)),
{
    let ghost view = strings_view(labels@);
    let mut j: usize = 0;
    while j < labels.len()
        invariant
            j <= labels.len(),
            view == strings_view(labels@),
            forall|a: int, b: int| 0 <= a < b < j ==> view[a] != view[b],
        decreases labels.len() - j,
    {
        let mut i: usize = 0;
        while i < j
            invariant
                i <= j < labels.len(),
                view == strings_view(labels@),
                forall|a: int| 0 <= a < i ==> view[a] != view[j as int],
            decreases j - i,
        {
            if str_eq(labels[i].as_str(), labels[j].as_str()) {
                assert(view[i as int] == view[j as int]);
                return false;
            }
            i = i + 1;
        }
        j = j + 1;
    }
    true
}

/// The name under which the port `label` of the PDU `pdu` is registered by
/// the provider `provider`: `{provider}.{pdu}.port-{label}`.
pub open spec fn actuator_name(provider: Seq<char>, pdu: Seq<char>, label: Seq<char>) -> Seq<char> {
    provider + seq!['.'] + pdu + seq!['.', 'p', 'o', 'r', 't', '-'] + label
}

/// The attributes that say which provider a resource came from.
pub open spec fn provider_pairs(provider: Seq<char>) -> Seq<(Seq<char>, Seq<char>)> {
    seq![(PROVIDER_NAME@, provider), (crate::properties::PROVIDER@, PROVIDER@)]
}

/// The properties that `setup_actuator` builds: the name, then the
/// provider's attributes, then the PDU and the port.
pub open spec fn setup_properties(
    provider: Seq<char>,
    provider_properties: Seq<(Seq<char>, Seq<char>)>,
    pdu: Seq<char>,
    label: Seq<char>,
) -> PropertiesView {
    PropertiesView::named(actuator_name(provider, pdu, label)).extend(provider_properties).insert(
        PDU_KEY@,
        pdu,
    ).insert(PORT_KEY@, label)
}

/// The properties of the actuator for one port of one PDU.
pub open spec fn actuator_properties(
    provider: Seq<char>,
    pdu: Seq<char>,
    label: Seq<char>,
) -> PropertiesView {
    setup_properties(provider, provider_pairs(provider), pdu, label)
}

/// The four attribute keys of an actuator are four different keys.
pub proof fn lemma_keys_distinct()
    ensures
        PROVIDER_NAME@ != crate::properties::PROVIDER@,
        PROVIDER_NAME@ != PDU_KEY@,
        PROVIDER_NAME@ != PORT_KEY@,
        crate::properties::PROVIDER@ != PDU_KEY@,
        crate::properties::PROVIDER@ != PORT_KEY@,
        PDU_KEY@ != PORT_KEY@,
{
    reveal_strlit("boardswarm.provider.name");
    reveal_strlit("boardswarm.provider");
    reveal_strlit("pdudaemon.pdu");
    reveal_strlit("pdudaemon.port");
    assert(PROVIDER_NAME@.len() == 24);
    assert(crate::properties::PROVIDER@.len() == 19);
    assert(PDU_KEY@.len() == 13);
    assert(PORT_KEY@.len() == 14);
}

/// Written out, the properties of an actuator are its name and four
/// attributes in a fixed order: provider name, provider kind, PDU, port.
pub proof fn lemma_actuator_properties(provider: Seq<char>, pdu: Seq<char>, label: Seq<char>)
    ensures
        actuator_properties(provider, pdu, label).wf(),
        actuator_properties(provider, pdu, label) == (PropertiesView {
            name: actuator_name(provider, pdu, label),
            entries: seq![
                (PROVIDER_NAME@, provider),
                (crate::properties::PROVIDER@, PROVIDER@),
                (PDU_KEY@, pdu),
                (PORT_KEY@, label),
            ],
        }),
{
    lemma_keys_distinct();
    let pairs = provider_pairs(provider);
    let p0 = PropertiesView::named(actuator_name(provider, pdu, label));
    assert(pairs.drop_last() =~= seq![(PROVIDER_NAME@, provider)]);
    assert(pairs.drop_last().drop_last() =~= Seq::empty());
    assert(p0.extend(pairs.drop_last().drop_last()) == p0);
    let p1 = p0.insert(PROVIDER_NAME@, provider);
    assert(p0.extend(pairs.drop_last()) == p1);
    let p2 = p1.insert(crate::properties::PROVIDER@, PROVIDER@);
    assert(p0.extend(pairs) == p2);
    let p3 = p2.insert(PDU_KEY@, pdu);
    let p4 = p3.insert(PORT_KEY@, label);
    assert(!p0.contains_key(PROVIDER_NAME@));
    assert(p1.entries =~= seq![(PROVIDER_NAME@, provider)]);
    assert(!p1.contains_key(crate::properties::PROVIDER@)) by {
        if p1.contains_key(crate::properties::PROVIDER@) {
            let i = p1.position(crate::properties::PROVIDER@);
            assert(p1.key_at(crate::properties::PROVIDER@, i));
        }
    }
    assert(p2.entries =~= seq![
        (PROVIDER_NAME@, provider),
        (crate::properties::PROVIDER@, PROVIDER@),
    ]);
    assert(!p2.contains_key(PDU_KEY@)) by {
        if p2.contains_key(PDU_KEY@) {
            let i = p2.position(PDU_KEY@);
            assert(p2.key_at(PDU_KEY@, i));
        }
    }
    assert(p3.entries =~= seq![
        (PROVIDER_NAME@, provider),
        (crate::properties::PROVIDER@, PROVIDER@),
        (PDU_KEY@, pdu),
    ]);
    assert(!p3.contains_key(PORT_KEY@)) by {
        if p3.contains_key(PORT_KEY@) {
            let i = p3.position(PORT_KEY@);
            assert(p3.key_at(PORT_KEY@, i));
        }
    }
    assert(p4.entries =~= seq![
        (PROVIDER_NAME@, provider),
        (crate::properties::PROVIDER@, PROVIDER@),
        (PDU_KEY@, pdu),
        (PORT_KEY@, label),
    ]);
    assert(p0.wf());
    lemma_extend(p0, pairs);
    lemma_insert(p2, PDU_KEY@, pdu);
    lemma_insert(p3, PORT_KEY@, label);
}

/// `pdudaemon_client::PduDaemon`, the daemon client, carried as an opaque
/// handle.
#[verifier::external_type_specification]
#[verifier::external_body]
pub struct ExPduDaemon(PduDaemon);

/// `PduDaemon::clone` of the daemon client: the clone is a handle to the same
/// daemon, sharing the connection pool of the handle it was made from.
#[verifier::external_body]
fn share_daemon(daemon: &PduDaemon) -> (r: PduDaemon)
    ensures
        r == *daemon,
{
    daemon.clone()
}

/// Mathematical model of a [`PduDaemonActuator`].
pub struct ActuatorView {
    pub daemon: PduDaemon,
    pub hostname: Seq<char>,
    pub port: Seq<char>,
}

/// The actuator that switches one port of one PDU through the daemon.
#[derive(Debug)]
pub struct PduDaemonActuator {
    daemon: PduDaemon,
    hostname: String,
    port: String,
}

impl View for PduDaemonActuator {
    type V = ActuatorView;

    closed spec fn view(&self) -> ActuatorView {
        ActuatorView { daemon: self.daemon, hostname: self.hostname@, port: self.port@ }
    }
}

/// What the daemon is asked to do with a port.
#[derive(Clone, Copy, Debug, PartialEq, Eq, Structural)]
pub enum PduCommand {
    On,
    Off,
}

/// The decoded request document of `set_mode`.
#[derive(Debug)]
pub struct ModeParameters {
    pub mode: String,
}

/// The command that a mode name stands for: `on`, `off`, and nothing else.
pub open spec fn command_for(mode: Seq<char>) -> Result<PduCommand, ActuatorError> {
    if mode == seq!['o', 'n'] {
        Ok(PduCommand::On)
    } else if mode == seq!['o', 'f', 'f'] {
        Ok(PduCommand::Off)
    } else {
        Err(ActuatorError::UnsupportedMode)
    }
}

/// What `set_mode` decides for a request: a document that could not be
/// decoded is invalid, a decoded one goes by its mode name.
pub open spec fn decision(parameters: Option<ModeParameters>) -> Result<PduCommand, ActuatorError> {
    match parameters {
        None => Err(ActuatorError::InvalidParameters),
        Some(p) => command_for(p.mode@),
    }
}

impl PduCommand {
    /// Whether the port is powered once the daemon has carried the command
    /// out, given whether it was powered before.
    pub open spec fn powered_after(self, powered_before: bool) -> bool {
        self == PduCommand::On
    }
}

/// Asking for the same mode twice is decided the same way both times, and
/// carrying the command out a second time leaves the port as the first did.
pub proof fn lemma_set_mode_idempotent(parameters: Option<ModeParameters>, powered_before: bool)
    requires
        decision(parameters) is Ok,
    ensures
        ({
            let command = decision(parameters)->Ok_0;
            command.powered_after(command.powered_after(powered_before)) == command.powered_after(
                powered_before,
            )
        }),
{
}

impl PduDaemonActuator {
    /// The actuator for `port` of the PDU `hostname`, reached through `daemon`.
    pub fn new(daemon: PduDaemon, hostname: String, port: String) -> (a: PduDaemonActuator)
        ensures
            a@ == (ActuatorView { daemon, hostname: hostname@, port: port@ }),
    {
        PduDaemonActuator { daemon, hostname, port }
    }

    /// The daemon client through which commands are sent.
    pub fn daemon(&self) -> (d: &PduDaemon)
        ensures
            *d == self@.daemon,
    {
        &self.daemon
    }

    /// The PDU that the port belongs to.
    pub fn hostname(&self) -> (h: &str)
        ensures
            h@ == self@.hostname,
    {
        self.hostname.as_str()
    }

    /// The label of the port.
    pub fn port(&self) -> (p: &str)
        ensures
            p@ == self@.port,
    {
        self.port.as_str()
    }

    /// Decides what a mode request asks of the daemon. `None` stands for a
    /// request document that could not be decoded. The command is for this
    /// actuator's port; sending it is left to the caller.
    pub fn set_mode(&self, parameters: Option<ModeParameters>) -> (r: Result<
        PduCommand,
        ActuatorError,
    >)
        ensures
            r == decision(parameters),
    {
        match parameters {
            None => Err(ActuatorError::InvalidParameters),
            Some(p) => {
                proof {
                    reveal_strlit("on");
                    reveal_strlit("off");
                    assert("on"@ =~= seq!['o', 'n']);
                    assert("off"@ =~= seq!['o', 'f', 'f']);
                }
                if str_eq(p.mode.as_str(), "on") {
                    Ok(PduCommand::On)
                } else if str_eq(p.mode.as_str(), "off") {
                    Ok(PduCommand::Off)
                } else {
                    Err(ActuatorError::UnsupportedMode)
                }
            },
        }
    }

    /// What `set_mode` answers once the daemon has replied: success if the
    /// command was delivered, else `BackendUnavailable`.
    pub fn completed(delivered: bool) -> (r: Result<(), ActuatorError>)
        ensures
            r == if delivered {
                Ok::<(), ActuatorError>(())
            } else {
                Err::<(), ActuatorError>(ActuatorError::BackendUnavailable)
            },
    {
        if delivered {
            Ok(())
        } else {
            Err(ActuatorError::BackendUnavailable)
        }
    }
}

/// Builds `{provider}.{pdu}.port-{label}`.
fn name_string(provider: &str, pdu: &str, label: &str) -> (s: String)
    ensures
        s@ == actuator_name(provider@, pdu@, label@),
{
    proof {
        reveal_strlit(".");
        reveal_strlit(".port-");
        assert("."@ =~= seq!['.']);
        assert(".port-"@ =~= seq!['.', 'p', 'o', 'r', 't', '-']);
    }
    let mut s = String::from_str(provider);
    s.append(".");
    s.append(pdu);
    s.append(".port-");
    s.append(label);
    s
}

/// Registers the actuator for one port: builds its properties from the
/// name scheme, the provider's attributes, the PDU and the port, and hands
/// them to the registry with a new actuator that shares `daemon`.
pub fn setup_actuator(
    registry: &mut Registry<PduDaemonActuator>,
    daemon: &PduDaemon,
    name: &str,
    provider_properties: &[(&str, &str)],
    pdu_name: &str,
    port: &str,
) -> (r: Result<u64, RegistryError>)
    requires
        old(registry)@.wf(),
    ensures
        final(registry)@.wf(),
        ({
            let properties = setup_properties(
                name@,
                pairs_view(provider_properties@),
                pdu_name@,
                port@,
            );
            &&& r == old(registry)@.outcome(properties)
            &&& r is Err ==> final(registry)@ == old(registry)@
            &&& r is Ok ==> {
                &&& final(registry)@.entries.len() == old(registry)@.entries.len() + 1
                &&& final(registry)@.entries.drop_last() == old(registry)@.entries
                &&& final(registry)@.entries.last().0 == properties
                &&& final(registry)@.entries.last().1@ == (ActuatorView {
                    daemon: *daemon,
                    hostname: pdu_name@,
                    port: port@,
                })
            }
        }),
{
    let mut properties = Properties::new(name_string(name, pdu_name, port));
    properties.extend(provider_properties);
    properties.insert(PDU_KEY, pdu_name);
    properties.insert(PORT_KEY, port);
    let actuator = PduDaemonActuator::new(
        share_daemon(daemon),
        String::from_str(pdu_name),
        String::from_str(port),
    );
    let r = registry.register(properties, actuator);
    proof {
        if r is Ok {
            assert(registry@.entries.drop_last() =~= old(registry)@.entries);
        }
    }
    r
}

/// The port field of a PDU as it stands in the configuration document,
/// before anything is read into it.
#[derive(Debug)]
pub enum PortField {
    /// A whole number that is not negative.
    Number(u64),
    /// A list. An item that is a string is `Some` of its text, any other
    /// item is `None`.
    List(Vec<Option<String>>),
    /// Anything else.
    Other,
}

/// One PDU as it stands in the configuration document.
#[derive(Debug)]
pub struct PduDocument {
    pub name: String,
    pub ports: PortField,
}

/// The configuration document as it was read, with the port fields still
/// to be told apart.
#[derive(Debug)]
pub struct PduDaemonDocument {
    pub uri: String,
    pub pdus: Vec<PduDocument>,
}

impl PortField {
    /// The labels that the field stands for, if it has one of the two
    /// accepted shapes: a count that fits sixteen bits, or a list of strings.
    pub open spec fn labels_spec(self) -> Option<Seq<Seq<char>>> {
        match self {
            PortField::Number(count) => if count <= u16::MAX {
                Some(counted_labels(count as nat))
            } else {
                None
            },
            PortField::List(items) => if forall|i: int|
                0 <= i < items@.len() ==> (#[trigger] items@[i]) is Some {
                Some(Seq::new(items@.len(), |i: int| items@[i]->Some_0@))
            } else {
                None
            },
            PortField::Other => None,
        }
    }

    /// Whether `ports` is what the field reads as: a number gives a count,
    /// a list of strings gives the list.
    pub open spec fn classifies_as(self, ports: Ports) -> bool {
        match self {
            PortField::Number(count) => count <= u16::MAX && ports == Ports::Num(count as u16),
            PortField::List(_) => ports is Ports && self.labels_spec() == Some(ports.labels_spec()),
            PortField::Other => false,
        }
    }

    /// Tells the two shapes of a port field apart: a number is a count, a
    /// list of strings is a list of labels. Anything else, a count beyond
    /// sixteen bits included, is refused with `InvalidPortSpec`.
    pub fn classify(&self) -> (r: Result<Ports, ProviderConfigError>)
        ensures
            match r {
                Ok(ports) => self.classifies_as(ports) && self.labels_spec() == Some(
                    ports.labels_spec(),
                ),
                Err(e) => self.labels_spec() is None && e == ProviderConfigError::InvalidPortSpec,
            },
    {
        match self {
            PortField::Number(count) => {
                if *count <= 65535 {
                    Ok(Ports::Num(*count as u16))
                } else {
                    Err(ProviderConfigError::InvalidPortSpec)
                }
            },
            PortField::List(items) => {
                let mut labels: Vec<String> = Vec::new();
                let mut i: usize = 0;
                while i < items.len()
                    invariant
                        i <= items.len(),
                        labels@.len() == i,
                        *self == PortField::List(*items),
                        forall|k: int| 0 <= k < i ==> (#[trigger] items@[k]) is Some,
                        forall|k: int| 0 <= k < i ==> (#[trigger] labels@[k])@ == items@[k]->Some_0@,
                    decreases items.len() - i,
                {
                    match &items[i] {
                        Some(label) => {
                            labels.push(label.clone());
                        },
                        None => {
                            assert(items@[i as int] is None);
                            return Err(ProviderConfigError::InvalidPortSpec);
                        },
                    }
                    i = i + 1;
                }
                let ports = Ports::Ports(labels);
                assert(ports.labels_spec() =~= self.labels_spec()->Some_0);
                Ok(ports)
            },
            PortField::Other => Err(ProviderConfigError::InvalidPortSpec),
        }
    }
}

/// A count and the list of the strings `1` to that count are two shapes of
/// the same ports: both stand for the same labels in the same order.
pub proof fn lemma_both_shapes_agree(count: u64, items: Vec<Option<String>>)
    requires
        count <= u16::MAX,
        items@.len() == count,
        forall|i: int|
            0 <= i < count ==> (#[trigger] items@[i]) is Some && items@[i]->Some_0@ == decimal(
                (i + 1) as nat,
            ),
    ensures
        PortField::Number(count).labels_spec() == Some(counted_labels(count as nat)),
        PortField::List(items).labels_spec() == PortField::Number(count).labels_spec(),
        distinct(counted_labels(count as nat)),
{
    lemma_counted_labels_distinct(count as nat);
    assert(PortField::List(items).labels_spec()->Some_0 =~= counted_labels(count as nat));
}

/// Every port field of the document has one of the two accepted shapes.
pub open spec fn shapes_valid(pdus: Seq<PduDocument>) -> bool {
    forall|i: int| 0 <= i < pdus.len() ==> (#[trigger] pdus[i]).ports.labels_spec() is Some
}

/// `parameters` is `document` with every port field read into its shape.
pub open spec fn decoded(document: PduDaemonDocument, parameters: PduDaemonParameters) -> bool {
    &&& parameters.uri@ == document.uri@
    &&& parameters.pdus@.len() == document.pdus@.len()
    &&& forall|i: int|
        0 <= i < document.pdus@.len() ==> {
            &&& (#[trigger] parameters.pdus@[i]).name@ == document.pdus@[i].name@
            &&& document.pdus@[i].ports.classifies_as(parameters.pdus@[i].ports)
        }
}

/// Reads a configuration document into the provider's parameters. `None`
/// stands for a document that could not be read at all and is malformed; a
/// port field that is neither a count nor a list of strings is refused
/// with `InvalidPortSpec`.
pub fn decode(document: Option<PduDaemonDocument>) -> (r: Result<
    PduDaemonParameters,
    ProviderConfigError,
>)
    ensures
        match r {
            Ok(parameters) => {
                &&& document is Some
                &&& shapes_valid(document->Some_0.pdus@)
                &&& decoded(document->Some_0, parameters)
            },
            Err(e) => match document {
                None => e == ProviderConfigError::MalformedDocument,
                Some(d) => !shapes_valid(d.pdus@) && e == ProviderConfigError::InvalidPortSpec,
            },
        },
{
    let read = match document {
        Some(d) => d,
        None => {
            return Err(ProviderConfigError::MalformedDocument);
        },
    };
    let mut pdus: Vec<Pdu> = Vec::new();
    let mut i: usize = 0;
    while i < read.pdus.len()
        invariant
            i <= read.pdus.len(),
            pdus@.len() == i,
            document == Some(read),
            forall|k: int|
                0 <= k < i ==> {
                    &&& (#[trigger] pdus@[k]).name@ == read.pdus@[k].name@
                    &&& read.pdus@[k].ports.classifies_as(pdus@[k].ports)
                },
            forall|k: int| 0 <= k < i ==> (#[trigger] read.pdus@[k]).ports.labels_spec() is Some,
        decreases read.pdus.len() - i,
    {
        let ports = match read.pdus[i].ports.classify() {
            Ok(ports) => ports,
            Err(e) => {
                assert(read.pdus@[i as int].ports.labels_spec() is None);
                return Err(e);
            },
        };
        pdus.push(Pdu { name: read.pdus[i].name.clone(), ports });
        i = i + 1;
    }
    Ok(PduDaemonParameters { uri: read.uri.clone(), pdus })
}

/// The character sequences of a sequence of string pairs.
pub open spec fn string_pairs_view(v: Seq<(String, String)>) -> Seq<(Seq<char>, Seq<char>)> {
    Seq::new(v.len(), |i: int| (v[i].0@, v[i].1@))
}

/// One PDU expanded into a pair of PDU name and label for each of its ports.
pub open spec fn pdu_pairs(pdu: Seq<char>, labels: Seq<Seq<char>>) -> Seq<(Seq<char>, Seq<char>)> {
    Seq::new(labels.len(), |i: int| (pdu, labels[i]))
}

/// The configured PDUs expanded into one pair of PDU name and label for
/// each port: PDUs in document order, the ports of each in label order.
pub open spec fn expansion(pdus: Seq<Pdu>) -> Seq<(Seq<char>, Seq<char>)>
    decreases pdus.len(),
{
    if pdus.len() == 0 {
        Seq::empty()
    } else {
        expansion(pdus.drop_last()) + pdu_pairs(
            pdus.last().name@,
            pdus.last().ports.labels_spec(),
        )
    }
}

/// Every PDU names each of its ports once.
pub open spec fn ports_valid(pdus: Seq<Pdu>) -> bool {
    forall|i: int| 0 <= i < pdus.len() ==> (#[trigger] pdus[i]).ports.valid()
}

/// Expands the configured PDUs into one pair of PDU name and label for each
/// port, or fails with `InvalidPortSpec` when a PDU names a port twice.
pub fn expand(pdus: &Vec<Pdu>) -> (r: Result<Vec<(String, String)>, ProviderConfigError>)
    ensures
        match r {
            Ok(pairs) => ports_valid(pdus@) && string_pairs_view(pairs@) == expansion(pdus@),
            Err(e) => !ports_valid(pdus@) && e == ProviderConfigError::InvalidPortSpec,
        },
{
    let mut out: Vec<(String, String)> = Vec::new();
    let mut p: usize = 0;
    assert(pdus@.take(0) =~= Seq::empty());
    while p < pdus.len()
        invariant
            p <= pdus.len(),
            ports_valid(pdus@.take(p as int)),
            string_pairs_view(out@) == expansion(pdus@.take(p as int)),
        decreases pdus.len() - p,
    {
        let pdu = &pdus[p];
        let labels = match pdu.ports.canonicalize() {
            Ok(labels) => labels,
            Err(e) => {
                return Err(e);
            },
        };
        let ghost done = string_pairs_view(out@);
        let ghost wanted = pdu_pairs(pdu.name@, strings_view(labels@));
        let mut l: usize = 0;
        while l < labels.len()
            invariant
                l <= labels.len(),
                wanted == pdu_pairs(pdu.name@, strings_view(labels@)),
                string_pairs_view(out@) == done + wanted.take(l as int),
            decreases labels.len() - l,
        {
            let ghost before = out@;
            out.push((pdu.name.clone(), labels[l].clone()));
            l = l + 1;
            assert(string_pairs_view(out@) =~= string_pairs_view(before).push(
                (pdu.name@, labels[l - 1]@),
            ));
            assert(done + wanted.take(l as int) =~= (done + wanted.take(l - 1)).push(
                wanted[l - 1],
            ));
        }
        proof {
            assert(wanted.take(l as int) =~= wanted);
            assert(pdus@.take(p + 1).drop_last() =~= pdus@.take(p as int));
            assert(pdus@.take(p + 1).last() == pdus@[p as int]);
            assert forall|i: int| 0 <= i < p + 1 implies (#[trigger] pdus@.take(
                p + 1,
            )[i]).ports.valid() by {
                if i < p {
                    assert(pdus@.take(p as int)[i].ports.valid());
                }
            }
        }
        p = p + 1;
    }
    assert(pdus@.take(p as int) =~= pdus@);
    Ok(out)
}

/// The name under which the `k`-th pair of an expansion is registered.
pub open spec fn pair_name(provider: Seq<char>, pairs: Seq<(Seq<char>, Seq<char>)>, k: int) -> Seq<
    char,
> {
    actuator_name(provider, pairs[k].0, pairs[k].1)
}

/// The registry can take every actuator of the expansion: no name is
/// registered yet, and no two actuators share a name.
pub open spec fn admits(
    registry: RegistryView<PduDaemonActuator>,
    provider: Seq<char>,
    pairs: Seq<(Seq<char>, Seq<char>)>,
) -> bool {
    &&& forall|k: int|
        0 <= k < pairs.len() ==> !registry.has_name(#[trigger] pair_name(provider, pairs, k))
    &&& forall|a: int, b: int|
        #![trigger pair_name(provider, pairs, a), pair_name(provider, pairs, b)]
        0 <= a < b < pairs.len() ==> pair_name(provider, pairs, a) != pair_name(provider, pairs, b)
}

/// The `k`-th registration that was added to `before` to give `after`.
pub open spec fn added(
    before: RegistryView<PduDaemonActuator>,
    after: RegistryView<PduDaemonActuator>,
    k: int,
) -> (PropertiesView, PduDaemonActuator) {
    after.entries[before.entries.len() + k]
}

/// `after` is `before` followed by one actuator for each pair of the
/// expansion, in order, each sharing `daemon`.
pub open spec fn registered(
    before: RegistryView<PduDaemonActuator>,
    after: RegistryView<PduDaemonActuator>,
    provider: Seq<char>,
    pairs: Seq<(Seq<char>, Seq<char>)>,
    daemon: PduDaemon,
) -> bool {
    &&& after.entries.len() == before.entries.len() + pairs.len()
    &&& after.entries.take(before.entries.len() as int) == before.entries
    &&& forall|k: int|
        0 <= k < pairs.len() ==> {
            &&& (#[trigger] added(before, after, k)).0 == actuator_properties(
                provider,
                pairs[k].0,
                pairs[k].1,
            )
            &&& added(before, after, k).1@ == (ActuatorView {
                daemon,
                hostname: pairs[k].0,
                port: pairs[k].1,
            })
        }
}

/// Every actuator that was added is registered under the name of its pair.
proof fn lemma_added_names(
    before: RegistryView<PduDaemonActuator>,
    after: RegistryView<PduDaemonActuator>,
    provider: Seq<char>,
    pairs: Seq<(Seq<char>, Seq<char>)>,
    daemon: PduDaemon,
    k: int,
)
    requires
        registered(before, after, provider, pairs, daemon),
        0 <= k < pairs.len(),
    ensures
        after.name_at(pair_name(provider, pairs, k), before.entries.len() + k),
{
    lemma_actuator_properties(provider, pairs[k].0, pairs[k].1);
    assert(added(before, after, k).0.name == pair_name(provider, pairs, k));
}

/// A name that is registered in `before` is registered in everything that
/// was made from it by adding.
proof fn lemma_names_stay(
    before: RegistryView<PduDaemonActuator>,
    after: RegistryView<PduDaemonActuator>,
    name: Seq<char>,
)
    requires
        before.entries.len() <= after.entries.len(),
        after.entries.take(before.entries.len() as int) == before.entries,
        before.has_name(name),
    ensures
        after.has_name(name),
{
    let i = choose|i: int| before.name_at(name, i);
    assert(before.name_at(name, i));
    assert(after.entries.take(before.entries.len() as int)[i] == after.entries[i]);
    assert(after.name_at(name, i));
}

/// Registering the actuator of pair `m`, whose name was free, after those
/// of the pairs before it leaves the actuators of the first `m + 1` pairs
/// registered, and shows that the registry could take them all.
proof fn lemma_registered_one_more(
    before: RegistryView<PduDaemonActuator>,
    current: RegistryView<PduDaemonActuator>,
    after: RegistryView<PduDaemonActuator>,
    provider: Seq<char>,
    pairs: Seq<(Seq<char>, Seq<char>)>,
    m: int,
    daemon: PduDaemon,
)
    requires
        0 <= m < pairs.len(),
        registered(before, current, provider, pairs.take(m), daemon),
        admits(before, provider, pairs.take(m)),
        !current.has_name(pair_name(provider, pairs, m)),
        after.entries.len() == current.entries.len() + 1,
        after.entries.drop_last() == current.entries,
        after.entries.last().0 == actuator_properties(provider, pairs[m].0, pairs[m].1),
        after.entries.last().1@ == (ActuatorView {
            daemon,
            hostname: pairs[m].0,
            port: pairs[m].1,
        }),
    ensures
        registered(before, after, provider, pairs.take(m + 1), daemon),
        admits(before, provider, pairs.take(m + 1)),
{
    let done = pairs.take(m);
    let next = pairs.take(m + 1);
    let start = before.entries.len() as int;
    let wanted = pair_name(provider, pairs, m);
    assert(after.entries.take(start) =~= current.entries.take(start));
    assert forall|k: int| 0 <= k < next.len() implies {
        &&& (#[trigger] added(before, after, k)).0 == actuator_properties(
            provider,
            next[k].0,
            next[k].1,
        )
        &&& added(before, after, k).1@ == (ActuatorView {
            daemon,
            hostname: next[k].0,
            port: next[k].1,
        })
    } by {
        if k < m {
            assert(added(before, after, k) == added(before, current, k));
            assert(done[k] == next[k]);
        }
    }
    assert forall|k: int| 0 <= k < next.len() implies !before.has_name(
        #[trigger] pair_name(provider, next, k),
    ) by {
        if k < m {
            assert(pair_name(provider, next, k) == pair_name(provider, done, k));
        } else if before.has_name(wanted) {
            lemma_names_stay(before, current, wanted);
        }
    }
    assert forall|a: int, b: int| 0 <= a < b < next.len() implies #[trigger] pair_name(
        provider,
        next,
        a,
    ) != #[trigger] pair_name(provider, next, b) by {
        assert(pair_name(provider, next, a) == pair_name(provider, done, a));
        if b < m {
            assert(pair_name(provider, next, b) == pair_name(provider, done, b));
        } else {
            lemma_added_names(before, current, provider, done, daemon, a);
        }
    }
}

/// When the name of pair `m` is taken after the actuators of the pairs
/// before it were registered, the registry could not take them all: the
/// name was registered from the start, or an earlier pair has the same name.
proof fn lemma_taken_name_refutes(
    before: RegistryView<PduDaemonActuator>,
    current: RegistryView<PduDaemonActuator>,
    provider: Seq<char>,
    pairs: Seq<(Seq<char>, Seq<char>)>,
    m: int,
    daemon: PduDaemon,
)
    requires
        0 <= m < pairs.len(),
        registered(before, current, provider, pairs.take(m), daemon),
        current.has_name(pair_name(provider, pairs, m)),
    ensures
        !admits(before, provider, pairs),
{
    let wanted = pair_name(provider, pairs, m);
    let start = before.entries.len() as int;
    let i = choose|i: int| current.name_at(wanted, i);
    assert(current.name_at(wanted, i));
    if i < start {
        assert(current.entries.take(start)[i] == current.entries[i]);
        assert(before.name_at(wanted, i));
        assert(before.has_name(pair_name(provider, pairs, m)));
    } else {
        let a = i - start;
        lemma_added_names(before, current, provider, pairs.take(m), daemon, a);
        assert(pairs.take(m)[a] == pairs[a]);
        assert(pair_name(provider, pairs, a) == pair_name(provider, pairs, m));
    }
}

/// Why `start_provider` registers nothing, if it does not: no client could
/// be made for the daemon's address, a PDU names a port twice, or the
/// registry cannot take every actuator.
pub open spec fn refusal(
    parameters: PduDaemonParameters,
    connected: bool,
    registry: RegistryView<PduDaemonActuator>,
    provider: Seq<char>,
) -> Option<BootstrapError> {
    if !connected {
        Some(BootstrapError::Config(ProviderConfigError::MalformedDocument))
    } else if !ports_valid(parameters.pdus@) {
        Some(BootstrapError::Config(ProviderConfigError::InvalidPortSpec))
    } else if !admits(registry, provider, expansion(parameters.pdus@)) {
        Some(BootstrapError::Registry(RegistryError::Conflict))
    } else {
        None
    }
}

/// Registers one actuator for each port of each PDU of the configuration,
/// all sharing the one daemon client, and returns their ids in order.
///
/// `daemon` is `None` when no client could be made for the address that
/// the configuration gives. The bootstrap registers everything or nothing:
/// on any error the registry is as it was before.
pub fn start_provider(
    name: String,
    parameters: PduDaemonParameters,
    daemon: Option<PduDaemon>,
    registry: &mut Registry<PduDaemonActuator>,
) -> (r: Result<Vec<u64>, BootstrapError>)
    requires
        old(registry)@.wf(),
    ensures
        final(registry)@.wf(),
        match r {
            Ok(ids) => {
                &&& refusal(parameters, daemon is Some, old(registry)@, name@) is None
                &&& registered(
                    old(registry)@,
                    final(registry)@,
                    name@,
                    expansion(parameters.pdus@),
                    daemon->Some_0,
                )
                &&& ids@ == Seq::new(
                    expansion(parameters.pdus@).len(),
                    |k: int| (old(registry)@.entries.len() + k) as u64,
                )
            },
            Err(e) => {
                &&& refusal(parameters, daemon is Some, old(registry)@, name@) == Some(e)
                &&& final(registry)@ == old(registry)@
            },
        },
{
    let client = match daemon {
        Some(d) => d,
        None => {
            return Err(BootstrapError::Config(ProviderConfigError::MalformedDocument));
        },
    };
    let pairs = match expand(&parameters.pdus) {
        Ok(pairs) => pairs,
        Err(e) => {
            return Err(BootstrapError::Config(e));
        },
    };
    let provider = name.as_str();
    let provider_properties = [(PROVIDER_NAME, provider), (crate::properties::PROVIDER, PROVIDER)];
    let provider_properties = provider_properties.as_slice();
    assert(pairs_view(provider_properties@) =~= provider_pairs(provider@));
    let ghost before = registry@;
    let ghost all = string_pairs_view(pairs@);
    let start = registry.len();
    let mut ids: Vec<u64> = Vec::new();
    let mut m: usize = 0;
    assert(registry@.entries.take(start as int) =~= before.entries);
    while m < pairs.len()
        invariant
            m <= pairs.len(),
            registry@.wf(),
            before.wf(),
            start == before.entries.len(),
            before == old(registry)@,
            provider@ == name@,
            daemon == Some(client),
            ports_valid(parameters.pdus@),
            all == expansion(parameters.pdus@),
            all == string_pairs_view(pairs@),
            pairs_view(provider_properties@) == provider_pairs(provider@),
            registered(before, registry@, provider@, all.take(m as int), client),
            admits(before, provider@, all.take(m as int)),
            ids@ == Seq::new(m as nat, |k: int| (start + k) as u64),
        decreases pairs.len() - m,
    {
        let ghost current = registry@;
        proof {
            assert(all[m as int] == (pairs[m as int].0@, pairs[m as int].1@));
            lemma_actuator_properties(provider@, all[m as int].0, all[m as int].1);
        }
        let outcome = setup_actuator(
            registry,
            &client,
            provider,
            provider_properties,
            pairs[m].0.as_str(),
            pairs[m].1.as_str(),
        );
        match outcome {
            Ok(id) => {
                proof {
                    lemma_registered_one_more(
                        before,
                        current,
                        registry@,
                        provider@,
                        all,
                        m as int,
                        client,
                    );
                }
                ids.push(id);
                assert(ids@ =~= Seq::new((m + 1) as nat, |k: int| (start + k) as u64));
            },
            Err(_) => {
                proof {
                    lemma_taken_name_refutes(before, current, provider@, all, m as int, client);
                }
                registry.truncate(start);
                assert(registry@.entries =~= before.entries);
                return Err(BootstrapError::Registry(RegistryError::Conflict));
            },
        }
        m = m + 1;
    }
    assert(all.take(m as int) =~= all);
    Ok(ids)
}

} // verus!
