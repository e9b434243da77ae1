use boardswarm::error::{ActuatorError, BootstrapError, ProviderConfigError, RegistryError};
use boardswarm::pdudaemon::{
    all_distinct, decode, expand, setup_actuator, start_provider, ModeParameters, Pdu,
    PduCommand, PduDaemonActuator, PduDaemonDocument, PduDaemonParameters, PduDocument,
    PortField, Ports, PDU_KEY, PORT_KEY, PROVIDER,
};
use boardswarm::registry::Registry;
use pdudaemon_client::PduDaemon;

fn daemon() -> PduDaemon {
    PduDaemon::new("http://localhost:16421").unwrap()
}

fn strings(items: &[&str]) -> Vec<String> {
    items.iter().map(|s| String::from(*s)).collect()
}

fn pdu(name: &str, ports: Ports) -> Pdu {
    Pdu { name: String::from(name), ports }
}

fn document(pdus: Vec<Pdu>) -> PduDaemonParameters {
    PduDaemonParameters { uri: String::from("http://localhost:16421"), pdus }
}

fn field(name: &str, ports: PortField) -> PduDocument {
    PduDocument { name: String::from(name), ports }
}

fn items(labels: &[&str]) -> Vec<Option<String>> {
    labels.iter().map(|s| Some(String::from(*s))).collect()
}

fn mode(name: &str) -> Option<ModeParameters> {
    Some(ModeParameters { mode: String::from(name) })
}

#[test]
fn provider_kind_and_keys() {
    assert_eq!(PROVIDER, "pdudaemon");
    assert_eq!(PDU_KEY, "pdudaemon.pdu");
    assert_eq!(PORT_KEY, "pdudaemon.port");
}

#[test]
fn count_and_list_canonicalize_alike() {
    let expected = strings(&["1", "2", "3", "4", "5", "6", "7", "8"]);
    let counted = Ports::Num(8);
    let listed = Ports::Ports(strings(&["1", "2", "3", "4", "5", "6", "7", "8"]));
    assert_eq!(counted.labels(), expected);
    assert_eq!(listed.labels(), expected);
    assert_eq!(counted.canonicalize(), Ok(expected.clone()));
    assert_eq!(listed.canonicalize(), Ok(expected));
}

#[test]
fn count_zero_has_no_ports() {
    assert_eq!(Ports::Num(0).labels(), Vec::<String>::new());
    assert_eq!(Ports::Num(0).canonicalize(), Ok(Vec::new()));
    assert_eq!(Ports::Ports(Vec::new()).canonicalize(), Ok(Vec::new()));
}

#[test]
fn count_runs_past_single_digits() {
    let labels = Ports::Num(12).labels();
    assert_eq!(labels.len(), 12);
    assert_eq!(labels[8], "9");
    assert_eq!(labels[9], "10");
    assert_eq!(labels[11], "12");
}

#[test]
fn largest_count() {
    let labels = Ports::Num(u16::MAX).labels();
    assert_eq!(labels.len(), 65535);
    assert_eq!(labels[0], "1");
    assert_eq!(labels[65534], "65535");
}

#[test]
fn list_keeps_its_order_and_labels() {
    let listed = Ports::Ports(strings(&["b", "a", "10", "uplink"]));
    assert_eq!(listed.canonicalize(), Ok(strings(&["b", "a", "10", "uplink"])));
}

#[test]
fn repeated_label_is_an_invalid_port_spec() {
    let listed = Ports::Ports(strings(&["1", "2", "1"]));
    assert_eq!(listed.labels(), strings(&["1", "2", "1"]));
    assert_eq!(listed.canonicalize(), Err(ProviderConfigError::InvalidPortSpec));
}

#[test]
fn all_distinct_finds_repeats() {
    assert!(all_distinct(&Vec::new()));
    assert!(all_distinct(&strings(&["a"])));
    assert!(all_distinct(&strings(&["a", "b", "c"])));
    assert!(!all_distinct(&strings(&["a", "b", "a"])));
    assert!(!all_distinct(&strings(&["a", "b", "c", "c"])));
    assert!(all_distinct(&strings(&["1", "01"])));
}

#[test]
fn expand_goes_pdu_by_pdu() {
    let pdus = vec![
        pdu("left", Ports::Num(2)),
        pdu("empty", Ports::Num(0)),
        pdu("right", Ports::Ports(strings(&["x", "y"]))),
    ];
    let pairs = expand(&pdus).unwrap();
    let expected: Vec<(String, String)> = [("left", "1"), ("left", "2"), ("right", "x"), ("right", "y")]
        .iter()
        .map(|(a, b)| (String::from(*a), String::from(*b)))
        .collect();
    assert_eq!(pairs, expected);
}

#[test]
fn expand_refuses_a_repeated_label() {
    let pdus = vec![pdu("ok", Ports::Num(2)), pdu("bad", Ports::Ports(strings(&["a", "a"])))];
    assert_eq!(expand(&pdus), Err(ProviderConfigError::InvalidPortSpec));
}

#[test]
fn setup_actuator_builds_name_and_properties() {
    let mut registry = Registry::new();
    let id = setup_actuator(
        &mut registry,
        &daemon(),
        "lab",
        &[("boardswarm.provider.name", "lab"), ("boardswarm.provider", "pdudaemon")],
        "rack1",
        "3",
    )
    .unwrap();
    assert_eq!(id, 0);
    let properties = registry.properties(id).unwrap();
    assert_eq!(properties.name(), "lab.rack1.port-3");
    assert_eq!(properties.len(), 4);
    assert_eq!(properties.entry(0), Some(("boardswarm.provider.name", "lab")));
    assert_eq!(properties.entry(1), Some(("boardswarm.provider", "pdudaemon")));
    assert_eq!(properties.entry(2), Some(("pdudaemon.pdu", "rack1")));
    assert_eq!(properties.entry(3), Some(("pdudaemon.port", "3")));
    let actuator = registry.lookup(id).unwrap();
    assert_eq!(actuator.hostname(), "rack1");
    assert_eq!(actuator.port(), "3");
}

#[test]
fn setup_actuator_conflicts_on_a_taken_name() {
    let mut registry = Registry::new();
    let d = daemon();
    assert_eq!(setup_actuator(&mut registry, &d, "lab", &[], "rack1", "3"), Ok(0));
    assert_eq!(
        setup_actuator(&mut registry, &d, "lab", &[("k", "v")], "rack1", "3"),
        Err(RegistryError::Conflict)
    );
    assert_eq!(registry.len(), 1);
    assert_eq!(setup_actuator(&mut registry, &d, "lab", &[], "rack1", "4"), Ok(1));
}

#[test]
fn setup_actuator_lets_the_pdu_attributes_win() {
    let mut registry = Registry::new();
    let id = setup_actuator(
        &mut registry,
        &daemon(),
        "lab",
        &[("pdudaemon.port", "shadowed"), ("site", "north")],
        "rack1",
        "3",
    )
    .unwrap();
    let properties = registry.properties(id).unwrap();
    assert_eq!(properties.len(), 3);
    assert_eq!(properties.entry(0), Some(("pdudaemon.port", "3")));
    assert_eq!(properties.entry(1), Some(("site", "north")));
    assert_eq!(properties.entry(2), Some(("pdudaemon.pdu", "rack1")));
}

#[test]
fn start_provider_registers_one_actuator_per_port() {
    let mut registry = Registry::new();
    let ids = start_provider(
        String::from("lab"),
        document(vec![pdu("rack1", Ports::Num(3)), pdu("rack2", Ports::Ports(strings(&["a", "b"])))]),
        Some(daemon()),
        &mut registry,
    )
    .unwrap();
    assert_eq!(ids, vec![0, 1, 2, 3, 4]);
    assert_eq!(registry.len(), 5);
    let names: Vec<String> = ids
        .iter()
        .map(|id| String::from(registry.properties(*id).unwrap().name()))
        .collect();
    assert_eq!(
        names,
        strings(&[
            "lab.rack1.port-1",
            "lab.rack1.port-2",
            "lab.rack1.port-3",
            "lab.rack2.port-a",
            "lab.rack2.port-b"
        ])
    );
    let last = registry.properties(4).unwrap();
    assert_eq!(last.get("boardswarm.provider.name"), Some("lab"));
    assert_eq!(last.get("boardswarm.provider"), Some("pdudaemon"));
    assert_eq!(last.get("pdudaemon.pdu"), Some("rack2"));
    assert_eq!(last.get("pdudaemon.port"), Some("b"));
    assert_eq!(last.len(), 4);
    assert_eq!(registry.lookup(1).unwrap().hostname(), "rack1");
    assert_eq!(registry.lookup(1).unwrap().port(), "2");
    assert_eq!(registry.find("lab.rack2.port-a"), Some(3));
}

#[test]
fn eight_ports_by_count_or_by_list_register_alike() {
    let mut counted = Registry::new();
    let mut listed = Registry::new();
    let a = start_provider(String::from("p"), document(vec![pdu("u", Ports::Num(8))]), Some(daemon()), &mut counted)
        .unwrap();
    let b = start_provider(
        String::from("p"),
        document(vec![pdu("u", Ports::Ports(strings(&["1", "2", "3", "4", "5", "6", "7", "8"])))]),
        Some(daemon()),
        &mut listed,
    )
    .unwrap();
    assert_eq!(a, b);
    assert_eq!(a.len(), 8);
    for id in a {
        let x = counted.properties(id).unwrap();
        let y = listed.properties(id).unwrap();
        assert_eq!(x.name(), y.name());
        assert_eq!(x.name(), format!("p.u.port-{}", id + 1));
        assert_eq!(x.get("pdudaemon.port"), y.get("pdudaemon.port"));
        assert_eq!(counted.lookup(id).unwrap().port(), (id + 1).to_string());
    }
}

#[test]
fn start_provider_continues_after_earlier_registrations() {
    let mut registry = Registry::new();
    let first = start_provider(String::from("a"), document(vec![pdu("u", Ports::Num(2))]), Some(daemon()), &mut registry);
    assert_eq!(first, Ok(vec![0, 1]));
    let second = start_provider(String::from("b"), document(vec![pdu("u", Ports::Num(2))]), Some(daemon()), &mut registry);
    assert_eq!(second, Ok(vec![2, 3]));
    assert_eq!(registry.properties(2).unwrap().name(), "b.u.port-1");
}

#[test]
fn undecoded_document_is_malformed() {
    assert!(matches!(decode(None), Err(ProviderConfigError::MalformedDocument)));
}

#[test]
fn number_field_is_a_count() {
    assert!(matches!(PortField::Number(8).classify(), Ok(Ports::Num(8))));
    assert!(matches!(PortField::Number(0).classify(), Ok(Ports::Num(0))));
    assert!(matches!(PortField::Number(65535).classify(), Ok(Ports::Num(65535))));
}

#[test]
fn count_beyond_sixteen_bits_is_an_invalid_port_spec() {
    assert!(matches!(
        PortField::Number(65536).classify(),
        Err(ProviderConfigError::InvalidPortSpec)
    ));
    assert!(matches!(
        PortField::Number(u64::MAX).classify(),
        Err(ProviderConfigError::InvalidPortSpec)
    ));
}

#[test]
fn list_of_strings_is_a_list_of_labels() {
    let ports = PortField::List(items(&["a", "b", "a"])).classify().unwrap();
    assert!(matches!(ports, Ports::Ports(_)));
    assert_eq!(ports.labels(), strings(&["a", "b", "a"]));
    let empty = PortField::List(Vec::new()).classify().unwrap();
    assert!(matches!(empty, Ports::Ports(_)));
    assert_eq!(empty.labels(), Vec::<String>::new());
}

#[test]
fn list_with_another_item_is_an_invalid_port_spec() {
    let mixed = PortField::List(vec![Some(String::from("1")), None, Some(String::from("3"))]);
    assert!(matches!(mixed.classify(), Err(ProviderConfigError::InvalidPortSpec)));
    assert!(matches!(
        PortField::List(vec![None]).classify(),
        Err(ProviderConfigError::InvalidPortSpec)
    ));
}

#[test]
fn other_field_is_an_invalid_port_spec() {
    assert!(matches!(PortField::Other.classify(), Err(ProviderConfigError::InvalidPortSpec)));
}

#[test]
fn both_shapes_of_eight_ports_read_alike() {
    let counted = PortField::Number(8).classify().unwrap();
    let listed = PortField::List(items(&["1", "2", "3", "4", "5", "6", "7", "8"])).classify().unwrap();
    assert!(matches!(counted, Ports::Num(8)));
    assert!(matches!(listed, Ports::Ports(_)));
    assert_eq!(counted.canonicalize(), listed.canonicalize());
    assert_eq!(counted.labels(), strings(&["1", "2", "3", "4", "5", "6", "7", "8"]));
}

#[test]
fn decode_reads_every_pdu() {
    let parameters = decode(Some(PduDaemonDocument {
        uri: String::from("http://pdu.lab:16421"),
        pdus: vec![
            field("left", PortField::Number(2)),
            field("right", PortField::List(items(&["x", "y"]))),
        ],
    }))
    .unwrap();
    assert_eq!(parameters.uri, "http://pdu.lab:16421");
    assert_eq!(parameters.pdus.len(), 2);
    assert_eq!(parameters.pdus[0].name, "left");
    assert!(matches!(parameters.pdus[0].ports, Ports::Num(2)));
    assert_eq!(parameters.pdus[1].name, "right");
    assert_eq!(parameters.pdus[1].ports.labels(), strings(&["x", "y"]));
}

#[test]
fn decode_refuses_a_field_of_another_shape() {
    let r = decode(Some(PduDaemonDocument {
        uri: String::from("http://pdu.lab:16421"),
        pdus: vec![field("left", PortField::Number(2)), field("right", PortField::Other)],
    }));
    assert!(matches!(r, Err(ProviderConfigError::InvalidPortSpec)));
    let r = decode(Some(PduDaemonDocument {
        uri: String::from("http://pdu.lab:16421"),
        pdus: vec![field("big", PortField::Number(70000))],
    }));
    assert!(matches!(r, Err(ProviderConfigError::InvalidPortSpec)));
}

#[test]
fn decode_of_an_empty_document() {
    let parameters =
        decode(Some(PduDaemonDocument { uri: String::new(), pdus: Vec::new() })).unwrap();
    assert_eq!(parameters.uri, "");
    assert!(parameters.pdus.is_empty());
}

#[test]
fn decoded_document_starts_the_provider() {
    let parameters = decode(Some(PduDaemonDocument {
        uri: String::from("http://localhost:16421"),
        pdus: vec![field("u", PortField::Number(2)), field("v", PortField::List(items(&["a"])))],
    }))
    .unwrap();
    let mut registry = Registry::new();
    let ids = start_provider(String::from("lab"), parameters, Some(daemon()), &mut registry);
    assert_eq!(ids, Ok(vec![0, 1, 2]));
    assert_eq!(registry.properties(2).unwrap().name(), "lab.v.port-a");
}

#[test]
fn unusable_daemon_address_is_malformed() {
    let mut registry = Registry::new();
    assert_eq!(
        start_provider(String::from("lab"), document(vec![pdu("u", Ports::Num(2))]), None, &mut registry),
        Err(BootstrapError::Config(ProviderConfigError::MalformedDocument))
    );
    assert_eq!(
        start_provider(
            String::from("lab"),
            document(vec![pdu("u", Ports::Ports(strings(&["a", "a"])))]),
            None,
            &mut registry
        ),
        Err(BootstrapError::Config(ProviderConfigError::MalformedDocument))
    );
    assert_eq!(registry.len(), 0);
}

#[test]
fn repeated_label_aborts_the_whole_bootstrap() {
    let mut registry = Registry::new();
    let r = start_provider(
        String::from("lab"),
        document(vec![pdu("good", Ports::Num(4)), pdu("bad", Ports::Ports(strings(&["x", "y", "x"])))]),
        Some(daemon()),
        &mut registry,
    );
    assert_eq!(r, Err(BootstrapError::Config(ProviderConfigError::InvalidPortSpec)));
    assert_eq!(registry.len(), 0);
}

#[test]
fn conflict_registers_nothing() {
    let mut registry = Registry::new();
    start_provider(String::from("lab"), document(vec![pdu("u", Ports::Num(2))]), Some(daemon()), &mut registry).unwrap();
    let r = start_provider(
        String::from("lab"),
        document(vec![pdu("t", Ports::Num(3)), pdu("u", Ports::Ports(strings(&["9", "2"])))]),
        Some(daemon()),
        &mut registry,
    );
    assert_eq!(r, Err(BootstrapError::Registry(RegistryError::Conflict)));
    assert_eq!(registry.len(), 2);
    assert_eq!(registry.find("lab.t.port-1"), None);
    assert_eq!(registry.find("lab.u.port-9"), None);
    assert_eq!(registry.find("lab.u.port-2"), Some(1));
}

#[test]
fn two_pdus_of_one_name_conflict() {
    let mut registry = Registry::new();
    let r = start_provider(
        String::from("lab"),
        document(vec![pdu("u", Ports::Num(2)), pdu("u", Ports::Ports(strings(&["3", "2"])))]),
        Some(daemon()),
        &mut registry,
    );
    assert_eq!(r, Err(BootstrapError::Registry(RegistryError::Conflict)));
    assert_eq!(registry.len(), 0);
}

#[test]
fn other_providers_go_on_after_a_failed_one() {
    let mut registry = Registry::new();
    let bad = start_provider(String::from("bad"), document(Vec::new()), None, &mut registry);
    assert_eq!(bad, Err(BootstrapError::Config(ProviderConfigError::MalformedDocument)));
    let good = start_provider(String::from("good"), document(vec![pdu("u", Ports::Num(1))]), Some(daemon()), &mut registry);
    assert_eq!(good, Ok(vec![0]));
}

#[test]
fn empty_document_registers_nothing() {
    let mut registry = Registry::new();
    assert_eq!(start_provider(String::from("lab"), document(Vec::new()), Some(daemon()), &mut registry), Ok(Vec::new()));
    assert_eq!(registry.len(), 0);
}

#[test]
fn set_mode_on_and_off() {
    let actuator = PduDaemonActuator::new(daemon(), String::from("rack1"), String::from("3"));
    assert_eq!(actuator.set_mode(mode("on")), Ok(PduCommand::On));
    assert_eq!(actuator.set_mode(mode("off")), Ok(PduCommand::Off));
    assert_eq!(actuator.hostname(), "rack1");
    assert_eq!(actuator.port(), "3");
    let _ = actuator.daemon();
}

#[test]
fn set_mode_unknown_mode_is_unsupported() {
    let actuator = PduDaemonActuator::new(daemon(), String::from("rack1"), String::from("3"));
    for name in ["reboot", "ON", "On", "", "o", "onn", "of", " on"] {
        assert_eq!(actuator.set_mode(mode(name)), Err(ActuatorError::UnsupportedMode));
    }
}

#[test]
fn set_mode_undecoded_document_is_invalid() {
    let actuator = PduDaemonActuator::new(daemon(), String::from("rack1"), String::from("3"));
    assert_eq!(actuator.set_mode(None), Err(ActuatorError::InvalidParameters));
}

#[test]
fn set_mode_on_twice_is_the_same_both_times() {
    let actuator = PduDaemonActuator::new(daemon(), String::from("rack1"), String::from("3"));
    let first = actuator.set_mode(mode("on"));
    let second = actuator.set_mode(mode("on"));
    assert_eq!(first, Ok(PduCommand::On));
    assert_eq!(second, first);
    assert_eq!(PduDaemonActuator::completed(true), Ok(()));
    assert_eq!(PduDaemonActuator::completed(true), Ok(()));
}

#[test]
fn completed_reports_a_backend_failure() {
    assert_eq!(PduDaemonActuator::completed(true), Ok(()));
    assert_eq!(PduDaemonActuator::completed(false), Err(ActuatorError::BackendUnavailable));
}
