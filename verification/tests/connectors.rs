use connector_core::config::ConfigError;
use connector_core::kafka::{
    parse_option, KafkaOpt, KafkaOptError, KafkaSinkDependencies, SecurityOpt,
    SecurityProtocolOpt, CA_LOCATION,
};
use connector_core::manager::{
    ConnectorConfig as ManagedEntry, CreateManagedConnectorOpt, ManagedConnectorConfig,
};
use connector_core::mqtt::{MqttEvent, MqttNotification};
use connector_core::namemap::NameMap;
use connector_core::slack::SlackMessage;
use connector_core::syslog::{
    ConnectorConfig, InputMode, ProducerOpts, SourceDocument, SyslogSource,
};

const CONNECTOR_TOML: &str = r#"
[[source]]
name = "tailed"
type = "syslog"
filter_prefix = "kernel"
input_file = "/var/log/syslog"

[[source]]
name = "piped"
type = "syslog"
topic = "piped-lines"
create_topic = false

[[source]]
name = "bound"
type = "syslog"
bind_url = "0.0.0.0:514"
input_file = "/ignored"
"#;

fn toml_text(t: &toml::value::Table, name: &str) -> Option<String> {
    t.get(name).map(|v| v.as_str().expect("a text").to_string())
}

fn source_documents(text: &str) -> Vec<SourceDocument> {
    let value: toml::Value = toml::from_str(text).expect("Failed to parse toml");
    let sources = match value.get("source") {
        Some(toml::Value::Array(items)) => items.clone(),
        _ => Vec::new(),
    };
    sources
        .iter()
        .map(|s| {
            let t = s.as_table().expect("a source is a table");
            SourceDocument {
                name: toml_text(t, "name"),
                type_: toml_text(t, "type"),
                filter_prefix: toml_text(t, "filter_prefix"),
                topic: toml_text(t, "topic"),
                create_topic: t.get("create_topic").and_then(|v| v.as_bool()),
                bind_url: toml_text(t, "bind_url"),
                input_file: toml_text(t, "input_file"),
            }
        })
        .collect()
}

fn strings(items: &[&str]) -> Vec<String> {
    items.iter().map(|s| s.to_string()).collect()
}

fn no_security() -> SecurityOpt {
    SecurityOpt {
        ssl_key_file: None,
        ssl_key_pem: None,
        ssl_cert_file: None,
        ssl_cert_pem: None,
        ssl_ca_file: None,
        ssl_ca_pem: None,
        security_protocol: None,
    }
}

fn kafka_opt(options: &[&str]) -> KafkaOpt {
    KafkaOpt {
        kafka_url: "broker-1:9092,broker-2:9092".to_string(),
        kafka_topic: None,
        kafka_partition: None,
        kafka_option: strings(options),
        fluvio_topic: "from-fluvio".to_string(),
        security: no_security(),
    }
}

fn settings(pairs: &[(&str, &str)]) -> NameMap<String> {
    let mut map = NameMap::new();
    for (k, v) in pairs {
        map.insert(k.to_string(), v.to_string());
    }
    map
}

#[test]
fn test_parsing() {
    let docs = source_documents(CONNECTOR_TOML);
    assert_eq!(docs.len(), 3);
    let _config: ConnectorConfig =
        ConnectorConfig::from_documents(&docs).expect("Failed to parse toml");
}

#[test]
fn test_path() {
    let config = ConnectorConfig::from_documents(&source_documents(CONNECTOR_TOML))
        .expect("Failed to get config from file");
    println!("CONFIG: {:#?}", config);
    assert_eq!(config.source.len(), 3);
    assert_eq!(config.source[0].name(), "tailed");
    assert_eq!(config.source[0].topic(), "syslog");
    assert_eq!(config.source[0].filter_prefix(), &Some("kernel".to_string()));
    assert_eq!(config.source[0].create_topic(), Some(true));
    assert_eq!(config.source[0].input_mode(), InputMode::TailFile("/var/log/syslog".to_string()));
    assert_eq!(config.source[1].topic(), "piped-lines");
    assert_eq!(config.source[1].create_topic(), Some(false));
    assert_eq!(config.source[1].input_mode(), InputMode::StandardInput);
    assert_eq!(config.source[2].input_mode(), InputMode::Bind("0.0.0.0:514".to_string()));
}

#[test]
fn a_source_needs_a_name_and_a_type() {
    let docs = source_documents("[[source]]\nname = \"a\"\ntype = \"syslog\"\n\n[[source]]\ntype = \"syslog\"\n\n[[source]]\nname = \"c\"\n");
    assert_eq!(
        ConnectorConfig::from_documents(&docs),
        Err(ConfigError::MissingField { field: "name".to_string() })
    );
    assert_eq!(
        SyslogSource::from_document(&docs[2]),
        Err(ConfigError::MissingField { field: "type".to_string() })
    );
    assert_eq!(ConnectorConfig::from_documents(&Vec::new()), Ok(ConnectorConfig::default()));
    assert!(ConnectorConfig::default().source.is_empty());
}

#[test]
fn the_default_source_reads_the_standard_input() {
    let source = SyslogSource::default();
    assert_eq!(source.name(), "syslog-connector");
    assert_eq!(source.topic(), "syslog");
    assert_eq!(source.topic(), &SyslogSource::default_topic());
    assert_eq!(SyslogSource::default_topic(), "syslog");
    assert_eq!(source.create_topic(), Some(true));
    assert_eq!(source.filter_prefix(), &None);
    assert_eq!(source.input_mode(), InputMode::StandardInput);
    let opts = ProducerOpts { config: "connector.toml".to_string() };
    assert_eq!(opts.config, "connector.toml");
}

#[test]
fn a_topic_is_created_where_no_topic_has_its_name() {
    let source = SyslogSource::default();
    assert!(source.must_create_topic(&Vec::new()));
    assert!(source.must_create_topic(&strings(&["other", "logs"])));
    assert!(source.must_create_topic(&strings(&["syslog2"])));
    assert!(source.must_create_topic(&strings(&["my-syslog-copy"])));
    assert!(source.must_create_topic(&strings(&["sys", "log"])));
    assert!(source.must_create_topic(&strings(&["Syslog", "syslo"])));
    assert!(!source.must_create_topic(&strings(&["other", "syslog"])));
    assert!(!source.must_create_topic(&strings(&["syslog"])));
}

#[test]
fn a_topic_is_not_created_where_the_source_forbids_it() {
    let docs = source_documents(CONNECTOR_TOML);
    let forbidden = SyslogSource::from_document(&docs[1]).expect("a name and a type");
    assert_eq!(forbidden.create_topic(), Some(false));
    assert!(!forbidden.must_create_topic(&Vec::new()));
    assert!(!forbidden.must_create_topic(&strings(&["piped-lines"])));
    assert!(!forbidden.must_create_topic(&strings(&["syslog"])));
}

#[test]
fn a_source_creates_its_topic_unless_told_otherwise() {
    let docs = source_documents("[[source]]\nname = \"s\"\ntype = \"syslog\"\n");
    let config = ConnectorConfig::from_documents(&docs).expect("a name and a type");
    assert_eq!(config.source[0].create_topic(), Some(true));
    assert!(config.source[0].must_create_topic(&strings(&["syslog2"])));
    assert!(!config.source[0].must_create_topic(&strings(&["syslog2", "syslog"])));
    let told = source_documents(
        "[[source]]\nname = \"s\"\ntype = \"syslog\"\ncreate_topic = true\n",
    );
    let config = ConnectorConfig::from_documents(&told).expect("a name and a type");
    assert_eq!(config.source[0].create_topic(), Some(true));
}

#[test]
fn client_settings_are_split_at_the_colon() {
    assert_eq!(parse_option("acks:all"), Some(("acks".to_string(), "all".to_string())));
    assert_eq!(parse_option("a:b:c"), Some(("a".to_string(), "b".to_string())));
    assert_eq!(parse_option("a:"), Some(("a".to_string(), "".to_string())));
    assert_eq!(parse_option(":b"), Some(("".to_string(), "b".to_string())));
    assert_eq!(parse_option(":"), Some(("".to_string(), "".to_string())));
    assert_eq!(parse_option("a::c"), Some(("a".to_string(), "".to_string())));
    assert_eq!(parse_option("schlüssel:wért"), Some(("schlüssel".to_string(), "wért".to_string())));
    assert_eq!(parse_option("no colon"), None);
    assert_eq!(parse_option(""), None);
}

#[test]
fn a_plan_holds_the_settings_of_the_client() {
    let plan = KafkaSinkDependencies::from_kafka_opt(&kafka_opt(&["acks:all", "linger.ms:5"]), None, None).expect("every option has a colon");
    assert_eq!(plan.kafka_topic, "from-fluvio");
    assert_eq!(plan.kafka_partition, None);
    assert_eq!(plan.ca_pem, None);
    assert_eq!(
        plan.client_settings,
        settings(&[
            ("acks", "all"),
            ("linger.ms", "5"),
            ("bootstrap.servers", "broker-1:9092,broker-2:9092"),
        ])
    );
}

#[test]
fn a_later_setting_replaces_an_earlier_one() {
    let plan = KafkaSinkDependencies::from_kafka_opt(&kafka_opt(&["acks:1", "bootstrap.servers:elsewhere", "acks:all"]), None, None)
        .expect("every option has a colon");
    assert_eq!(plan.client_settings.len(), 2);
    assert_eq!(plan.client_settings.get("acks"), Some(&"all".to_string()));
    assert_eq!(
        plan.client_settings.get("bootstrap.servers"),
        Some(&"broker-1:9092,broker-2:9092".to_string())
    );
}

#[test]
fn an_option_without_a_colon_is_refused() {
    let r = KafkaSinkDependencies::from_kafka_opt(&kafka_opt(&["acks:all", "broken", "also broken"]), None, None);
    assert_eq!(r, Err(KafkaOptError::MalformedOption { index: 1 }));
}

#[test]
fn the_kafka_topic_and_partition_are_taken_from_the_options() {
    let mut opts = kafka_opt(&[]);
    opts.kafka_topic = Some("named".to_string());
    opts.kafka_partition = Some(3);
    let plan = KafkaSinkDependencies::from_kafka_opt(&opts, None, None).expect("no options");
    assert_eq!(plan.kafka_topic, "named");
    assert_eq!(plan.kafka_partition, Some(3));
}

#[test]
fn keys_and_certificates_are_set_as_text() {
    let mut opts = kafka_opt(&[]);
    opts.security = SecurityOpt {
        ssl_key_file: Some("/keys/client.key".to_string()),
        ssl_key_pem: None,
        ssl_cert_file: Some("/keys/client.crt".to_string()),
        ssl_cert_pem: Some("CERT AS TEXT".to_string()),
        ssl_ca_file: Some("/keys/ca.crt".to_string()),
        ssl_ca_pem: None,
        security_protocol: Some(SecurityProtocolOpt::SSL),
    };
    assert_eq!(opts.security.key_file_to_read(), Some(&"/keys/client.key".to_string()));
    assert_eq!(opts.security.cert_file_to_read(), None);
    let plan = KafkaSinkDependencies::from_kafka_opt(
        &opts,
        Some("KEY FROM FILE".to_string()),
        Some("CERT FROM FILE".to_string()),
    )
    .expect("no options");
    assert_eq!(
        plan.client_settings,
        settings(&[
            ("bootstrap.servers", "broker-1:9092,broker-2:9092"),
            ("security.protocol", "SSL"),
            ("ssl.key.pem", "KEY FROM FILE"),
            ("ssl.certificate.pem", "CERT AS TEXT"),
            ("ssl.ca.location", "/keys/ca.crt"),
        ])
    );
    assert_eq!(plan.ca_pem, None);
    let unread = KafkaSinkDependencies::from_kafka_opt(&opts, None, None).expect("no options");
    assert_eq!(unread.client_settings.get("ssl.key.pem"), None);
    assert_eq!(unread.client_settings.get("ssl.certificate.pem"), Some(&"CERT AS TEXT".to_string()));
}

#[test]
fn a_certificate_authority_given_as_text_is_written_to_a_file() {
    let mut opts = kafka_opt(&[]);
    opts.security.ssl_ca_file = Some("/keys/ca.crt".to_string());
    opts.security.ssl_ca_pem = Some("CA AS TEXT".to_string());
    opts.security.ssl_key_pem = Some("KEY AS TEXT".to_string());
    let plan = KafkaSinkDependencies::from_kafka_opt(&opts, Some("not used".to_string()), None)
        .expect("no options");
    assert_eq!(plan.ca_pem, Some("CA AS TEXT".to_string()));
    assert_eq!(plan.client_settings.get("ssl.ca.location"), Some(&CA_LOCATION.to_string()));
    assert_eq!(CA_LOCATION, "/tmp/kafka-client-ca.pem");
    assert_eq!(plan.client_settings.get("ssl.key.pem"), Some(&"KEY AS TEXT".to_string()));
    assert_eq!(plan.client_settings.get("security.protocol"), None);
}

#[test]
fn ssl_is_the_only_protocol() {
    for name in ["ssl", "SSL", "Ssl", "sSL"] {
        assert_eq!(SecurityProtocolOpt::from_str(name), Ok(SecurityProtocolOpt::SSL));
    }
    for name in ["", "tls", "ssl ", "sasl_ssl", "SASL_PLAINTEXT"] {
        assert_eq!(
            SecurityProtocolOpt::from_str(name),
            Err("Invalid option. SSL is the only supported security protocol".to_string())
        );
    }
    assert_eq!(SecurityProtocolOpt::from_lowercase("ssl"), Ok(SecurityProtocolOpt::SSL));
    assert!(SecurityProtocolOpt::from_lowercase("SSL").is_err());
    assert_eq!(SecurityProtocolOpt::SSL.to_string(), "SSL");
}

#[test]
fn a_managed_connector_takes_its_type_as_topic() {
    let mut args = ManagedEntry::default_args();
    assert!(args.is_empty());
    args.insert("b-second".to_string(), "2".to_string());
    args.insert("a-first".to_string(), "1".to_string());
    let without_topic = ManagedEntry::new("mqtt".to_string(), None, Some(true), args);
    assert_eq!(without_topic.create_topic(), Some(true));
    let managed: ManagedConnectorConfig = without_topic.into();
    assert_eq!(
        managed,
        ManagedConnectorConfig {
            type_: "mqtt".to_string(),
            topic: "mqtt".to_string(),
            args: strings(&["a-first", "1", "b-second", "2"]),
        }
    );
    let with_topic = ManagedEntry::new(
        "mqtt".to_string(),
        Some("named".to_string()),
        None,
        ManagedEntry::default_args(),
    );
    assert_eq!(with_topic.to_managed().topic, "named");
    assert_eq!(with_topic.to_managed().args, Vec::<String>::new());
}

#[test]
fn the_arguments_of_a_managed_connector_ascend_by_name() {
    let mut args = ManagedEntry::default_args();
    args.insert("b".to_string(), "2".to_string());
    args.insert("a".to_string(), "1".to_string());
    let config = ManagedEntry::new("t".to_string(), Some("x".to_string()), None, args);
    let managed = config.into();
    assert_eq!(managed.args, strings(&["a", "1", "b", "2"]));
    assert_eq!(managed.topic, "x");
    assert_eq!(managed.type_, "t");

    let from_std: std::collections::BTreeMap<String, String> =
        [("zeta", "26"), ("alpha", "1"), ("mu", "12"), ("Alpha", "0"), ("alpha", "one")]
            .iter()
            .map(|(k, v)| (k.to_string(), v.to_string()))
            .collect();
    let mut args = ManagedEntry::default_args();
    for (k, v) in [("zeta", "26"), ("alpha", "1"), ("mu", "12"), ("Alpha", "0"), ("alpha", "one")] {
        args.insert(k.to_string(), v.to_string());
    }
    let expected: Vec<String> = from_std
        .keys()
        .zip(from_std.values())
        .flat_map(|(key, value)| [key.clone(), value.clone()])
        .collect();
    let managed = ManagedEntry::new("t".to_string(), None, None, args).to_managed();
    assert_eq!(managed.args, expected);
    assert_eq!(managed.args.len(), 2 * from_std.len());
}

#[test]
fn a_set_is_created_in_the_order_of_its_names() {
    let mut set: NameMap<ManagedEntry> = NameMap::new();
    for name in ["second", "third", "first"] {
        set.insert(
            name.to_string(),
            ManagedEntry::new(name.to_uppercase(), None, None, settings(&[])),
        );
    }
    let names: Vec<String> =
        CreateManagedConnectorOpt::specs(&set).iter().map(|s| s.name.clone()).collect();
    assert_eq!(names, strings(&["first", "second", "third"]));
}

#[test]
fn every_entry_of_a_set_becomes_a_connector() {
    let mut set: NameMap<ManagedEntry> = NameMap::new();
    set.insert(
        "first".to_string(),
        ManagedEntry::new("http".to_string(), None, None, settings(&[("url", "x")])),
    );
    set.insert(
        "second".to_string(),
        ManagedEntry::new("mqtt".to_string(), Some("t".to_string()), None, settings(&[])),
    );
    let specs = CreateManagedConnectorOpt::specs(&set);
    assert_eq!(specs.len(), 2);
    assert_eq!(specs[0].name, "first");
    assert_eq!(specs[0].config.topic, "http");
    assert_eq!(specs[0].config.args, strings(&["url", "x"]));
    assert_eq!(specs[1].name, "second");
    assert_eq!(specs[1].config.type_, "mqtt");
    assert_eq!(specs[1].config.topic, "t");
    assert_eq!(CreateManagedConnectorOpt::default().config, "");
}

#[test]
fn only_publications_become_events() {
    let publish = MqttNotification::Publish { topic: "/hfp/v2".to_string(), payload: vec![1, 2, 3] };
    assert_eq!(
        MqttEvent::try_from(&publish),
        Ok(MqttEvent { mqtt_topic: "/hfp/v2".to_string(), payload: vec![1, 2, 3] })
    );
    assert_eq!(
        MqttEvent::try_from(&MqttNotification::Other),
        Err("We don't support this event type!".to_string())
    );
}

#[test]
fn a_record_is_posted_as_text() {
    assert_eq!(SlackMessage::for_value(b"disk full"), SlackMessage::new("disk full".to_string()));
    assert_eq!(SlackMessage::for_value("gr\u{fc}n".as_bytes()).text, "gr\u{fc}n");
    assert_eq!(SlackMessage::for_value(b"").text, "");
    assert_eq!(SlackMessage::for_value(&[b'a', 0xff, b'b']).text, "a\u{fffd}b");
}
