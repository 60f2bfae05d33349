use connector_core::config::{
    Compression, ConfigDocument, ConfigError, ConnectorConfig, ConsumerParameters,
    ProducerDocument, ProducerParameters,
};
use connector_core::secret::SecretString;
use connector_core::units::{parse_duration, TimeSpan};
use std::collections::BTreeMap;
use connector_core::value::{
    Element, ManagedConnectorParameterValue, ParameterNode, Scalar, ShapeError,
};

struct NodeFile(ParameterNode);

struct NodeVisitor;

fn scalar(s: Scalar) -> NodeFile {
    NodeFile(ParameterNode::Scalar(s))
}

fn text(s: String) -> Element {
    Element::Scalar(Scalar::Text(s))
}

impl<'de> serde::Deserialize<'de> for NodeFile {
    fn deserialize<D>(deserializer: D) -> Result<NodeFile, D::Error>
    where
        D: serde::Deserializer<'de>,
    {
        deserializer.deserialize_any(NodeVisitor)
    }
}

impl<'de> serde::de::Visitor<'de> for NodeVisitor {
    type Value = NodeFile;

    fn expecting(&self, formatter: &mut std::fmt::Formatter) -> std::fmt::Result {
        formatter.write_str("string, map or sequence")
    }

    fn visit_none<E: serde::de::Error>(self) -> Result<NodeFile, E> {
        Ok(scalar(Scalar::Null))
    }

    fn visit_unit<E: serde::de::Error>(self) -> Result<NodeFile, E> {
        Ok(scalar(Scalar::Null))
    }

    fn visit_f64<E: serde::de::Error>(self, v: f64) -> Result<NodeFile, E> {
        Ok(scalar(Scalar::Decimal(v.to_string())))
    }

    fn visit_bool<E: serde::de::Error>(self, v: bool) -> Result<NodeFile, E> {
        Ok(scalar(Scalar::Bool(v)))
    }

    fn visit_i64<E: serde::de::Error>(self, v: i64) -> Result<NodeFile, E> {
        Ok(scalar(Scalar::Integer(v)))
    }

    fn visit_u64<E: serde::de::Error>(self, v: u64) -> Result<NodeFile, E> {
        Ok(scalar(Scalar::Unsigned(v)))
    }

    fn visit_str<E: serde::de::Error>(self, value: &str) -> Result<NodeFile, E> {
        Ok(scalar(Scalar::Text(value.to_string())))
    }

    fn visit_map<M>(self, mut map: M) -> Result<NodeFile, M::Error>
    where
        M: serde::de::MapAccess<'de>,
    {
        let mut entries = Vec::new();
        while let Some((key, value)) = map.next_entry::<String, String>()? {
            entries.push((text(key), text(value)));
        }
        Ok(NodeFile(ParameterNode::Mapping(entries)))
    }

    fn visit_seq<A>(self, mut seq: A) -> Result<NodeFile, A::Error>
    where
        A: serde::de::SeqAccess<'de>,
    {
        let mut items = Vec::new();
        while let Some(item) = seq.next_element::<String>()? {
            items.push(text(item));
        }
        Ok(NodeFile(ParameterNode::Sequence(items)))
    }
}

struct LingerText(String);

impl<'de> serde::Deserialize<'de> for LingerText {
    fn deserialize<D>(deserializer: D) -> Result<LingerText, D::Error>
    where
        D: serde::Deserializer<'de>,
    {
        deserializer.deserialize_str(LingerText(String::new()))
    }
}

impl<'de> serde::de::Visitor<'de> for LingerText {
    type Value = LingerText;

    fn expecting(&self, formatter: &mut std::fmt::Formatter) -> std::fmt::Result {
        formatter.write_str("a duration")
    }

    fn visit_str<E: serde::de::Error>(self, text: &str) -> Result<LingerText, E> {
        match parse_duration(text) {
            Some(_) => Ok(LingerText(text.to_string())),
            None => Err(E::invalid_value(serde::de::Unexpected::Str(text), &self)),
        }
    }
}

struct CompressionText(String);

impl<'de> serde::Deserialize<'de> for CompressionText {
    fn deserialize<D>(deserializer: D) -> Result<CompressionText, D::Error>
    where
        D: serde::Deserializer<'de>,
    {
        deserializer.deserialize_str(CompressionText(String::new()))
    }
}

impl<'de> serde::de::Visitor<'de> for CompressionText {
    type Value = CompressionText;

    fn expecting(&self, formatter: &mut std::fmt::Formatter) -> std::fmt::Result {
        formatter.write_str("a compression")
    }

    fn visit_str<E: serde::de::Error>(self, text: &str) -> Result<CompressionText, E> {
        match Compression::from_name(text) {
            Some(_) => Ok(CompressionText(text.to_string())),
            None => Err(E::unknown_variant(text, &["none", "gzip", "snappy", "lz4"])),
        }
    }
}

struct CheckedProducer(ProducerDocument);

struct CheckedProducerVisitor;

impl<'de> serde::Deserialize<'de> for CheckedProducer {
    fn deserialize<D>(deserializer: D) -> Result<CheckedProducer, D::Error>
    where
        D: serde::Deserializer<'de>,
    {
        deserializer.deserialize_map(CheckedProducerVisitor)
    }
}

impl<'de> serde::de::Visitor<'de> for CheckedProducerVisitor {
    type Value = CheckedProducer;

    fn expecting(&self, formatter: &mut std::fmt::Formatter) -> std::fmt::Result {
        formatter.write_str("the producer block")
    }

    fn visit_map<M>(self, mut map: M) -> Result<CheckedProducer, M::Error>
    where
        M: serde::de::MapAccess<'de>,
    {
        let mut doc = ProducerDocument { linger: None, compression: None, batch_size: None };
        while let Some(key) = map.next_key::<String>()? {
            match key.as_str() {
                "linger" => doc.linger = Some(map.next_value::<LingerText>()?.0),
                "compression" => doc.compression = Some(map.next_value::<CompressionText>()?.0),
                "batch-size" => doc.batch_size = Some(map.next_value::<String>()?),
                _ => {
                    map.next_value::<serde::de::IgnoredAny>()?;
                }
            }
        }
        Ok(CheckedProducer(doc))
    }
}

/// A document read leniently: whatever is wrong with it is left to the library.
struct DocumentFile(ConfigDocument);

/// A document read as the program reads it: the library is asked about each
/// field while the parser stands at it, so that an error has a position.
struct CheckedFile(ConfigDocument);

struct DocumentVisitor {
    checked: bool,
}

impl<'de> serde::Deserialize<'de> for DocumentFile {
    fn deserialize<D>(deserializer: D) -> Result<DocumentFile, D::Error>
    where
        D: serde::Deserializer<'de>,
    {
        Ok(DocumentFile(deserializer.deserialize_map(DocumentVisitor { checked: false })?))
    }
}

impl<'de> serde::Deserialize<'de> for CheckedFile {
    fn deserialize<D>(deserializer: D) -> Result<CheckedFile, D::Error>
    where
        D: serde::Deserializer<'de>,
    {
        Ok(CheckedFile(deserializer.deserialize_map(DocumentVisitor { checked: true })?))
    }
}

impl<'de> serde::de::Visitor<'de> for DocumentVisitor {
    type Value = ConfigDocument;

    fn expecting(&self, formatter: &mut std::fmt::Formatter) -> std::fmt::Result {
        formatter.write_str("the configuration of a connector")
    }

    fn visit_map<M>(self, mut map: M) -> Result<ConfigDocument, M::Error>
    where
        M: serde::de::MapAccess<'de>,
    {
        let mut doc = ConfigDocument {
            name: None,
            type_: None,
            topic: None,
            version: None,
            parameters: Vec::new(),
            secrets: Vec::new(),
            producer: None,
            consumer: None,
        };
        while let Some(key) = map.next_key::<String>()? {
            match key.as_str() {
                "name" => doc.name = Some(map.next_value::<String>()?),
                "type" => doc.type_ = Some(map.next_value::<String>()?),
                "topic" => doc.topic = Some(map.next_value::<String>()?),
                "version" => doc.version = Some(map.next_value::<String>()?),
                "parameters" => {
                    let nodes = map.next_value::<BTreeMap<String, NodeFile>>()?;
                    doc.parameters = nodes.into_iter().map(|(name, node)| (name, node.0)).collect();
                }
                "secrets" => {
                    let secrets = map.next_value::<BTreeMap<String, String>>()?;
                    doc.secrets = secrets.into_iter().collect();
                }
                "producer" if self.checked => {
                    doc.producer = Some(map.next_value::<CheckedProducer>()?.0);
                }
                "producer" => {
                    let fields = map.next_value::<BTreeMap<String, String>>()?;
                    doc.producer = Some(ProducerDocument {
                        linger: fields.get("linger").cloned(),
                        compression: fields.get("compression").cloned(),
                        batch_size: fields.get("batch-size").cloned(),
                    });
                }
                "consumer" => {
                    let fields = map.next_value::<BTreeMap<String, i32>>()?;
                    doc.consumer = Some(ConsumerParameters::new(fields.get("partition").copied()));
                }
                _ => {
                    map.next_value::<serde::de::IgnoredAny>()?;
                }
            }
        }
        if self.checked {
            if doc.name.is_none() {
                return Err(serde::de::Error::missing_field("name"));
            }
            if doc.type_.is_none() {
                return Err(serde::de::Error::missing_field("type"));
            }
            if doc.version.is_none() {
                return Err(serde::de::Error::missing_field("version"));
            }
        }
        Ok(doc)
    }
}

fn positioned(yaml: &str) -> String {
    let parsed: Result<CheckedFile, serde_yaml::Error> = serde_yaml::from_str(yaml);
    let error = parsed.err().expect("This yaml should error");
    assert!(error.location().is_some());
    format!("{:?}", error)
}

fn document(yaml: &str) -> ConfigDocument {
    let file: DocumentFile = serde_yaml::from_str(yaml).expect("Failed to deserialize");
    file.0
}

fn load(yaml: &str) -> Result<ConnectorConfig, ConfigError> {
    ConnectorConfig::load(&document(yaml))
}

fn texts(items: &[&str]) -> ManagedConnectorParameterValue {
    ManagedConnectorParameterValue::Vec(items.iter().map(|s| s.to_string()).collect())
}

fn one(text: &str) -> ManagedConnectorParameterValue {
    ManagedConnectorParameterValue::String(text.to_string())
}

const FULL: &str = r#"
version: 0.1.0
name: my-test-mqtt
type: mqtt
topic: my-mqtt
parameters:
  param_1: "mqtt.hsl.fi"
  param_2:
    - "foo:baz"
    - "bar"
  param_3:
    foo: bar
    bar: 10.0
    linger.ms: 10
  param_4: true
  param_5: 10
  param_6:
    - -10
    - -10.0
secrets:
  password: hunter2
producer:
  linger: 1ms
  batch-size: '44.0 MB'
  compression: gzip
consumer:
  partition: 10
"#;

const HEAD: &str = "name: my-test-mqtt\ntype: mqtt\ntopic: my-mqtt\nversion: 0.1.0\ncreate_topic: false\ndirection: source\n";

fn with_producer(lines: &str) -> String {
    format!("name: n\ntype: t\ntopic: p\nversion: v\nproducer:\n{}", lines)
}

#[test]
fn full_yaml_test() {
    let accepted: Result<CheckedFile, serde_yaml::Error> = serde_yaml::from_str(FULL);
    let checked = accepted.ok().expect("Failed to load test config").0;
    assert!(checked == document(FULL));
    let config = load(FULL).ok().expect("Failed to load test config");
    assert_eq!(config.name, "my-test-mqtt");
    assert_eq!(config.type_, "mqtt");
    assert_eq!(config.topic, "my-mqtt");
    assert_eq!(config.version, "0.1.0");
    let p = &config.parameters;
    assert_eq!(p.len(), 6);
    assert_eq!(p.get("param_1"), Some(&one("mqtt.hsl.fi")));
    assert_eq!(p.get("param_2"), Some(&texts(&["foo:baz", "bar"])));
    match p.get("param_3") {
        Some(ManagedConnectorParameterValue::Mapping(m)) => {
            assert_eq!(m.len(), 3);
            assert_eq!(m.get("bar"), Some(&"10.0".to_string()));
            assert_eq!(m.get("foo"), Some(&"bar".to_string()));
            assert_eq!(m.get("linger.ms"), Some(&"10".to_string()));
        }
        other => panic!("param_3 is {:?}", other),
    }
    assert_eq!(p.get("param_4"), Some(&one("true")));
    assert_eq!(p.get("param_5"), Some(&one("10")));
    assert_eq!(p.get("param_6"), Some(&texts(&["-10", "-10.0"])));
    assert_eq!(config.secrets.len(), 1);
    assert!(config.secrets.get("password") == Some(&SecretString::from_str("hunter2")));
    let producer: &ProducerParameters = config.producer.as_ref().expect("a producer block");
    assert_eq!(producer.linger(), TimeSpan::new(0, 1_000_000));
    assert_eq!(producer.linger().map(|l| l.as_nanos()), Some(1_000_000));
    assert_eq!(producer.compression(), Some(Compression::Gzip));
    assert_eq!(producer.batch_size(), Some(44_000_000));
    assert_eq!(producer.batch_size_string(), &Some("44.0 MB".to_string()));
    assert_eq!(config.consumer.map(|c| c.partition()), Some(Some(10)));
}

#[test]
fn simple_yaml_test() {
    let config = load("version: latest\nname: my-test\ntype: http\ntopic: my-topic\n")
        .ok()
        .expect("Failed to load test config");
    assert_eq!(config.name, "my-test");
    assert_eq!(config.topic, "my-topic");
    assert!(config.parameters.is_empty());
    assert!(config.secrets.is_empty());
    assert!(config.producer.is_none());
    assert!(config.consumer.is_none());
}

#[test]
fn error_yaml_tests() {
    let connector_cfg = positioned(&format!("{}producer:\n  linger: \"1\"\n", HEAD));
    assert_eq!("Message(\"invalid value: string \\\"1\\\", expected a duration\", Some(Pos { marker: Marker { index: 118, line: 8, col: 10 }, path: \"producer.linger\" }))", connector_cfg);
    let connector_cfg = positioned(&format!("{}producer:\n  compression: gzipaoeu\n", HEAD));
    assert_eq!("Message(\"unknown variant `gzipaoeu`, expected one of `none`, `gzip`, `snappy`, `lz4`\", Some(Pos { marker: Marker { index: 123, line: 8, col: 15 }, path: \"producer.compression\" }))", connector_cfg);

    let accepted: Result<CheckedFile, serde_yaml::Error> =
        serde_yaml::from_str(&format!("{}producer:\n  batch-size: 44.0 aoeu\n", HEAD));
    let connector_cfg = match ConnectorConfig::load(&accepted.ok().expect("the parser accepts it").0)
    {
        Err(ConfigError::InvalidSize { message, .. }) => message,
        _ => panic!("This yaml should error"),
    };
    assert_eq!(
        "\"couldn't parse \\\"aoeu\\\" into a known SI unit, couldn't parse unit of \\\"aoeu\\\"\"",
        format!("{:?}", connector_cfg)
    );
    let connector_cfg = positioned("name: my-test-mqtt\ntype: mqtt\ntopic: my-mqtt\n");
    assert_eq!("Message(\"missing field `version`\", Some(Pos { marker: Marker { index: 4, line: 1, col: 4 }, path: \".\" }))", connector_cfg);

    let error = load(&with_producer("  linger: \"1\"\n")).err().expect("This yaml should error");
    assert_eq!(
        error,
        ConfigError::InvalidDuration { field: "producer.linger".to_string(), value: "1".to_string() }
    );
    assert_eq!(
        error.message(),
        "producer.linger: invalid value: string \"1\", expected a duration"
    );

    let error =
        load(&with_producer("  compression: gzipaoeu\n")).err().expect("This yaml should error");
    assert_eq!(
        error,
        ConfigError::UnknownVariant {
            field: "producer.compression".to_string(),
            value: "gzipaoeu".to_string()
        }
    );
    assert_eq!(
        error.message(),
        "producer.compression: unknown variant `gzipaoeu`, expected one of `none`, `gzip`, `snappy`, `lz4`"
    );

    let error =
        load(&with_producer("  batch-size: 44.0 aoeu\n")).err().expect("This yaml should error");
    assert_eq!(
        error,
        ConfigError::InvalidSize {
            field: "producer.batch-size".to_string(),
            message:
                "couldn't parse \"aoeu\" into a known SI unit, couldn't parse unit of \"aoeu\""
                    .to_string()
        }
    );

    let error = load(&with_producer("  batch-size: aoeu\n")).err().expect("This yaml should error");
    match error {
        ConfigError::InvalidSize { field, message } => {
            assert_eq!(field, "producer.batch-size");
            assert!(message.starts_with("couldn't parse \"aoeu\" into a ByteSize"), "{}", message);
        }
        other => panic!("a size without a number gave {:?}", other),
    }

    let error = load("name: n\ntype: t\ntopic: p\n").err().expect("This yaml should error");
    assert_eq!(error, ConfigError::MissingField { field: "version".to_string() });
    assert_eq!(error.message(), "missing field `version`");
}

#[test]
fn deserialize_test() {
    let yaml = r#"
name: kafka-out
parameters:
  param_1: "param_str"
  param_2:
   - item_1
   - item_2
   - 10
   - 10.0
   - true
   - On
   - Off
   - null
  param_3:
    arg1: val1
    arg2: 10
    arg3: -10
    arg4: false
    arg5: 1.0
    arg6: null
    arg7: On
    arg8: Off
  param_4: 10
  param_5: 10.0
  param_6: -10
  param_7: True
  param_8: 0xf1
  param_9: null
  param_10: 12.3015e+05
  param_11: [On, Off]
  param_12: true
secrets: {}
topic: poc1
type: kafka-sink
version: latest
"#;
    let connector_spec = load(yaml).ok().expect("Failed to deserialize");
    let p = &connector_spec.parameters;
    assert_eq!(p.len(), 12);
    assert_eq!(p.get("param_1"), Some(&one("param_str")));
    assert_eq!(
        p.get("param_2"),
        Some(&texts(&["item_1", "item_2", "10", "10.0", "true", "On", "Off", "null"]))
    );
    match p.get("param_3") {
        Some(ManagedConnectorParameterValue::Mapping(m)) => {
            let expected = [
                ("arg1", "val1"),
                ("arg2", "10"),
                ("arg3", "-10"),
                ("arg4", "false"),
                ("arg5", "1.0"),
                ("arg6", "null"),
                ("arg7", "On"),
                ("arg8", "Off"),
            ];
            assert_eq!(m.len(), expected.len());
            for (k, v) in expected {
                assert_eq!(m.get(k), Some(&v.to_string()));
            }
        }
        other => panic!("param_3 is {:?}", other),
    }
    assert_eq!(p.get("param_4"), Some(&one("10")));
    assert_eq!(p.get("param_5"), Some(&one("10")));
    assert_eq!(p.get("param_6"), Some(&one("-10")));
    assert_eq!(p.get("param_7"), Some(&one("True")));
    assert_eq!(p.get("param_8"), Some(&one("241")));
    assert_eq!(p.get("param_9"), Some(&one("null")));
    assert_eq!(p.get("param_10"), Some(&one("1230150")));
    assert_eq!(p.get("param_11"), Some(&texts(&["On", "Off"])));
    assert_eq!(p.get("param_12"), Some(&one("true")));
    assert_eq!(connector_spec.name, "kafka-out");
    assert_eq!(connector_spec.topic, "poc1");
    assert_eq!(connector_spec.type_, "kafka-sink");
    assert_eq!(connector_spec.version, "latest");
}

#[test]
fn the_topic_defaults_to_the_type() {
    let config = load("name: n\ntype: kafka-sink\nversion: v\n").ok().expect("a topic is optional");
    assert_eq!(config.topic, "kafka-sink");
    let config = load("name: n\ntype: kafka-sink\nversion: v\ntopic: t\n").ok().expect("loads");
    assert_eq!(config.topic, "t");
}

#[test]
fn the_first_missing_field_is_reported() {
    let missing = |yaml: &str| load(yaml).err().map(|e| e.message());
    assert_eq!(missing("type: t\n"), Some("missing field `name`".to_string()));
    assert_eq!(missing("name: n\nversion: v\n"), Some("missing field `type`".to_string()));
    assert_eq!(missing("name: n\ntype: t\n"), Some("missing field `version`".to_string()));
    assert_eq!(missing("{}"), Some("missing field `name`".to_string()));
}

#[test]
fn a_malformed_parameter_fails_the_whole_document() {
    let mut doc = document("name: n\ntype: t\nversion: v\nparameters:\n  fine: 1\nproducer:\n  linger: nonsense\n");
    doc.parameters.push((
        "broken".to_string(),
        ParameterNode::Sequence(vec![Element::Scalar(Scalar::Text("a".to_string())), Element::Mapping]),
    ));
    let error = ConnectorConfig::load(&doc).err().expect("a nested mapping is no element");
    assert_eq!(
        error,
        ConfigError::InvalidParameter {
            name: "broken".to_string(),
            error: ShapeError::NestedElement { index: 1 }
        }
    );
    assert_eq!(error.message(), "parameters.broken: element 1 is a collection, expected a scalar");
    let value = ConfigError::InvalidParameter {
        name: "m".to_string(),
        error: ShapeError::NestedValue { index: 12 },
    };
    assert_eq!(value.message(), "parameters.m: value 12 is a collection, expected a scalar");
    let key = ConfigError::InvalidParameter {
        name: "m".to_string(),
        error: ShapeError::NestedKey { index: 0 },
    };
    assert_eq!(key.message(), "parameters.m: key 0 is a collection, expected a scalar");
}

#[test]
fn the_parser_refuses_a_collection_inside_a_collection() {
    let yaml = "name: n\ntype: t\nversion: v\nparameters:\n  broken:\n    - a\n    - {b: c}\n";
    let parsed: Result<DocumentFile, serde_yaml::Error> = serde_yaml::from_str(yaml);
    let error = parsed.err().expect("an element that is a mapping is no text");
    assert!(error.location().is_some());
}

#[test]
fn producer_fields_are_checked_in_order() {
    let both = ProducerDocument {
        linger: Some("1".to_string()),
        compression: Some("zip".to_string()),
        batch_size: Some("x".to_string()),
    };
    assert!(matches!(
        ProducerParameters::from_document(&both),
        Err(ConfigError::InvalidDuration { .. })
    ));
    let two = ProducerDocument { linger: Some("1s".to_string()), ..both.clone() };
    assert!(matches!(
        ProducerParameters::from_document(&two),
        Err(ConfigError::UnknownVariant { .. })
    ));
    let last = ProducerDocument { compression: Some("lz4".to_string()), ..two.clone() };
    assert!(matches!(
        ProducerParameters::from_document(&last),
        Err(ConfigError::InvalidSize { .. })
    ));
    let none = ProducerDocument { linger: None, compression: None, batch_size: None };
    let empty = ProducerParameters::from_document(&none).expect("nothing can be wrong");
    assert_eq!(empty.linger(), None);
    assert_eq!(empty.compression(), None);
    assert_eq!(empty.batch_size(), None);
    assert_eq!(empty.batch_size_string(), &None);
}

#[test]
fn readings_decide_the_producer() {
    let doc = ProducerDocument {
        linger: Some("whatever".to_string()),
        compression: Some("snappy".to_string()),
        batch_size: Some("large".to_string()),
    };
    let ok = ProducerParameters::from_readings(&doc, TimeSpan::new(2, 0), Ok(9))
        .expect("both readings are there");
    assert_eq!(ok.linger(), TimeSpan::new(2, 0));
    assert_eq!(ok.compression(), Some(Compression::Snappy));
    assert_eq!(ok.batch_size(), Some(9));
    assert_eq!(ok.batch_size_string(), &Some("large".to_string()));
    assert_eq!(
        ProducerParameters::from_readings(&doc, None, Ok(9)),
        Err(ConfigError::InvalidDuration {
            field: "producer.linger".to_string(),
            value: "whatever".to_string()
        })
    );
    assert_eq!(
        ProducerParameters::from_readings(&doc, TimeSpan::new(2, 0), Err("no".to_string())),
        Err(ConfigError::InvalidSize {
            field: "producer.batch-size".to_string(),
            message: "no".to_string()
        })
    );
    let absent = ProducerDocument { linger: None, compression: None, batch_size: None };
    let ignored =
        ProducerParameters::from_readings(&absent, TimeSpan::new(2, 0), Err("no".to_string()))
            .expect("readings of absent fields are not looked at");
    assert_eq!(ignored.linger(), None);
    assert_eq!(ignored.batch_size(), None);
}

#[test]
fn compressions_have_four_names() {
    for (name, c) in [
        ("none", Compression::Uncompressed),
        ("gzip", Compression::Gzip),
        ("snappy", Compression::Snappy),
        ("lz4", Compression::Lz4),
    ] {
        assert_eq!(Compression::from_name(name), Some(c));
        assert_eq!(c.name(), name);
    }
    for other in ["", "GZIP", "zstd", "gzipaoeu", "lz"] {
        assert_eq!(Compression::from_name(other), None);
    }
}
