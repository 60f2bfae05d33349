//! The typed configuration of a connector, and the rules by which it is
//! derived from what a configuration document holds.
//!
//! Reading the file and parsing its format are not done here: the document
//! arrives field by field, as texts. This module checks that what is needed
//! is there, reads durations and sizes in their written form, and classifies
//! the parameters.

use vstd::prelude::*;
use crate::namemap::{collect, NameMap};
use crate::secret::SecretString;
use vstd::string::StringExecFns;
use crate::text::{decimal_text, render_u64, same_text, text_of};
use crate::value::{
    classify,
    ManagedConnectorParameterValue,
    ParameterNode,
    ParameterNodeView,
    ParameterValueView,
    ShapeError,
};
use crate::units::{bytesize_reading, duration_of, parse_duration, parse_size, TimeSpan, TimeSpanView};

verus! {

/// The path of the linger field.
pub const LINGER_FIELD: &'static str = "producer.linger";

/// The path of the compression field.
pub const COMPRESSION_FIELD: &'static str = "producer.compression";

/// The path of the batch size field.
pub const BATCH_SIZE_FIELD: &'static str = "producer.batch-size";

/// How a producer compresses its batches.
#[derive(Clone, Copy, Debug, PartialEq, Eq)]
pub enum Compression {
    Uncompressed,
    Gzip,
    Snappy,
    Lz4,
}

/// The compression that `name` stands for: one of `none`, `gzip`, `snappy`
/// and `lz4`, in lower case.
pub open spec fn compression_named(name: Seq<char>) -> Option<Compression> {
    if name == "none"@ {
        Some(Compression::Uncompressed)
    } else if name == "gzip"@ {
        Some(Compression::Gzip)
    } else if name == "snappy"@ {
        Some(Compression::Snappy)
    } else if name == "lz4"@ {
        Some(Compression::Lz4)
    } else {
        None
    }
}

/// The name of a compression.
pub open spec fn compression_name(c: Compression) -> Seq<char> {
    match c {
        Compression::Uncompressed => "none"@,
        Compression::Gzip => "gzip"@,
        Compression::Snappy => "snappy"@,
        Compression::Lz4 => "lz4"@,
    }
}

impl Compression {
    /// The compression with the given name, if it is one of the four.
    pub fn from_name(name: &str) -> (c: Option<Compression>)
        ensures
            c == compression_named(name@),
    {
        if same_text(name, "none") {
            Some(Compression::Uncompressed)
        } else if same_text(name, "gzip") {
            Some(Compression::Gzip)
        } else if same_text(name, "snappy") {
            Some(Compression::Snappy)
        } else if same_text(name, "lz4") {
            Some(Compression::Lz4)
        } else {
            None
        }
    }

    /// The name under which a document selects this compression.
    pub fn name(&self) -> (n: &'static str)
        ensures
            n@ == compression_name(*self),
    {
        match self {
            Compression::Uncompressed => "none",
            Compression::Gzip => "gzip",
            Compression::Snappy => "snappy",
            Compression::Lz4 => "lz4",
        }
    }
}

/// The four names are distinct, so a compression is found again by its name.
pub proof fn lemma_compression_names_round_trip(c: Compression)
    ensures
        compression_named(compression_name(c)) == Some(c),
{
    reveal_strlit("none");
    reveal_strlit("gzip");
    reveal_strlit("snappy");
    reveal_strlit("lz4");
    assert("none"@.len() == 4);
    assert("gzip"@.len() == 4);
    assert("snappy"@.len() == 6);
    assert("lz4"@.len() == 3);
    assert("none"@[0] == 'n');
    assert("gzip"@[0] == 'g');
}

/// The view of an optional text.
pub open spec fn opt_text(t: Option<String>) -> Option<Seq<char>> {
    match t {
        Some(s) => Some(s@),
        None => None,
    }
}

/// A copy of an optional text.
pub fn copy_opt_text(t: &Option<String>) -> (c: Option<String>)
    ensures
        opt_text(c) == opt_text(*t),
{
    match t {
        Some(s) => Some(s.clone()),
        None => None,
    }
}

/// Why a document is no configuration.
#[derive(Debug, Clone, PartialEq, Eq)]
pub enum ConfigError {
    /// A field that must be there is not.
    MissingField { field: String },
    /// The text of a duration field is no duration.
    InvalidDuration { field: String, value: String },
    /// The text of a field with named choices is none of them.
    UnknownVariant { field: String, value: String },
    /// The text of a size field is no size; the message names what could not be read.
    InvalidSize { field: String, message: String },
    /// The node of a parameter has a shape that no parameter value has.
    InvalidParameter { name: String, error: ShapeError },
}

/// The mathematical content of a [`ConfigError`].
pub enum ConfigErrorView {
    MissingField { field: Seq<char> },
    InvalidDuration { field: Seq<char>, value: Seq<char> },
    UnknownVariant { field: Seq<char>, value: Seq<char> },
    InvalidSize { field: Seq<char>, message: Seq<char> },
    InvalidParameter { name: Seq<char>, error: ShapeError },
}

impl View for ConfigError {
    type V = ConfigErrorView;

    open spec fn view(&self) -> ConfigErrorView {
        match self {
            ConfigError::MissingField { field } => ConfigErrorView::MissingField { field: field@ },
            ConfigError::InvalidDuration { field, value } => ConfigErrorView::InvalidDuration {
                field: field@,
                value: value@,
            },
            ConfigError::UnknownVariant { field, value } => ConfigErrorView::UnknownVariant {
                field: field@,
                value: value@,
            },
            ConfigError::InvalidSize { field, message } => ConfigErrorView::InvalidSize {
                field: field@,
                message: message@,
            },
            ConfigError::InvalidParameter { name, error } => ConfigErrorView::InvalidParameter {
                name: name@,
                error: *error,
            },
        }
    }
}

/// The producer block of a document, as written.
#[derive(Debug, Clone, PartialEq, Eq)]
pub struct ProducerDocument {
    pub linger: Option<String>,
    pub compression: Option<String>,
    pub batch_size: Option<String>,
}

/// The mathematical content of a [`ProducerDocument`].
pub struct ProducerDocumentView {
    pub linger: Option<Seq<char>>,
    pub compression: Option<Seq<char>>,
    pub batch_size: Option<Seq<char>>,
}

impl View for ProducerDocument {
    type V = ProducerDocumentView;

    open spec fn view(&self) -> ProducerDocumentView {
        ProducerDocumentView {
            linger: opt_text(self.linger),
            compression: opt_text(self.compression),
            batch_size: opt_text(self.batch_size),
        }
    }
}

/// How a producer is tuned.
#[derive(Debug, Clone, PartialEq, Eq)]
pub struct ProducerParameters {
    linger: Option<TimeSpan>,
    compression: Option<Compression>,
    batch_size_string: Option<String>,
    batch_size: Option<u64>,
}

/// The mathematical content of [`ProducerParameters`].
pub struct ProducerView {
    pub linger: Option<TimeSpanView>,
    pub compression: Option<Compression>,
    /// The batch size as the document wrote it.
    pub batch_size_string: Option<Seq<char>>,
    /// The batch size in bytes.
    pub batch_size: Option<u64>,
}

/// The view of an optional span.
pub open spec fn opt_span(t: Option<TimeSpan>) -> Option<TimeSpanView> {
    match t {
        Some(s) => Some(s@),
        None => None,
    }
}

/// The producer parameters for a producer block, given what its linger text
/// reads as and what its batch size text reads as. The first field that
/// cannot be read is the error: linger, then compression, then batch size.
/// A reading of a field that the block does not have is not looked at.
pub open spec fn producer_from(
    doc: ProducerDocumentView,
    linger: Option<TimeSpanView>,
    size: Result<u64, Seq<char>>,
) -> Result<ProducerView, ConfigErrorView> {
    if doc.linger is Some && linger is None {
        Err(ConfigErrorView::InvalidDuration { field: LINGER_FIELD@, value: doc.linger->0 })
    } else if doc.compression is Some && compression_named(doc.compression->0) is None {
        Err(
            ConfigErrorView::UnknownVariant {
                field: COMPRESSION_FIELD@,
                value: doc.compression->0,
            },
        )
    } else if doc.batch_size is Some && size is Err {
        Err(ConfigErrorView::InvalidSize { field: BATCH_SIZE_FIELD@, message: size->Err_0 })
    } else {
        Ok(
            ProducerView {
                linger: if doc.linger is Some {
                    linger
                } else {
                    None
                },
                compression: if doc.compression is Some {
                    compression_named(doc.compression->0)
                } else {
                    None
                },
                batch_size_string: doc.batch_size,
                batch_size: if doc.batch_size is Some {
                    Some(size->Ok_0)
                } else {
                    None
                },
            },
        )
    }
}

/// What the linger text of a producer block reads as.
pub open spec fn linger_reading(doc: ProducerDocumentView) -> Option<TimeSpanView> {
    match doc.linger {
        Some(text) => duration_of(text),
        None => None,
    }
}

/// What the batch size text of a producer block reads as.
pub open spec fn size_reading(doc: ProducerDocumentView) -> Result<u64, Seq<char>> {
    match doc.batch_size {
        Some(text) => bytesize_reading(text),
        None => Ok(0),
    }
}

/// The producer parameters for a producer block.
pub open spec fn producer_of(doc: ProducerDocumentView) -> Result<ProducerView, ConfigErrorView> {
    producer_from(doc, linger_reading(doc), size_reading(doc))
}

/// Whether `got` is the exec form of what the model `want` asks for.
pub open spec fn matches_producer(
    got: Result<ProducerParameters, ConfigError>,
    want: Result<ProducerView, ConfigErrorView>,
) -> bool {
    match got {
        Ok(p) => want == Ok::<ProducerView, ConfigErrorView>(p@),
        Err(e) => want == Err::<ProducerView, ConfigErrorView>(e@),
    }
}

/// The view of a reading of a size.
pub open spec fn size_view(size: Result<u64, String>) -> Result<u64, Seq<char>> {
    match size {
        Ok(n) => Ok(n),
        Err(m) => Err(m@),
    }
}

impl ProducerParameters {
    /// The linger, the compression and the batch size.
    pub closed spec fn view(&self) -> ProducerView {
        ProducerView {
            linger: opt_span(self.linger),
            compression: self.compression,
            batch_size_string: opt_text(self.batch_size_string),
            batch_size: self.batch_size,
        }
    }

    /// How long a batch waits for more records.
    pub fn linger(&self) -> (l: Option<TimeSpan>)
        ensures
            opt_span(l) == self@.linger,
    {
        self.linger
    }

    /// How batches are compressed.
    pub fn compression(&self) -> (c: Option<Compression>)
        ensures
            c == self@.compression,
    {
        self.compression
    }

    /// The size of a batch in bytes.
    pub fn batch_size(&self) -> (b: Option<u64>)
        ensures
            b == self@.batch_size,
    {
        self.batch_size
    }

    /// The size of a batch as the document wrote it.
    pub fn batch_size_string(&self) -> (b: &Option<String>)
        ensures
            opt_text(*b) == self@.batch_size_string,
    {
        &self.batch_size_string
    }

    /// Builds the parameters from a producer block and from what its linger
    /// and batch size texts were read as.
    pub fn from_readings(
        doc: &ProducerDocument,
        linger: Option<TimeSpan>,
        size: Result<u64, String>,
    ) -> (r: Result<ProducerParameters, ConfigError>)
        ensures
            matches_producer(r, producer_from(doc@, opt_span(linger), size_view(size))),
    {
        let linger = match &doc.linger {
            Some(text) => match linger {
                Some(span) => Some(span),
                None => {
                    return Err(
                        ConfigError::InvalidDuration {
                            field: text_of(LINGER_FIELD),
                            value: text.clone(),
                        },
                    );
                },
            },
            None => None,
        };
        let compression = match &doc.compression {
            Some(text) => match Compression::from_name(text.as_str()) {
                Some(c) => Some(c),
                None => {
                    return Err(
                        ConfigError::UnknownVariant {
                            field: text_of(COMPRESSION_FIELD),
                            value: text.clone(),
                        },
                    );
                },
            },
            None => None,
        };
        let batch_size = match &doc.batch_size {
            Some(_) => match size {
                Ok(n) => Some(n),
                Err(message) => {
                    return Err(
                        ConfigError::InvalidSize { field: text_of(BATCH_SIZE_FIELD), message },
                    );
                },
            },
            None => None,
        };
        Ok(
            ProducerParameters {
                linger,
                compression,
                batch_size_string: copy_opt_text(&doc.batch_size),
                batch_size,
            },
        )
    }

    /// Builds the parameters from a producer block: reads the linger as a
    /// duration, the compression as one of its four names, and the batch
    /// size as a byte size.
    pub fn from_document(doc: &ProducerDocument) -> (r: Result<ProducerParameters, ConfigError>)
        ensures
            matches_producer(r, producer_of(doc@)),
    {
        let linger = match &doc.linger {
            Some(text) => parse_duration(text.as_str()),
            None => None,
        };
        let size = match &doc.batch_size {
            Some(text) => parse_size(text.as_str()),
            None => Ok(0),
        };
        ProducerParameters::from_readings(doc, linger, size)
    }
}

/// How a consumer is tuned.
#[derive(Clone, Copy, Debug, PartialEq, Eq)]
pub struct ConsumerParameters {
    partition: Option<i32>,
}

impl ConsumerParameters {
    /// The partition to read from, if one is chosen.
    pub closed spec fn view(&self) -> Option<i32> {
        self.partition
    }

    /// Consumer parameters that select `partition`.
    pub fn new(partition: Option<i32>) -> (c: ConsumerParameters)
        ensures
            c@ == partition,
    {
        ConsumerParameters { partition }
    }

    /// The partition to read from, if one is chosen.
    pub fn partition(&self) -> (p: Option<i32>)
        ensures
            p == self@,
    {
        self.partition
    }
}

/// What a configuration document holds, field by field, before any of it is
/// checked. A field that the document does not have is `None`.
#[derive(Debug, Clone, PartialEq, Eq)]
pub struct ConfigDocument {
    pub name: Option<String>,
    pub type_: Option<String>,
    pub topic: Option<String>,
    pub version: Option<String>,
    /// The parameters, each a name and the node that the document holds for it.
    pub parameters: Vec<(String, ParameterNode)>,
    /// The secrets, each a name and a text.
    pub secrets: Vec<(String, String)>,
    pub producer: Option<ProducerDocument>,
    pub consumer: Option<ConsumerParameters>,
}

/// The mathematical content of a [`ConfigDocument`].
pub struct ConfigDocumentView {
    pub name: Option<Seq<char>>,
    pub type_: Option<Seq<char>>,
    pub topic: Option<Seq<char>>,
    pub version: Option<Seq<char>>,
    pub parameters: Seq<(Seq<char>, ParameterNodeView)>,
    pub secrets: Seq<(Seq<char>, Seq<char>)>,
    pub producer: Option<ProducerDocumentView>,
    pub consumer: Option<Option<i32>>,
}

/// The names of `entries`, each with the view of its node.
pub open spec fn parameter_views(entries: Seq<(String, ParameterNode)>) -> Seq<
    (Seq<char>, ParameterNodeView),
> {
    Seq::new(entries.len(), |i: int| (entries[i].0@, entries[i].1@))
}

/// The names of `entries`, each with its secret text.
pub open spec fn secret_pairs(entries: Seq<(String, String)>) -> Seq<(Seq<char>, Seq<char>)> {
    Seq::new(entries.len(), |i: int| (entries[i].0@, entries[i].1@))
}

impl View for ConfigDocument {
    type V = ConfigDocumentView;

    open spec fn view(&self) -> ConfigDocumentView {
        ConfigDocumentView {
            name: opt_text(self.name),
            type_: opt_text(self.type_),
            topic: opt_text(self.topic),
            version: opt_text(self.version),
            parameters: parameter_views(self.parameters@),
            secrets: secret_pairs(self.secrets@),
            producer: match self.producer {
                Some(p) => Some(p@),
                None => None,
            },
            consumer: opt_consumer(self.consumer),
        }
    }
}

/// The configuration of a connector.
#[derive(PartialEq)]
pub struct ConnectorConfig {
    pub name: String,
    pub type_: String,
    pub topic: String,
    pub version: String,
    pub parameters: NameMap<ManagedConnectorParameterValue>,
    pub secrets: NameMap<SecretString>,
    pub producer: Option<ProducerParameters>,
    pub consumer: Option<ConsumerParameters>,
}

/// The mathematical content of a [`ConnectorConfig`].
pub struct ConnectorConfigView {
    pub name: Seq<char>,
    pub type_: Seq<char>,
    pub topic: Seq<char>,
    pub version: Seq<char>,
    pub parameters: Seq<(Seq<char>, ParameterValueView)>,
    pub secrets: Seq<(Seq<char>, Seq<char>)>,
    pub producer: Option<ProducerView>,
    pub consumer: Option<Option<i32>>,
}

/// The view of optional producer parameters.
pub open spec fn opt_producer(p: Option<ProducerParameters>) -> Option<ProducerView> {
    match p {
        Some(x) => Some(x@),
        None => None,
    }
}

/// The view of optional consumer parameters.
pub open spec fn opt_consumer(c: Option<ConsumerParameters>) -> Option<Option<i32>> {
    match c {
        Some(x) => Some(x@),
        None => None,
    }
}

impl View for ConnectorConfig {
    type V = ConnectorConfigView;

    open spec fn view(&self) -> ConnectorConfigView {
        ConnectorConfigView {
            name: self.name@,
            type_: self.type_@,
            topic: self.topic@,
            version: self.version@,
            parameters: self.parameters@,
            secrets: self.secrets@,
            producer: opt_producer(self.producer),
            consumer: opt_consumer(self.consumer),
        }
    }
}

/// Whether `i` is the first parameter of `entries` whose node has no value.
pub open spec fn parameter_fails_at(
    entries: Seq<(Seq<char>, ParameterNodeView)>,
    i: int,
) -> bool {
    &&& 0 <= i < entries.len()
    &&& classify(entries[i].1) is Err
    &&& forall|j: int| 0 <= j < i ==> classify((#[trigger] entries[j]).1) is Ok
}

/// Every parameter of `entries` has a value.
pub open spec fn all_parameters_classify(entries: Seq<(Seq<char>, ParameterNodeView)>) -> bool {
    forall|j: int| 0 <= j < entries.len() ==> classify((#[trigger] entries[j]).1) is Ok
}

/// The names of `entries`, each with the value of its node.
pub open spec fn parameter_pairs(entries: Seq<(Seq<char>, ParameterNodeView)>) -> Seq<
    (Seq<char>, ParameterValueView),
> {
    Seq::new(entries.len(), |i: int| (entries[i].0, classify(entries[i].1)->Ok_0))
}

/// The parameters of a configuration: the value of each node under its
/// name, a later parameter replacing an earlier one of the same name. The
/// first node that has no value is the error.
pub open spec fn parameters_of(entries: Seq<(Seq<char>, ParameterNodeView)>) -> Result<
    Seq<(Seq<char>, ParameterValueView)>,
    ConfigErrorView,
> {
    if all_parameters_classify(entries) {
        Ok(collect(parameter_pairs(entries)))
    } else {
        let at = choose|i: int| parameter_fails_at(entries, i);
        Err(
            ConfigErrorView::InvalidParameter {
                name: entries[at].0,
                error: classify(entries[at].1)->Err_0,
            },
        )
    }
}

/// The producer parameters of a configuration, where the document has a
/// producer block.
pub open spec fn optional_producer_of(doc: Option<ProducerDocumentView>) -> Result<
    Option<ProducerView>,
    ConfigErrorView,
> {
    match doc {
        None => Ok(None),
        Some(p) => match producer_of(p) {
            Ok(v) => Ok(Some(v)),
            Err(e) => Err(e),
        },
    }
}

/// The configuration that a document stands for.
///
/// `name`, `type` and `version` must be there; the first of them that is
/// missing is the error. Then the parameters are classified, and then the
/// producer block is read. The topic is the connector type where the
/// document names none.
pub open spec fn load_spec(doc: ConfigDocumentView) -> Result<
    ConnectorConfigView,
    ConfigErrorView,
> {
    if doc.name is None {
        Err(ConfigErrorView::MissingField { field: "name"@ })
    } else if doc.type_ is None {
        Err(ConfigErrorView::MissingField { field: "type"@ })
    } else if doc.version is None {
        Err(ConfigErrorView::MissingField { field: "version"@ })
    } else {
        match parameters_of(doc.parameters) {
            Err(e) => Err(e),
            Ok(parameters) => match optional_producer_of(doc.producer) {
                Err(e) => Err(e),
                Ok(producer) => Ok(
                    ConnectorConfigView {
                        name: doc.name->0,
                        type_: doc.type_->0,
                        topic: match doc.topic {
                            Some(t) => t,
                            None => doc.type_->0,
                        },
                        version: doc.version->0,
                        parameters,
                        secrets: collect(doc.secrets),
                        producer,
                        consumer: doc.consumer,
                    },
                ),
            },
        }
    }
}

/// Whether `got` is the exec form of what the model `want` asks for.
pub open spec fn matches_loaded(
    got: Result<ConnectorConfig, ConfigError>,
    want: Result<ConnectorConfigView, ConfigErrorView>,
) -> bool {
    match got {
        Ok(c) => want == Ok::<ConnectorConfigView, ConfigErrorView>(c@),
        Err(e) => want == Err::<ConnectorConfigView, ConfigErrorView>(e@),
    }
}

/// Classifies the parameters of a document and collects them by name.
pub fn load_parameters(entries: &Vec<(String, ParameterNode)>) -> (r: Result<
    NameMap<ManagedConnectorParameterValue>,
    ConfigError,
>)
    ensures
        match r {
            Ok(m) => parameters_of(parameter_views(entries@)) == Ok::<
                Seq<(Seq<char>, ParameterValueView)>,
                ConfigErrorView,
            >(m@),
            Err(e) => parameters_of(parameter_views(entries@)) == Err::<
                Seq<(Seq<char>, ParameterValueView)>,
                ConfigErrorView,
            >(e@),
        },
{
    let ghost views = parameter_views(entries@);
    let mut map: NameMap<ManagedConnectorParameterValue> = NameMap::new();
    let mut i: usize = 0;
    assert(parameter_pairs(views).subrange(0, 0) =~= Seq::<
        (Seq<char>, ParameterValueView),
    >::empty());
    while i < entries.len()
        invariant
            i <= entries.len(),
            views == parameter_views(entries@),
            forall|j: int| 0 <= j < i ==> classify((#[trigger] views[j]).1) is Ok,
            map@ == collect(parameter_pairs(views).subrange(0, i as int)),
        decreases entries.len() - i,
    {
        let ghost done = parameter_pairs(views).subrange(0, i as int);
        assert(views[i as int] == (entries@[i as int].0@, entries@[i as int].1@));
        match ManagedConnectorParameterValue::from_node(&entries[i].1) {
            Ok(value) => {
                map.insert(entries[i].0.clone(), value);
                proof {
                    let next = parameter_pairs(views).subrange(0, i as int + 1);
                    assert(next.drop_last() =~= done);
                    assert(next.last() == (entries@[i as int].0@, value@));
                }
            },
            Err(error) => {
                proof {
                    assert(parameter_fails_at(views, i as int));
                    let chosen = choose|k: int| parameter_fails_at(views, k);
                    assert(parameter_fails_at(views, chosen));
                    if chosen < i {
                        assert(classify(views[chosen].1) is Ok);
                    } else if i < chosen {
                        assert(classify(views[i as int].1) is Ok);
                    }
                }
                return Err(ConfigError::InvalidParameter { name: entries[i].0.clone(), error });
            },
        }
        i += 1;
    }
    assert(all_parameters_classify(views));
    assert(parameter_pairs(views).subrange(0, i as int) =~= parameter_pairs(views));
    Ok(map)
}

/// Collects the secrets of a document by name, a later secret replacing an
/// earlier one of the same name.
pub fn load_secrets(entries: &Vec<(String, String)>) -> (m: NameMap<SecretString>)
    ensures
        m@ == collect(secret_pairs(entries@)),
{
    let mut map: NameMap<SecretString> = NameMap::new();
    let mut i: usize = 0;
    assert(secret_pairs(entries@).subrange(0, 0) =~= Seq::<(Seq<char>, Seq<char>)>::empty());
    while i < entries.len()
        invariant
            i <= entries.len(),
            map@ == collect(secret_pairs(entries@).subrange(0, i as int)),
        decreases entries.len() - i,
    {
        let ghost done = secret_pairs(entries@).subrange(0, i as int);
        let secret = SecretString::new(entries[i].1.clone());
        map.insert(entries[i].0.clone(), secret);
        proof {
            let next = secret_pairs(entries@).subrange(0, i as int + 1);
            assert(next.drop_last() =~= done);
            assert(next.last() == (entries@[i as int].0@, entries@[i as int].1@));
        }
        i += 1;
    }
    assert(secret_pairs(entries@).subrange(0, i as int) =~= secret_pairs(entries@));
    map
}

impl ConnectorConfig {
    /// Derives the configuration from what a document holds.
    ///
    /// Fails where `name`, `type` or `version` is missing, where a parameter
    /// has a shape that no value has, where the linger is no duration, where
    /// the compression is none of `none`, `gzip`, `snappy` and `lz4`, and
    /// where the batch size is no byte size. Nothing is derived in part: the
    /// first failure is the result.
    pub fn load(doc: &ConfigDocument) -> (r: Result<ConnectorConfig, ConfigError>)
        ensures
            matches_loaded(r, load_spec(doc@)),
    {
        let name = match &doc.name {
            Some(n) => n.clone(),
            None => {
                return Err(ConfigError::MissingField { field: text_of("name") });
            },
        };
        let type_ = match &doc.type_ {
            Some(t) => t.clone(),
            None => {
                return Err(ConfigError::MissingField { field: text_of("type") });
            },
        };
        let version = match &doc.version {
            Some(v) => v.clone(),
            None => {
                return Err(ConfigError::MissingField { field: text_of("version") });
            },
        };
        let parameters = match load_parameters(&doc.parameters) {
            Ok(p) => p,
            Err(e) => {
                return Err(e);
            },
        };
        let producer = match &doc.producer {
            Some(p) => match ProducerParameters::from_document(p) {
                Ok(x) => Some(x),
                Err(e) => {
                    return Err(e);
                },
            },
            None => None,
        };
        let topic = match &doc.topic {
            Some(t) => t.clone(),
            None => type_.clone(),
        };
        let secrets = load_secrets(&doc.secrets);
        Ok(
            ConnectorConfig {
                name,
                type_,
                topic,
                version,
                parameters,
                secrets,
                producer,
                consumer: doc.consumer,
            },
        )
    }
}

/// What is said of a shape that no parameter value has.
pub open spec fn shape_message(error: ShapeError) -> Seq<char> {
    match error {
        ShapeError::NestedElement { index } => "element "@ + decimal_text(index as int)
            + " is a collection, expected a scalar"@,
        ShapeError::NestedKey { index } => "key "@ + decimal_text(index as int)
            + " is a collection, expected a scalar"@,
        ShapeError::NestedValue { index } => "value "@ + decimal_text(index as int)
            + " is a collection, expected a scalar"@,
    }
}

/// What is said of an error: the field, and what is wrong with it. An
/// unknown compression is answered with the four names that are accepted.
pub open spec fn message_of(error: ConfigErrorView) -> Seq<char> {
    match error {
        ConfigErrorView::MissingField { field } => "missing field `"@ + field + "`"@,
        ConfigErrorView::InvalidDuration { field, value } => field + ": invalid value: string \""@
            + value + "\", expected a duration"@,
        ConfigErrorView::UnknownVariant { field, value } => field + ": unknown variant `"@ + value
            + "`, expected one of `none`, `gzip`, `snappy`, `lz4`"@,
        ConfigErrorView::InvalidSize { field, message } => field + ": "@ + message,
        ConfigErrorView::InvalidParameter { name, error } => "parameters."@ + name + ": "@
            + shape_message(error),
    }
}

fn shape_text(error: &ShapeError) -> (text: String)
    ensures
        text@ == shape_message(*error),
{
    let (mut text, index) = match error {
        ShapeError::NestedElement { index } => (text_of("element "), *index),
        ShapeError::NestedKey { index } => (text_of("key "), *index),
        ShapeError::NestedValue { index } => (text_of("value "), *index),
    };
    let number = render_u64(index as u64);
    text.append(number.as_str());
    text.append(" is a collection, expected a scalar");
    text
}

impl ConfigError {
    /// The error in words.
    pub fn message(&self) -> (text: String)
        ensures
            text@ == message_of(self@),
    {
        match self {
            ConfigError::MissingField { field } => {
                let mut text = text_of("missing field `");
                text.append(field.as_str());
                text.append("`");
                text
            },
            ConfigError::InvalidDuration { field, value } => {
                let mut text = field.clone();
                text.append(": invalid value: string \"");
                text.append(value.as_str());
                text.append("\", expected a duration");
                text
            },
            ConfigError::UnknownVariant { field, value } => {
                let mut text = field.clone();
                text.append(": unknown variant `");
                text.append(value.as_str());
                text.append("`, expected one of `none`, `gzip`, `snappy`, `lz4`");
                text
            },
            ConfigError::InvalidSize { field, message } => {
                let mut text = field.clone();
                text.append(": ");
                text.append(message.as_str());
                text
            },
            ConfigError::InvalidParameter { name, error } => {
                let mut text = text_of("parameters.");
                text.append(name.as_str());
                text.append(": ");
                let shape = shape_text(error);
                text.append(shape.as_str());
                text
            },
        }
    }
}

/// A document that loads has a name, a type and a version, and the
/// configuration has them unchanged. Its topic is the one that the document
/// names, and the type where it names none.
pub proof fn lemma_loaded_configuration_has_its_fields(doc: ConfigDocumentView)
    requires
        load_spec(doc) is Ok,
    ensures
        doc.name == Some(load_spec(doc)->Ok_0.name),
        doc.type_ == Some(load_spec(doc)->Ok_0.type_),
        doc.version == Some(load_spec(doc)->Ok_0.version),
        load_spec(doc)->Ok_0.topic == match doc.topic {
            Some(t) => t,
            None => load_spec(doc)->Ok_0.type_,
        },
{
}

/// A producer block loads only where each field that it has can be read; a
/// compression that loads is one of the four.
pub proof fn lemma_loaded_producer_was_read(doc: ProducerDocumentView)
    requires
        producer_of(doc) is Ok,
    ensures
        doc.linger matches Some(text) ==> duration_of(text) == producer_of(doc)->Ok_0.linger
            && duration_of(text) is Some,
        doc.compression matches Some(name) ==> compression_named(name) is Some
            && compression_named(name) == producer_of(doc)->Ok_0.compression,
        doc.batch_size matches Some(text) ==> bytesize_reading(text) == Ok::<u64, Seq<char>>(
            producer_of(doc)->Ok_0.batch_size->0,
        ),
{
}

} // verus!
