//! The Kafka sink: its options, and the client settings that follow from them.
//!
//! Nothing is read or connected here. Whoever runs the sink reads the key and
//! certificate files that the options name, hands their content in, and gets
//! back the settings to create the client with.

use vstd::prelude::*;
use crate::config::opt_text;
use crate::namemap::{collect, NameMap};
use crate::text::{chars_of, same_text, text_from_chars, text_of};

verus! {

/// The protocol by which the client talks to the brokers.
#[derive(Debug, Clone, Copy, PartialEq, Eq)]
pub enum SecurityProtocolOpt {
    SSL,
}

/// What is said of a protocol name that is not supported.
pub const UNSUPPORTED_PROTOCOL: &'static str =
    "Invalid option. SSL is the only supported security protocol";

/// Where the client finds the certificate authority that was given as text.
pub const CA_LOCATION: &'static str = "/tmp/kafka-client-ca.pem";

/// What `str::to_lowercase` makes of a text.
pub uninterp spec fn lowercase_of(text: Seq<char>) -> Seq<char>;

/// Calls `str::to_lowercase`.
///
/// The contract claims that the result depends on the text alone. Nothing of
/// the mapping of characters is claimed.
#[verifier::external_body]
fn lowercase(text: &str) -> (lowered: String)
    ensures
        lowered@ == lowercase_of(text@),
{
    text.to_lowercase()
}

/// The protocol that a name in lower case stands for.
pub open spec fn protocol_named(lowered: Seq<char>) -> Result<SecurityProtocolOpt, Seq<char>> {
    if lowered == "ssl"@ {
        Ok(SecurityProtocolOpt::SSL)
    } else {
        Err(UNSUPPORTED_PROTOCOL@)
    }
}

/// Whether `got` is the exec form of what the model `want` asks for.
pub open spec fn matches_protocol(
    got: Result<SecurityProtocolOpt, String>,
    want: Result<SecurityProtocolOpt, Seq<char>>,
) -> bool {
    match got {
        Ok(p) => want == Ok::<SecurityProtocolOpt, Seq<char>>(p),
        Err(m) => want == Err::<SecurityProtocolOpt, Seq<char>>(m@),
    }
}

impl SecurityProtocolOpt {
    /// The name of the protocol as the client wants it.
    pub fn to_string(&self) -> (name: String)
        ensures
            name@ == "SSL"@,
    {
        match self {
            SecurityProtocolOpt::SSL => text_of("SSL"),
        }
    }

    /// The protocol for a name that is already in lower case: `ssl`, and
    /// nothing else.
    pub fn from_lowercase(lowered: &str) -> (r: Result<SecurityProtocolOpt, String>)
        ensures
            matches_protocol(r, protocol_named(lowered@)),
    {
        if same_text(lowered, "ssl") {
            Ok(SecurityProtocolOpt::SSL)
        } else {
            Err(text_of(UNSUPPORTED_PROTOCOL))
        }
    }

    /// The protocol for a name, in whatever case it is written.
    pub fn from_str(name: &str) -> (r: Result<SecurityProtocolOpt, String>)
        ensures
            matches_protocol(r, protocol_named(lowercase_of(name@))),
    {
        let lowered = lowercase(name);
        SecurityProtocolOpt::from_lowercase(lowered.as_str())
    }
}

/// How the client proves who it is and whom it trusts. Each of the three
/// things can be given as a file or as text.
#[derive(Debug, Clone, PartialEq, Eq)]
pub struct SecurityOpt {
    pub ssl_key_file: Option<String>,
    pub ssl_key_pem: Option<String>,
    pub ssl_cert_file: Option<String>,
    pub ssl_cert_pem: Option<String>,
    pub ssl_ca_file: Option<String>,
    pub ssl_ca_pem: Option<String>,
    pub security_protocol: Option<SecurityProtocolOpt>,
}

/// The options of the Kafka sink.
#[derive(Debug, Clone, PartialEq, Eq)]
pub struct KafkaOpt {
    /// The brokers to connect to, separated by commas.
    pub kafka_url: String,
    pub kafka_topic: Option<String>,
    pub kafka_partition: Option<i32>,
    /// Client settings, each written as `key:value`.
    pub kafka_option: Vec<String>,
    /// The topic that the sink reads; it names the Kafka topic where none is given.
    pub fluvio_topic: String,
    pub security: SecurityOpt,
}

/// The mathematical content of a [`SecurityOpt`].
pub struct SecurityOptView {
    pub ssl_key_file: Option<Seq<char>>,
    pub ssl_key_pem: Option<Seq<char>>,
    pub ssl_cert_file: Option<Seq<char>>,
    pub ssl_cert_pem: Option<Seq<char>>,
    pub ssl_ca_file: Option<Seq<char>>,
    pub ssl_ca_pem: Option<Seq<char>>,
    pub security_protocol: Option<SecurityProtocolOpt>,
}

impl View for SecurityOpt {
    type V = SecurityOptView;

    open spec fn view(&self) -> SecurityOptView {
        SecurityOptView {
            ssl_key_file: opt_text(self.ssl_key_file),
            ssl_key_pem: opt_text(self.ssl_key_pem),
            ssl_cert_file: opt_text(self.ssl_cert_file),
            ssl_cert_pem: opt_text(self.ssl_cert_pem),
            ssl_ca_file: opt_text(self.ssl_ca_file),
            ssl_ca_pem: opt_text(self.ssl_ca_pem),
            security_protocol: self.security_protocol,
        }
    }
}

/// The mathematical content of a [`KafkaOpt`].
pub struct KafkaOptView {
    pub kafka_url: Seq<char>,
    pub kafka_topic: Option<Seq<char>>,
    pub kafka_partition: Option<i32>,
    pub kafka_option: Seq<Seq<char>>,
    pub fluvio_topic: Seq<char>,
    pub security: SecurityOptView,
}

/// The views of the texts of a list, in order.
pub open spec fn option_texts(options: Seq<String>) -> Seq<Seq<char>> {
    Seq::new(options.len(), |i: int| options[i]@)
}

impl View for KafkaOpt {
    type V = KafkaOptView;

    open spec fn view(&self) -> KafkaOptView {
        KafkaOptView {
            kafka_url: self.kafka_url@,
            kafka_topic: opt_text(self.kafka_topic),
            kafka_partition: self.kafka_partition,
            kafka_option: option_texts(self.kafka_option@),
            fluvio_topic: self.fluvio_topic@,
            security: self.security@,
        }
    }
}

/// Why options give no client.
#[derive(Debug, Clone, Copy, PartialEq, Eq)]
pub enum KafkaOptError {
    /// The client setting at `index` has no colon between key and value.
    MalformedOption { index: usize },
}

/// What the sink needs to start: where to write, and what to create the
/// client with.
#[derive(Debug, PartialEq, Eq)]
pub struct KafkaSinkDependencies {
    pub kafka_topic: String,
    pub kafka_partition: Option<i32>,
    /// The client settings by key, in the ascending order of the keys; a
    /// later setting of a key replaced an earlier one.
    pub client_settings: NameMap<String>,
    /// The certificate authority to write to [`CA_LOCATION`] before the
    /// client is created, where it was given as text.
    pub ca_pem: Option<String>,
}

/// The mathematical content of a [`KafkaSinkDependencies`].
pub struct KafkaSinkView {
    pub kafka_topic: Seq<char>,
    pub kafka_partition: Option<i32>,
    pub client_settings: Seq<(Seq<char>, Seq<char>)>,
    pub ca_pem: Option<Seq<char>>,
}

impl View for KafkaSinkDependencies {
    type V = KafkaSinkView;

    open spec fn view(&self) -> KafkaSinkView {
        KafkaSinkView {
            kafka_topic: self.kafka_topic@,
            kafka_partition: self.kafka_partition,
            client_settings: self.client_settings@,
            ca_pem: opt_text(self.ca_pem),
        }
    }
}

/// The index of the first colon of `s`, or its length where it has none.
pub open spec fn first_colon(s: Seq<char>) -> int
    decreases s.len(),
{
    if s.len() == 0 || s[0] == ':' {
        0
    } else {
        1 + first_colon(s.drop_first())
    }
}

/// The key and the value of a client setting written as `key:value`: what
/// stands before the first colon, and what stands between it and the next
/// colon or the end. A text without a colon is no setting.
pub open spec fn option_pair(s: Seq<char>) -> Option<(Seq<char>, Seq<char>)> {
    let i = first_colon(s);
    if 0 <= i < s.len() {
        let rest = s.subrange(i + 1, s.len() as int);
        Some((s.subrange(0, i), rest.subrange(0, first_colon(rest))))
    } else {
        None
    }
}

/// A position up to which no colon stands, and which holds a colon or is the
/// end, is the first colon.
pub proof fn lemma_first_colon_is(s: Seq<char>, i: int)
    requires
        0 <= i <= s.len(),
        forall|j: int| 0 <= j < i ==> s[j] != ':',
        i < s.len() ==> s[i] == ':',
    ensures
        first_colon(s) == i,
    decreases s.len(),
{
    if i > 0 {
        assert(s[0] != ':');
        let tail = s.drop_first();
        assert forall|j: int| 0 <= j < i - 1 implies tail[j] != ':' by {
            assert(tail[j] == s[j + 1]);
        }
        lemma_first_colon_is(tail, i - 1);
    }
}

fn find_colon(chars: &Vec<char>, from: usize) -> (at: usize)
    requires
        from <= chars.len(),
    ensures
        from <= at <= chars.len(),
        at - from == first_colon(chars@.subrange(from as int, chars@.len() as int)),
{
    let mut at: usize = from;
    while at < chars.len() && chars[at] != ':'
        invariant
            from <= at <= chars.len(),
            forall|j: int| from <= j < at ==> chars@[j] != ':',
        decreases chars.len() - at,
    {
        at += 1;
    }
    proof {
        let tail = chars@.subrange(from as int, chars@.len() as int);
        assert forall|j: int| 0 <= j < at - from implies tail[j] != ':' by {
            assert(tail[j] == chars@[from + j]);
        }
        lemma_first_colon_is(tail, at - from);
    }
    at
}

/// Splits a client setting written as `key:value`.
pub fn parse_option(text: &str) -> (pair: Option<(String, String)>)
    ensures
        match pair {
            Some((k, v)) => option_pair(text@) == Some((k@, v@)),
            None => option_pair(text@) is None,
        },
{
    let chars = chars_of(text);
    let n: usize = chars.len();
    assert(chars@.subrange(0, n as int) =~= chars@);
    let i = find_colon(&chars, 0);
    if i >= n {
        return None;
    }
    let j = find_colon(&chars, i + 1);
    let key = text_from_chars(&chars, 0, i).unwrap();
    let value = text_from_chars(&chars, i + 1, j).unwrap();
    proof {
        let rest = chars@.subrange(i as int + 1, n as int);
        assert(rest.subrange(0, j - i - 1) =~= chars@.subrange(i as int + 1, j as int));
    }
    Some((key, value))
}

/// Whether `i` is the first setting of `options` that has no colon.
pub open spec fn option_fails_at(options: Seq<Seq<char>>, i: int) -> bool {
    &&& 0 <= i < options.len()
    &&& option_pair(options[i]) is None
    &&& forall|j: int| 0 <= j < i ==> option_pair(#[trigger] options[j]) is Some
}

/// Every setting of `options` has a colon.
pub open spec fn all_options_split(options: Seq<Seq<char>>) -> bool {
    forall|j: int| 0 <= j < options.len() ==> option_pair(#[trigger] options[j]) is Some
}

/// The keys and values of `options`, in order.
pub open spec fn option_pairs(options: Seq<Seq<char>>) -> Seq<(Seq<char>, Seq<char>)> {
    Seq::new(options.len(), |i: int| option_pair(options[i])->0)
}

/// The setting for something that is given as a file or as text and handed
/// to the client as text: the text where it is given; else the content of
/// the file, where a file is named and could be read; else nothing.
pub open spec fn pem_puts(
    name: Seq<char>,
    file: Option<Seq<char>>,
    pem: Option<Seq<char>>,
    file_text: Option<Seq<char>>,
) -> Seq<(Seq<char>, Seq<char>)> {
    match pem {
        Some(text) => seq![(name, text)],
        None => match (file, file_text) {
            (Some(_), Some(text)) => seq![(name, text)],
            _ => Seq::empty(),
        },
    }
}

/// The setting for the certificate authority, which the client takes as a
/// location: [`CA_LOCATION`] where the authority is given as text; else the
/// file, where one is named; else nothing.
pub open spec fn ca_puts(file: Option<Seq<char>>, pem: Option<Seq<char>>) -> Seq<
    (Seq<char>, Seq<char>),
> {
    match pem {
        Some(_) => seq![("ssl.ca.location"@, CA_LOCATION@)],
        None => match file {
            Some(path) => seq![("ssl.ca.location"@, path)],
            None => Seq::empty(),
        },
    }
}

/// The setting for the protocol, where one is chosen.
pub open spec fn protocol_puts(protocol: Option<SecurityProtocolOpt>) -> Seq<
    (Seq<char>, Seq<char>),
> {
    match protocol {
        Some(_) => seq![("security.protocol"@, "SSL"@)],
        None => Seq::empty(),
    }
}

/// Everything that is set on the client, in the order in which it is set:
/// the settings of the options, the brokers, the protocol, the key, the
/// certificate, and the certificate authority.
pub open spec fn client_puts(
    opts: KafkaOptView,
    key_file_text: Option<Seq<char>>,
    cert_file_text: Option<Seq<char>>,
) -> Seq<(Seq<char>, Seq<char>)> {
    option_pairs(opts.kafka_option) + seq![("bootstrap.servers"@, opts.kafka_url)]
        + protocol_puts(opts.security.security_protocol) + pem_puts(
        "ssl.key.pem"@,
        opts.security.ssl_key_file,
        opts.security.ssl_key_pem,
        key_file_text,
    ) + pem_puts(
        "ssl.certificate.pem"@,
        opts.security.ssl_cert_file,
        opts.security.ssl_cert_pem,
        cert_file_text,
    ) + ca_puts(opts.security.ssl_ca_file, opts.security.ssl_ca_pem)
}

/// What the sink needs to start, given the content of the key file and of
/// the certificate file where they could be read.
///
/// The Kafka topic is the one that the options name, else the topic that the
/// sink reads. The first client setting without a colon is the error.
pub open spec fn dependencies_of(
    opts: KafkaOptView,
    key_file_text: Option<Seq<char>>,
    cert_file_text: Option<Seq<char>>,
) -> Result<KafkaSinkView, KafkaOptError> {
    if all_options_split(opts.kafka_option) {
        Ok(
            KafkaSinkView {
                kafka_topic: match opts.kafka_topic {
                    Some(t) => t,
                    None => opts.fluvio_topic,
                },
                kafka_partition: opts.kafka_partition,
                client_settings: collect(client_puts(opts, key_file_text, cert_file_text)),
                ca_pem: opts.security.ssl_ca_pem,
            },
        )
    } else {
        Err(
            KafkaOptError::MalformedOption {
                index: (choose|i: int| option_fails_at(opts.kafka_option, i)) as usize,
            },
        )
    }
}

/// Puts one more setting.
fn put(
    settings: &mut NameMap<String>,
    key: String,
    value: String,
    Ghost(done): Ghost<Seq<(Seq<char>, Seq<char>)>>,
)
    requires
        old(settings)@ == collect(done),
    ensures
        final(settings)@ == collect(done.push((key@, value@))),
{
    settings.insert(key, value);
    assert(done.push((key@, value@)).drop_last() =~= done);
}

impl SecurityOpt {
    /// The key file to read, if the key is given as a file and not as text.
    pub fn key_file_to_read(&self) -> (file: Option<&String>)
        ensures
            file is Some == (self.ssl_key_file is Some && self.ssl_key_pem is None),
            file matches Some(f) ==> Some(f@) == opt_text(self.ssl_key_file),
    {
        match (&self.ssl_key_file, &self.ssl_key_pem) {
            (Some(f), None) => Some(f),
            _ => None,
        }
    }

    /// The certificate file to read, if the certificate is given as a file
    /// and not as text.
    pub fn cert_file_to_read(&self) -> (file: Option<&String>)
        ensures
            file is Some == (self.ssl_cert_file is Some && self.ssl_cert_pem is None),
            file matches Some(f) ==> Some(f@) == opt_text(self.ssl_cert_file),
    {
        match (&self.ssl_cert_file, &self.ssl_cert_pem) {
            (Some(f), None) => Some(f),
            _ => None,
        }
    }
}

impl KafkaSinkDependencies {
    /// Derives from the options what the sink needs: the topic and partition
    /// to write to, and the settings of the client. `key_file_text` and
    /// `cert_file_text` are the content of the key file and of the
    /// certificate file, where the options name one and it could be read.
    pub fn from_kafka_opt(
        opts: &KafkaOpt,
        key_file_text: Option<String>,
        cert_file_text: Option<String>,
    ) -> (r: Result<KafkaSinkDependencies, KafkaOptError>)
        ensures
            match r {
                Ok(p) => dependencies_of(opts@, opt_text(key_file_text), opt_text(cert_file_text)) == Ok::<
                    KafkaSinkView,
                    KafkaOptError,
                >(p@),
                Err(e) => dependencies_of(opts@, opt_text(key_file_text), opt_text(cert_file_text)) == Err::<
                    KafkaSinkView,
                    KafkaOptError,
                >(e),
            },
    {
        let ghost options = option_texts(opts.kafka_option@);
        let ghost want = client_puts(opts@, opt_text(key_file_text), opt_text(cert_file_text));
        let mut settings: NameMap<String> = NameMap::new();
        let ghost mut done: Seq<(Seq<char>, Seq<char>)> = Seq::empty();
        let mut i: usize = 0;
        while i < opts.kafka_option.len()
            invariant
                i <= opts.kafka_option.len(),
                options == option_texts(opts.kafka_option@),
                forall|j: int| 0 <= j < i ==> option_pair(#[trigger] options[j]) is Some,
                done == option_pairs(options).subrange(0, i as int),
                settings@ == collect(done),
            decreases opts.kafka_option.len() - i,
        {
            assert(options[i as int] == opts.kafka_option@[i as int]@);
            match parse_option(opts.kafka_option[i].as_str()) {
                Some((key, value)) => {
                    put(&mut settings, key, value, Ghost(done));
                    proof {
                        done = done.push((key@, value@));
                        assert(done =~= option_pairs(options).subrange(0, i as int + 1));
                    }
                },
                None => {
                    proof {
                        assert(option_fails_at(options, i as int));
                        let chosen = choose|k: int| option_fails_at(options, k);
                        assert(option_fails_at(options, chosen));
                        if chosen < i {
                            assert(option_pair(options[chosen]) is Some);
                        } else if i < chosen {
                            assert(option_pair(options[i as int]) is Some);
                        }
                    }
                    return Err(KafkaOptError::MalformedOption { index: i });
                },
            }
            i += 1;
        }
        assert(all_options_split(options));
        assert(done =~= option_pairs(options));
        put(&mut settings, text_of("bootstrap.servers"), opts.kafka_url.clone(), Ghost(done));
        proof {
            done = done.push(("bootstrap.servers"@, opts.kafka_url@));
        }
        match &opts.security.security_protocol {
            Some(protocol) => {
                put(&mut settings, text_of("security.protocol"), protocol.to_string(), Ghost(done));
                proof {
                    done = done.push(("security.protocol"@, "SSL"@));
                }
            },
            None => {},
        }
        assert(done =~= option_pairs(options) + seq![("bootstrap.servers"@, opts.kafka_url@)]
            + protocol_puts(opts.security.security_protocol));
        let ghost before_key = done;
        match (&opts.security.ssl_key_pem, &opts.security.ssl_key_file, key_file_text) {
            (Some(pem), _, _) => {
                put(&mut settings, text_of("ssl.key.pem"), pem.clone(), Ghost(done));
                proof {
                    done = done.push(("ssl.key.pem"@, pem@));
                }
            },
            (None, Some(_), Some(text)) => {
                proof {
                    done = done.push(("ssl.key.pem"@, text@));
                }
                put(&mut settings, text_of("ssl.key.pem"), text, Ghost(before_key));
            },
            _ => {},
        }
        assert(done =~= before_key + pem_puts(
            "ssl.key.pem"@,
            opt_text(opts.security.ssl_key_file),
            opt_text(opts.security.ssl_key_pem),
            opt_text(key_file_text),
        ));
        let ghost before_cert = done;
        match (&opts.security.ssl_cert_pem, &opts.security.ssl_cert_file, cert_file_text) {
            (Some(pem), _, _) => {
                put(&mut settings, text_of("ssl.certificate.pem"), pem.clone(), Ghost(done));
                proof {
                    done = done.push(("ssl.certificate.pem"@, pem@));
                }
            },
            (None, Some(_), Some(text)) => {
                proof {
                    done = done.push(("ssl.certificate.pem"@, text@));
                }
                put(&mut settings, text_of("ssl.certificate.pem"), text, Ghost(before_cert));
            },
            _ => {},
        }
        assert(done =~= before_cert + pem_puts(
            "ssl.certificate.pem"@,
            opt_text(opts.security.ssl_cert_file),
            opt_text(opts.security.ssl_cert_pem),
            opt_text(cert_file_text),
        ));
        let ghost before_ca = done;
        let ca_pem = match (&opts.security.ssl_ca_pem, &opts.security.ssl_ca_file) {
            (Some(pem), _) => {
                put(&mut settings, text_of("ssl.ca.location"), text_of(CA_LOCATION), Ghost(done));
                proof {
                    done = done.push(("ssl.ca.location"@, CA_LOCATION@));
                }
                Some(pem.clone())
            },
            (None, Some(path)) => {
                put(&mut settings, text_of("ssl.ca.location"), path.clone(), Ghost(done));
                proof {
                    done = done.push(("ssl.ca.location"@, path@));
                }
                None
            },
            _ => None,
        };
        assert(done =~= before_ca + ca_puts(
            opt_text(opts.security.ssl_ca_file),
            opt_text(opts.security.ssl_ca_pem),
        ));
        assert(done =~= want);
        let kafka_topic = match &opts.kafka_topic {
            Some(t) => t.clone(),
            None => opts.fluvio_topic.clone(),
        };
        Ok(
            KafkaSinkDependencies {
                kafka_topic,
                kafka_partition: opts.kafka_partition,
                client_settings: settings,
                ca_pem,
            },
        )
    }
}

} // verus!
