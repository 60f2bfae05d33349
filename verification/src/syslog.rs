//! The syslog connector: its sources, where each takes its lines from, and
//! whether its topic has to be created.

use vstd::prelude::*;
use crate::config::{copy_opt_text, opt_text, ConfigError, ConfigErrorView};
use crate::text::{same_text, text_of};

verus! {

/// One source of a syslog connector, as a document writes it. A field that
/// the document does not have is `None`.
#[derive(Debug, Clone, PartialEq, Eq)]
pub struct SourceDocument {
    pub name: Option<String>,
    pub type_: Option<String>,
    pub filter_prefix: Option<String>,
    pub topic: Option<String>,
    pub create_topic: Option<bool>,
    pub bind_url: Option<String>,
    pub input_file: Option<String>,
}

/// The mathematical content of a [`SourceDocument`].
pub struct SourceDocumentView {
    pub name: Option<Seq<char>>,
    pub type_: Option<Seq<char>>,
    pub filter_prefix: Option<Seq<char>>,
    pub topic: Option<Seq<char>>,
    pub create_topic: Option<bool>,
    pub bind_url: Option<Seq<char>>,
    pub input_file: Option<Seq<char>>,
}

impl View for SourceDocument {
    type V = SourceDocumentView;

    open spec fn view(&self) -> SourceDocumentView {
        SourceDocumentView {
            name: opt_text(self.name),
            type_: opt_text(self.type_),
            filter_prefix: opt_text(self.filter_prefix),
            topic: opt_text(self.topic),
            create_topic: self.create_topic,
            bind_url: opt_text(self.bind_url),
            input_file: opt_text(self.input_file),
        }
    }
}

/// The views of the documents of a list, in order.
pub open spec fn document_views(docs: Seq<SourceDocument>) -> Seq<SourceDocumentView> {
    Seq::new(docs.len(), |i: int| docs[i]@)
}

/// One source of a syslog connector.
#[derive(Debug, Clone, PartialEq, Eq)]
pub struct SyslogSource {
    name: String,
    type_: String,
    filter_prefix: Option<String>,
    topic: String,
    create_topic: Option<bool>,
    bind_url: Option<String>,
    input_file: Option<String>,
}

/// The mathematical content of a [`SyslogSource`].
pub struct SyslogSourceView {
    pub name: Seq<char>,
    pub type_: Seq<char>,
    pub filter_prefix: Option<Seq<char>>,
    pub topic: Seq<char>,
    pub create_topic: Option<bool>,
    pub bind_url: Option<Seq<char>>,
    pub input_file: Option<Seq<char>>,
}

/// Where a source takes its lines from.
#[derive(Debug, Clone, PartialEq, Eq)]
pub enum InputMode {
    /// From a socket bound to the given address.
    Bind(String),
    /// From the end of the given file, as it grows.
    TailFile(String),
    /// From the standard input of the process.
    StandardInput,
}

/// The mathematical content of an [`InputMode`].
pub enum InputModeView {
    Bind(Seq<char>),
    TailFile(Seq<char>),
    StandardInput,
}

impl View for InputMode {
    type V = InputModeView;

    open spec fn view(&self) -> InputModeView {
        match self {
            InputMode::Bind(url) => InputModeView::Bind(url@),
            InputMode::TailFile(path) => InputModeView::TailFile(path@),
            InputMode::StandardInput => InputModeView::StandardInput,
        }
    }
}

/// Where a source takes its lines from: the address it binds, where it has
/// one; else the file it tails, where it has one; else the standard input.
pub open spec fn input_mode_of(s: SyslogSourceView) -> InputModeView {
    match s.bind_url {
        Some(url) => InputModeView::Bind(url),
        None => match s.input_file {
            Some(path) => InputModeView::TailFile(path),
            None => InputModeView::StandardInput,
        },
    }
}

/// The source that a document stands for: `name` and `type` must be there,
/// the first of them that is missing is the error; the topic is `syslog`
/// where the document names none, and the topic is to be created unless the
/// document says that it is not.
pub open spec fn source_of(doc: SourceDocumentView) -> Result<SyslogSourceView, ConfigErrorView> {
    if doc.name is None {
        Err(ConfigErrorView::MissingField { field: "name"@ })
    } else if doc.type_ is None {
        Err(ConfigErrorView::MissingField { field: "type"@ })
    } else {
        Ok(
            SyslogSourceView {
                name: doc.name->0,
                type_: doc.type_->0,
                filter_prefix: doc.filter_prefix,
                topic: match doc.topic {
                    Some(t) => t,
                    None => "syslog"@,
                },
                create_topic: Some(
                    match doc.create_topic {
                        Some(flag) => flag,
                        None => true,
                    },
                ),
                bind_url: doc.bind_url,
                input_file: doc.input_file,
            },
        )
    }
}

/// The views of the texts of a list, in order.
pub open spec fn names_view(names: Seq<String>) -> Seq<Seq<char>> {
    Seq::new(names.len(), |i: int| names[i]@)
}

/// Whether the topic of a source has to be created, given the names of the
/// topics that exist: the source does not forbid it, and none of the topics
/// has exactly its name.
pub open spec fn topic_is_to_be_created(s: SyslogSourceView, existing: Seq<Seq<char>>) -> bool {
    &&& s.create_topic != Some(false)
    &&& forall|i: int| 0 <= i < existing.len() ==> (#[trigger] existing[i]) != s.topic
}

impl Default for SyslogSource {
    /// The source `syslog-connector` of type `syslog`, which reads the
    /// standard input into the topic `syslog` and creates the topic.
    fn default() -> (s: SyslogSource)
        ensures
            s@ == (SyslogSourceView {
                name: "syslog-connector"@,
                type_: "syslog"@,
                filter_prefix: None,
                topic: "syslog"@,
                create_topic: Some(true),
                bind_url: None,
                input_file: None,
            }),
    {
        SyslogSource {
            name: text_of("syslog-connector"),
            type_: text_of("syslog"),
            filter_prefix: None,
            topic: text_of("syslog"),
            create_topic: Some(true),
            bind_url: None,
            input_file: None,
        }
    }
}

impl SyslogSource {
    /// The fields of the source.
    pub closed spec fn view(&self) -> SyslogSourceView {
        SyslogSourceView {
            name: self.name@,
            type_: self.type_@,
            filter_prefix: opt_text(self.filter_prefix),
            topic: self.topic@,
            create_topic: self.create_topic,
            bind_url: opt_text(self.bind_url),
            input_file: opt_text(self.input_file),
        }
    }

    /// The topic of a source that names none.
    pub fn default_topic() -> (topic: String)
        ensures
            topic@ == "syslog"@,
    {
        text_of("syslog")
    }

    /// Derives the source from what a document holds.
    pub fn from_document(doc: &SourceDocument) -> (r: Result<SyslogSource, ConfigError>)
        ensures
            match r {
                Ok(s) => source_of(doc@) == Ok::<SyslogSourceView, ConfigErrorView>(s@),
                Err(e) => source_of(doc@) == Err::<SyslogSourceView, ConfigErrorView>(e@),
            },
    {
        let name = match &doc.name {
            Some(n) => n.clone(),
            None => {
                return Err(ConfigError::MissingField { field: text_of("name") });
            },
        };
        let type_ = match &doc.type_ {
            Some(t) => t.clone(),
            None => {
                return Err(ConfigError::MissingField { field: text_of("type") });
            },
        };
        let topic = match &doc.topic {
            Some(t) => t.clone(),
            None => SyslogSource::default_topic(),
        };
        Ok(
            SyslogSource {
                name,
                type_,
                filter_prefix: copy_opt_text(&doc.filter_prefix),
                topic,
                create_topic: Some(
                    match doc.create_topic {
                        Some(flag) => flag,
                        None => true,
                    },
                ),
                bind_url: copy_opt_text(&doc.bind_url),
                input_file: copy_opt_text(&doc.input_file),
            },
        )
    }

    /// The name of the source.
    pub fn name(&self) -> (n: &String)
        ensures
            n@ == self@.name,
    {
        &self.name
    }

    /// The topic that the source writes to.
    pub fn topic(&self) -> (t: &String)
        ensures
            t@ == self@.topic,
    {
        &self.topic
    }

    /// The prefix that lines must have to be forwarded, where one is set.
    pub fn filter_prefix(&self) -> (p: &Option<String>)
        ensures
            opt_text(*p) == self@.filter_prefix,
    {
        &self.filter_prefix
    }

    /// Whether the topic is to be created where it does not exist. A source
    /// that was derived from a document always says so, one way or the other.
    pub fn create_topic(&self) -> (flag: Option<bool>)
        ensures
            flag == self@.create_topic,
    {
        self.create_topic
    }

    /// Where the source takes its lines from.
    pub fn input_mode(&self) -> (mode: InputMode)
        ensures
            mode@ == input_mode_of(self@),
    {
        match &self.bind_url {
            Some(url) => InputMode::Bind(url.clone()),
            None => match &self.input_file {
                Some(path) => InputMode::TailFile(path.clone()),
                None => InputMode::StandardInput,
            },
        }
    }

    /// Whether the topic of the source has to be created, given the names of
    /// the topics that exist: it has to where the source does not forbid it
    /// and no topic has exactly its name.
    pub fn must_create_topic(&self, existing: &Vec<String>) -> (create: bool)
        ensures
            create == topic_is_to_be_created(self@, names_view(existing@)),
    {
        match self.create_topic {
            Some(false) => {
                return false;
            },
            _ => {},
        }
        let mut i: usize = 0;
        while i < existing.len()
            invariant
                i <= existing.len(),
                forall|j: int| 0 <= j < i ==> (#[trigger] existing@[j])@ != self@.topic,
            decreases existing.len() - i,
        {
            if same_text(existing[i].as_str(), self.topic.as_str()) {
                assert(names_view(existing@)[i as int] == self@.topic);
                return false;
            }
            i += 1;
        }
        assert forall|j: int| 0 <= j < names_view(existing@).len() implies (#[trigger] names_view(
            existing@,
        )[j]) != self@.topic by {
            assert(existing@[j]@ != self@.topic);
        }
        true
    }
}

/// The configuration of a syslog connector: its sources, in order.
#[derive(Debug, Clone, PartialEq, Eq)]
pub struct ConnectorConfig {
    pub source: Vec<SyslogSource>,
}

impl Default for ConnectorConfig {
    fn default() -> (c: ConnectorConfig)
        ensures
            c.source@.len() == 0,
    {
        ConnectorConfig { source: Vec::new() }
    }
}

/// Whether `i` is the first document of `docs` that is no source.
pub open spec fn source_fails_at(docs: Seq<SourceDocumentView>, i: int) -> bool {
    &&& 0 <= i < docs.len()
    &&& source_of(docs[i]) is Err
    &&& forall|j: int| 0 <= j < i ==> source_of(#[trigger] docs[j]) is Ok
}

/// The sources that the documents stand for, in order, or the error of the
/// first document that is no source.
pub open spec fn sources_of(docs: Seq<SourceDocumentView>) -> Result<
    Seq<SyslogSourceView>,
    ConfigErrorView,
> {
    if forall|j: int| 0 <= j < docs.len() ==> source_of(#[trigger] docs[j]) is Ok {
        Ok(Seq::new(docs.len(), |i: int| source_of(docs[i])->Ok_0))
    } else {
        Err(source_of(docs[choose|i: int| source_fails_at(docs, i)])->Err_0)
    }
}

impl ConnectorConfig {
    /// The views of the sources, in order.
    pub open spec fn view(&self) -> Seq<SyslogSourceView> {
        Seq::new(self.source@.len(), |i: int| self.source@[i]@)
    }

    /// Derives the configuration from the sources that a document lists.
    /// Nothing is derived in part: the first source that fails is the result.
    pub fn from_documents(docs: &Vec<SourceDocument>) -> (r: Result<ConnectorConfig, ConfigError>)
        ensures
            match r {
                Ok(c) => sources_of(document_views(docs@)) == Ok::<
                    Seq<SyslogSourceView>,
                    ConfigErrorView,
                >(c@),
                Err(e) => sources_of(document_views(docs@)) == Err::<
                    Seq<SyslogSourceView>,
                    ConfigErrorView,
                >(e@),
            },
    {
        let ghost views = document_views(docs@);
        let mut source: Vec<SyslogSource> = Vec::new();
        let mut i: usize = 0;
        while i < docs.len()
            invariant
                i <= docs.len(),
                views == document_views(docs@),
                source@.len() == i,
                forall|j: int| 0 <= j < i ==> source_of(#[trigger] views[j]) is Ok,
                forall|j: int| 0 <= j < i ==> (#[trigger] source@[j])@ == source_of(views[j])->Ok_0,
            decreases docs.len() - i,
        {
            assert(views[i as int] == docs@[i as int]@);
            match SyslogSource::from_document(&docs[i]) {
                Ok(s) => {
                    source.push(s);
                },
                Err(e) => {
                    proof {
                        assert(source_fails_at(views, i as int));
                        let chosen = choose|k: int| source_fails_at(views, k);
                        assert(source_fails_at(views, chosen));
                        if chosen < i {
                            assert(source_of(views[chosen]) is Ok);
                        } else if i < chosen {
                            assert(source_of(views[i as int]) is Ok);
                        }
                    }
                    return Err(e);
                },
            }
            i += 1;
        }
        let c = ConnectorConfig { source };
        assert(c@ =~= Seq::new(views.len(), |i: int| source_of(views[i])->Ok_0));
        Ok(c)
    }
}

/// The options of the command that runs the sources of a configuration.
#[derive(Debug, Clone, PartialEq, Eq)]
pub struct ProducerOpts {
    /// The path of the configuration.
    pub config: String,
}

} // verus!
