//! Managed connectors: what a configuration set asks the cluster to create.

use vstd::prelude::*;
use crate::namemap::{ascending, NameMap};
use crate::text::text_before;
use crate::value::texts_view;

verus! {

/// The configuration of one managed connector, as a configuration set holds it.
#[derive(Debug, PartialEq, Eq)]
pub struct ConnectorConfig {
    type_: String,
    topic: Option<String>,
    create_topic: Option<bool>,
    args: NameMap<String>,
}

/// The mathematical content of a [`ConnectorConfig`].
pub struct ConnectorConfigView {
    pub type_: Seq<char>,
    pub topic: Option<Seq<char>>,
    pub create_topic: Option<bool>,
    /// The arguments, each a name and a value, in the ascending order of the names.
    pub args: Seq<(Seq<char>, Seq<char>)>,
}

/// What the cluster is asked to run for one connector.
#[derive(Debug, Clone, PartialEq, Eq)]
pub struct ManagedConnectorConfig {
    pub type_: String,
    pub topic: String,
    pub args: Vec<String>,
}

/// The mathematical content of a [`ManagedConnectorConfig`].
pub struct ManagedConfigView {
    pub type_: Seq<char>,
    pub topic: Seq<char>,
    pub args: Seq<Seq<char>>,
}

impl View for ManagedConnectorConfig {
    type V = ManagedConfigView;

    open spec fn view(&self) -> ManagedConfigView {
        ManagedConfigView { type_: self.type_@, topic: self.topic@, args: texts_view(self.args@) }
    }
}

/// A managed connector under its name.
#[derive(Debug, Clone, PartialEq, Eq)]
pub struct ManagedConnectorSpec {
    pub name: String,
    pub config: ManagedConnectorConfig,
}

/// The arguments as one list: each name followed at once by its value, in
/// the order of the arguments.
pub open spec fn flattened(args: Seq<(Seq<char>, Seq<char>)>) -> Seq<Seq<char>> {
    Seq::new(
        2 * args.len(),
        |k: int|
            if k % 2 == 0 {
                args[k / 2].0
            } else {
                args[k / 2].1
            },
    )
}

/// What is asked of the cluster for a configuration: its type, its topic, or
/// its type as topic where it names none, and its arguments as one list, in
/// the ascending order of their names.
pub open spec fn managed_of(c: ConnectorConfigView) -> ManagedConfigView {
    ManagedConfigView {
        type_: c.type_,
        topic: match c.topic {
            Some(t) => t,
            None => c.type_,
        },
        args: flattened(c.args),
    }
}

impl View for ConnectorConfig {
    type V = ConnectorConfigView;

    closed spec fn view(&self) -> ConnectorConfigView {
        ConnectorConfigView {
            type_: self.type_@,
            topic: match self.topic {
                Some(t) => Some(t@),
                None => None,
            },
            create_topic: self.create_topic,
            args: self.args@,
        }
    }
}

impl ConnectorConfig {
    /// The arguments of a configuration that names none.
    pub fn default_args() -> (args: NameMap<String>)
        ensures
            args@ == Seq::<(Seq<char>, Seq<char>)>::empty(),
    {
        NameMap::new()
    }

    /// A configuration with the given fields.
    pub fn new(
        type_: String,
        topic: Option<String>,
        create_topic: Option<bool>,
        args: NameMap<String>,
    ) -> (c: ConnectorConfig)
        ensures
            c@ == (ConnectorConfigView {
                type_: type_@,
                topic: match topic {
                    Some(t) => Some(t@),
                    None => None,
                },
                create_topic,
                args: args@,
            }),
            ascending(c@.args),
    {
        let _ = args.len();
        ConnectorConfig { type_, topic, create_topic, args }
    }

    /// Whether the topic is to be created, where the configuration says so.
    pub fn create_topic(&self) -> (flag: Option<bool>)
        ensures
            flag == self@.create_topic,
    {
        self.create_topic
    }

    /// What is asked of the cluster for this configuration.
    pub fn to_managed(&self) -> (m: ManagedConnectorConfig)
        ensures
            m@ == managed_of(self@),
            ascending(self@.args),
    {
        let topic = match &self.topic {
            Some(t) => t.clone(),
            None => self.type_.clone(),
        };
        let mut args: Vec<String> = Vec::new();
        let n: usize = self.args.len();
        let mut i: usize = 0;
        while i < n
            invariant
                i <= n,
                n == self.args@.len(),
                args@.len() == 2 * i,
                forall|k: int|
                    0 <= k < 2 * i ==> (#[trigger] args@[k])@ == flattened(self.args@)[k],
            decreases n - i,
        {
            let name = self.args.key_at(i).unwrap();
            let value = self.args.value_at(i).unwrap();
            args.push(name.clone());
            args.push(value.clone());
            i += 1;
        }
        assert(texts_view(args@) =~= flattened(self.args@));
        ManagedConnectorConfig { type_: self.type_.clone(), topic, args }
    }

    /// What is asked of the cluster for this configuration.
    pub fn into(self) -> (m: ManagedConnectorConfig)
        ensures
            m@ == managed_of(self@),
            ascending(self@.args),
    {
        self.to_managed()
    }
}

/// The options of the command that creates managed connectors.
#[derive(Debug, Clone, PartialEq, Eq)]
pub struct CreateManagedConnectorOpt {
    /// The path of the configuration set.
    pub config: String,
}

impl Default for CreateManagedConnectorOpt {
    fn default() -> (o: CreateManagedConnectorOpt)
        ensures
            o.config@ == Seq::<char>::empty(),
    {
        CreateManagedConnectorOpt { config: String::new() }
    }
}

impl CreateManagedConnectorOpt {
    /// What the command asks the cluster to create for a configuration set:
    /// one connector for each entry, under the entry's name, in the ascending
    /// order of the names.
    pub fn specs(configs: &NameMap<ConnectorConfig>) -> (specs: Vec<ManagedConnectorSpec>)
        ensures
            ascending(configs@),
            specs@.len() == configs@.len(),
            forall|i: int|
                0 <= i < specs@.len() ==> {
                    &&& (#[trigger] specs@[i]).name@ == configs@[i].0
                    &&& specs@[i].config@ == managed_of(configs@[i].1)
                },
    {
        let mut specs: Vec<ManagedConnectorSpec> = Vec::new();
        let n: usize = configs.len();
        let mut i: usize = 0;
        while i < n
            invariant
                i <= n,
                n == configs@.len(),
                specs@.len() == i,
                forall|k: int|
                    0 <= k < i ==> {
                        &&& (#[trigger] specs@[k]).name@ == configs@[k].0
                        &&& specs@[k].config@ == managed_of(configs@[k].1)
                    },
            decreases n - i,
        {
            let name = configs.key_at(i).unwrap();
            let config = configs.value_at(i).unwrap().to_managed();
            specs.push(ManagedConnectorSpec { name: name.clone(), config });
            i += 1;
        }
        specs
    }
}

/// The list of the arguments is twice as long as the arguments are many,
/// holds each name followed at once by its own value, and has the names in
/// ascending order.
pub proof fn lemma_arguments_ascend(args: Seq<(Seq<char>, Seq<char>)>)
    requires
        ascending(args),
    ensures
        flattened(args).len() == 2 * args.len(),
        forall|i: int|
            0 <= i < args.len() ==> {
                &&& flattened(args)[2 * i] == (#[trigger] args[i]).0
                &&& flattened(args)[2 * i + 1] == args[i].1
            },
        forall|i: int, j: int|
            0 <= i < j < args.len() ==> text_before(
                #[trigger] flattened(args)[2 * i],
                #[trigger] flattened(args)[2 * j],
            ),
{
    assert forall|i: int, j: int| 0 <= i < j < args.len() implies text_before(
        #[trigger] flattened(args)[2 * i],
        #[trigger] flattened(args)[2 * j],
    ) by {
        assert(flattened(args)[2 * i] == args[i].0);
        assert(flattened(args)[2 * j] == args[j].0);
    }
}

} // verus!
