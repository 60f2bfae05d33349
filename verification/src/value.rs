//! The parameter value model: one field of a configuration document may be
//! written as a scalar, as a sequence or as a mapping, with no tag that says
//! which. The shape of the node alone decides what the value becomes.

use vstd::prelude::*;
use crate::namemap::{
    ascending,
    collect,
    distinct_keys,
    has_key,
    index_of,
    lemma_collect,
    lookup,
    NameMap,
};
use crate::text::{bool_text, decimal_text, render_bool, render_i64, render_u64, text_of};

verus! {

/// A scalar of a configuration document.
#[derive(Debug, Clone, PartialEq, Eq)]
pub enum Scalar {
    /// The null value, or a value that is absent.
    Null,
    Bool(bool),
    Integer(i64),
    Unsigned(u64),
    /// A number with a fraction, held as its decimal rendering.
    Decimal(String),
    Text(String),
}

/// The mathematical content of a [`Scalar`].
pub enum ScalarView {
    Null,
    Bool(bool),
    Integer(int),
    Decimal(Seq<char>),
    Text(Seq<char>),
}

impl View for Scalar {
    type V = ScalarView;

    open spec fn view(&self) -> ScalarView {
        match self {
            Scalar::Null => ScalarView::Null,
            Scalar::Bool(b) => ScalarView::Bool(*b),
            Scalar::Integer(i) => ScalarView::Integer(*i as int),
            Scalar::Unsigned(u) => ScalarView::Integer(*u as int),
            Scalar::Decimal(t) => ScalarView::Decimal(t@),
            Scalar::Text(t) => ScalarView::Text(t@),
        }
    }
}

/// The canonical text of a scalar: `null` for the null value, `true` or
/// `false` for a truth value, the decimal rendering of a number, and a text
/// as it is.
pub open spec fn scalar_text(s: ScalarView) -> Seq<char> {
    match s {
        ScalarView::Null => "null"@,
        ScalarView::Bool(b) => bool_text(b),
        ScalarView::Integer(i) => decimal_text(i),
        ScalarView::Decimal(t) => t,
        ScalarView::Text(t) => t,
    }
}

impl Scalar {
    /// Writes the scalar as its canonical text.
    pub fn render(&self) -> (text: String)
        ensures
            text@ == scalar_text(self@),
    {
        match self {
            Scalar::Null => text_of("null"),
            Scalar::Bool(b) => render_bool(*b),
            Scalar::Integer(i) => render_i64(*i),
            Scalar::Unsigned(u) => render_u64(*u),
            Scalar::Decimal(t) => t.clone(),
            Scalar::Text(t) => t.clone(),
        }
    }
}

/// What stands inside a sequence or a mapping: a scalar, or a nested
/// collection, of which only the kind matters.
#[derive(Debug, Clone, PartialEq, Eq)]
pub enum Element {
    Scalar(Scalar),
    Sequence,
    Mapping,
}

/// The mathematical content of an [`Element`].
pub enum ElementView {
    Scalar(ScalarView),
    Sequence,
    Mapping,
}

impl View for Element {
    type V = ElementView;

    open spec fn view(&self) -> ElementView {
        match self {
            Element::Scalar(s) => ElementView::Scalar(s@),
            Element::Sequence => ElementView::Sequence,
            Element::Mapping => ElementView::Mapping,
        }
    }
}

/// The node of a configuration document that holds a parameter.
#[derive(Debug, Clone, PartialEq, Eq)]
pub enum ParameterNode {
    Scalar(Scalar),
    Sequence(Vec<Element>),
    /// The entries of a mapping, each a key and a value, in document order.
    Mapping(Vec<(Element, Element)>),
}

/// The mathematical content of a [`ParameterNode`].
pub enum ParameterNodeView {
    Scalar(ScalarView),
    Sequence(Seq<ElementView>),
    Mapping(Seq<(ElementView, ElementView)>),
}

/// The views of the elements of a sequence, in order.
pub open spec fn elements_view(items: Seq<Element>) -> Seq<ElementView> {
    Seq::new(items.len(), |i: int| items[i]@)
}

/// The views of the entries of a mapping, in order.
pub open spec fn entry_views(entries: Seq<(Element, Element)>) -> Seq<(ElementView, ElementView)> {
    Seq::new(entries.len(), |i: int| (entries[i].0@, entries[i].1@))
}

impl View for ParameterNode {
    type V = ParameterNodeView;

    open spec fn view(&self) -> ParameterNodeView {
        match self {
            ParameterNode::Scalar(s) => ParameterNodeView::Scalar(s@),
            ParameterNode::Sequence(items) => ParameterNodeView::Sequence(elements_view(items@)),
            ParameterNode::Mapping(entries) => ParameterNodeView::Mapping(entry_views(entries@)),
        }
    }
}

/// Why a node cannot be a parameter value: a collection stands where only a
/// scalar can. The index is that of the element or entry, counted from 0.
#[derive(Clone, Copy, Debug, PartialEq, Eq)]
pub enum ShapeError {
    /// An element of a sequence is itself a sequence or a mapping.
    NestedElement { index: usize },
    /// A key of a mapping is itself a sequence or a mapping.
    NestedKey { index: usize },
    /// A value of a mapping is itself a sequence or a mapping.
    NestedValue { index: usize },
}

/// The value of a parameter: a text, a list of texts, or a map from texts to
/// texts.
#[derive(Debug, PartialEq, Eq)]
pub enum ManagedConnectorParameterValue {
    Vec(Vec<String>),
    Mapping(NameMap<String>),
    String(String),
}

/// The mathematical content of a [`ManagedConnectorParameterValue`].
pub enum ParameterValueView {
    List(Seq<Seq<char>>),
    /// The entries in the ascending order of their names; no name twice.
    Mapping(Seq<(Seq<char>, Seq<char>)>),
    Text(Seq<char>),
}

/// The views of the texts of a list, in order.
pub open spec fn texts_view(items: Seq<String>) -> Seq<Seq<char>> {
    Seq::new(items.len(), |i: int| items[i]@)
}

impl View for ManagedConnectorParameterValue {
    type V = ParameterValueView;

    open spec fn view(&self) -> ParameterValueView {
        match self {
            ManagedConnectorParameterValue::Vec(items) => ParameterValueView::List(
                texts_view(items@),
            ),
            ManagedConnectorParameterValue::Mapping(entries) => ParameterValueView::Mapping(entries@),
            ManagedConnectorParameterValue::String(text) => ParameterValueView::Text(text@),
        }
    }
}

/// Whether `i` is the first position of `items` at which no scalar stands.
pub open spec fn first_nested_at(items: Seq<ElementView>, i: int) -> bool {
    &&& 0 <= i < items.len()
    &&& !(items[i] is Scalar)
    &&& forall|j: int| 0 <= j < i ==> (#[trigger] items[j]) is Scalar
}

/// Every element of `items` is a scalar.
pub open spec fn all_scalars(items: Seq<ElementView>) -> bool {
    forall|j: int| 0 <= j < items.len() ==> (#[trigger] items[j]) is Scalar
}

/// The canonical texts of the scalars of `items`, in order.
pub open spec fn element_texts(items: Seq<ElementView>) -> Seq<Seq<char>> {
    Seq::new(items.len(), |i: int| scalar_text(items[i]->Scalar_0))
}

/// Whether `i` is the first entry of `entries` whose key or value is no scalar.
pub open spec fn first_nested_entry_at(entries: Seq<(ElementView, ElementView)>, i: int) -> bool {
    &&& 0 <= i < entries.len()
    &&& !(entries[i].0 is Scalar && entries[i].1 is Scalar)
    &&& forall|j: int|
        0 <= j < i ==> (#[trigger] entries[j]).0 is Scalar && entries[j].1 is Scalar
}

/// Every key and every value of `entries` is a scalar.
pub open spec fn all_scalar_entries(entries: Seq<(ElementView, ElementView)>) -> bool {
    forall|j: int|
        0 <= j < entries.len() ==> (#[trigger] entries[j]).0 is Scalar && entries[j].1 is Scalar
}

/// The canonical texts of the keys and values of `entries`, in order.
pub open spec fn entry_texts(entries: Seq<(ElementView, ElementView)>) -> Seq<
    (Seq<char>, Seq<char>),
> {
    Seq::new(
        entries.len(),
        |i: int| (scalar_text(entries[i].0->Scalar_0), scalar_text(entries[i].1->Scalar_0)),
    )
}

/// What a sequence becomes: the list of the texts of its elements, in order,
/// unless one of them is a collection; the first such element is the error.
pub open spec fn classify_sequence(items: Seq<ElementView>) -> Result<
    ParameterValueView,
    ShapeError,
> {
    if all_scalars(items) {
        Ok(ParameterValueView::List(element_texts(items)))
    } else {
        Err(
            ShapeError::NestedElement {
                index: (choose|i: int| first_nested_at(items, i)) as usize,
            },
        )
    }
}

/// What a mapping becomes: the map of the texts of its keys to the texts of
/// its values, a later entry replacing an earlier one with the same key,
/// unless a key or a value is a collection; the first such entry is the
/// error, its key before its value.
pub open spec fn classify_mapping(entries: Seq<(ElementView, ElementView)>) -> Result<
    ParameterValueView,
    ShapeError,
> {
    if all_scalar_entries(entries) {
        Ok(ParameterValueView::Mapping(collect(entry_texts(entries))))
    } else {
        let at = choose|i: int| first_nested_entry_at(entries, i);
        if entries[at].0 is Scalar {
            Err(ShapeError::NestedValue { index: at as usize })
        } else {
            Err(ShapeError::NestedKey { index: at as usize })
        }
    }
}

/// What a node becomes, by its shape alone: a scalar becomes its canonical
/// text, a sequence a list, a mapping a map.
pub open spec fn classify(node: ParameterNodeView) -> Result<ParameterValueView, ShapeError> {
    match node {
        ParameterNodeView::Scalar(s) => Ok(ParameterValueView::Text(scalar_text(s))),
        ParameterNodeView::Sequence(items) => classify_sequence(items),
        ParameterNodeView::Mapping(entries) => classify_mapping(entries),
    }
}

/// Whether `got` is the exec form of what the model `want` asks for.
pub open spec fn matches_classified(
    got: Result<ManagedConnectorParameterValue, ShapeError>,
    want: Result<ParameterValueView, ShapeError>,
) -> bool {
    match got {
        Ok(v) => want == Ok::<ParameterValueView, ShapeError>(v@),
        Err(e) => want == Err::<ParameterValueView, ShapeError>(e),
    }
}

impl Default for ManagedConnectorParameterValue {
    /// The empty list.
    fn default() -> (v: ManagedConnectorParameterValue)
        ensures
            v@ == ParameterValueView::List(Seq::empty()),
    {
        let v = ManagedConnectorParameterValue::Vec(Vec::new());
        assert(v@->List_0 =~= Seq::<Seq<char>>::empty());
        v
    }
}

impl ManagedConnectorParameterValue {
    /// The value for a scalar: its canonical text.
    pub fn from_scalar(scalar: &Scalar) -> (v: ManagedConnectorParameterValue)
        ensures
            v@ == ParameterValueView::Text(scalar_text(scalar@)),
    {
        ManagedConnectorParameterValue::String(scalar.render())
    }

    /// The value for a sequence: the texts of its elements, in order. Fails
    /// at the first element that is itself a collection.
    pub fn from_elements(items: &Vec<Element>) -> (r: Result<
        ManagedConnectorParameterValue,
        ShapeError,
    >)
        ensures
            matches_classified(r, classify_sequence(elements_view(items@))),
    {
        let ghost model = elements_view(items@);
        let mut texts: Vec<String> = Vec::new();
        let mut i: usize = 0;
        while i < items.len()
            invariant
                i <= items.len(),
                model == elements_view(items@),
                texts@.len() == i,
                forall|j: int| 0 <= j < i ==> (#[trigger] model[j]) is Scalar,
                forall|j: int|
                    0 <= j < i ==> (#[trigger] texts@[j])@ == scalar_text(model[j]->Scalar_0),
            decreases items.len() - i,
        {
            match &items[i] {
                Element::Scalar(s) => {
                    texts.push(s.render());
                },
                _ => {
                    proof {
                        assert(!(model[i as int] is Scalar));
                        assert(first_nested_at(model, i as int));
                        let chosen = choose|k: int| first_nested_at(model, k);
                        assert(first_nested_at(model, chosen));
                        if chosen < i {
                            assert(model[chosen] is Scalar);
                        } else if i < chosen {
                            assert(model[i as int] is Scalar);
                        }
                    }
                    return Err(ShapeError::NestedElement { index: i });
                },
            }
            i += 1;
        }
        assert(all_scalars(model));
        assert(texts_view(texts@) =~= element_texts(model));
        Ok(ManagedConnectorParameterValue::Vec(texts))
    }

    /// The value for a mapping: the texts of its values under the texts of
    /// its keys, a later entry replacing an earlier one with the same key.
    /// Fails at the first entry whose key or value is itself a collection.
    pub fn from_entries(entries: &Vec<(Element, Element)>) -> (r: Result<
        ManagedConnectorParameterValue,
        ShapeError,
    >)
        ensures
            matches_classified(r, classify_mapping(entry_views(entries@))),
    {
        let ghost model = entry_views(entries@);
        let mut map: NameMap<String> = NameMap::new();
        let mut i: usize = 0;
        assert(entry_texts(model).subrange(0, 0) =~= Seq::<(Seq<char>, Seq<char>)>::empty());
        while i < entries.len()
            invariant
                i <= entries.len(),
                model == entry_views(entries@),
                forall|j: int|
                    0 <= j < i ==> (#[trigger] model[j]).0 is Scalar && model[j].1 is Scalar,
                map@ == collect(entry_texts(model).subrange(0, i as int)),
            decreases entries.len() - i,
        {
            let ghost done = entry_texts(model).subrange(0, i as int);
            match (&entries[i].0, &entries[i].1) {
                (Element::Scalar(k), Element::Scalar(v)) => {
                    let key = k.render();
                    let value = v.render();
                    map.insert(key, value);
                    proof {
                        let next = entry_texts(model).subrange(0, i as int + 1);
                        assert(next.drop_last() =~= done);
                        assert(next.last() == (key@, value@));
                    }
                },
                _ => {
                    proof {
                        assert(first_nested_entry_at(model, i as int));
                        let chosen = choose|k: int| first_nested_entry_at(model, k);
                        assert(first_nested_entry_at(model, chosen));
                        if chosen < i {
                            assert(model[chosen].0 is Scalar && model[chosen].1 is Scalar);
                        } else if i < chosen {
                            assert(model[i as int].0 is Scalar && model[i as int].1 is Scalar);
                        }
                    }
                    match &entries[i].0 {
                        Element::Scalar(_) => {
                            return Err(ShapeError::NestedValue { index: i });
                        },
                        _ => {
                            return Err(ShapeError::NestedKey { index: i });
                        },
                    }
                },
            }
            i += 1;
        }
        assert(all_scalar_entries(model));
        assert(entry_texts(model).subrange(0, i as int) =~= entry_texts(model));
        Ok(ManagedConnectorParameterValue::Mapping(map))
    }

    /// The value for a node of a document, decided by the shape of the node:
    /// a scalar gives a text, a sequence a list, a mapping a map.
    pub fn from_node(node: &ParameterNode) -> (r: Result<
        ManagedConnectorParameterValue,
        ShapeError,
    >)
        ensures
            matches_classified(r, classify(node@)),
    {
        match node {
            ParameterNode::Scalar(s) => Ok(ManagedConnectorParameterValue::from_scalar(s)),
            ParameterNode::Sequence(items) => ManagedConnectorParameterValue::from_elements(items),
            ParameterNode::Mapping(entries) => ManagedConnectorParameterValue::from_entries(
                entries,
            ),
        }
    }
}

/// Every scalar becomes a text, and the text is its canonical rendering:
/// `null` for the null value, `true` and `false` for the truth values, the
/// decimal digits for an integer, and a text or a rendered decimal unchanged.
pub proof fn lemma_scalar_becomes_text(s: ScalarView)
    ensures
        classify(ParameterNodeView::Scalar(s)) == Ok::<ParameterValueView, ShapeError>(
            ParameterValueView::Text(scalar_text(s)),
        ),
        s is Null ==> scalar_text(s) == "null"@,
        s == ScalarView::Bool(true) ==> scalar_text(s) == "true"@,
        s == ScalarView::Bool(false) ==> scalar_text(s) == "false"@,
        s matches ScalarView::Integer(i) ==> scalar_text(s) == decimal_text(i),
        s matches ScalarView::Text(t) ==> scalar_text(s) == t,
        s matches ScalarView::Decimal(t) ==> scalar_text(s) == t,
{
}

/// A sequence of scalars becomes a list of the same length that holds the
/// text of each element at the element's place.
pub proof fn lemma_sequence_keeps_order(items: Seq<ElementView>)
    requires
        all_scalars(items),
    ensures
        classify_sequence(items) matches Ok(ParameterValueView::List(texts)) && {
            &&& texts.len() == items.len()
            &&& forall|i: int|
                0 <= i < items.len() ==> #[trigger] texts[i] == scalar_text(items[i]->Scalar_0)
        },
{
}

/// A mapping of scalars becomes a map whose names ascend, so that none
/// occurs twice, which has exactly the texts of the mapping's keys as names,
/// and which holds under each the text of the value of the last entry with
/// that key.
pub proof fn lemma_mapping_keeps_every_key(entries: Seq<(ElementView, ElementView)>)
    requires
        all_scalar_entries(entries),
    ensures
        classify_mapping(entries) matches Ok(ParameterValueView::Mapping(map)) && {
            &&& ascending(map)
            &&& distinct_keys(map)
            &&& forall|i: int|
                0 <= i < entries.len() ==> has_key(
                    map,
                    scalar_text((#[trigger] entries[i]).0->Scalar_0),
                )
            &&& forall|name: Seq<char>|
                has_key(map, name) ==> exists|i: int|
                    0 <= i < entries.len() && scalar_text((#[trigger] entries[i]).0->Scalar_0)
                        == name
            &&& forall|i: int|
                0 <= i < entries.len() && (forall|j: int|
                    i < j < entries.len() ==> scalar_text((#[trigger] entries[j]).0->Scalar_0)
                        != scalar_text(entries[i].0->Scalar_0)) ==> lookup(
                    map,
                    scalar_text((#[trigger] entries[i]).0->Scalar_0),
                ) == Some(scalar_text(entries[i].1->Scalar_0))
        },
{
    let pairs = entry_texts(entries);
    let map = collect(pairs);
    lemma_collect(pairs);
    assert forall|i: int| 0 <= i < entries.len() implies has_key(
        map,
        scalar_text((#[trigger] entries[i]).0->Scalar_0),
    ) by {
        assert(pairs[i].0 == scalar_text(entries[i].0->Scalar_0));
        assert(has_key(pairs, pairs[i].0));
    }
    assert forall|name: Seq<char>| has_key(map, name) implies exists|i: int|
        0 <= i < entries.len() && scalar_text((#[trigger] entries[i]).0->Scalar_0) == name by {
        assert(has_key(pairs, name));
        let i = index_of(pairs, name);
        assert(pairs[i].0 == name);
        assert(scalar_text(entries[i].0->Scalar_0) == name);
    }
    assert forall|i: int|
        0 <= i < entries.len() && (forall|j: int|
            i < j < entries.len() ==> scalar_text((#[trigger] entries[j]).0->Scalar_0)
                != scalar_text(entries[i].0->Scalar_0)) implies lookup(
        map,
        scalar_text((#[trigger] entries[i]).0->Scalar_0),
    ) == Some(scalar_text(entries[i].1->Scalar_0)) by {
        assert forall|j: int| i < j < pairs.len() implies (#[trigger] pairs[j]).0
            != pairs[i].0 by {
            assert(pairs[j].0 == scalar_text(entries[j].0->Scalar_0));
        }
        assert(pairs[i] == (
            scalar_text(entries[i].0->Scalar_0),
            scalar_text(entries[i].1->Scalar_0),
        ));
    }
}

} // verus!
