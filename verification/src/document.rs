//! The configuration file as a tree of nodes, read from its KDL text with
//! `kdl`, and the rules that every node of it must follow: which
//! properties, arguments and children it may have.
use vstd::prelude::*;
use kdl::KdlDocument;
use kdl::KdlNode;
use kdl::KdlValue;
use crate::text::chars_of;
use crate::text::chars_eq;
use crate::text::str_eq;
use crate::tree::NodeView;
use crate::tree::EntryView;
use crate::tree::ValueView;
use crate::tree::node_views;

verus! {

broadcast use crate::tree::lemma_node_view;

/// The encoding of a 64-bit float whose value lies in `0..=0.25`: positive
/// values order as their encodings, up to `0.25` (`0x3fd0_0000_0000_0000`),
/// and `-0.0` (`0x8000_0000_0000_0000`) equals `0.0`.
pub open spec fn in_volume_range(code: u64) -> bool {
    code <= 0x3fd0_0000_0000_0000 || code == 0x8000_0000_0000_0000
}

/// The encoding of a finite 64-bit float: its exponent bits are not all set.
pub open spec fn is_finite_code(code: u64) -> bool {
    (code >> 52u64) & 0x7ffu64 != 0x7ffu64
}

/// A volume level: the encoding of a 64-bit float.
#[derive(Clone, Copy, Debug, PartialEq, Eq, Structural)]
pub struct Level {
    pub code: u64,
}

impl Level {
    /// Whether the level lies in `0..=0.25`.
    pub open spec fn spec_in_range(self) -> bool {
        in_volume_range(self.code)
    }

    /// Whether the level lies in `0..=0.25`.
    #[verifier::when_used_as_spec(spec_in_range)]
    pub fn in_range(self) -> (r: bool)
        ensures
            r == self.spec_in_range(),
    {
        self.code <= 0x3fd0_0000_0000_0000 || self.code == 0x8000_0000_0000_0000
    }
}

/// A number written in the file: an integer, or the encoding of a 64-bit
/// float.
#[derive(Clone, Copy, Debug, PartialEq, Eq, Structural)]
pub enum Number {
    Integer(i128),
    Float(u64),
}

impl Number {
    /// Whether the number is finite (every integer is).
    pub open spec fn spec_finite(self) -> bool {
        match self {
            Number::Integer(_) => true,
            Number::Float(c) => is_finite_code(c),
        }
    }

    /// Whether the number is finite (every integer is).
    #[verifier::when_used_as_spec(spec_finite)]
    pub fn finite(self) -> (r: bool)
        ensures
            r == self.spec_finite(),
    {
        match self {
            Number::Integer(_) => true,
            Number::Float(c) => (c >> 52u64) & 0x7ffu64 != 0x7ffu64,
        }
    }

    /// Whether the number lies in `0..=0.25` (of the integers, only `0`).
    pub open spec fn spec_volume_ok(self) -> bool {
        match self {
            Number::Integer(i) => i == 0,
            Number::Float(c) => in_volume_range(c),
        }
    }

    /// Whether the number lies in `0..=0.25` (of the integers, only `0`).
    #[verifier::when_used_as_spec(spec_volume_ok)]
    pub fn volume_ok(self) -> (r: bool)
        ensures
            r == self.spec_volume_ok(),
    {
        match self {
            Number::Integer(i) => i == 0,
            Number::Float(c) => c <= 0x3fd0_0000_0000_0000 || c == 0x8000_0000_0000_0000,
        }
    }

    /// A number in `0..=0.25` as a volume level (the integer `0` is `0.0`).
    pub open spec fn spec_level(self) -> Level {
        match self {
            Number::Integer(_) => Level { code: 0 },
            Number::Float(c) => Level { code: c },
        }
    }

    /// A number in `0..=0.25` as a volume level (see [`Number::spec_level`]).
    #[verifier::when_used_as_spec(spec_level)]
    pub fn level(self) -> (r: Level)
        requires
            self.spec_volume_ok(),
        ensures
            r == self.spec_level(),
            r.spec_in_range(),
    {
        match self {
            Number::Integer(_) => Level { code: 0 },
            Number::Float(c) => Level { code: c },
        }
    }
}

/// The value of an argument or a property.
#[derive(Debug)]
pub enum Value {
    Text(String),
    Number(Number),
    /// A boolean or `null`.
    Other,
}

/// An argument (no name) or a property (`name=value`) of a node.
#[derive(Debug)]
pub struct Entry {
    pub name: Option<String>,
    pub value: Value,
}

/// A node: its name, its entries in order, and its children in order.
#[derive(Debug)]
pub struct Node {
    pub name: String,
    pub entries: Vec<Entry>,
    pub children: Vec<Node>,
}

/// A configuration document: its top-level nodes in order.
#[derive(Debug)]
pub struct Document {
    pub nodes: Vec<Node>,
}

/// The model of a [`Document`].
pub struct DocumentView {
    pub nodes: Seq<NodeView>,
}

impl View for Document {
    type V = DocumentView;

    open spec fn view(&self) -> DocumentView {
        DocumentView { nodes: node_views(self.nodes@) }
    }
}

/// A node that breaks the rules for its kind.
pub enum NodeError {
    UnknownProperty { node: Seq<char>, name: Seq<char> },
    DuplicateProperty { node: Seq<char>, name: Seq<char> },
    ArgumentCount { node: Seq<char>, expected: nat, found: nat },
    UnknownChild { node: Seq<char>, name: Seq<char> },
    DuplicateChild { node: Seq<char>, name: Seq<char> },
}

/// The name of an entry, if it is a property.
pub open spec fn entry_name(e: EntryView) -> Option<Seq<char>> {
    e.name
}

/// Whether `names` holds `n`.
pub open spec fn names_contain(names: Seq<&str>, n: Seq<char>) -> bool {
    exists|k: int| 0 <= k < names.len() && (#[trigger] names[k])@ == n
}

/// Whether one of the entries before position `i` is a property named `n`.
pub open spec fn property_before(es: Seq<EntryView>, i: int, n: Seq<char>) -> bool {
    exists|j: int| 0 <= j < i && #[trigger] entry_name(es[j]) == Some(n)
}

/// Whether one of the children before position `i` is named `n`.
pub open spec fn child_before(cs: Seq<NodeView>, i: int, n: Seq<char>) -> bool {
    exists|j: int| 0 <= j < i && (#[trigger] cs[j]).name == n
}

/// The first problem among the entries from position `i` on: a property
/// that is not allowed, or one that repeats an earlier property.
pub open spec fn entries_problem(
    node: Seq<char>,
    es: Seq<EntryView>,
    allowed: Seq<&str>,
    i: int,
) -> Option<NodeError>
    decreases es.len() - i,
{
    if i < 0 || i >= es.len() {
        None
    } else {
        match entry_name(es[i]) {
            Some(n) => if !names_contain(allowed, n) {
                Some(NodeError::UnknownProperty { node, name: n })
            } else if property_before(es, i, n) {
                Some(NodeError::DuplicateProperty { node, name: n })
            } else {
                entries_problem(node, es, allowed, i + 1)
            },
            None => entries_problem(node, es, allowed, i + 1),
        }
    }
}

/// How many of the first `n` entries are arguments.
pub open spec fn arguments_in(es: Seq<EntryView>, n: int) -> nat
    decreases n,
{
    if n <= 0 || n > es.len() {
        0
    } else {
        arguments_in(es, n - 1) + if es[n - 1].name is None {
            1nat
        } else {
            0nat
        }
    }
}

/// The first problem among the children from position `i` on: a child that
/// is not allowed, or one that repeats an earlier child's name.
pub open spec fn children_problem(
    node: Seq<char>,
    cs: Seq<NodeView>,
    allowed: Seq<&str>,
    i: int,
) -> Option<NodeError>
    decreases cs.len() - i,
{
    if i < 0 || i >= cs.len() {
        None
    } else {
        let n = cs[i].name;
        if !names_contain(allowed, n) {
            Some(NodeError::UnknownChild { node, name: n })
        } else if child_before(cs, i, n) {
            Some(NodeError::DuplicateChild { node, name: n })
        } else {
            children_problem(node, cs, allowed, i + 1)
        }
    }
}

/// The first rule that `node` breaks, if any: its properties are among
/// `properties` and appear once each, it has exactly `arguments` arguments,
/// and its children are among `children` and appear once each.
pub open spec fn node_problem(
    node: NodeView,
    arguments: nat,
    properties: Seq<&str>,
    children: Seq<&str>,
) -> Option<NodeError> {
    let es = node.entries;
    match entries_problem(node.name, es, properties, 0) {
        Some(e) => Some(e),
        None => if arguments_in(es, es.len() as int) != arguments {
            Some(
                NodeError::ArgumentCount {
                    node: node.name,
                    expected: arguments,
                    found: arguments_in(es, es.len() as int),
                },
            )
        } else {
            children_problem(node.name, node.children, children, 0)
        },
    }
}

/// The error that exec code reports for a node.
#[derive(Debug)]
pub enum NodeFault {
    UnknownProperty { node: String, name: String },
    DuplicateProperty { node: String, name: String },
    ArgumentCount { node: String, expected: usize, found: usize },
    UnknownChild { node: String, name: String },
    DuplicateChild { node: String, name: String },
}

impl View for NodeFault {
    type V = NodeError;

    open spec fn view(&self) -> NodeError {
        match self {
            NodeFault::UnknownProperty { node, name } => NodeError::UnknownProperty {
                node: node@,
                name: name@,
            },
            NodeFault::DuplicateProperty { node, name } => NodeError::DuplicateProperty {
                node: node@,
                name: name@,
            },
            NodeFault::ArgumentCount { node, expected, found } => NodeError::ArgumentCount {
                node: node@,
                expected: *expected as nat,
                found: *found as nat,
            },
            NodeFault::UnknownChild { node, name } => NodeError::UnknownChild {
                node: node@,
                name: name@,
            },
            NodeFault::DuplicateChild { node, name } => NodeError::DuplicateChild {
                node: node@,
                name: name@,
            },
        }
    }
}

/// Whether `n` is one of `names`.
fn contains_name(names: &[&str], n: &str) -> (r: bool)
    ensures
        r == names_contain(names@, n@),
{
    let mut k: usize = 0;
    while k < names.len()
        invariant
            k <= names@.len(),
            forall|j: int| 0 <= j < k ==> (#[trigger] names@[j])@ != n@,
        decreases names.len() - k,
    {
        if str_eq(names[k], n) {
            return true;
        }
        k = k + 1;
    }
    false
}

/// Checks `node` against the rules for its kind (see [`node_problem`]).
pub fn validate_node(
    node: &Node,
    expected_arguments: usize,
    allowed_properties: &[&str],
    allowed_children: &[&str],
) -> (r: Result<(), NodeFault>)
    ensures
        match r {
            Ok(()) => node_problem(
                node@,
                expected_arguments as nat,
                allowed_properties@,
                allowed_children@,
            ) is None,
            Err(f) => node_problem(
                node@,
                expected_arguments as nat,
                allowed_properties@,
                allowed_children@,
            ) == Some(f@),
        },
{
    let mut arguments: usize = 0;
    let mut i: usize = 0;
    while i < node.entries.len()
        invariant
            i <= node.entries@.len(),
            arguments == arguments_in(node@.entries, i as int),
            arguments <= i,
            entries_problem(node@.name, node@.entries, allowed_properties@, 0) == entries_problem(
                node@.name,
                node@.entries,
                allowed_properties@,
                i as int,
            ),
        decreases node.entries.len() - i,
    {
        match &node.entries[i].name {
            None => {
                arguments = arguments + 1;
            },
            Some(name) => {
                assert(entry_name(node@.entries[i as int]) == Some(name@));
                if !contains_name(allowed_properties, name.as_str()) {
                    return Err(
                        NodeFault::UnknownProperty { node: node.name.clone(), name: name.clone() },
                    );
                }
                let mut j: usize = 0;
                while j < i
                    invariant
                        j <= i < node.entries@.len(),
                        node.entries@[i as int].name == Some(*name),
                        names_contain(allowed_properties@, name@),
                        arguments == arguments_in(node@.entries, i as int),
                        entries_problem(node@.name, node@.entries, allowed_properties@, 0)
                            == entries_problem(node@.name, node@.entries, allowed_properties@, i as int),
                        forall|m: int| 0 <= m < j ==> entry_name(#[trigger] node@.entries[m]) != Some(name@),
                    decreases i - j,
                {
                    match &node.entries[j].name {
                        Some(other) => {
                            if str_eq(other.as_str(), name.as_str()) {
                                assert(entry_name(node@.entries[j as int]) == Some(name@));
                                return Err(
                                    NodeFault::DuplicateProperty {
                                        node: node.name.clone(),
                                        name: name.clone(),
                                    },
                                );
                            }
                        },
                        None => {},
                    }
                    j = j + 1;
                }
            },
        }
        i = i + 1;
    }
    assert(node@.entries.len() == node.entries@.len());
    if arguments != expected_arguments {
        return Err(
            NodeFault::ArgumentCount {
                node: node.name.clone(),
                expected: expected_arguments,
                found: arguments,
            },
        );
    }
    assert(entries_problem(node@.name, node@.entries, allowed_properties@, i as int) is None);
    assert(arguments_in(node@.entries, node@.entries.len() as int) == expected_arguments);
    let mut i: usize = 0;
    while i < node.children.len()
        invariant
            i <= node.children@.len(),
            entries_problem(node@.name, node@.entries, allowed_properties@, 0) is None,
            arguments_in(node@.entries, node@.entries.len() as int) == expected_arguments,
            children_problem(node@.name, node@.children, allowed_children@, 0) == children_problem(
                node@.name,
                node@.children,
                allowed_children@,
                i as int,
            ),
        decreases node.children.len() - i,
    {
        let name = &node.children[i].name;
        assert(node@.children[i as int] == node.children@[i as int]@);
        if !contains_name(allowed_children, name.as_str()) {
            return Err(NodeFault::UnknownChild { node: node.name.clone(), name: name.clone() });
        }
        let mut j: usize = 0;
        while j < i
            invariant
                j <= i < node.children@.len(),
                node.children@[i as int].name == *name,
                names_contain(allowed_children@, name@),
                entries_problem(node@.name, node@.entries, allowed_properties@, 0) is None,
                arguments_in(node@.entries, node@.entries.len() as int) == expected_arguments,
                children_problem(node@.name, node@.children, allowed_children@, 0)
                    == children_problem(node@.name, node@.children, allowed_children@, i as int),
                forall|m: int| 0 <= m < j ==> (#[trigger] node@.children[m]).name != name@,
            decreases i - j,
        {
            assert(node@.children[j as int] == node.children@[j as int]@);
            if str_eq(node.children[j].name.as_str(), name.as_str()) {
                return Err(
                    NodeFault::DuplicateChild { node: node.name.clone(), name: name.clone() },
                );
            }
            j = j + 1;
        }
        i = i + 1;
    }
    Ok(())
}

/// The value of the last property of `es[..n]` named `key`.
pub open spec fn property_in(es: Seq<EntryView>, key: Seq<char>, n: int) -> Option<ValueView>
    decreases n,
{
    if n <= 0 || n > es.len() {
        None
    } else if entry_name(es[n - 1]) == Some(key) {
        Some(es[n - 1].value)
    } else {
        property_in(es, key, n - 1)
    }
}

/// The value of the property `key` of `node` (the last one, if repeated).
pub open spec fn property(node: NodeView, key: Seq<char>) -> Option<ValueView> {
    property_in(node.entries, key, node.entries.len() as int)
}

/// The first argument of `es` at or after position `i`.
pub open spec fn argument_from(es: Seq<EntryView>, i: int) -> Option<ValueView>
    decreases es.len() - i,
{
    if i < 0 || i >= es.len() {
        None
    } else if es[i].name is None {
        Some(es[i].value)
    } else {
        argument_from(es, i + 1)
    }
}

/// The first argument of `node`.
pub open spec fn first_argument(node: NodeView) -> Option<ValueView> {
    argument_from(node.entries, 0)
}

/// The first of `cs[i..]` named `name`.
pub open spec fn child_from(cs: Seq<NodeView>, name: Seq<char>, i: int) -> Option<NodeView>
    decreases cs.len() - i,
{
    if i < 0 || i >= cs.len() {
        None
    } else if cs[i].name == name {
        Some(cs[i])
    } else {
        child_from(cs, name, i + 1)
    }
}

/// The first child of `node` named `name`.
pub open spec fn child(node: NodeView, name: Seq<char>) -> Option<NodeView> {
    child_from(node.children, name, 0)
}

/// The property `key` of `node` (the last one, if repeated).
pub fn get_property<'a>(node: &'a Node, key: &str) -> (r: Option<&'a Value>)
    ensures
        match r {
            Some(v) => property(node@, key@) == Some(v@),
            None => property(node@, key@) is None,
        },
{
    let mut n = node.entries.len();
    while n > 0
        invariant
            n <= node.entries@.len(),
            property(node@, key@) == property_in(node@.entries, key@, n as int),
        decreases n,
    {
        match &node.entries[n - 1].name {
            Some(name) => {
                if str_eq(name.as_str(), key) {
                    return Some(&node.entries[n - 1].value);
                }
            },
            None => {},
        }
        n = n - 1;
    }
    None
}

/// The first argument of `node`.
pub fn get_first_argument<'a>(node: &'a Node) -> (r: Option<&'a Value>)
    ensures
        match r {
            Some(v) => first_argument(node@) == Some(v@),
            None => first_argument(node@) is None,
        },
{
    let mut i: usize = 0;
    while i < node.entries.len()
        invariant
            i <= node.entries@.len(),
            first_argument(node@) == argument_from(node@.entries, i as int),
        decreases node.entries.len() - i,
    {
        if node.entries[i].name.is_none() {
            return Some(&node.entries[i].value);
        }
        i = i + 1;
    }
    None
}

/// The first child of `node` named `name`.
pub fn get_child<'a>(node: &'a Node, name: &str) -> (r: Option<&'a Node>)
    ensures
        match r {
            Some(c) => child(node@, name@) == Some(c@),
            None => child(node@, name@) is None,
        },
{
    let mut i: usize = 0;
    while i < node.children.len()
        invariant
            i <= node.children@.len(),
            child(node@, name@) == child_from(node@.children, name@, i as int),
        decreases node.children.len() - i,
    {
        assert(node@.children[i as int] == node.children@[i as int]@);
        if str_eq(node.children[i].name.as_str(), name) {
            return Some(&node.children[i]);
        }
        i = i + 1;
    }
    None
}

#[verifier::external_type_specification]
#[verifier::external_body]
pub struct ExKdlNode(KdlNode);

#[verifier::external_type_specification]
#[verifier::external_body]
pub struct ExKdlValue(KdlValue);

/// The document that the KDL text `text` holds, as `kdl` reads it (with
/// `KdlDocument`'s `FromStr`), or `None` where `kdl` refuses the text.
pub uninterp spec fn kdl_document(text: Seq<char>) -> Option<DocumentView>;

/// A `kdl` value (`KdlValue`) as a value of this library, converted one for
/// one: strings as text, integers as they are, floats by their encoding
/// (`f64::to_bits`), booleans and `null` as other values. Nothing is claimed
/// of the result; what `parse_kdl` gives is named by [`kdl_document`].
#[verifier::external_body]
fn value_of(v: &KdlValue) -> (r: Value) {
    match v {
        KdlValue::String(s) => Value::Text(s.clone()),
        KdlValue::Integer(i) => Value::Number(Number::Integer(*i)),
        KdlValue::Float(f) => Value::Number(Number::Float(f.to_bits())),
        KdlValue::Bool(_) | KdlValue::Null => Value::Other,
    }
}

/// A `kdl` node as a node of this library, read with `KdlNode::name`,
/// `KdlNode::entries` (`KdlEntry::name`, `KdlEntry::value`) and
/// `KdlNode::children`: its name, its entries and its children, in order.
/// Nothing is claimed of the result; what `parse_kdl` gives is named by
/// [`kdl_document`].
#[verifier::external_body]
fn node_of(n: &KdlNode) -> (r: Node) {
    Node {
        name: n.name().value().to_string(),
        entries: n.entries().iter().map(
            |e| Entry { name: e.name().map(|i| i.value().to_string()), value: value_of(e.value()) },
        ).collect(),
        children: n.children().map(|d| d.nodes().iter().map(node_of).collect()).unwrap_or_default(),
    }
}

/// Parses `text` with `kdl`'s `KdlDocument::from_str`; the result is named
/// [`kdl_document`] of the text, and the call succeeds exactly where `kdl`
/// reads the text as a document.
#[verifier::external_body]
pub(crate) fn parse_kdl(text: &str) -> (r: Option<Document>)
    ensures
        match r {
            Some(d) => kdl_document(text@) == Some(d@),
            None => kdl_document(text@) is None,
        },
{
    match text.parse::<KdlDocument>() {
        Ok(doc) => Some(Document { nodes: doc.nodes().iter().map(node_of).collect() }),
        Err(_) => None,
    }
}

} // verus!
