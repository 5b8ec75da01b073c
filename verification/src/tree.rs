//! The models of values, entries and nodes: a document's tree as
//! mathematical values, down to its leaves.
use vstd::prelude::*;
use crate::document::Entry;
use crate::document::Node;
use crate::document::Number;
use crate::document::Value;

verus! {

/// The model of a [`Value`].
pub enum ValueView {
    Text(Seq<char>),
    Number(Number),
    Other,
}

impl View for Value {
    type V = ValueView;

    open spec fn view(&self) -> ValueView {
        match self {
            Value::Text(s) => ValueView::Text(s@),
            Value::Number(n) => ValueView::Number(*n),
            Value::Other => ValueView::Other,
        }
    }
}

/// The model of an [`Entry`].
pub struct EntryView {
    pub name: Option<Seq<char>>,
    pub value: ValueView,
}

impl View for Entry {
    type V = EntryView;

    open spec fn view(&self) -> EntryView {
        EntryView {
            name: match self.name {
                Some(n) => Some(n@),
                None => None,
            },
            value: self.value@,
        }
    }
}

/// The model of a [`Node`].
pub struct NodeView {
    pub name: Seq<char>,
    pub entries: Seq<EntryView>,
    pub children: Seq<NodeView>,
}

/// The model of `n`, built down its children.
pub open spec fn node_view(n: Node) -> NodeView
    decreases n,
{
    NodeView {
        name: n.name@,
        entries: n.entries@.map_values(|e: Entry| e@),
        children: Seq::new(
            n.children@.len(),
            |i: int|
                if 0 <= i < n.children@.len() {
                    node_view(n.children@[i])
                } else {
                    NodeView { name: Seq::empty(), entries: Seq::empty(), children: Seq::empty() }
                },
        ),
    }
}

/// The model of a node holds its name, the models of its entries and the
/// models of its children, position by position.
pub broadcast proof fn lemma_node_view(n: Node)
    ensures
        #[trigger] node_view(n).name == n.name@,
        node_view(n).entries.len() == n.entries@.len(),
        forall|i: int| 0 <= i < n.entries@.len() ==> #[trigger] node_view(n).entries[i] == n.entries@[i]@,
        node_view(n).children.len() == n.children@.len(),
        forall|i: int|
            0 <= i < n.children@.len() ==> #[trigger] node_view(n).children[i] == node_view(n.children@[i]),
{
}

impl View for Node {
    type V = NodeView;

    open spec fn view(&self) -> NodeView {
        node_view(*self)
    }
}

/// The models of `ns`, in order.
pub open spec fn node_views(ns: Seq<Node>) -> Seq<NodeView> {
    ns.map_values(|n: Node| n@)
}

} // verus!
