//! The document model: a read-only tree of named nodes.
//!
//! A level file is parsed elsewhere into this tree.  Each node has a name, an
//! ordered list of entries (positional arguments and named properties), an
//! optional child document and a source span.  Lookup follows the language's
//! conventions: the first node of a given name, the i-th positional argument,
//! and the rightmost property of a given name.

use crate::num::Number;
use vstd::prelude::*;

verus! {

/// A byte range in the original source text, for diagnostic highlighting.
#[derive(Debug, Clone, Copy, PartialEq, Eq, Structural)]
pub struct Span {
    pub offset: usize,
    pub len: usize,
}

impl Span {
    pub fn new(offset: usize, len: usize) -> (s: Span)
        ensures
            s == (Span { offset, len }),
    {
        Span { offset, len }
    }
}

/// A scalar value attached to a node.  A float is carried as its IEEE-754
/// double bit pattern; the binder never computes with it.
#[derive(Debug, Clone, PartialEq)]
pub enum KdlValue {
    String(String),
    Integer(i64),
    Float(u64),
    Bool(bool),
    Null,
}

/// The kind of scalar a value holds, for expected-versus-actual reporting.
#[derive(Debug, Clone, Copy, PartialEq, Eq, Structural)]
pub enum KdlValueType {
    String,
    Integer,
    Float,
    Bool,
    Null,
}

impl KdlValue {
    /// The kind of scalar this value holds.
    pub fn value_type(&self) -> (t: KdlValueType)
        ensures
            t == self.spec_value_type(),
    {
        match self {
            KdlValue::String(_) => KdlValueType::String,
            KdlValue::Integer(_) => KdlValueType::Integer,
            KdlValue::Float(_) => KdlValueType::Float,
            KdlValue::Bool(_) => KdlValueType::Bool,
            KdlValue::Null => KdlValueType::Null,
        }
    }

    pub open spec fn spec_value_type(self) -> KdlValueType {
        match self {
            KdlValue::String(_) => KdlValueType::String,
            KdlValue::Integer(_) => KdlValueType::Integer,
            KdlValue::Float(_) => KdlValueType::Float,
            KdlValue::Bool(_) => KdlValueType::Bool,
            KdlValue::Null => KdlValueType::Null,
        }
    }

    /// The numeric content of the value, if it is a number.
    pub fn as_number(&self) -> (r: Option<Number>)
        ensures
            r == self.spec_as_number(),
    {
        match self {
            KdlValue::Integer(i) => Some(Number::Int(*i)),
            KdlValue::Float(bits) => Some(Number::Float(*bits)),
            _ => None,
        }
    }

    pub open spec fn spec_as_number(self) -> Option<Number> {
        match self {
            KdlValue::Integer(i) => Some(Number::Int(i)),
            KdlValue::Float(bits) => Some(Number::Float(bits)),
            _ => None,
        }
    }

    /// The string content of the value, if it is a string.
    pub fn as_string(&self) -> (r: Option<&String>)
        ensures
            match r {
                Some(s) => self.spec_as_string() == Some(s@),
                None => self.spec_as_string() is None,
            },
    {
        match self {
            KdlValue::String(s) => Some(s),
            _ => None,
        }
    }

    pub open spec fn spec_as_string(self) -> Option<Seq<char>> {
        match self {
            KdlValue::String(s) => Some(s@),
            _ => None,
        }
    }
}

/// One entry of a node: a scalar, either positional (no name) or keyed by a
/// property name.
#[derive(Debug, Clone, PartialEq)]
pub struct KdlEntry {
    pub name: Option<String>,
    pub value: KdlValue,
    pub span: Span,
}

impl KdlEntry {
    /// A positional (unnamed) entry.
    pub fn arg(value: KdlValue, span: Span) -> (e: KdlEntry)
        ensures
            e == (KdlEntry { name: None, value, span }),
    {
        KdlEntry { name: None, value, span }
    }

    /// A named property entry.
    pub fn prop(name: String, value: KdlValue, span: Span) -> (e: KdlEntry)
        ensures
            e == (KdlEntry { name: Some(name), value, span }),
    {
        KdlEntry { name: Some(name), value, span }
    }

    pub fn value(&self) -> (v: &KdlValue)
        ensures
            v == &self.value,
    {
        &self.value
    }

    pub fn span(&self) -> (s: Span)
        ensures
            s == self.span,
    {
        self.span
    }
}

/// A key addressing one entry of a node: either the index of a positional
/// argument or the name of a property.
#[derive(Debug, Clone, PartialEq)]
pub enum NodeKey {
    Index(usize),
    Key(String),
}

/// The mathematical value of an entry key.
pub enum KeyView {
    Index(int),
    Prop(Seq<char>),
}

impl View for NodeKey {
    type V = KeyView;

    open spec fn view(&self) -> KeyView {
        match self {
            NodeKey::Index(i) => KeyView::Index(*i as int),
            NodeKey::Key(s) => KeyView::Prop(s@),
        }
    }
}

/// A named node: entries, an optional child document, and its span.
#[derive(Debug)]
pub struct KdlNode {
    pub name: String,
    pub entries: Vec<KdlEntry>,
    pub children: Option<KdlDocument>,
    pub span: Span,
}

/// A document: an ordered list of nodes.
#[derive(Debug)]
pub struct KdlDocument {
    pub nodes: Vec<KdlNode>,
}

/// True of a string slice and a `String` holding the same characters.
pub fn str_eq_string(a: &str, b: &String) -> (r: bool)
    ensures
        r == (a@ == b@),
{
    let owned: String = a.to_owned();
    owned == *b
}

/// The first node with the given name, as document lookup finds it.
pub open spec fn spec_first_node(nodes: Seq<KdlNode>, name: Seq<char>) -> Option<KdlNode>
    decreases nodes.len(),
{
    if nodes.len() == 0 {
        None
    } else if nodes.first().name@ == name {
        Some(nodes.first())
    } else {
        spec_first_node(nodes.drop_first(), name)
    }
}

/// The i-th positional (unnamed) entry.
pub open spec fn spec_arg(entries: Seq<KdlEntry>, idx: int) -> Option<KdlEntry>
    decreases entries.len(),
{
    if entries.len() == 0 {
        None
    } else if entries.first().name is None {
        if idx == 0 {
            Some(entries.first())
        } else {
            spec_arg(entries.drop_first(), idx - 1)
        }
    } else {
        spec_arg(entries.drop_first(), idx)
    }
}

/// The rightmost entry keyed by the given property name.
pub open spec fn spec_prop(entries: Seq<KdlEntry>, name: Seq<char>) -> Option<KdlEntry>
    decreases entries.len(),
{
    if entries.len() == 0 {
        None
    } else if entries.last().name matches Some(n) && n@ == name {
        Some(entries.last())
    } else {
        spec_prop(entries.drop_last(), name)
    }
}

/// The entry addressed by a key: positional lookup for an index, rightmost
/// match for a property name.
pub open spec fn spec_entry(node: KdlNode, key: KeyView) -> Option<KdlEntry> {
    match key {
        KeyView::Index(i) => spec_arg(node.entries@, i),
        KeyView::Prop(name) => spec_prop(node.entries@, name),
    }
}

impl KdlDocument {
    pub fn new(nodes: Vec<KdlNode>) -> (d: KdlDocument)
        ensures
            d == (KdlDocument { nodes }),
    {
        KdlDocument { nodes }
    }

    pub fn nodes(&self) -> (r: &Vec<KdlNode>)
        ensures
            r == &self.nodes,
    {
        &self.nodes
    }

    /// The first node with the given name, if any.
    pub fn get(&self, name: &str) -> (r: Option<&KdlNode>)
        ensures
            match r {
                Some(n) => spec_first_node(self.nodes@, name@) == Some(*n),
                None => spec_first_node(self.nodes@, name@) is None,
            },
    {
        let mut i: usize = 0;
        proof {
            assert(self.nodes@.skip(0) =~= self.nodes@);
        }
        while i < self.nodes.len()
            invariant
                i <= self.nodes@.len(),
                spec_first_node(self.nodes@, name@) == spec_first_node(
                    self.nodes@.skip(i as int),
                    name@,
                ),
            decreases self.nodes@.len() - i,
        {
            proof {
                assert(self.nodes@.skip(i as int).first() == self.nodes@[i as int]);
            }
            if str_eq_string(name, &self.nodes[i].name) {
                return Some(&self.nodes[i]);
            }
            proof {
                assert(self.nodes@.skip(i as int).drop_first() =~= self.nodes@.skip(i + 1));
            }
            i += 1;
        }
        None
    }
}

impl KdlNode {
    pub fn new(name: String, entries: Vec<KdlEntry>, children: Option<KdlDocument>, span: Span) -> (n:
        KdlNode)
        ensures
            n == (KdlNode { name, entries, children, span }),
    {
        KdlNode { name, entries, children, span }
    }

    pub fn name(&self) -> (r: &String)
        ensures
            r == &self.name,
    {
        &self.name
    }

    pub fn span(&self) -> (s: Span)
        ensures
            s == self.span,
    {
        self.span
    }

    pub fn children(&self) -> (r: Option<&KdlDocument>)
        ensures
            match r {
                Some(d) => self.children == Some(*d),
                None => self.children is None,
            },
    {
        match &self.children {
            Some(d) => Some(d),
            None => None,
        }
    }

    /// The first child node with the given name, if any.
    pub fn child(&self, name: &str) -> (r: Option<&KdlNode>)
        ensures
            match r {
                Some(n) => self.spec_child(name@) == Some(*n),
                None => self.spec_child(name@) is None,
            },
    {
        match &self.children {
            Some(d) => d.get(name),
            None => None,
        }
    }

    pub open spec fn spec_child(self, name: Seq<char>) -> Option<KdlNode> {
        match self.children {
            Some(d) => spec_first_node(d.nodes@, name),
            None => None,
        }
    }

    /// The entry addressed by the given key, if any.
    pub fn entry(&self, key: &NodeKey) -> (r: Option<&KdlEntry>)
        ensures
            match r {
                Some(e) => spec_entry(*self, key@) == Some(*e),
                None => spec_entry(*self, key@) is None,
            },
    {
        match key {
            NodeKey::Index(idx) => self.entry_by_index(*idx),
            NodeKey::Key(name) => self.entry_by_name(name),
        }
    }

    fn entry_by_index(&self, idx: usize) -> (r: Option<&KdlEntry>)
        ensures
            match r {
                Some(e) => spec_arg(self.entries@, idx as int) == Some(*e),
                None => spec_arg(self.entries@, idx as int) is None,
            },
    {
        let mut i: usize = 0;
        let mut current_idx: usize = 0;
        proof {
            assert(self.entries@.skip(0) =~= self.entries@);
        }
        while i < self.entries.len()
            invariant
                i <= self.entries@.len(),
                current_idx <= idx,
                spec_arg(self.entries@, idx as int) == spec_arg(
                    self.entries@.skip(i as int),
                    idx - current_idx,
                ),
            decreases self.entries@.len() - i,
        {
            proof {
                assert(self.entries@.skip(i as int).first() == self.entries@[i as int]);
                assert(self.entries@.skip(i as int).drop_first() =~= self.entries@.skip(i + 1));
            }
            match &self.entries[i].name {
                None => {
                    if current_idx == idx {
                        return Some(&self.entries[i]);
                    }
                    current_idx += 1;
                },
                Some(_) => {},
            }
            i += 1;
        }
        None
    }

    fn entry_by_name(&self, name: &String) -> (r: Option<&KdlEntry>)
        ensures
            match r {
                Some(e) => spec_prop(self.entries@, name@) == Some(*e),
                None => spec_prop(self.entries@, name@) is None,
            },
    {
        let mut i: usize = self.entries.len();
        proof {
            assert(self.entries@.take(i as int) =~= self.entries@);
        }
        while i > 0
            invariant
                i <= self.entries@.len(),
                spec_prop(self.entries@, name@) == spec_prop(self.entries@.take(i as int), name@),
            decreases i,
        {
            i -= 1;
            proof {
                assert(self.entries@.take(i + 1).last() == self.entries@[i as int]);
                assert(self.entries@.take(i + 1).drop_last() =~= self.entries@.take(i as int));
            }
            match &self.entries[i].name {
                Some(n) => {
                    if *n == *name {
                        return Some(&self.entries[i]);
                    }
                },
                None => {},
            }
        }
        None
    }

    /// The value of the entry addressed by the given key, if any.
    pub fn get(&self, key: &NodeKey) -> (r: Option<&KdlValue>)
        ensures
            match r {
                Some(v) => spec_entry(*self, key@) matches Some(e) && e.value == *v,
                None => spec_entry(*self, key@) is None,
            },
    {
        match self.entry(key) {
            Some(e) => Some(&e.value),
            None => None,
        }
    }
}

} // verus!
