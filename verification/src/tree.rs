//! The document tree: a value that is one scalar, a list, or a map from
//! string keys to further values, and its way to YAML text and back.

use crate::ordered_map::distinct_keys;
use crate::ordered_map::OrderedMap;
use vstd::prelude::*;
use vstd::std_specs::cmp::PartialEqSpecImpl;

verus! {

/// The mathematical model of a document tree.
pub enum Node {
    Null,
    Bool(bool),
    /// An integer that an `i64` holds.
    Int(int),
    /// A number that no `i64` holds. The payload tells two such numbers apart.
    Other(int),
    Str(Seq<char>),
    List(Seq<Node>),
    /// The entries of a mapping in their order.
    Dict(Seq<(Seq<char>, Node)>),
}

/// Which of the three shapes a document tree has.
#[derive(Debug, Clone, Copy, PartialEq, Eq, Structural)]
pub enum Shape {
    /// One scalar: null, a truth value, a number or a string.
    Single,
    /// An ordered list.
    List,
    /// A mapping from string keys.
    Mapping,
}

/// No number in the tree is beyond an `i64`.
pub open spec fn plain(n: Node) -> bool
    decreases n,
{
    match n {
        Node::Other(_) => false,
        Node::List(items) => forall|i: int| 0 <= i < items.len() ==> plain(#[trigger] items[i]),
        Node::Dict(entries) => forall|i: int|
            0 <= i < entries.len() ==> plain((#[trigger] entries[i]).1),
        _ => true,
    }
}

/// The shape of a tree.
pub open spec fn shape_of(n: Node) -> Shape {
    match n {
        Node::List(_) => Shape::List,
        Node::Dict(_) => Shape::Mapping,
        _ => Shape::Single,
    }
}

/// A document tree.
#[derive(Debug)]
pub enum Tree {
    Null,
    Bool(bool),
    Number(i64),
    String(String),
    Array(Vec<Tree>),
    Object(OrderedMap<Tree>),
}

/// The models of a list of trees.
pub open spec fn nodes(items: Seq<Tree>) -> Seq<Node> {
    Seq::new(items.len(), |i: int| items[i].node())
}

/// The models of the entries of a mapping.
pub open spec fn entry_nodes(entries: Seq<(Seq<char>, Tree)>) -> Seq<(Seq<char>, Node)> {
    Seq::new(entries.len(), |i: int| (entries[i].0, entries[i].1.node()))
}

impl View for Tree {
    type V = Node;

    open spec fn view(&self) -> Node {
        self.node()
    }
}

impl Clone for Tree {
    fn clone(&self) -> (r: Self) {
        self.duplicate()
    }
}

impl PartialEq for Tree {
    fn eq(&self, other: &Self) -> (r: bool) {
        self.same(other)
    }
}

impl PartialEqSpecImpl for Tree {
    open spec fn obeys_eq_spec() -> bool {
        true
    }

    /// Two trees are equal where their models are.
    open spec fn eq_spec(&self, other: &Self) -> bool {
        self@ == other@
    }
}

impl Eq for Tree {

}

impl Tree {
    /// The model of the tree.
    pub open spec fn node(&self) -> Node
        decreases self,
    {
        match self {
            Tree::Null => Node::Null,
            Tree::Bool(b) => Node::Bool(*b),
            Tree::Number(n) => Node::Int(*n as int),
            Tree::String(s) => Node::Str(s@),
            Tree::Array(items) => Node::List(
                Seq::new(
                    items@.len(),
                    |i: int|
                        if 0 <= i < items@.len() {
                            items@[i].node()
                        } else {
                            Node::Null
                        },
                ),
            ),
            Tree::Object(m) => Node::Dict(
                Seq::new(
                    m@.len(),
                    |i: int|
                        if 0 <= i < m@.len() {
                            proof {
                                m.lemma_value_decreases(i);
                            }
                            (m@[i].0, m@[i].1.node())
                        } else {
                            (Seq::empty(), Node::Null)
                        },
                ),
            ),
        }
    }

    /// The model of a list is the list of its items' models, and that of a
    /// mapping the list of its entries with their values' models.
    pub proof fn lemma_node(self)
        ensures
            self matches Tree::Array(items) ==> self@ == Node::List(nodes(items@)),
            self matches Tree::Object(m) ==> self@ == Node::Dict(entry_nodes(m@)),
            plain(self@),
        decreases self,
    {
        match self {
            Tree::Array(items) => {
                assert(self@->List_0 =~= nodes(items@));
                assert forall|i: int| 0 <= i < items@.len() implies plain(
                    #[trigger] nodes(items@)[i],
                ) by {
                    items@[i].lemma_node();
                }
            },
            Tree::Object(m) => {
                assert(self@->Dict_0 =~= entry_nodes(m@));
                assert forall|i: int| 0 <= i < m@.len() implies plain(
                    (#[trigger] entry_nodes(m@)[i]).1,
                ) by {
                    m.lemma_value_decreases(i);
                    m@[i].1.lemma_node();
                }
            },
            _ => {},
        }
    }

    /// A copy of the tree.
    pub fn duplicate(&self) -> (r: Tree)
        ensures
            r@ == self@,
        decreases self,
    {
        match self {
            Tree::Null => Tree::Null,
            Tree::Bool(b) => Tree::Bool(*b),
            Tree::Number(n) => Tree::Number(*n),
            Tree::String(s) => Tree::String(s.clone()),
            Tree::Array(items) => {
                let mut copy: Vec<Tree> = Vec::new();
                let mut i: usize = 0;
                while i < items.len()
                    invariant
                        i <= items.len(),
                        self is Array && self->Array_0 == *items,
                        copy@.len() == i,
                        forall|k: int| 0 <= k < i ==> (#[trigger] copy@[k])@ == items@[k]@,
                    decreases items.len() - i,
                {
                    proof {
                        vstd::std_specs::vec::axiom_vec_index_decreases(*items, i as int);
                    }
                    copy.push(items[i].duplicate());
                    i = i + 1;
                }
                let r = Tree::Array(copy);
                proof {
                    self.lemma_node();
                    r.lemma_node();
                    assert(nodes(copy@) =~= nodes(items@));
                }
                r
            },
            Tree::Object(m) => {
                let mut copy: OrderedMap<Tree> = OrderedMap::new();
                let n = m.len();
                let mut i: usize = 0;
                while i < n
                    invariant
                        i <= n,
                        n == m@.len(),
                        distinct_keys(m@),
                        self is Object && self->Object_0 == *m,
                        copy@.len() == i,
                        forall|k: int|
                            0 <= k < i ==> (#[trigger] copy@[k]).0 == m@[k].0 && copy@[k].1@
                                == m@[k].1@,
                    decreases n - i,
                {
                    proof {
                        m.lemma_value_decreases(i as int);
                        crate::ordered_map::lemma_position(copy@, m@[i as int].0);
                        if crate::ordered_map::position(copy@, m@[i as int].0) < copy@.len() {
                            let p = crate::ordered_map::position(copy@, m@[i as int].0);
                            assert(copy@[p].0 == m@[p].0);
                        }
                    }
                    let ghost before = copy@;
                    copy = copy.insert(m.key_at(i).clone(), m.value_at(i).duplicate());
                    assert(copy@ == before.push((m@[i as int].0, copy@[i as int].1)));
                    i = i + 1;
                }
                let r = Tree::Object(copy);
                proof {
                    self.lemma_node();
                    r.lemma_node();
                    assert(entry_nodes(copy@) =~= entry_nodes(m@));
                }
                r
            },
        }
    }

    /// Whether two trees are alike.
    pub fn same(&self, other: &Tree) -> (r: bool)
        ensures
            r == (self@ == other@),
        decreases self,
    {
        proof {
            self.lemma_node();
            other.lemma_node();
        }
        match (self, other) {
            (Tree::Null, Tree::Null) => true,
            (Tree::Bool(a), Tree::Bool(b)) => *a == *b,
            (Tree::Number(a), Tree::Number(b)) => *a == *b,
            (Tree::String(a), Tree::String(b)) => *a == *b,
            (Tree::Array(a), Tree::Array(b)) => {
                if a.len() != b.len() {
                    assert(nodes(a@).len() != nodes(b@).len());
                    return false;
                }
                let mut i: usize = 0;
                while i < a.len()
                    invariant
                        i <= a.len(),
                        a.len() == b.len(),
                        self is Array && self->Array_0 == *a,
                        other is Array && other->Array_0 == *b,
                        forall|k: int| 0 <= k < i ==> (#[trigger] a@[k])@ == b@[k]@,
                    decreases a.len() - i,
                {
                    proof {
                        vstd::std_specs::vec::axiom_vec_index_decreases(*a, i as int);
                    }
                    if !a[i].same(&b[i]) {
                        proof {
                            self.lemma_node();
                            other.lemma_node();
                            assert(nodes(a@)[i as int] != nodes(b@)[i as int]);
                        }
                        return false;
                    }
                    i = i + 1;
                }
                assert(nodes(a@) =~= nodes(b@));
                true
            },
            (Tree::Object(a), Tree::Object(b)) => {
                let n = a.len();
                if n != b.len() {
                    assert(entry_nodes(a@).len() != entry_nodes(b@).len());
                    return false;
                }
                let mut i: usize = 0;
                while i < n
                    invariant
                        i <= n,
                        n == a@.len(),
                        n == b@.len(),
                        self is Object && self->Object_0 == *a,
                        other is Object && other->Object_0 == *b,
                        forall|k: int|
                            0 <= k < i ==> (#[trigger] a@[k]).0 == b@[k].0 && a@[k].1@ == b@[k].1@,
                    decreases n - i,
                {
                    proof {
                        a.lemma_value_decreases(i as int);
                    }
                    let alike = *a.key_at(i) == *b.key_at(i) && a.value_at(i).same(b.value_at(i));
                    if !alike {
                        proof {
                            self.lemma_node();
                            other.lemma_node();
                            assert(entry_nodes(a@)[i as int] != entry_nodes(b@)[i as int]);
                        }
                        return false;
                    }
                    i = i + 1;
                }
                assert(entry_nodes(a@) =~= entry_nodes(b@));
                true
            },
            _ => false,
        }
    }

    /// The shape of the tree.
    pub fn shape(&self) -> (s: Shape)
        ensures
            s == shape_of(self@),
    {
        match self {
            Tree::Array(_) => Shape::List,
            Tree::Object(_) => Shape::Mapping,
            _ => Shape::Single,
        }
    }
}

} // verus!
