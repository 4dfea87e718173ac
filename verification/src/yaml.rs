//! A tree model of YAML documents.
use crate::text::str_eq;
use vstd::prelude::*;

verus! {

/// The mathematical model of a YAML document.
pub enum Tree {
    Null,
    Bool(bool),
    Number(serde_yaml::Number),
    String(Seq<char>),
    Sequence(Seq<Tree>),
    Mapping(Seq<(Tree, Tree)>),
    Tagged(serde_yaml::value::Tag, Box<Tree>),
}

/// A YAML document held in memory.
#[derive(Debug, PartialEq)]
pub enum Node {
    Null,
    Bool(bool),
    Number(serde_yaml::Number),
    String(String),
    Sequence(Vec<Node>),
    Mapping(Vec<(Node, Node)>),
    Tagged(serde_yaml::value::Tag, Box<Node>),
}

/// The trees held by a sequence of nodes, in order.
pub open spec fn trees(items: Seq<Node>) -> Seq<Tree> {
    Seq::new(items.len(), |i: int| items[i]@)
}

/// The pairs of trees held by a sequence of pairs of nodes, in order.
pub open spec fn tree_entries(entries: Seq<(Node, Node)>) -> Seq<(Tree, Tree)> {
    Seq::new(entries.len(), |i: int| (entries[i].0@, entries[i].1@))
}

/// Whether `i` is the first place in `entries` whose key is `key`.
pub open spec fn is_first(entries: Seq<(Tree, Tree)>, key: Tree, i: int) -> bool {
    &&& 0 <= i < entries.len()
    &&& entries[i].0 == key
    &&& forall|j: int| 0 <= j < i ==> (#[trigger] entries[j]).0 != key
}

/// The first place in `entries` whose key is `key`, if there is one.
pub open spec fn position(entries: Seq<(Tree, Tree)>, key: Tree) -> Option<int> {
    if exists|i: int| is_first(entries, key, i) {
        Some(choose|i: int| is_first(entries, key, i))
    } else {
        None
    }
}

/// The value that `entries` holds under `key`, if any.
pub open spec fn lookup(entries: Seq<(Tree, Tree)>, key: Tree) -> Option<Tree> {
    match position(entries, key) {
        Some(i) => Some(entries[i].1),
        None => None,
    }
}

/// `entries` with `value` under `key`: in the place of the entry that had that key,
/// or at the end if there was none.
pub open spec fn upsert(entries: Seq<(Tree, Tree)>, key: Tree, value: Tree) -> Seq<(Tree, Tree)> {
    match position(entries, key) {
        Some(i) => entries.update(i, (key, value)),
        None => entries.push((key, value)),
    }
}

/// Whether no key occurs twice in `entries`.
pub open spec fn distinct_keys(entries: Seq<(Tree, Tree)>) -> bool {
    forall|i: int, j: int|
        0 <= i < j < entries.len() ==> (#[trigger] entries[i]).0 != (#[trigger] entries[j]).0
}

/// Whether every key in `entries` is a plain string.
pub open spec fn string_keys(entries: Seq<(Tree, Tree)>) -> bool {
    forall|i: int| 0 <= i < entries.len() ==> (#[trigger] entries[i]).0 is String
}

impl Tree {
    /// The tree under any tags that wrap it.
    pub open spec fn untag(self) -> Tree
        decreases self,
    {
        match self {
            Tree::Tagged(_, inner) => inner.untag(),
            _ => self,
        }
    }

    /// The characters of a string, seen through tags.
    pub open spec fn as_str(self) -> Option<Seq<char>> {
        match self.untag() {
            Tree::String(s) => Some(s),
            _ => None,
        }
    }

    /// The items of a sequence, seen through tags.
    pub open spec fn as_sequence(self) -> Option<Seq<Tree>> {
        match self.untag() {
            Tree::Sequence(items) => Some(items),
            _ => None,
        }
    }

    /// The entries of a mapping, seen through tags.
    pub open spec fn as_mapping(self) -> Option<Seq<(Tree, Tree)>> {
        match self.untag() {
            Tree::Mapping(entries) => Some(entries),
            _ => None,
        }
    }

    /// The value under the string key `key` of a mapping, seen through tags.
    pub open spec fn get(self, key: Seq<char>) -> Option<Tree> {
        match self.as_mapping() {
            Some(entries) => lookup(entries, Tree::String(key)),
            None => None,
        }
    }

    /// Whether every mapping in the tree is keyed by plain strings, each used once.
    pub open spec fn plain(self) -> bool
        decreases self,
    {
        match self {
            Tree::Sequence(items) => forall|i: int|
                0 <= i < items.len() ==> (#[trigger] items[i]).plain(),
            Tree::Mapping(entries) => {
                &&& string_keys(entries)
                &&& distinct_keys(entries)
                &&& forall|i: int| 0 <= i < entries.len() ==> (#[trigger] entries[i]).1.plain()
            },
            Tree::Tagged(_, inner) => inner.plain(),
            _ => true,
        }
    }
}

/// The first place with a key is the position of that key.
pub proof fn lemma_position_first(entries: Seq<(Tree, Tree)>, key: Tree, i: int)
    requires
        is_first(entries, key, i),
    ensures
        position(entries, key) == Some(i),
{
    let p = choose|p: int| is_first(entries, key, p);
    assert(p == i);
}

/// A key that no entry has is at no position.
pub proof fn lemma_position_none(entries: Seq<(Tree, Tree)>, key: Tree)
    requires
        forall|j: int| 0 <= j < entries.len() ==> (#[trigger] entries[j]).0 != key,
    ensures
        position(entries, key) is None,
{
}

/// What a position says of the entries before it and at it.
pub proof fn lemma_position_spec(entries: Seq<(Tree, Tree)>, key: Tree)
    ensures
        match position(entries, key) {
            Some(i) => is_first(entries, key, i),
            None => forall|j: int| 0 <= j < entries.len() ==> (#[trigger] entries[j]).0 != key,
        },
{
    if !exists|i: int| is_first(entries, key, i) {
        assert forall|j: int| 0 <= j < entries.len() implies (#[trigger] entries[j]).0 != key by {
            if entries[j].0 == key {
                lemma_some_first(entries, key, j);
            }
        }
    }
}

/// After `upsert`, the key holds the new value.
pub proof fn lemma_upsert_same(entries: Seq<(Tree, Tree)>, key: Tree, value: Tree)
    ensures
        lookup(upsert(entries, key, value), key) == Some(value),
{
    lemma_position_spec(entries, key);
    let after = upsert(entries, key, value);
    let place = match position(entries, key) {
        Some(i) => i,
        None => entries.len() as int,
    };
    assert(is_first(after, key, place));
    lemma_position_first(after, key, place);
}

/// After `upsert`, every other key holds what it held.
pub proof fn lemma_upsert_other(entries: Seq<(Tree, Tree)>, key: Tree, value: Tree, other: Tree)
    requires
        other != key,
    ensures
        lookup(upsert(entries, key, value), other) == lookup(entries, other),
{
    lemma_position_spec(entries, key);
    lemma_position_spec(entries, other);
    let after = upsert(entries, key, value);
    match position(entries, other) {
        Some(i) => {
            assert(is_first(after, other, i));
            lemma_position_first(after, other, i);
        },
        None => {
            lemma_position_none(after, other);
        },
    }
}

/// `upsert` with a string key keeps the keys plain strings, each used once.
pub proof fn lemma_upsert_keys(entries: Seq<(Tree, Tree)>, key: Seq<char>, value: Tree)
    requires
        string_keys(entries),
        distinct_keys(entries),
    ensures
        string_keys(upsert(entries, Tree::String(key), value)),
        distinct_keys(upsert(entries, Tree::String(key), value)),
{
    lemma_position_spec(entries, Tree::String(key));
}

/// Where a key occurs at all, it has a first place.
proof fn lemma_some_first(entries: Seq<(Tree, Tree)>, key: Tree, j: int)
    requires
        0 <= j < entries.len(),
        entries[j].0 == key,
    ensures
        exists|i: int| is_first(entries, key, i),
    decreases j,
{
    if forall|k: int| 0 <= k < j ==> (#[trigger] entries[k]).0 != key {
        assert(is_first(entries, key, j));
    } else {
        let k = choose|k: int| 0 <= k < j && (#[trigger] entries[k]).0 == key;
        lemma_some_first(entries, key, k);
    }
}

impl View for Node {
    type V = Tree;

    open spec fn view(&self) -> Tree {
        self.tree()
    }
}

impl Node {
    /// The document that the node holds.
    pub open spec fn tree(&self) -> Tree
        decreases self,
    {
        match self {
            Node::Null => Tree::Null,
            Node::Bool(b) => Tree::Bool(*b),
            Node::Number(n) => Tree::Number(*n),
            Node::String(s) => Tree::String(s@),
            Node::Sequence(items) => Tree::Sequence(
                Seq::new(
                    items@.len(),
                    |i: int|
                        if 0 <= i < items@.len() {
                            items@[i].tree()
                        } else {
                            Tree::Null
                        },
                ),
            ),
            Node::Mapping(entries) => Tree::Mapping(
                Seq::new(
                    entries@.len(),
                    |i: int|
                        if 0 <= i < entries@.len() {
                            (entries@[i].0.tree(), entries@[i].1.tree())
                        } else {
                            (Tree::Null, Tree::Null)
                        },
                ),
            ),
            Node::Tagged(tag, inner) => Tree::Tagged(*tag, Box::new(inner.tree())),
        }
    }

    /// A node that holds the string `text`.
    pub fn string(text: String) -> (r: Node)
        ensures
            r@ == Tree::String(text@),
    {
        Node::String(text)
    }

    /// A node that holds the sequence `items`.
    pub fn sequence(items: Vec<Node>) -> (r: Node)
        ensures
            r@ == Tree::Sequence(trees(items@)),
    {
        assert(Node::Sequence(items)@->Sequence_0 =~= trees(items@));
        Node::Sequence(items)
    }

    /// A node that holds the mapping `entries`.
    pub fn mapping(entries: Vec<(Node, Node)>) -> (r: Node)
        ensures
            r@ == Tree::Mapping(tree_entries(entries@)),
    {
        assert(Node::Mapping(entries)@->Mapping_0 =~= tree_entries(entries@));
        Node::Mapping(entries)
    }

    /// The node under any tags that wrap it.
    pub fn untag(&self) -> (r: &Node)
        ensures
            r@ == self@.untag(),
        decreases self,
    {
        match self {
            Node::Tagged(_, inner) => inner.untag(),
            _ => self,
        }
    }

    /// The string that the node holds, seen through tags.
    pub fn as_str(&self) -> (r: Option<&str>)
        ensures
            match r {
                Some(s) => self@.as_str() == Some(s@),
                None => self@.as_str() is None,
            },
    {
        match self.untag() {
            Node::String(s) => Some(s.as_str()),
            _ => None,
        }
    }

    /// The items of the sequence that the node holds, seen through tags.
    pub fn as_sequence(&self) -> (r: Option<&Vec<Node>>)
        ensures
            match r {
                Some(items) => self@.as_sequence() == Some(trees(items@)),
                None => self@.as_sequence() is None,
            },
    {
        match self.untag() {
            Node::Sequence(items) => {
                Some(items)
            },
            _ => None,
        }
    }

    /// The entries of the mapping that the node holds, seen through tags.
    pub fn as_mapping(&self) -> (r: Option<&Vec<(Node, Node)>>)
        ensures
            match r {
                Some(entries) => self@.as_mapping() == Some(tree_entries(entries@)),
                None => self@.as_mapping() is None,
            },
    {
        match self.untag() {
            Node::Mapping(entries) => {
                Some(entries)
            },
            _ => None,
        }
    }

    /// The value under the string key `key` of the mapping that the node holds, seen
    /// through tags.
    pub fn get(&self, key: &str) -> (r: Option<&Node>)
        ensures
            match r {
                Some(n) => self@.get(key@) == Some(n@),
                None => self@.get(key@) is None,
            },
    {
        match self.as_mapping() {
            Some(entries) => match find(entries, key) {
                Some(i) => Some(&entries[i].1),
                None => None,
            },
            None => None,
        }
    }
}

/// The first place in `entries` whose key is the plain string `key`.
pub fn find(entries: &Vec<(Node, Node)>, key: &str) -> (r: Option<usize>)
    ensures
        match r {
            Some(i) => position(tree_entries(entries@), Tree::String(key@)) == Some(i as int),
            None => position(tree_entries(entries@), Tree::String(key@)) is None,
        },
{
    let ghost model = tree_entries(entries@);
    let mut i: usize = 0;
    while i < entries.len()
        invariant
            i <= entries.len(),
            model == tree_entries(entries@),
            forall|j: int| 0 <= j < i ==> (#[trigger] model[j]).0 != Tree::String(key@),
        decreases entries.len() - i,
    {
        let found = match &entries[i].0 {
            Node::String(s) => str_eq(s.as_str(), key),
            _ => false,
        };
        if found {
            proof {
                lemma_position_first(model, Tree::String(key@), i as int);
            }
            return Some(i);
        }
        i += 1;
    }
    proof {
        lemma_position_none(model, Tree::String(key@));
    }
    None
}

/// Puts `value` under the plain string key `key`: in the place of the entry that had
/// that key, or at the end if there was none.
pub fn insert(entries: &mut Vec<(Node, Node)>, key: String, value: Node)
    ensures
        tree_entries(final(entries)@) == upsert(
            tree_entries(old(entries)@),
            Tree::String(key@),
            value@,
        ),
{
    match find(entries, key.as_str()) {
        Some(i) => {
            entries[i] = (Node::String(key), value);
        },
        None => {
            entries.push((Node::String(key), value));
        },
    }
}

} // verus!
