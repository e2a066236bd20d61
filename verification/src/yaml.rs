//! A YAML document tree, its mathematical model, and mappings that keep their
//! entries in insertion order.

use vstd::prelude::*;

verus! {

broadcast use vstd::std_specs::vec::axiom_vec_index_decreases;

/// The mathematical model of a YAML value. A number is held by its text, a
/// tag by its text with the leading `!`.
pub enum Node {
    Null,
    Bool(bool),
    Number(Seq<char>),
    Str(Seq<char>),
    Sequence(Seq<Node>),
    Mapping(Seq<(Node, Node)>),
    Tagged(Seq<char>, Box<Node>),
}

/// A YAML value held in memory. A mapping keeps its entries in insertion order.
#[derive(Debug)]
pub enum Yaml {
    Null,
    Bool(bool),
    Number(String),
    Str(String),
    Sequence(Vec<Yaml>),
    Mapping(Vec<(Yaml, Yaml)>),
    Tagged(String, Box<Yaml>),
}

/// The value under any tags.
pub open spec fn untagged(node: Node) -> Node
    decreases node,
{
    match node {
        Node::Tagged(_, inner) => untagged(*inner),
        _ => node,
    }
}

/// The text of a string value, looked for under any tags.
pub open spec fn text_under_tags(node: Node) -> Option<Seq<char>> {
    match untagged(node) {
        Node::Str(s) => Some(s),
        _ => None,
    }
}

/// The models of a sequence of values.
pub open spec fn nodes_of(items: Seq<Yaml>) -> Seq<Node> {
    Seq::new(items.len(), |i: int| items[i].model())
}

/// The models of a sequence of key-value pairs.
pub open spec fn entries_of(entries: Seq<(Yaml, Yaml)>) -> Seq<(Node, Node)> {
    Seq::new(entries.len(), |i: int| (entries[i].0.model(), entries[i].1.model()))
}

impl Yaml {
    /// The model of this value: the same tree over sequences of characters.
    pub open spec fn model(&self) -> Node
        decreases self,
    {
        match self {
            Yaml::Null => Node::Null,
            Yaml::Bool(b) => Node::Bool(*b),
            Yaml::Number(s) => Node::Number(s@),
            Yaml::Str(s) => Node::Str(s@),
            Yaml::Sequence(items) => Node::Sequence(
                Seq::new(
                    items.len() as nat,
                    |i: int|
                        if 0 <= i < items.len() {
                            items[i].model()
                        } else {
                            Node::Null
                        },
                ),
            ),
            Yaml::Mapping(entries) => Node::Mapping(
                Seq::new(
                    entries.len() as nat,
                    |i: int|
                        if 0 <= i < entries.len() {
                            (entries[i].0.model(), entries[i].1.model())
                        } else {
                            (Node::Null, Node::Null)
                        },
                ),
            ),
            Yaml::Tagged(tag, inner) => Node::Tagged(tag@, Box::new(inner.model())),
        }
    }

    /// A sequence value is modelled by the models of its items.
    pub proof fn lemma_sequence_model(items: Vec<Yaml>)
        ensures
            Yaml::Sequence(items).model() == Node::Sequence(nodes_of(items@)),
    {
        let a = Yaml::Sequence(items).model()->Sequence_0;
        assert(a =~= nodes_of(items@));
    }

    /// A mapping value is modelled by the models of its entries.
    pub proof fn lemma_mapping_model(entries: Vec<(Yaml, Yaml)>)
        ensures
            Yaml::Mapping(entries).model() == Node::Mapping(entries_of(entries@)),
    {
        let a = Yaml::Mapping(entries).model()->Mapping_0;
        assert(a =~= entries_of(entries@));
    }
}

impl Yaml {
    /// Whether the value is a mapping.
    pub fn is_mapping(&self) -> (r: bool)
        ensures
            r == (self@ is Mapping),
    {
        match self {
            Yaml::Mapping(_) => true,
            _ => false,
        }
    }

    /// Whether the value is the string `text`.
    pub fn is_text(&self, text: &str) -> (r: bool)
        ensures
            r == (self@ == Node::Str(text@)),
    {
        match self {
            Yaml::Str(s) => *s.as_str() == *text,
            _ => false,
        }
    }

    /// Whether the value, under any tags, is the string `text`.
    pub fn has_text(&self, text: &str) -> (r: bool)
        ensures
            r == (text_under_tags(self@) == Some(text@)),
        decreases self,
    {
        match self {
            Yaml::Str(s) => *s.as_str() == *text,
            Yaml::Tagged(_, inner) => inner.has_text(text),
            _ => false,
        }
    }

    /// Whether two values are the same tree.
    pub fn same(&self, other: &Yaml) -> (r: bool)
        ensures
            r == (self@ == other@),
        decreases self,
    {
        match (self, other) {
            (Yaml::Null, Yaml::Null) => true,
            (Yaml::Bool(a), Yaml::Bool(b)) => *a == *b,
            (Yaml::Number(a), Yaml::Number(b)) => *a == *b,
            (Yaml::Str(a), Yaml::Str(b)) => *a == *b,
            (Yaml::Sequence(a), Yaml::Sequence(b)) => {
                proof {
                    Yaml::lemma_sequence_model(*a);
                    Yaml::lemma_sequence_model(*b);
                }
                same_items(a, b)
            },
            (Yaml::Mapping(a), Yaml::Mapping(b)) => {
                proof {
                    Yaml::lemma_mapping_model(*a);
                    Yaml::lemma_mapping_model(*b);
                }
                same_entries(a, b)
            },
            (Yaml::Tagged(ta, va), Yaml::Tagged(tb, vb)) => *ta == *tb && va.same(vb),
            _ => false,
        }
    }

    /// A copy of the value.
    pub fn deep_copy(&self) -> (r: Yaml)
        ensures
            r@ == self@,
        decreases self,
    {
        match self {
            Yaml::Null => Yaml::Null,
            Yaml::Bool(b) => Yaml::Bool(*b),
            Yaml::Number(s) => Yaml::Number(s.clone()),
            Yaml::Str(s) => Yaml::Str(s.clone()),
            Yaml::Sequence(items) => Yaml::Sequence(copy_items(items)),
            Yaml::Mapping(entries) => Yaml::Mapping(copy_entries(entries)),
            Yaml::Tagged(tag, inner) => Yaml::Tagged(tag.clone(), Box::new(inner.deep_copy())),
        }
    }
}

impl View for Yaml {
    type V = Node;

    open spec fn view(&self) -> Node {
        self.model()
    }
}

/// Whether some entry has the given key.
pub open spec fn has_key(entries: Seq<(Node, Node)>, key: Node) -> bool {
    exists|i: int| 0 <= i < entries.len() && (#[trigger] entries[i]).0 == key
}

/// Whether `i` is the position of the first entry with the given key.
pub open spec fn is_first_at(entries: Seq<(Node, Node)>, key: Node, i: int) -> bool {
    &&& 0 <= i < entries.len()
    &&& entries[i].0 == key
    &&& forall|j: int| 0 <= j < i ==> (#[trigger] entries[j]).0 != key
}

/// The position of the first entry with the given key, where there is one.
pub open spec fn key_index(entries: Seq<(Node, Node)>, key: Node) -> int {
    choose|i: int| is_first_at(entries, key, i)
}

/// The value stored under a key, where there is one.
pub open spec fn lookup(entries: Seq<(Node, Node)>, key: Node) -> Option<Node> {
    if has_key(entries, key) {
        Some(entries[key_index(entries, key)].1)
    } else {
        None
    }
}

/// The entries after storing `value` under `key`: an existing key keeps its
/// place and gets the new value, a new key goes to the end.
pub open spec fn put(entries: Seq<(Node, Node)>, key: Node, value: Node) -> Seq<(Node, Node)> {
    if has_key(entries, key) {
        entries.update(key_index(entries, key), (key, value))
    } else {
        entries.push((key, value))
    }
}

/// Whether no two entries share a key.
pub open spec fn distinct_keys(entries: Seq<(Node, Node)>) -> bool {
    forall|i: int, j: int|
        0 <= i < j < entries.len() ==> (#[trigger] entries[i]).0 != (#[trigger] entries[j]).0
}

/// A position that holds the key and has no earlier entry with it is the key's
/// index.
pub proof fn lemma_key_index(entries: Seq<(Node, Node)>, key: Node, i: int)
    requires
        is_first_at(entries, key, i),
    ensures
        has_key(entries, key),
        key_index(entries, key) == i,
        lookup(entries, key) == Some(entries[i].1),
{
    let c = key_index(entries, key);
    assert(is_first_at(entries, key, c));
    if c < i {
        assert(entries[c].0 != key);
    }
    if i < c {
        assert(entries[i].0 != key);
    }
}

/// Where a key occurs, its index is the position of its first occurrence.
pub proof fn lemma_has_key_index(entries: Seq<(Node, Node)>, key: Node)
    requires
        has_key(entries, key),
    ensures
        is_first_at(entries, key, key_index(entries, key)),
    decreases entries.len(),
{
    let w = choose|i: int| 0 <= i < entries.len() && (#[trigger] entries[i]).0 == key;
    lemma_first_before(entries, key, w);
}

/// Below any occurrence of a key there is a first one.
proof fn lemma_first_before(entries: Seq<(Node, Node)>, key: Node, w: int)
    requires
        0 <= w < entries.len(),
        entries[w].0 == key,
    ensures
        exists|i: int| is_first_at(entries, key, i),
    decreases w,
{
    if exists|j: int| 0 <= j < w && (#[trigger] entries[j]).0 == key {
        let j = choose|j: int| 0 <= j < w && (#[trigger] entries[j]).0 == key;
        lemma_first_before(entries, key, j);
    } else {
        assert(is_first_at(entries, key, w));
    }
}

/// Whether two sequences hold the same values in the same order.
pub fn same_items(a: &Vec<Yaml>, b: &Vec<Yaml>) -> (r: bool)
    ensures
        r == (nodes_of(a@) == nodes_of(b@)),
    decreases a,
{
    if a.len() != b.len() {
        assert(nodes_of(a@).len() != nodes_of(b@).len());
        return false;
    }
    let mut i: usize = 0;
    while i < a.len()
        invariant
            i <= a.len(),
            a.len() == b.len(),
            forall|j: int| 0 <= j < i ==> a[j]@ == b[j]@,
        decreases a.len() - i,
    {
        if !a[i].same(&b[i]) {
            assert(nodes_of(a@)[i as int] != nodes_of(b@)[i as int]);
            return false;
        }
        i += 1;
    }
    assert(nodes_of(a@) =~= nodes_of(b@));
    true
}

/// Whether two lists of entries hold the same pairs in the same order.
pub fn same_entries(a: &Vec<(Yaml, Yaml)>, b: &Vec<(Yaml, Yaml)>) -> (r: bool)
    ensures
        r == (entries_of(a@) == entries_of(b@)),
    decreases a,
{
    if a.len() != b.len() {
        assert(entries_of(a@).len() != entries_of(b@).len());
        return false;
    }
    let mut i: usize = 0;
    while i < a.len()
        invariant
            i <= a.len(),
            a.len() == b.len(),
            forall|j: int| 0 <= j < i ==> a[j].0@ == b[j].0@ && a[j].1@ == b[j].1@,
        decreases a.len() - i,
    {
        if !a[i].0.same(&b[i].0) || !a[i].1.same(&b[i].1) {
            assert(entries_of(a@)[i as int] != entries_of(b@)[i as int]);
            return false;
        }
        i += 1;
    }
    assert(entries_of(a@) =~= entries_of(b@));
    true
}

/// Whether a tree is well formed: no mapping in it, at whatever depth, holds
/// a key twice.
pub open spec fn valid(node: Node) -> bool
    decreases node,
{
    match node {
        Node::Sequence(items) => forall|i: int| 0 <= i < items.len() ==> valid(#[trigger] items[i]),
        Node::Mapping(entries) => {
            &&& distinct_keys(entries)
            &&& forall|i: int|
                0 <= i < entries.len() ==> valid((#[trigger] entries[i]).0) && valid(entries[i].1)
        },
        Node::Tagged(_, inner) => valid(*inner),
        _ => true,
    }
}

/// Whether the entries of a mapping are well formed: no key comes twice, and
/// every key and every value is well formed.
pub open spec fn valid_entries(entries: Seq<(Node, Node)>) -> bool {
    &&& distinct_keys(entries)
    &&& forall|i: int|
        0 <= i < entries.len() ==> valid((#[trigger] entries[i]).0) && valid(entries[i].1)
}

/// Whether the items of a sequence are well formed.
pub open spec fn valid_items(items: Seq<Node>) -> bool {
    forall|i: int| 0 <= i < items.len() ==> valid(#[trigger] items[i])
}

/// A sequence is well formed exactly when its items are.
pub proof fn lemma_valid_sequence(items: Seq<Node>)
    ensures
        valid(Node::Sequence(items)) <==> valid_items(items),
{
    if valid(Node::Sequence(items)) {
        assert forall|i: int| 0 <= i < items.len() implies valid(#[trigger] items[i]) by {
            let node = Node::Sequence(items);
            assert(node->Sequence_0 == items);
            assert(decreases_to!(items => items[i]));
        }
    }
}

/// A mapping is well formed exactly when its entries are.
pub proof fn lemma_valid_mapping(entries: Seq<(Node, Node)>)
    ensures
        valid(Node::Mapping(entries)) <==> valid_entries(entries),
{
    if valid(Node::Mapping(entries)) {
        assert forall|i: int| 0 <= i < entries.len() implies valid((#[trigger] entries[i]).0)
            && valid(entries[i].1) by {
            let node = Node::Mapping(entries);
            assert(node->Mapping_0 == entries);
            assert(decreases_to!(entries => entries[i]));
            assert(decreases_to!(entries[i] => entries[i].0));
            assert(decreases_to!(entries[i] => entries[i].1));
        }
    }
}

/// What well-formed entries hold under a key is well formed.
pub proof fn lemma_lookup_valid(entries: Seq<(Node, Node)>, key: Node)
    requires
        valid_entries(entries),
    ensures
        lookup(entries, key) matches Some(value) ==> valid(value),
{
    if has_key(entries, key) {
        lemma_has_key_index(entries, key);
    }
}

/// Storing a well-formed value under a well-formed key keeps the entries
/// well formed.
pub proof fn lemma_put_valid(entries: Seq<(Node, Node)>, key: Node, value: Node)
    requires
        valid_entries(entries),
        valid(key),
        valid(value),
    ensures
        valid_entries(put(entries, key, value)),
{
    lemma_put_keeps_order(entries, key, value);
    let after = put(entries, key, value);
    if has_key(entries, key) {
        lemma_has_key_index(entries, key);
    }
    assert forall|i: int| 0 <= i < after.len() implies valid((#[trigger] after[i]).0) && valid(
        after[i].1,
    ) by {
        if i < entries.len() && after[i] != (key, value) {
            assert(after[i] == entries[i]);
        }
    }
}

/// Whether a tree is well formed: no mapping in it holds a key twice.
pub fn is_valid(tree: &Yaml) -> (r: bool)
    ensures
        r == valid(tree@),
    decreases tree,
{
    match tree {
        Yaml::Sequence(items) => {
            proof {
                Yaml::lemma_sequence_model(*items);
                lemma_valid_sequence(nodes_of(items@));
            }
            items_valid(items)
        },
        Yaml::Mapping(entries) => {
            proof {
                Yaml::lemma_mapping_model(*entries);
                lemma_valid_mapping(entries_of(entries@));
            }
            entries_valid(entries)
        },
        Yaml::Tagged(_, inner) => is_valid(inner),
        _ => true,
    }
}

/// Whether each item is well formed.
pub fn items_valid(items: &Vec<Yaml>) -> (r: bool)
    ensures
        r == valid_items(nodes_of(items@)),
    decreases items,
{
    let ghost model = nodes_of(items@);
    let mut i: usize = 0;
    while i < items.len()
        invariant
            i <= items.len(),
            model == nodes_of(items@),
            forall|j: int| 0 <= j < i ==> valid(#[trigger] model[j]),
        decreases items.len() - i,
    {
        if !is_valid(&items[i]) {
            assert(!valid(model[i as int]));
            return false;
        }
        i += 1;
    }
    true
}

/// Whether no key comes twice and each key and value is well formed.
pub fn entries_valid(entries: &Vec<(Yaml, Yaml)>) -> (r: bool)
    ensures
        r == valid_entries(entries_of(entries@)),
    decreases entries,
{
    let ghost model = entries_of(entries@);
    let mut i: usize = 0;
    while i < entries.len()
        invariant
            i <= entries.len(),
            model == entries_of(entries@),
            forall|a: int| 0 <= a < i ==> valid((#[trigger] model[a]).0) && valid(model[a].1),
            forall|a: int, b: int|
                0 <= a < b < i ==> (#[trigger] model[a]).0 != (#[trigger] model[b]).0,
        decreases entries.len() - i,
    {
        if !is_valid(&entries[i].0) || !is_valid(&entries[i].1) {
            assert(!(valid(model[i as int].0) && valid(model[i as int].1)));
            return false;
        }
        let mut j: usize = 0;
        while j < i
            invariant
                j <= i < entries.len(),
                model == entries_of(entries@),
                forall|a: int| 0 <= a < j ==> (#[trigger] model[a]).0 != model[i as int].0,
            decreases i - j,
        {
            if entries[j].0.same(&entries[i].0) {
                assert(model[j as int].0 == model[i as int].0);
                return false;
            }
            j += 1;
        }
        i += 1;
    }
    true
}

/// A key that occurs at no position is not a key of the entries.
pub proof fn lemma_no_key(entries: Seq<(Node, Node)>, key: Node)
    requires
        forall|i: int| 0 <= i < entries.len() ==> (#[trigger] entries[i]).0 != key,
    ensures
        !has_key(entries, key),
        lookup(entries, key) is None,
{
}

/// After storing a value under a key, the key holds the value.
pub proof fn lemma_put_same(entries: Seq<(Node, Node)>, key: Node, value: Node)
    ensures
        has_key(put(entries, key, value), key),
        lookup(put(entries, key, value), key) == Some(value),
{
    let after = put(entries, key, value);
    if has_key(entries, key) {
        lemma_has_key_index(entries, key);
        let i = key_index(entries, key);
        assert(is_first_at(after, key, i)) by {
            assert forall|j: int| 0 <= j < i implies (#[trigger] after[j]).0 != key by {
                assert(entries[j].0 != key);
            }
        }
        lemma_key_index(after, key, i);
    } else {
        let n = entries.len() as int;
        assert(is_first_at(after, key, n)) by {
            assert forall|j: int| 0 <= j < n implies (#[trigger] after[j]).0 != key by {
                assert(entries[j].0 != key || has_key(entries, key));
            }
        }
        lemma_key_index(after, key, n);
    }
}

/// Storing a value under a key leaves what every other key holds.
pub proof fn lemma_put_other(entries: Seq<(Node, Node)>, key: Node, value: Node, other: Node)
    requires
        other != key,
    ensures
        has_key(put(entries, key, value), other) == has_key(entries, other),
        lookup(put(entries, key, value), other) == lookup(entries, other),
{
    let after = put(entries, key, value);
    if has_key(entries, key) {
        lemma_has_key_index(entries, key);
    }
    if has_key(entries, other) {
        lemma_has_key_index(entries, other);
        let j = key_index(entries, other);
        assert(after[j] == entries[j]);
        assert(is_first_at(after, other, j)) by {
            assert forall|m: int| 0 <= m < j implies (#[trigger] after[m]).0 != other by {
                assert(entries[m].0 != other);
            }
        }
        lemma_key_index(after, other, j);
    } else {
        assert forall|m: int| 0 <= m < after.len() implies (#[trigger] after[m]).0 != other by {
            if m < entries.len() {
                assert(entries[m].0 != other || has_key(entries, other));
            }
        }
        lemma_no_key(after, other);
    }
}

/// Storing a value keeps every earlier entry at its place and under its key,
/// and keeps keys distinct.
pub proof fn lemma_put_keeps_order(entries: Seq<(Node, Node)>, key: Node, value: Node)
    ensures
        put(entries, key, value).len() >= entries.len(),
        forall|i: int|
            0 <= i < entries.len() ==> (#[trigger] put(entries, key, value)[i]).0 == entries[i].0,
        distinct_keys(entries) ==> distinct_keys(put(entries, key, value)),
{
    let after = put(entries, key, value);
    if has_key(entries, key) {
        lemma_has_key_index(entries, key);
        if distinct_keys(entries) {
            assert forall|a: int, b: int| 0 <= a < b < after.len() implies (#[trigger] after[a]).0
                != (#[trigger] after[b]).0 by {
                assert(entries[a].0 != entries[b].0);
            }
        }
    } else {
        if distinct_keys(entries) {
            assert forall|a: int, b: int| 0 <= a < b < after.len() implies (#[trigger] after[a]).0
                != (#[trigger] after[b]).0 by {
                if b < entries.len() {
                    assert(entries[a].0 != entries[b].0);
                } else {
                    assert(entries[a].0 != key || has_key(entries, key));
                }
            }
        }
    }
}

/// A copy of a sequence's items.
pub fn copy_items(items: &Vec<Yaml>) -> (r: Vec<Yaml>)
    ensures
        nodes_of(r@) == nodes_of(items@),
        Yaml::Sequence(r)@ == Yaml::Sequence(*items)@,
    decreases items,
{
    let mut out: Vec<Yaml> = Vec::new();
    let mut i: usize = 0;
    while i < items.len()
        invariant
            i <= items.len(),
            out.len() == i,
            forall|j: int| 0 <= j < i ==> out[j]@ == items[j]@,
        decreases items.len() - i,
    {
        out.push(items[i].deep_copy());
        i += 1;
    }
    proof {
        Yaml::lemma_sequence_model(*items);
        Yaml::lemma_sequence_model(out);
        assert(nodes_of(out@) =~= nodes_of(items@));
    }
    out
}

/// A copy of a mapping's entries.
pub fn copy_entries(entries: &Vec<(Yaml, Yaml)>) -> (r: Vec<(Yaml, Yaml)>)
    ensures
        entries_of(r@) == entries_of(entries@),
        Yaml::Mapping(r)@ == Yaml::Mapping(*entries)@,
    decreases entries,
{
    let mut out: Vec<(Yaml, Yaml)> = Vec::new();
    let mut i: usize = 0;
    while i < entries.len()
        invariant
            i <= entries.len(),
            out.len() == i,
            forall|j: int| 0 <= j < i ==> out[j].0@ == entries[j].0@ && out[j].1@ == entries[j].1@,
        decreases entries.len() - i,
    {
        out.push((entries[i].0.deep_copy(), entries[i].1.deep_copy()));
        i += 1;
    }
    proof {
        Yaml::lemma_mapping_model(*entries);
        Yaml::lemma_mapping_model(out);
        assert(entries_of(out@) =~= entries_of(entries@));
    }
    out
}

/// The position of the first entry whose key is `key`.
pub fn find_key(entries: &Vec<(Yaml, Yaml)>, key: &Yaml) -> (r: Option<usize>)
    ensures
        r is Some <==> has_key(entries_of(entries@), key@),
        r matches Some(i) ==> i < entries.len() && i == key_index(entries_of(entries@), key@)
            && lookup(entries_of(entries@), key@) == Some(entries[i as int].1@),
{
    let ghost model = entries_of(entries@);
    let mut i: usize = 0;
    while i < entries.len()
        invariant
            i <= entries.len(),
            model == entries_of(entries@),
            forall|j: int| 0 <= j < i ==> (#[trigger] model[j]).0 != key@,
        decreases entries.len() - i,
    {
        if entries[i].0.same(key) {
            proof {
                assert(model[i as int].0 == key@);
                lemma_key_index(model, key@, i as int);
            }
            return Some(i);
        }
        i += 1;
    }
    None
}

/// The value stored under `key`, where there is one.
pub fn get_entry<'a>(entries: &'a Vec<(Yaml, Yaml)>, key: &Yaml) -> (r: Option<&'a Yaml>)
    ensures
        r is Some <==> has_key(entries_of(entries@), key@),
        r matches Some(v) ==> lookup(entries_of(entries@), key@) == Some(v@),
        r is None ==> lookup(entries_of(entries@), key@) is None,
{
    match find_key(entries, key) {
        Some(i) => Some(&entries[i].1),
        None => None,
    }
}

/// A string value holding the given text.
pub fn text_value(text: &str) -> (r: Yaml)
    ensures
        r@ == Node::Str(text@),
{
    Yaml::Str(text.to_owned())
}

/// Stores `value` under `key`: an existing key keeps its place and gets the
/// new value, a new key goes to the end.
pub fn put_entry(entries: &mut Vec<(Yaml, Yaml)>, key: Yaml, value: Yaml)
    ensures
        entries_of(final(entries)@) == put(entries_of(old(entries)@), key@, value@),
{
    let ghost before = entries_of(entries@);
    match find_key(entries, &key) {
        Some(i) => {
            entries[i] = (key, value);
            assert(entries_of(entries@) =~= before.update(i as int, (key@, value@)));
        },
        None => {
            entries.push((key, value));
            assert(entries_of(entries@) =~= before.push((key@, value@)));
        },
    }
}

} // verus!
