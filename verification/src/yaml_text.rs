//! YAML text to document trees and back, through `serde_yaml`.

use vstd::prelude::*;
use crate::yaml::Node;
use crate::yaml::Yaml;
use crate::yaml::distinct_keys;
use crate::yaml::entries_of;
use crate::yaml::lemma_valid_mapping;
use crate::yaml::lemma_valid_sequence;
use crate::yaml::nodes_of;
use crate::yaml::valid;

verus! {

broadcast use vstd::seq::group_seq_axioms;

/// `serde_yaml::Value`: a YAML value in memory, of which nothing is seen but
/// through the functions of this module.
#[verifier::external_type_specification]
#[verifier::external_body]
pub struct ExValue(serde_yaml::Value);

/// `serde_yaml::Error`: why a text could not be read or a value not written.
#[verifier::external_type_specification]
#[verifier::external_body]
pub struct ExYamlError(serde_yaml::Error);

/// The tree that a `serde_yaml::Value` holds.
pub uninterp spec fn value_tree(value: serde_yaml::Value) -> Node;

/// The tree that `serde_yaml::from_str` reads from a text, where it reads one.
pub uninterp spec fn parsed_tree(text: Seq<char>) -> Option<Node>;

/// The text that `serde_yaml::to_string` writes for a tree, where it writes
/// one.
pub uninterp spec fn rendered_text(tree: Node) -> Option<Seq<char>>;

/// The text under which `serde_yaml` shows the number that it reads from a
/// text, where it reads one.
pub uninterp spec fn number_text(text: Seq<char>) -> Option<Seq<char>>;

/// One level of a `serde_yaml::Value`: its variant with what the variant
/// holds.
enum Shape<'a> {
    Null,
    Bool(bool),
    Number(String),
    Str(String),
    Sequence(Vec<&'a serde_yaml::Value>),
    Mapping(Vec<(&'a serde_yaml::Value, &'a serde_yaml::Value)>),
    Tagged(String, &'a serde_yaml::Value),
}

/// What a new `serde_yaml::Value` without a number, a mapping or a tag is made
/// of.
enum Plain {
    Null,
    Bool(bool),
    Str(String),
    Sequence(Vec<serde_yaml::Value>),
}

/// The trees of a sequence of values.
spec fn trees_of(items: Seq<&serde_yaml::Value>) -> Seq<Node> {
    Seq::new(items.len(), |i: int| value_tree(*items[i]))
}

/// The trees of a sequence of owned values.
spec fn owned_trees(items: Seq<serde_yaml::Value>) -> Seq<Node> {
    Seq::new(items.len(), |i: int| value_tree(items[i]))
}

/// The trees of a sequence of key-value pairs.
spec fn pair_trees(entries: Seq<(&serde_yaml::Value, &serde_yaml::Value)>) -> Seq<
    (Node, Node),
> {
    Seq::new(entries.len(), |i: int| (value_tree(*entries[i].0), value_tree(*entries[i].1)))
}

/// The trees of a sequence of owned key-value pairs.
spec fn owned_pair_trees(entries: Seq<(serde_yaml::Value, serde_yaml::Value)>) -> Seq<
    (Node, Node),
> {
    Seq::new(entries.len(), |i: int| (value_tree(entries[i].0), value_tree(entries[i].1)))
}

/// Whether a text is made of decimal digits after an optional minus sign.
pub open spec fn is_integer_text(text: Seq<char>) -> bool {
    &&& text.len() > 0
    &&& forall|i: int| 0 <= i < text.len() ==> ('0' <= #[trigger] text[i] <= '9' || (i == 0 && text[i] == '-'))
}

/// Whether a key is one that `serde_yaml` tells from every other such key
/// exactly when their trees differ: null, a boolean, a string, an integer, a
/// sequence of such keys, such a key under a tag, or a mapping of at most one
/// entry whose key and value are such keys. Left out are the numbers with a
/// fraction or an exponent (two zeros of different sign are written
/// differently and compare equal) and the mappings of two entries or more
/// (which compare equal in any order of their entries).
pub open spec fn plain_key(key: Node) -> bool
    decreases key,
{
    match key {
        Node::Null => true,
        Node::Bool(_) => true,
        Node::Str(_) => true,
        Node::Number(text) => is_integer_text(text),
        Node::Sequence(items) => forall|i: int|
            0 <= i < items.len() ==> plain_key(#[trigger] items[i]),
        Node::Mapping(entries) => {
            &&& entries.len() <= 1
            &&& forall|i: int|
                0 <= i < entries.len() ==> plain_key((#[trigger] entries[i]).0) && plain_key(
                    entries[i].1,
                )
        },
        Node::Tagged(_, inner) => plain_key(*inner),
    }
}

/// A sequence is a plain key exactly when each of its items is.
pub proof fn lemma_plain_sequence(items: Seq<Node>)
    ensures
        plain_key(Node::Sequence(items)) <==> (forall|i: int|
            0 <= i < items.len() ==> plain_key(#[trigger] items[i])),
{
    if plain_key(Node::Sequence(items)) {
        assert forall|i: int| 0 <= i < items.len() implies plain_key(#[trigger] items[i]) by {
            let node = Node::Sequence(items);
            assert(node->Sequence_0 == items);
            assert(decreases_to!(items => items[i]));
        }
    }
}

/// A mapping is a plain key exactly when it is empty or holds one entry whose
/// key and value are plain keys.
pub proof fn lemma_plain_mapping(entries: Seq<(Node, Node)>)
    ensures
        plain_key(Node::Mapping(entries)) <==> (entries.len() == 0 || (entries.len() == 1
            && plain_key(entries[0].0) && plain_key(entries[0].1))),
{
    if entries.len() == 1 {
        assert(decreases_to!(entries => entries[0]));
        assert(decreases_to!(entries[0] => entries[0].0));
        assert(decreases_to!(entries[0] => entries[0].1));
    }
}

/// Whether every key is a plain key.
pub open spec fn plain_keys(entries: Seq<(Node, Node)>) -> bool {
    forall|i: int| 0 <= i < entries.len() ==> plain_key((#[trigger] entries[i]).0)
}

/// Whether a tag's text is written as `serde_yaml` shows tags: an exclamation
/// mark and at least one more character.
pub open spec fn shown_tag(tag: Seq<char>) -> bool {
    tag.len() >= 2 && tag[0] == '!'
}

/// `serde_yaml::from_str` at `serde_yaml::Value`: reads one YAML document. The
/// tree of the value is the one named for the text; an error means that there
/// is none.
#[verifier::external_body]
fn parse_value(text: &str) -> (r: Result<serde_yaml::Value, serde_yaml::Error>)
    ensures
        r matches Ok(v) ==> parsed_tree(text@) == Some(value_tree(v)),
        r is Err ==> parsed_tree(text@) is None,
{
    serde_yaml::from_str::<serde_yaml::Value>(text)
}

/// `serde_yaml::to_string` at `serde_yaml::Value`: writes one YAML document.
/// The text is the one named for the value's tree; an error means that there
/// is none.
#[verifier::external_body]
fn render_value(value: &serde_yaml::Value) -> (r: Result<String, serde_yaml::Error>)
    ensures
        r matches Ok(text) ==> rendered_text(value_tree(*value)) == Some(text@),
        r is Err ==> rendered_text(value_tree(*value)) is None,
{
    serde_yaml::to_string(value)
}

/// The `Display` text of a `serde_yaml::Error`.
#[verifier::external_body]
fn error_text(error: &serde_yaml::Error) -> (r: String) {
    error.to_string()
}

/// Tells the variants of `serde_yaml::Value` apart and hands out what each
/// holds: a number by its `Display` text, a tag by its `Display` text, the
/// items of a sequence and the entries of a mapping in their order. A mapping
/// of `serde_yaml` holds no two equal keys, and keys with one tree are equal:
/// the trees of a mapping's keys differ pairwise.
#[verifier::external_body]
fn shape_of<'a>(value: &'a serde_yaml::Value) -> (r: Shape<'a>)
    ensures
        match r {
            Shape::Null => value_tree(*value) == Node::Null,
            Shape::Bool(b) => value_tree(*value) == Node::Bool(b),
            Shape::Number(text) => value_tree(*value) == Node::Number(text@),
            Shape::Str(text) => value_tree(*value) == Node::Str(text@),
            Shape::Sequence(items) => value_tree(*value) == Node::Sequence(trees_of(items@)),
            Shape::Mapping(entries) => value_tree(*value) == Node::Mapping(pair_trees(entries@))
                && distinct_keys(pair_trees(entries@)),
            Shape::Tagged(tag, inner) => value_tree(*value) == Node::Tagged(
                tag@,
                Box::new(value_tree(*inner)),
            ),
        },
{
    match value {
        serde_yaml::Value::Null => Shape::Null,
        serde_yaml::Value::Bool(b) => Shape::Bool(*b),
        serde_yaml::Value::Number(n) => Shape::Number(n.to_string()),
        serde_yaml::Value::String(s) => Shape::Str(s.clone()),
        serde_yaml::Value::Sequence(items) => Shape::Sequence(items.iter().collect()),
        serde_yaml::Value::Mapping(entries) => Shape::Mapping(entries.iter().collect()),
        serde_yaml::Value::Tagged(t) => Shape::Tagged(t.tag.to_string(), &t.value),
    }
}

/// Builds a `serde_yaml::Value` of one of the variants that hold no number,
/// mapping or tag.
#[verifier::external_body]
fn plain_value(parts: Plain) -> (r: serde_yaml::Value)
    ensures
        match parts {
            Plain::Null => value_tree(r) == Node::Null,
            Plain::Bool(b) => value_tree(r) == Node::Bool(b),
            Plain::Str(text) => value_tree(r) == Node::Str(text@),
            Plain::Sequence(items) => value_tree(r) == Node::Sequence(owned_trees(items@)),
        },
{
    match parts {
        Plain::Null => serde_yaml::Value::Null,
        Plain::Bool(b) => serde_yaml::Value::Bool(b),
        Plain::Str(text) => serde_yaml::Value::String(text),
        Plain::Sequence(items) => serde_yaml::Value::Sequence(items),
    }
}

/// `serde_yaml::Number`'s `FromStr`: reads a number from a text. The value
/// holds the number, shown under the text named for the given one.
#[verifier::external_body]
fn number_value(text: &str) -> (r: Option<serde_yaml::Value>)
    ensures
        match number_text(text@) {
            Some(shown) => r matches Some(v) && value_tree(v) == Node::Number(shown),
            None => r is None,
        },
{
    text.parse::<serde_yaml::Number>().ok().map(serde_yaml::Value::Number)
}

/// `serde_yaml::Mapping`'s `FromIterator`: inserts the entries in their order.
/// Where the keys are plain keys with pairwise different trees, no entry
/// meets an equal key, and the mapping holds the entries as given.
#[verifier::external_body]
fn mapping_value(entries: Vec<(serde_yaml::Value, serde_yaml::Value)>) -> (r: serde_yaml::Value)
    ensures
        plain_keys(owned_pair_trees(entries@)) && distinct_keys(owned_pair_trees(entries@))
            ==> value_tree(r) == Node::Mapping(owned_pair_trees(entries@)),
{
    serde_yaml::Value::Mapping(entries.into_iter().collect())
}

/// `serde_yaml::value::Tag::new` and `TaggedValue`: a value under a tag. A
/// tag written with its exclamation mark is shown as it was given.
#[verifier::external_body]
fn tagged_value(tag: String, inner: serde_yaml::Value) -> (r: serde_yaml::Value)
    requires
        tag@.len() > 0,
    ensures
        shown_tag(tag@) ==> value_tree(r) == Node::Tagged(tag@, Box::new(value_tree(inner))),
{
    let tag = serde_yaml::value::Tag::new(tag);
    serde_yaml::Value::Tagged(Box::new(serde_yaml::value::TaggedValue { tag, value: inner }))
}

/// The document tree of a `serde_yaml::Value`: a well-formed one.
fn from_value(value: &serde_yaml::Value) -> (r: Yaml)
    ensures
        r@ == value_tree(*value),
        valid(r@),
    decreases value_tree(*value),
{
    match shape_of(value) {
        Shape::Null => Yaml::Null,
        Shape::Bool(b) => Yaml::Bool(b),
        Shape::Number(text) => Yaml::Number(text),
        Shape::Str(text) => Yaml::Str(text),
        Shape::Sequence(items) => {
            let ghost trees = trees_of(items@);
            let mut out: Vec<Yaml> = Vec::new();
            let mut i: usize = 0;
            while i < items.len()
                invariant
                    i <= items.len(),
                    out.len() == i,
                    trees == trees_of(items@),
                    value_tree(*value) == Node::Sequence(trees),
                    forall|j: int| 0 <= j < i ==> out[j]@ == trees[j],
                    forall|j: int| 0 <= j < i ==> valid(#[trigger] trees[j]),
                decreases items.len() - i,
            {
                assert(trees[i as int] == value_tree(*items[i as int]));
                assert(value_tree(*value)->Sequence_0 == trees);
                assert(decreases_to!(trees => trees[i as int]));
                out.push(from_value(items[i]));
                i += 1;
            }
            proof {
                Yaml::lemma_sequence_model(out);
                assert(nodes_of(out@) =~= trees);
                lemma_valid_sequence(trees);
            }
            Yaml::Sequence(out)
        },
        Shape::Mapping(entries) => {
            let ghost trees = pair_trees(entries@);
            let mut out: Vec<(Yaml, Yaml)> = Vec::new();
            let mut i: usize = 0;
            while i < entries.len()
                invariant
                    i <= entries.len(),
                    out.len() == i,
                    trees == pair_trees(entries@),
                    value_tree(*value) == Node::Mapping(trees),
                    distinct_keys(trees),
                    forall|j: int| 0 <= j < i ==> out[j].0@ == trees[j].0 && out[j].1@ == trees[j].1,
                    forall|j: int|
                        0 <= j < i ==> valid((#[trigger] trees[j]).0) && valid(trees[j].1),
                decreases entries.len() - i,
            {
                assert(trees[i as int] == (
                    value_tree(*entries[i as int].0),
                    value_tree(*entries[i as int].1),
                ));
                assert(value_tree(*value)->Mapping_0 == trees);
                assert(decreases_to!(trees => trees[i as int]));
                assert(decreases_to!(trees[i as int] => trees[i as int].0));
                assert(decreases_to!(trees[i as int] => trees[i as int].1));
                let key = from_value(entries[i].0);
                let held = from_value(entries[i].1);
                out.push((key, held));
                i += 1;
            }
            proof {
                Yaml::lemma_mapping_model(out);
                assert(entries_of(out@) =~= trees);
                lemma_valid_mapping(trees);
            }
            Yaml::Mapping(out)
        },
        Shape::Tagged(tag, inner) => {
            assert(*value_tree(*value)->Tagged_1 == value_tree(*inner));
            Yaml::Tagged(tag, Box::new(from_value(inner)))
        },
    }
}

/// Whether `serde_yaml` can hold a tree as it stands: each number is written
/// as `serde_yaml` shows it, each mapping has plain keys without a repeat, and
/// each tag is written with its exclamation mark.
pub open spec fn storable(node: Node) -> bool
    decreases node,
{
    match node {
        Node::Null => true,
        Node::Bool(_) => true,
        Node::Str(_) => true,
        Node::Number(text) => number_text(text) == Some(text),
        Node::Sequence(items) => forall|i: int|
            0 <= i < items.len() ==> storable(#[trigger] items[i]),
        Node::Mapping(entries) => {
            &&& plain_keys(entries)
            &&& distinct_keys(entries)
            &&& forall|i: int|
                0 <= i < entries.len() ==> storable((#[trigger] entries[i]).0) && storable(
                    entries[i].1,
                )
        },
        Node::Tagged(tag, inner) => shown_tag(tag) && storable(*inner),
    }
}

/// A sequence can be held exactly when each of its items can.
pub proof fn lemma_storable_sequence(items: Seq<Node>)
    ensures
        storable(Node::Sequence(items)) <==> (forall|i: int|
            0 <= i < items.len() ==> storable(#[trigger] items[i])),
{
    if storable(Node::Sequence(items)) {
        assert forall|i: int| 0 <= i < items.len() implies storable(#[trigger] items[i]) by {
            let node = Node::Sequence(items);
            assert(node->Sequence_0 == items);
            assert(decreases_to!(items => items[i]));
        }
    }
}

/// A mapping can be held exactly when its keys are plain keys without a
/// repeat and each key and value can be held.
pub proof fn lemma_storable_mapping(entries: Seq<(Node, Node)>)
    ensures
        storable(Node::Mapping(entries)) <==> (plain_keys(entries) && distinct_keys(entries)
            && (forall|i: int|
            0 <= i < entries.len() ==> storable((#[trigger] entries[i]).0) && storable(
                entries[i].1,
            ))),
{
    if storable(Node::Mapping(entries)) {
        assert forall|i: int| 0 <= i < entries.len() implies storable((#[trigger] entries[i]).0)
            && storable(entries[i].1) by {
            assert(decreases_to!(entries => entries[i]));
            assert(decreases_to!(entries[i] => entries[i].0));
            assert(decreases_to!(entries[i] => entries[i].1));
        }
    }
}

/// Whether a text is made of decimal digits after an optional minus sign.
pub fn integer_text(text: &str) -> (r: bool)
    ensures
        r == is_integer_text(text@),
{
    let chars = crate::text::chars_of(text);
    if chars.len() == 0 {
        return false;
    }
    let mut i: usize = 0;
    while i < chars.len()
        invariant
            i <= chars.len(),
            chars@ == text@,
            forall|j: int|
                0 <= j < i ==> ('0' <= #[trigger] chars[j] <= '9' || (j == 0 && chars[j] == '-')),
        decreases chars.len() - i,
    {
        let c = chars[i];
        if !(('0' <= c && c <= '9') || (i == 0 && c == '-')) {
            return false;
        }
        i += 1;
    }
    true
}

/// Whether a key is null, a boolean, a string, an integer, a sequence of such
/// keys, such a key under a tag, or a mapping of at most one entry of them.
pub fn is_plain_key(key: &Yaml) -> (r: bool)
    ensures
        r == plain_key(key@),
    decreases key,
{
    match key {
        Yaml::Null => true,
        Yaml::Bool(_) => true,
        Yaml::Str(_) => true,
        Yaml::Number(text) => integer_text(text.as_str()),
        Yaml::Sequence(items) => {
            proof {
                Yaml::lemma_sequence_model(*items);
                lemma_plain_sequence(nodes_of(items@));
            }
            plain_items(items)
        },
        Yaml::Mapping(entries) => {
            proof {
                Yaml::lemma_mapping_model(*entries);
                lemma_plain_mapping(entries_of(entries@));
            }
            if entries.len() == 0 {
                true
            } else if entries.len() == 1 {
                is_plain_key(&entries[0].0) && is_plain_key(&entries[0].1)
            } else {
                false
            }
        },
        Yaml::Tagged(_, inner) => is_plain_key(inner),
    }
}

/// Whether each item is a plain key.
pub fn plain_items(items: &Vec<Yaml>) -> (r: bool)
    ensures
        r == (forall|i: int| 0 <= i < items.len() ==> plain_key(#[trigger] nodes_of(items@)[i])),
    decreases items,
{
    let ghost model = nodes_of(items@);
    let mut i: usize = 0;
    while i < items.len()
        invariant
            i <= items.len(),
            model == nodes_of(items@),
            forall|j: int| 0 <= j < i ==> plain_key(#[trigger] model[j]),
        decreases items.len() - i,
    {
        if !is_plain_key(&items[i]) {
            assert(!plain_key(model[i as int]));
            return false;
        }
        i += 1;
    }
    true
}

/// Whether every key of a mapping is a plain key and no key comes twice.
pub fn keys_storable(entries: &Vec<(Yaml, Yaml)>) -> (r: bool)
    ensures
        r == (plain_keys(entries_of(entries@)) && distinct_keys(entries_of(entries@))),
{
    let ghost model = entries_of(entries@);
    let mut i: usize = 0;
    while i < entries.len()
        invariant
            i <= entries.len(),
            model == entries_of(entries@),
            forall|a: int| 0 <= a < i ==> plain_key((#[trigger] model[a]).0),
            forall|a: int, b: int|
                0 <= a < b < i ==> (#[trigger] model[a]).0 != (#[trigger] model[b]).0,
        decreases entries.len() - i,
    {
        if !is_plain_key(&entries[i].0) {
            assert(!plain_key(model[i as int].0));
            return false;
        }
        let mut j: usize = 0;
        while j < i
            invariant
                j <= i < entries.len(),
                model == entries_of(entries@),
                forall|a: int| 0 <= a < j ==> (#[trigger] model[a]).0 != model[i as int].0,
            decreases i - j,
        {
            if entries[j].0.same(&entries[i].0) {
                assert(model[j as int].0 == model[i as int].0);
                return false;
            }
            j += 1;
        }
        i += 1;
    }
    true
}

/// The `serde_yaml::Value` that holds the tree, where `serde_yaml` can hold
/// it as it stands.
fn to_value(tree: &Yaml) -> (r: Option<serde_yaml::Value>)
    ensures
        r is Some <==> storable(tree@),
        r matches Some(v) ==> value_tree(v) == tree@,
    decreases tree,
{
    match tree {
        Yaml::Null => {
            return Some(plain_value(Plain::Null));
        },
        Yaml::Bool(b) => {
            return Some(plain_value(Plain::Bool(*b)));
        },
        Yaml::Str(text) => {
            return Some(plain_value(Plain::Str(text.clone())));
        },
        Yaml::Number(text) => {
            match number_value(text.as_str()) {
                None => {
                    return None;
                },
                Some(v) => {
                    let same = match shape_of(&v) {
                        Shape::Number(shown) => shown == *text,
                        _ => false,
                    };
                    if same {
                        return Some(v);
                    } else {
                        return None;
                    }
                },
            }
        },
        Yaml::Sequence(items) => {
            proof {
                Yaml::lemma_sequence_model(*items);
                lemma_storable_sequence(nodes_of(items@));
            }
            match to_values(items) {
                None => {
                    return None;
                },
                Some(values) => {
                    return Some(plain_value(Plain::Sequence(values)));
                },
            }
        },
        Yaml::Mapping(entries) => {
            proof {
                Yaml::lemma_mapping_model(*entries);
                lemma_storable_mapping(entries_of(entries@));
            }
            if !keys_storable(entries) {
                return None;
            }
            match to_pairs(entries) {
                None => {
                    return None;
                },
                Some(pairs) => {
                    return Some(mapping_value(pairs));
                },
            }
        },
        Yaml::Tagged(tag, inner) => {
            let chars = crate::text::chars_of(tag.as_str());
            if chars.len() < 2 || chars[0] != '!' {
                return None;
            }
            match to_value(inner) {
                None => {
                    return None;
                },
                Some(v) => {
                    return Some(tagged_value(tag.clone(), v));
                },
            }
        },
    }
}

/// The values that hold the items, where `serde_yaml` can hold each.
fn to_values(items: &Vec<Yaml>) -> (r: Option<Vec<serde_yaml::Value>>)
    ensures
        r is Some <==> (forall|i: int|
            0 <= i < items.len() ==> storable(#[trigger] nodes_of(items@)[i])),
        r matches Some(values) ==> owned_trees(values@) == nodes_of(items@),
    decreases items,
{
    let ghost model = nodes_of(items@);
    let mut out: Vec<serde_yaml::Value> = Vec::new();
    let mut i: usize = 0;
    while i < items.len()
        invariant
            i <= items.len(),
            out.len() == i,
            model == nodes_of(items@),
            forall|j: int| 0 <= j < i ==> storable(#[trigger] model[j]),
            forall|j: int| 0 <= j < i ==> value_tree(out[j]) == model[j],
        decreases items.len() - i,
    {
        match to_value(&items[i]) {
            None => {
                assert(!storable(model[i as int]));
                return None;
            },
            Some(v) => {
                out.push(v);
            },
        }
        i += 1;
    }
    assert(owned_trees(out@) =~= model);
    Some(out)
}

/// The pairs of values that hold the entries, where `serde_yaml` can hold each
/// key and each value.
fn to_pairs(entries: &Vec<(Yaml, Yaml)>) -> (r: Option<
    Vec<(serde_yaml::Value, serde_yaml::Value)>,
>)
    ensures
        r is Some <==> (forall|i: int|
            0 <= i < entries.len() ==> storable((#[trigger] entries_of(entries@)[i]).0)
                && storable(entries_of(entries@)[i].1)),
        r matches Some(pairs) ==> owned_pair_trees(pairs@) == entries_of(entries@),
    decreases entries,
{
    let ghost model = entries_of(entries@);
    let mut out: Vec<(serde_yaml::Value, serde_yaml::Value)> = Vec::new();
    let mut i: usize = 0;
    while i < entries.len()
        invariant
            i <= entries.len(),
            out.len() == i,
            model == entries_of(entries@),
            forall|j: int|
                0 <= j < i ==> storable((#[trigger] model[j]).0) && storable(model[j].1),
            forall|j: int|
                0 <= j < i ==> value_tree(out[j].0) == model[j].0 && value_tree(out[j].1)
                    == model[j].1,
        decreases entries.len() - i,
    {
        let Some(key) = to_value(&entries[i].0) else {
            assert(!storable(model[i as int].0));
            return None;
        };
        let Some(held) = to_value(&entries[i].1) else {
            assert(!storable(model[i as int].1));
            return None;
        };
        out.push((key, held));
        i += 1;
    }
    assert(owned_pair_trees(out@) =~= model);
    Some(out)
}

/// Why a tree could not be written as text.
#[derive(Debug)]
pub enum RenderError {
    /// `serde_yaml` cannot hold the tree as it stands.
    NotStorable,
    /// `serde_yaml` refused to write the value; its message is kept.
    Refused(String),
}

/// The tree of a document's text: null for a text that is blank, else what the
/// parser reads.
pub open spec fn document_tree(text: Seq<char>) -> Option<Node> {
    if crate::text::is_blank(text) {
        Some(Node::Null)
    } else {
        parsed_tree(text)
    }
}

/// Reads one YAML document: a well-formed tree. An error holds the parser's
/// message.
pub fn parse_yaml(text: &str) -> (r: Result<Yaml, String>)
    ensures
        r matches Ok(tree) ==> parsed_tree(text@) == Some(tree@) && valid(tree@),
        r is Err ==> parsed_tree(text@) is None,
{
    match parse_value(text) {
        Ok(value) => Ok(from_value(&value)),
        Err(error) => Err(error_text(&error)),
    }
}

/// Reads the content of a document file: a blank file is the null document.
pub fn parse_document(content: &str) -> (r: Result<Yaml, String>)
    ensures
        r matches Ok(tree) ==> document_tree(content@) == Some(tree@) && valid(tree@),
        r is Err ==> document_tree(content@) is None,
{
    if crate::text::blank_text(content) {
        Ok(Yaml::Null)
    } else {
        parse_yaml(content)
    }
}

/// Writes a tree as YAML text.
pub fn render_yaml(tree: &Yaml) -> (r: Result<String, RenderError>)
    ensures
        r matches Ok(text) ==> storable(tree@) && rendered_text(tree@) == Some(text@),
        r matches Err(RenderError::NotStorable) ==> !storable(tree@),
        r matches Err(RenderError::Refused(_)) ==> storable(tree@) && rendered_text(tree@) is None,
{
    match to_value(tree) {
        None => Err(RenderError::NotStorable),
        Some(value) => match render_value(&value) {
            Ok(text) => Ok(text),
            Err(error) => Err(RenderError::Refused(error_text(&error))),
        },
    }
}

} // verus!
