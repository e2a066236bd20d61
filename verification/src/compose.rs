//! Composition of engine configuration: a base document, an overlay and the
//! built-in defaults merged into one.

use vstd::prelude::*;
use crate::yaml::Node;
use crate::yaml::Yaml;
use crate::yaml::copy_entries;
use crate::yaml::copy_items;
use crate::yaml::entries_of;
use crate::yaml::get_entry;
use crate::yaml::nodes_of;
use crate::yaml::find_key;
use crate::yaml::lookup;
use crate::yaml::put;
use crate::yaml::put_entry;
use crate::yaml::distinct_keys;
use crate::yaml::lemma_put_keeps_order;
use crate::yaml::lemma_put_other;
use crate::yaml::lemma_put_same;
use crate::yaml::text_under_tags;
use crate::yaml::text_value;
use crate::yaml::lemma_lookup_valid;
use crate::yaml::lemma_put_valid;
use crate::yaml::lemma_valid_mapping;
use crate::yaml::lemma_valid_sequence;
use crate::yaml::valid;
use crate::yaml::valid_entries;
use crate::yaml::valid_items;
use crate::yaml_text::RenderError;
use crate::yaml_text::document_tree;
use crate::yaml_text::parse_document;
use crate::yaml_text::render_yaml;
use crate::yaml_text::rendered_text;
use crate::yaml_text::storable;

verus! {

broadcast use vstd::seq::group_seq_axioms;

/// One entry laid over the entries so far: where both sides hold a mapping
/// under the key, the two mappings are merged; otherwise the new value
/// replaces the old one.
pub open spec fn merge_step(acc: Seq<(Node, Node)>, key: Node, value: Node) -> Seq<(Node, Node)>
    decreases value, 0nat,
{
    match (lookup(acc, key), value) {
        (Some(Node::Mapping(dst)), Node::Mapping(src)) => put(
            acc,
            key,
            Node::Mapping(deep_merge(dst, src)),
        ),
        _ => put(acc, key, value),
    }
}

/// The source's entries laid over the target's, one after the other, merging
/// nested mappings all the way down.
pub open spec fn deep_merge(target: Seq<(Node, Node)>, source: Seq<(Node, Node)>) -> Seq<
    (Node, Node),
>
    decreases source, 1nat,
{
    if source.len() == 0 {
        target
    } else {
        merge_step(deep_merge(target, source.drop_last()), source.last().0, source.last().1)
    }
}

/// Lays one entry over the entries so far.
pub fn merge_entry(acc: &mut Vec<(Yaml, Yaml)>, key: &Yaml, value: &Yaml)
    ensures
        entries_of(final(acc)@) == merge_step(entries_of(old(acc)@), key@, value@),
    decreases value, 0nat,
{
    let ghost before = entries_of(acc@);
    if let Yaml::Mapping(src) = value {
        if let Some(idx) = find_key(acc, key) {
            if acc[idx].1.is_mapping() {
                let ghost held = acc@;
                proof {
                    crate::yaml::lemma_has_key_index(before, key@);
                }
                let old = acc.remove(idx);
                if let Yaml::Mapping(dst) = old.1 {
                    proof {
                        Yaml::lemma_mapping_model(dst);
                        Yaml::lemma_mapping_model(*src);
                    }
                    let inner = deep_merge_maps(dst, src);
                    proof {
                        Yaml::lemma_mapping_model(inner);
                    }
                    acc.insert(idx, (old.0, Yaml::Mapping(inner)));
                    assert(acc@ =~= held.update(idx as int, (old.0, Yaml::Mapping(inner))));
                    assert(entries_of(acc@) =~= before.update(
                        idx as int,
                        (key@, Node::Mapping(deep_merge(entries_of(dst@), entries_of(src@)))),
                    ));
                    return ;
                }
                acc.insert(idx, old);
                assert(acc@ =~= held);
            }
        }
    }
    assert(entries_of(acc@) =~= before);
    put_entry(acc, key.deep_copy(), value.deep_copy());
}

/// Merges `source` into `target`, key by key and recursively through nested
/// mappings.
pub fn deep_merge_maps(target: Vec<(Yaml, Yaml)>, source: &Vec<(Yaml, Yaml)>) -> (r: Vec<
    (Yaml, Yaml),
>)
    ensures
        entries_of(r@) == deep_merge(entries_of(target@), entries_of(source@)),
    decreases source, 1nat,
{
    let ghost base = entries_of(target@);
    let ghost over = entries_of(source@);
    let mut acc = target;
    let mut i: usize = 0;
    assert(over.subrange(0, 0) =~= Seq::empty());
    while i < source.len()
        invariant
            i <= source.len(),
            over == entries_of(source@),
            entries_of(acc@) == deep_merge(base, over.subrange(0, i as int)),
        decreases source.len() - i,
    {
        let ghost next = over.subrange(0, i + 1);
        proof {
            assert(next.drop_last() =~= over.subrange(0, i as int));
            assert(next.last() == over[i as int]);
        }
        merge_entry(&mut acc, &source[i].0, &source[i].1);
        i += 1;
    }
    assert(over.subrange(0, source.len() as int) =~= over);
    acc
}

/// The three list-valued fields that an overlay can wrap with items placed
/// before and after.
#[derive(Clone, Copy, PartialEq, Eq, Structural, Debug)]
pub enum ListField {
    Rules,
    Proxies,
    ProxyGroups,
}

/// Why two documents could not be merged.
#[derive(Clone, Copy, PartialEq, Eq, Structural, Debug)]
pub enum MergeError {
    /// The base document is neither null nor a mapping.
    BaseRootNotMapping,
    /// The overlay document is neither null nor a mapping.
    OverlayRootNotMapping,
    /// The field that is to be wrapped is present and not a sequence.
    FieldNotSequence(ListField),
    /// The items to place before the field are not a sequence.
    PrependNotSequence(ListField),
    /// The items to place after the field are not a sequence.
    AppendNotSequence(ListField),
}

impl ListField {
    /// The field's key.
    pub open spec fn name(self) -> Seq<char> {
        match self {
            ListField::Rules => "rules"@,
            ListField::Proxies => "proxies"@,
            ListField::ProxyGroups => "proxy-groups"@,
        }
    }

    /// The key of the directive that places items before the field.
    pub open spec fn prepend_name(self) -> Seq<char> {
        match self {
            ListField::Rules => "prepend-rules"@,
            ListField::Proxies => "prepend-proxies"@,
            ListField::ProxyGroups => "prepend-proxy-groups"@,
        }
    }

    /// The key of the directive that places items after the field.
    pub open spec fn append_name(self) -> Seq<char> {
        match self {
            ListField::Rules => "append-rules"@,
            ListField::Proxies => "append-proxies"@,
            ListField::ProxyGroups => "append-proxy-groups"@,
        }
    }

    /// The field's key as a value.
    pub fn key(self) -> (r: Yaml)
        ensures
            r@ == Node::Str(self.name()),
    {
        match self {
            ListField::Rules => text_value("rules"),
            ListField::Proxies => text_value("proxies"),
            ListField::ProxyGroups => text_value("proxy-groups"),
        }
    }

    /// The key of the directive that places items before the field, as a value.
    pub fn prepend_key(self) -> (r: Yaml)
        ensures
            r@ == Node::Str(self.prepend_name()),
    {
        match self {
            ListField::Rules => text_value("prepend-rules"),
            ListField::Proxies => text_value("prepend-proxies"),
            ListField::ProxyGroups => text_value("prepend-proxy-groups"),
        }
    }

    /// The key of the directive that places items after the field, as a value.
    pub fn append_key(self) -> (r: Yaml)
        ensures
            r@ == Node::Str(self.append_name()),
    {
        match self {
            ListField::Rules => text_value("append-rules"),
            ListField::Proxies => text_value("append-proxies"),
            ListField::ProxyGroups => text_value("append-proxy-groups"),
        }
    }
}

/// Whether a key is one of the six merge directives, which steer the merge
/// and never reach the result.
pub open spec fn is_directive_key(key: Node) -> bool {
    let text = text_under_tags(key);
    ||| text == Some("prepend-rules"@)
    ||| text == Some("append-rules"@)
    ||| text == Some("prepend-proxies"@)
    ||| text == Some("append-proxies"@)
    ||| text == Some("prepend-proxy-groups"@)
    ||| text == Some("append-proxy-groups"@)
}

/// Whether a key names a field whose value always replaces the base's value,
/// also where both are mappings.
pub open spec fn is_wholesale_key(key: Node) -> bool {
    text_under_tags(key) == Some("rules"@) || text_under_tags(key) == Some("proxies"@)
}

/// Whether a key is one of the six merge directives.
pub fn is_directive(key: &Yaml) -> (r: bool)
    ensures
        r == is_directive_key(key@),
{
    key.has_text("prepend-rules") || key.has_text("append-rules") || key.has_text(
        "prepend-proxies",
    ) || key.has_text("append-proxies") || key.has_text("prepend-proxy-groups") || key.has_text(
        "append-proxy-groups",
    )
}

/// One step of laying an overlay over a base: what the entry `(key, value)`
/// makes of the entries so far. A directive is left out; under `rules` and
/// `proxies` the value replaces the base's whatever the two hold; any other
/// entry is laid over as in a deep merge.
pub open spec fn overlay_step(acc: Seq<(Node, Node)>, key: Node, value: Node) -> Seq<(Node, Node)> {
    if is_directive_key(key) {
        acc
    } else if is_wholesale_key(key) {
        put(acc, key, value)
    } else {
        merge_step(acc, key, value)
    }
}

/// The overlay's entries laid over the base's, one after the other.
pub open spec fn overlay(base: Seq<(Node, Node)>, over: Seq<(Node, Node)>) -> Seq<(Node, Node)>
    decreases over.len(),
{
    if over.len() == 0 {
        base
    } else {
        overlay_step(overlay(base, over.drop_last()), over.last().0, over.last().1)
    }
}

/// Lays the overlay's entries over the base's.
pub fn overlay_entries(base: Vec<(Yaml, Yaml)>, over: &Vec<(Yaml, Yaml)>) -> (r: Vec<
    (Yaml, Yaml),
>)
    ensures
        entries_of(r@) == overlay(entries_of(base@), entries_of(over@)),
{
    let ghost start = entries_of(base@);
    let ghost top = entries_of(over@);
    let mut acc = base;
    let mut i: usize = 0;
    assert(top.subrange(0, 0) =~= Seq::empty());
    while i < over.len()
        invariant
            i <= over.len(),
            top == entries_of(over@),
            entries_of(acc@) == overlay(start, top.subrange(0, i as int)),
        decreases over.len() - i,
    {
        let ghost next = top.subrange(0, i + 1);
        proof {
            assert(next.drop_last() =~= top.subrange(0, i as int));
            assert(next.last() == top[i as int]);
        }
        let key = &over[i].0;
        let value = &over[i].1;
        if !is_directive(key) {
            if key.has_text("rules") || key.has_text("proxies") {
                put_entry(&mut acc, key.deep_copy(), value.deep_copy());
            } else {
                merge_entry(&mut acc, key, value);
            }
        }
        i += 1;
    }
    assert(top.subrange(0, over.len() as int) =~= top);
    acc
}

/// The model of a value that may be absent.
pub open spec fn option_model(value: Option<&Yaml>) -> Option<Node> {
    match value {
        Some(v) => Some(v@),
        None => None,
    }
}

/// The entries of a document's root: none for an absent or null document,
/// the mapping's own for a mapping. Any other root has no entries to give.
pub open spec fn root_entries(value: Option<Node>) -> Option<Seq<(Node, Node)>> {
    match value {
        None => Some(Seq::empty()),
        Some(Node::Null) => Some(Seq::empty()),
        Some(Node::Mapping(entries)) => Some(entries),
        Some(_) => None,
    }
}

/// The items of a value that has to be a sequence where present: none for an
/// absent or null value.
pub open spec fn items_of(value: Option<Node>) -> Option<Seq<Node>> {
    match value {
        None => Some(Seq::empty()),
        Some(Node::Null) => Some(Seq::empty()),
        Some(Node::Sequence(items)) => Some(items),
        Some(_) => None,
    }
}

/// The field's items wrapped by those to place before and after. The field is
/// checked first, then the items before, then the items after.
pub open spec fn wrap_items(
    field: ListField,
    inner: Option<Node>,
    prepend: Option<Node>,
    append: Option<Node>,
) -> Result<Option<Seq<Node>>, MergeError> {
    if items_of(inner) is None {
        Err(MergeError::FieldNotSequence(field))
    } else if items_of(prepend) is None {
        Err(MergeError::PrependNotSequence(field))
    } else if items_of(append) is None {
        Err(MergeError::AppendNotSequence(field))
    } else {
        let all = items_of(prepend)->0 + items_of(inner)->0 + items_of(append)->0;
        if all.len() == 0 && inner is None && prepend is None && append is None {
            Ok(None)
        } else {
            Ok(Some(all))
        }
    }
}

/// The field's own value for wrapping: the overlay's where the overlay has the
/// key, else the base's.
pub open spec fn field_source(field: ListField, base: Seq<(Node, Node)>, over: Seq<(Node, Node)>)
    -> Option<Node> {
    if lookup(over, Node::Str(field.name())) is Some {
        lookup(over, Node::Str(field.name()))
    } else {
        lookup(base, Node::Str(field.name()))
    }
}

/// The merged entries after one field's directives have been carried out.
pub open spec fn apply_field(
    acc: Result<Seq<(Node, Node)>, MergeError>,
    field: ListField,
    base: Seq<(Node, Node)>,
    over: Seq<(Node, Node)>,
) -> Result<Seq<(Node, Node)>, MergeError> {
    match acc {
        Err(e) => Err(e),
        Ok(entries) => {
            let prepend = lookup(over, Node::Str(field.prepend_name()));
            let append = lookup(over, Node::Str(field.append_name()));
            if prepend is None && append is None {
                Ok(entries)
            } else {
                match wrap_items(field, field_source(field, base, over), prepend, append) {
                    Err(e) => Err(e),
                    Ok(None) => Ok(entries),
                    Ok(Some(items)) => Ok(
                        put(entries, Node::Str(field.name()), Node::Sequence(items)),
                    ),
                }
            }
        },
    }
}

/// The merge of a base document and an overlay document.
pub open spec fn merge(base: Option<Node>, over: Option<Node>) -> Result<Node, MergeError> {
    match root_entries(base) {
        None => Err(MergeError::BaseRootNotMapping),
        Some(b) => match root_entries(over) {
            None => Err(MergeError::OverlayRootNotMapping),
            Some(o) => {
                let laid = Ok(overlay(b, o));
                let rules = apply_field(laid, ListField::Rules, b, o);
                let proxies = apply_field(rules, ListField::Proxies, b, o);
                match apply_field(proxies, ListField::ProxyGroups, b, o) {
                    Ok(entries) => Ok(Node::Mapping(entries)),
                    Err(e) => Err(e),
                }
            },
        },
    }
}

/// A copy of the root's entries, where the root is absent, null or a mapping.
pub fn to_mapping(value: Option<&Yaml>) -> (r: Option<Vec<(Yaml, Yaml)>>)
    ensures
        r is Some <==> root_entries(option_model(value)) is Some,
        r matches Some(entries) ==> root_entries(option_model(value)) == Some(
            entries_of(entries@),
        ),
{
    match value {
        None => {
            let out: Vec<(Yaml, Yaml)> = Vec::new();
            assert(entries_of(out@) =~= Seq::empty());
            Some(out)
        },
        Some(Yaml::Null) => {
            let out: Vec<(Yaml, Yaml)> = Vec::new();
            assert(entries_of(out@) =~= Seq::empty());
            Some(out)
        },
        Some(Yaml::Mapping(entries)) => {
            proof {
                Yaml::lemma_mapping_model(*entries);
            }
            Some(copy_entries(entries))
        },
        Some(_) => None,
    }
}

/// Copies of the items of a value that has to be a sequence where present.
pub fn list_items(value: Option<&Yaml>) -> (r: Option<Vec<Yaml>>)
    ensures
        r is Some <==> items_of(option_model(value)) is Some,
        r matches Some(items) ==> items_of(option_model(value)) == Some(nodes_of(items@)),
{
    match value {
        None => {
            let out: Vec<Yaml> = Vec::new();
            assert(nodes_of(out@) =~= Seq::empty());
            Some(out)
        },
        Some(Yaml::Null) => {
            let out: Vec<Yaml> = Vec::new();
            assert(nodes_of(out@) =~= Seq::empty());
            Some(out)
        },
        Some(Yaml::Sequence(items)) => {
            proof {
                Yaml::lemma_sequence_model(*items);
            }
            Some(copy_items(items))
        },
        Some(_) => None,
    }
}

/// Moves the items of `more` to the end of `out`.
fn extend_items(out: &mut Vec<Yaml>, more: Vec<Yaml>)
    ensures
        nodes_of(final(out)@) == nodes_of(old(out)@) + nodes_of(more@),
{
    let ghost first = out@;
    let ghost second = more@;
    let mut more = more;
    out.append(&mut more);
    assert(nodes_of(out@) =~= nodes_of(first) + nodes_of(second));
}

/// Wraps a list-valued field with the items that the overlay places before and
/// after it. The field's own value is the overlay's where the overlay has the
/// key, else the base's.
pub fn merge_sequence_field(
    field: ListField,
    base: &Vec<(Yaml, Yaml)>,
    over: &Vec<(Yaml, Yaml)>,
    prepend: Option<&Yaml>,
    append: Option<&Yaml>,
) -> (r: Result<Option<Vec<Yaml>>, MergeError>)
    ensures
        match wrap_items(
            field,
            field_source(field, entries_of(base@), entries_of(over@)),
            option_model(prepend),
            option_model(append),
        ) {
            Ok(Some(items)) => r matches Ok(Some(v)) && nodes_of(v@) == items,
            Ok(None) => r matches Ok(None),
            Err(e) => r == Err::<Option<Vec<Yaml>>, MergeError>(e),
        },
{
    let key = field.key();
    let in_over = get_entry(over, &key);
    let inner = if in_over.is_some() {
        in_over
    } else {
        get_entry(base, &key)
    };
    assert(option_model(inner) == field_source(field, entries_of(base@), entries_of(over@)));
    let Some(middle) = list_items(inner) else {
        return Err(MergeError::FieldNotSequence(field));
    };
    let Some(mut all) = list_items(prepend) else {
        return Err(MergeError::PrependNotSequence(field));
    };
    extend_items(&mut all, middle);
    let Some(tail) = list_items(append) else {
        return Err(MergeError::AppendNotSequence(field));
    };
    extend_items(&mut all, tail);
    if all.len() == 0 && inner.is_none() && prepend.is_none() && append.is_none() {
        Ok(None)
    } else {
        Ok(Some(all))
    }
}

/// Carries out one field's directives on the merged entries.
fn apply_directives(
    merged: Vec<(Yaml, Yaml)>,
    field: ListField,
    base: &Vec<(Yaml, Yaml)>,
    over: &Vec<(Yaml, Yaml)>,
) -> (r: Result<Vec<(Yaml, Yaml)>, MergeError>)
    ensures
        match apply_field(Ok(entries_of(merged@)), field, entries_of(base@), entries_of(over@)) {
            Ok(entries) => r matches Ok(v) && entries_of(v@) == entries,
            Err(e) => r == Err::<Vec<(Yaml, Yaml)>, MergeError>(e),
        },
{
    let mut merged = merged;
    let prepend = get_entry(over, &field.prepend_key());
    let append = get_entry(over, &field.append_key());
    if prepend.is_some() || append.is_some() {
        match merge_sequence_field(field, base, over, prepend, append) {
            Err(e) => Err(e),
            Ok(None) => Ok(merged),
            Ok(Some(items)) => {
                proof {
                    Yaml::lemma_sequence_model(items);
                }
                put_entry(&mut merged, field.key(), Yaml::Sequence(items));
                Ok(merged)
            },
        }
    } else {
        Ok(merged)
    }
}

/// Merges a base document and an overlay document. Either may be absent or
/// null; a present one has to be a mapping. The overlay's values replace the
/// base's, nested mappings are merged except under `rules` and `proxies`, and
/// the overlay's directives wrap the three list-valued fields.
pub fn merge_yaml_configs(remote: Option<&Yaml>, user: Option<&Yaml>) -> (r: Result<
    Yaml,
    MergeError,
>)
    ensures
        match merge(option_model(remote), option_model(user)) {
            Ok(node) => r matches Ok(v) && v@ == node,
            Err(e) => r == Err::<Yaml, MergeError>(e),
        },
        (remote matches Some(b) ==> valid(b@)) && (user matches Some(o) ==> valid(o@)) ==> (
        r matches Ok(v) ==> valid(v@)),
{
    proof {
        if (remote matches Some(b) ==> valid(b@)) && (user matches Some(o) ==> valid(o@)) {
            law_merge_keeps_validity(option_model(remote), option_model(user));
        }
    }
    let Some(base) = to_mapping(remote) else {
        return Err(MergeError::BaseRootNotMapping);
    };
    let Some(over) = to_mapping(user) else {
        return Err(MergeError::OverlayRootNotMapping);
    };
    let laid = overlay_entries(copy_entries(&base), &over);
    let rules = match apply_directives(laid, ListField::Rules, &base, &over) {
        Ok(v) => v,
        Err(e) => {
            return Err(e);
        },
    };
    let proxies = match apply_directives(rules, ListField::Proxies, &base, &over) {
        Ok(v) => v,
        Err(e) => {
            return Err(e);
        },
    };
    match apply_directives(proxies, ListField::ProxyGroups, &base, &over) {
        Ok(entries) => {
            proof {
                Yaml::lemma_mapping_model(entries);
            }
            Ok(Yaml::Mapping(entries))
        },
        Err(e) => Err(e),
    }
}

/// Whether no key is a merge directive.
pub open spec fn no_directives(entries: Seq<(Node, Node)>) -> bool {
    forall|i: int| 0 <= i < entries.len() ==> !is_directive_key((#[trigger] entries[i]).0)
}

/// Laying an overlay over a base keeps the base's keys at their places: the
/// composed document lists the base's keys first, in the base's order, and
/// after them the keys that only the overlay has, in the overlay's order.
pub proof fn law_overlay_keeps_base_order(base: Seq<(Node, Node)>, over: Seq<(Node, Node)>)
    ensures
        overlay(base, over).len() >= base.len(),
        forall|i: int|
            0 <= i < base.len() ==> (#[trigger] overlay(base, over)[i]).0 == base[i].0,
        distinct_keys(base) ==> distinct_keys(overlay(base, over)),
    decreases over.len(),
{
    if over.len() > 0 {
        let acc = overlay(base, over.drop_last());
        law_overlay_keeps_base_order(base, over.drop_last());
        let key = over.last().0;
        let value = over.last().1;
        lemma_put_keeps_order(acc, key, value);
        match (lookup(acc, key), value) {
            (Some(Node::Mapping(dst)), Node::Mapping(src)) => {
                lemma_put_keeps_order(acc, key, Node::Mapping(deep_merge(dst, src)));
            },
            _ => {},
        }
        let after = overlay(base, over);
        assert forall|i: int| 0 <= i < base.len() implies (#[trigger] after[i]).0 == base[i].0 by {
            assert(acc[i].0 == base[i].0);
        }
    }
}

/// Where the overlay holds something other than a mapping under a key that is
/// no directive, the composed entries hold the overlay's value under that key.
pub proof fn lemma_overlay_sets(base: Seq<(Node, Node)>, over: Seq<(Node, Node)>, p: int)
    requires
        distinct_keys(over),
        0 <= p < over.len(),
        !is_directive_key(over[p].0),
        !(over[p].1 is Mapping),
    ensures
        lookup(overlay(base, over), over[p].0) == Some(over[p].1),
    decreases over.len(),
{
    let acc = overlay(base, over.drop_last());
    let key = over.last().0;
    let value = over.last().1;
    if p == over.len() - 1 {
        lemma_put_same(acc, key, value);
    } else {
        let front = over.drop_last();
        assert(front[p] == over[p]);
        assert(distinct_keys(front)) by {
            assert forall|a: int, b: int| 0 <= a < b < front.len() implies (#[trigger] front[a]).0
                != (#[trigger] front[b]).0 by {
                assert(over[a].0 != over[b].0);
            }
        }
        lemma_overlay_sets(base, front, p);
        assert(over[p].0 != over[over.len() - 1].0);
        lemma_put_other(acc, key, value, over[p].0);
        match (lookup(acc, key), value) {
            (Some(Node::Mapping(dst)), Node::Mapping(src)) => {
                lemma_put_other(acc, key, Node::Mapping(deep_merge(dst, src)), over[p].0);
            },
            _ => {},
        }
    }
}

/// An overlay without a repeated key and without directives, laid over
/// nothing, gives the overlay's own entries.
pub proof fn lemma_overlay_on_empty(over: Seq<(Node, Node)>)
    requires
        distinct_keys(over),
        no_directives(over),
    ensures
        overlay(Seq::empty(), over) == over,
    decreases over.len(),
{
    if over.len() == 0 {
        assert(over =~= Seq::empty());
    } else {
        let front = over.drop_last();
        assert(distinct_keys(front) && no_directives(front)) by {
            assert forall|a: int, b: int| 0 <= a < b < front.len() implies (#[trigger] front[a]).0
                != (#[trigger] front[b]).0 by {
                assert(over[a].0 != over[b].0);
            }
            assert forall|i: int| 0 <= i < front.len() implies !is_directive_key(
                (#[trigger] front[i]).0,
            ) by {
                assert(front[i] == over[i]);
            }
        }
        lemma_overlay_on_empty(front);
        let key = over.last().0;
        assert forall|i: int| 0 <= i < front.len() implies (#[trigger] front[i]).0 != key by {
            assert(over[i].0 != over[over.len() - 1].0);
        }
        crate::yaml::lemma_no_key(front, key);
        assert(front.push(over.last()) =~= over);
    }
}

/// Entries without directives steer nothing: the three list-valued fields
/// stay as the overlay left them.
pub proof fn lemma_no_directives_no_wrapping(
    entries: Seq<(Node, Node)>,
    base: Seq<(Node, Node)>,
    over: Seq<(Node, Node)>,
    field: ListField,
)
    requires
        no_directives(over),
    ensures
        apply_field(Ok(entries), field, base, over) == Ok::<Seq<(Node, Node)>, MergeError>(entries),
{
    let first = Node::Str(field.prepend_name());
    let second = Node::Str(field.append_name());
    assert(is_directive_key(first) && is_directive_key(second));
    assert forall|i: int| 0 <= i < over.len() implies (#[trigger] over[i]).0 != first by {}
    assert forall|i: int| 0 <= i < over.len() implies (#[trigger] over[i]).0 != second by {}
    crate::yaml::lemma_no_key(over, first);
    crate::yaml::lemma_no_key(over, second);
}

/// The merge of two mappings where the overlay has no directives is the
/// overlay laid over the base.
pub proof fn lemma_merge_plain(base: Seq<(Node, Node)>, over: Seq<(Node, Node)>)
    requires
        no_directives(over),
    ensures
        merge(Some(Node::Mapping(base)), Some(Node::Mapping(over))) == Ok::<Node, MergeError>(
            Node::Mapping(overlay(base, over)),
        ),
        merge(None, Some(Node::Mapping(over))) == Ok::<Node, MergeError>(
            Node::Mapping(overlay(Seq::empty(), over)),
        ),
        merge(Some(Node::Null), Some(Node::Mapping(over))) == Ok::<Node, MergeError>(
            Node::Mapping(overlay(Seq::empty(), over)),
        ),
{
    let laid = overlay(base, over);
    lemma_no_directives_no_wrapping(laid, base, over, ListField::Rules);
    lemma_no_directives_no_wrapping(laid, base, over, ListField::Proxies);
    lemma_no_directives_no_wrapping(laid, base, over, ListField::ProxyGroups);
    let bare = overlay(Seq::empty(), over);
    lemma_no_directives_no_wrapping(bare, Seq::empty(), over, ListField::Rules);
    lemma_no_directives_no_wrapping(bare, Seq::empty(), over, ListField::Proxies);
    lemma_no_directives_no_wrapping(bare, Seq::empty(), over, ListField::ProxyGroups);
}

/// Merging a mapping with an absent or null overlay gives the mapping back.
pub proof fn law_merge_without_overlay(base: Node)
    requires
        base is Mapping,
    ensures
        merge(Some(base), None) == Ok::<Node, MergeError>(base),
        merge(Some(base), Some(Node::Null)) == Ok::<Node, MergeError>(base),
{
    let entries = base->Mapping_0;
    let none = Seq::<(Node, Node)>::empty();
    assert(no_directives(none));
    lemma_no_directives_no_wrapping(entries, entries, none, ListField::Rules);
    lemma_no_directives_no_wrapping(entries, entries, none, ListField::Proxies);
    lemma_no_directives_no_wrapping(entries, entries, none, ListField::ProxyGroups);
}

/// Merging an absent or null base with an overlay gives the overlay back,
/// where the overlay is a well-formed mapping without directives. (An
/// overlay's directives never reach the result, so an overlay that holds one
/// does not come back as it was.)
pub proof fn law_merge_without_base(over: Node)
    requires
        valid(over),
        over matches Node::Mapping(entries) && no_directives(entries),
    ensures
        merge(None, Some(over)) == Ok::<Node, MergeError>(over),
        merge(Some(Node::Null), Some(over)) == Ok::<Node, MergeError>(over),
{
    let entries = over->Mapping_0;
    lemma_valid_mapping(entries);
    lemma_merge_plain(Seq::empty(), entries);
    lemma_overlay_on_empty(entries);
}

/// Merging is not commutative: where two mappings without directives hold
/// different values, neither of them a mapping, under one key, the order of
/// the merge decides which value the result holds, and the two orders give
/// different results.
pub proof fn law_merge_not_commutative(first: Node, second: Node, i: int, j: int)
    requires
        valid(first),
        valid(second),
        first matches Node::Mapping(a) && no_directives(a) && 0 <= i < a.len() && !(a[i].1
            is Mapping),
        second matches Node::Mapping(b) && no_directives(b) && 0 <= j < b.len() && !(b[j].1
            is Mapping),
        first->Mapping_0[i].0 == second->Mapping_0[j].0,
        first->Mapping_0[i].1 != second->Mapping_0[j].1,
    ensures
        merge(Some(first), Some(second)) matches Ok(Node::Mapping(ab)) && lookup(
            ab,
            second->Mapping_0[j].0,
        ) == Some(second->Mapping_0[j].1),
        merge(Some(second), Some(first)) matches Ok(Node::Mapping(ba)) && lookup(
            ba,
            first->Mapping_0[i].0,
        ) == Some(first->Mapping_0[i].1),
        merge(Some(first), Some(second)) != merge(Some(second), Some(first)),
{
    let a = first->Mapping_0;
    let b = second->Mapping_0;
    lemma_valid_mapping(a);
    lemma_valid_mapping(b);
    lemma_merge_plain(a, b);
    lemma_merge_plain(b, a);
    lemma_overlay_sets(a, b, j);
    lemma_overlay_sets(b, a, i);
}

/// The built-in defaults of the engine's configuration: the floor values that
/// the engine needs to work under this supervisor.
pub const CORE_DEFAULTS_YAML: &'static str = " # Core defaults for camofy (router)\nmode: rule\nmixed-port: 7897\nallow-lan: false\nlog-level: warning\nipv6: true\nexternal-controller-unix: /tmp/verge/clash-verge-service.sock\ntun:\n  enable: true\n  stack: gvisor\n  auto-route: true\n  strict-route: false\n  auto-detect-interface: true\n  dns-hijack:\n    - any:53\nprofile:\n  store-selected: true\nsniffer:\n  sniff:\n    TLS:\n      ports:\n      - 1-65535\n      override-destination: true\n    HTTP:\n      ports:\n      - 1-65535\n      override-destination: true\n  enable: true\n  skip-domain:\n  - Mijia Cloud\n  - dlg.io.mi.com\n  parse-pure-ip: false\n  force-dns-mapping: true\n  override-destination: true\ndns:\n  ipv6: true\n  enable: true\n  listen: 0.0.0.0:1053\n  use-hosts: false\n  default-nameserver:\n  - 119.29.29.29\n  - 223.5.5.5\n  - 223.6.6.6\n  - 8.8.4.4\n  - 8.8.8.8\n  nameserver:\n  - https://durable0762.com:44443/dns-query\n  - https://delirium9599.com:44443/dns-query\n  - https://cf-cdn.delirium9599.com:443/dns-query\n  fake-ip-range: 198.18.0.1/15\n  fake-ip-filter:\n  - '*.lan'\n  - '*.localdomain'\n  - '*.example'\n  - '*.invalid'\n  - '*.localhost'\n  - '*.test'\n  - '*.local'\n  - '*.home.arpa'\n";

/// Laying one well-formed entry over well-formed entries keeps them well
/// formed.
pub proof fn lemma_merge_step_valid(acc: Seq<(Node, Node)>, key: Node, value: Node)
    requires
        valid_entries(acc),
        valid(key),
        valid(value),
    ensures
        valid_entries(merge_step(acc, key, value)),
    decreases value, 0nat,
{
    lemma_lookup_valid(acc, key);
    match (lookup(acc, key), value) {
        (Some(Node::Mapping(dst)), Node::Mapping(src)) => {
            lemma_valid_mapping(dst);
            lemma_valid_mapping(src);
            lemma_deep_merge_valid(dst, src);
            lemma_valid_mapping(deep_merge(dst, src));
            lemma_put_valid(acc, key, Node::Mapping(deep_merge(dst, src)));
        },
        _ => {
            lemma_put_valid(acc, key, value);
        },
    }
}

/// A deep merge of well-formed entries is well formed.
pub proof fn lemma_deep_merge_valid(target: Seq<(Node, Node)>, source: Seq<(Node, Node)>)
    requires
        valid_entries(target),
        valid_entries(source),
    ensures
        valid_entries(deep_merge(target, source)),
    decreases source, 1nat,
{
    if source.len() > 0 {
        let front = source.drop_last();
        lemma_front_valid(source);
        lemma_deep_merge_valid(target, front);
        let n = source.len() - 1;
        assert(source.last() == source[n]);
        assert(decreases_to!(source => source[n]));
        assert(decreases_to!(source[n] => source[n].1));
        lemma_merge_step_valid(deep_merge(target, front), source.last().0, source.last().1);
    }
}

/// All but the last of well-formed entries are well-formed entries.
pub proof fn lemma_front_valid(entries: Seq<(Node, Node)>)
    requires
        valid_entries(entries),
        entries.len() > 0,
    ensures
        valid_entries(entries.drop_last()),
{
    let front = entries.drop_last();
    assert forall|a: int, b: int| 0 <= a < b < front.len() implies (#[trigger] front[a]).0 != (
    #[trigger] front[b]).0 by {
        assert(entries[a].0 != entries[b].0);
    }
    assert forall|i: int| 0 <= i < front.len() implies valid((#[trigger] front[i]).0) && valid(
        front[i].1,
    ) by {
        assert(front[i] == entries[i]);
    }
}

/// An overlay of well-formed entries over well-formed entries is well formed.
pub proof fn lemma_overlay_valid(base: Seq<(Node, Node)>, over: Seq<(Node, Node)>)
    requires
        valid_entries(base),
        valid_entries(over),
    ensures
        valid_entries(overlay(base, over)),
    decreases over.len(),
{
    if over.len() > 0 {
        lemma_front_valid(over);
        lemma_overlay_valid(base, over.drop_last());
        let acc = overlay(base, over.drop_last());
        let n = over.len() - 1;
        assert(over.last() == over[n]);
        if !is_directive_key(over.last().0) {
            if is_wholesale_key(over.last().0) {
                lemma_put_valid(acc, over.last().0, over.last().1);
            } else {
                lemma_merge_step_valid(acc, over.last().0, over.last().1);
            }
        }
    }
}

/// The items of a well-formed value that has to be a sequence are well
/// formed.
pub proof fn lemma_items_valid(value: Option<Node>)
    requires
        value matches Some(v) ==> valid(v),
    ensures
        items_of(value) matches Some(items) ==> valid_items(items),
{
    match value {
        Some(Node::Sequence(items)) => {
            lemma_valid_sequence(items);
        },
        _ => {},
    }
}

/// Carrying out a field's directives keeps well-formed entries well formed.
pub proof fn lemma_apply_field_valid(
    entries: Seq<(Node, Node)>,
    field: ListField,
    base: Seq<(Node, Node)>,
    over: Seq<(Node, Node)>,
)
    requires
        valid_entries(entries),
        valid_entries(base),
        valid_entries(over),
    ensures
        apply_field(Ok(entries), field, base, over) matches Ok(after) ==> valid_entries(after),
{
    let prepend = lookup(over, Node::Str(field.prepend_name()));
    let append = lookup(over, Node::Str(field.append_name()));
    let inner = field_source(field, base, over);
    lemma_lookup_valid(over, Node::Str(field.prepend_name()));
    lemma_lookup_valid(over, Node::Str(field.append_name()));
    lemma_lookup_valid(over, Node::Str(field.name()));
    lemma_lookup_valid(base, Node::Str(field.name()));
    lemma_items_valid(prepend);
    lemma_items_valid(append);
    lemma_items_valid(inner);
    match wrap_items(field, inner, prepend, append) {
        Ok(Some(items)) => {
            let a = items_of(prepend)->0;
            let b = items_of(inner)->0;
            let c = items_of(append)->0;
            assert forall|i: int| 0 <= i < items.len() implies valid(#[trigger] items[i]) by {
                if i < a.len() {
                    assert(items[i] == a[i]);
                } else if i < a.len() + b.len() {
                    assert(items[i] == b[i - a.len()]);
                } else {
                    assert(items[i] == c[i - a.len() - b.len()]);
                }
            }
            lemma_valid_sequence(items);
            lemma_put_valid(entries, Node::Str(field.name()), Node::Sequence(items));
        },
        _ => {},
    }
}

/// The entries of a well-formed document's root are well formed.
pub proof fn lemma_root_valid(value: Option<Node>)
    requires
        value matches Some(v) ==> valid(v),
    ensures
        root_entries(value) matches Some(entries) ==> valid_entries(entries),
{
    match value {
        Some(Node::Mapping(entries)) => {
            lemma_valid_mapping(entries);
        },
        _ => {},
    }
}

/// Merging keeps documents well formed: where no mapping of the base and of
/// the overlay holds a key twice, none of the merged document does.
pub proof fn law_merge_keeps_validity(base: Option<Node>, over: Option<Node>)
    requires
        base matches Some(b) ==> valid(b),
        over matches Some(o) ==> valid(o),
    ensures
        merge(base, over) matches Ok(merged) ==> valid(merged),
{
    lemma_root_valid(base);
    lemma_root_valid(over);
    if root_entries(base) is Some && root_entries(over) is Some {
        let b = root_entries(base)->0;
        let o = root_entries(over)->0;
        lemma_overlay_valid(b, o);
        let laid = overlay(b, o);
        lemma_apply_field_valid(laid, ListField::Rules, b, o);
        let rules = apply_field(Ok(laid), ListField::Rules, b, o);
        if rules is Ok {
            lemma_apply_field_valid(rules->Ok_0, ListField::Proxies, b, o);
            let proxies = apply_field(rules, ListField::Proxies, b, o);
            if proxies is Ok {
                lemma_apply_field_valid(proxies->Ok_0, ListField::ProxyGroups, b, o);
                let groups = apply_field(proxies, ListField::ProxyGroups, b, o);
                if groups is Ok {
                    lemma_valid_mapping(groups->Ok_0);
                }
            }
        }
    }
}

/// The three field names differ from each other.
pub proof fn lemma_field_names_differ()
    ensures
        "rules"@ != "proxies"@,
        "rules"@ != "proxy-groups"@,
        "proxies"@ != "proxy-groups"@,
{
    reveal_strlit("rules");
    reveal_strlit("proxies");
    reveal_strlit("proxy-groups");
    assert("rules"@.len() == 5);
    assert("proxies"@.len() == 7);
    assert("proxy-groups"@.len() == 12);
}

/// Carrying out one field's directives leaves what the entries hold under
/// every other key.
pub proof fn lemma_apply_field_keeps_others(
    entries: Seq<(Node, Node)>,
    field: ListField,
    base: Seq<(Node, Node)>,
    over: Seq<(Node, Node)>,
    key: Node,
)
    requires
        key != Node::Str(field.name()),
        apply_field(Ok(entries), field, base, over) is Ok,
    ensures
        lookup(apply_field(Ok(entries), field, base, over)->Ok_0, key) == lookup(entries, key),
{
    let prepend = lookup(over, Node::Str(field.prepend_name()));
    let append = lookup(over, Node::Str(field.append_name()));
    if !(prepend is None && append is None) {
        match wrap_items(field, field_source(field, base, over), prepend, append) {
            Ok(Some(items)) => {
                lemma_put_other(entries, Node::Str(field.name()), Node::Sequence(items), key);
            },
            _ => {},
        }
    }
}

/// Where an overlay holds a directive for a field, the merged document holds
/// under the field the items to place before, then the field's own items,
/// which are the overlay's where the overlay has the field and else the
/// base's, then the items to place after.
pub proof fn law_directives_wrap_field(
    base: Seq<(Node, Node)>,
    over: Seq<(Node, Node)>,
    field: ListField,
)
    requires
        merge(Some(Node::Mapping(base)), Some(Node::Mapping(over))) is Ok,
        lookup(over, Node::Str(field.prepend_name())) is Some || lookup(
            over,
            Node::Str(field.append_name()),
        ) is Some,
    ensures
        merge(Some(Node::Mapping(base)), Some(Node::Mapping(over))) matches Ok(Node::Mapping(out))
            && lookup(out, Node::Str(field.name())) == Some(
            Node::Sequence(
                items_of(lookup(over, Node::Str(field.prepend_name())))->0 + items_of(
                    field_source(field, base, over),
                )->0 + items_of(lookup(over, Node::Str(field.append_name())))->0,
            ),
        ),
{
    lemma_field_names_differ();
    let laid = overlay(base, over);
    let r1 = apply_field(Ok(laid), ListField::Rules, base, over);
    let r2 = apply_field(r1, ListField::Proxies, base, over);
    let r3 = apply_field(r2, ListField::ProxyGroups, base, over);
    assert(r1 is Ok && r2 is Ok && r3 is Ok);
    let key = Node::Str(field.name());
    let prepend = lookup(over, Node::Str(field.prepend_name()));
    let append = lookup(over, Node::Str(field.append_name()));
    let wrapped = wrap_items(field, field_source(field, base, over), prepend, append);
    match field {
        ListField::Rules => {
            assert(wrapped is Ok);
            lemma_put_same(laid, key, Node::Sequence(wrapped->Ok_0->0));
            lemma_apply_field_keeps_others(r1->Ok_0, ListField::Proxies, base, over, key);
            lemma_apply_field_keeps_others(r2->Ok_0, ListField::ProxyGroups, base, over, key);
        },
        ListField::Proxies => {
            assert(wrapped is Ok);
            lemma_put_same(r1->Ok_0, key, Node::Sequence(wrapped->Ok_0->0));
            lemma_apply_field_keeps_others(r2->Ok_0, ListField::ProxyGroups, base, over, key);
        },
        ListField::ProxyGroups => {
            assert(wrapped is Ok);
            lemma_put_same(r2->Ok_0, key, Node::Sequence(wrapped->Ok_0->0));
        },
    }
}

/// Why a configuration could not be composed.
#[derive(Debug)]
pub enum ComposeError {
    /// The base document's text is not YAML; the parser's message is kept.
    BaseUnreadable(String),
    /// The overlay document's text is not YAML; the parser's message is kept.
    OverlayUnreadable(String),
    /// The base and the overlay could not be merged.
    Merge(MergeError),
    /// The defaults could not be laid over the merged document.
    Defaults(MergeError),
    /// The composed document could not be written as text.
    Render(RenderError),
}

/// The tree of a document that may be absent.
pub open spec fn source_tree(text: Option<&str>) -> Option<Option<Node>> {
    match text {
        None => Some(None),
        Some(t) => match document_tree(t@) {
            Some(tree) => Some(Some(tree)),
            None => None,
        },
    }
}

/// The defaults laid over a merged document. Defaults that are absent, or
/// whose text is not YAML, leave the document as it is.
pub open spec fn with_defaults(merged: Node, defaults: Option<&str>) -> Result<Node, MergeError> {
    match defaults {
        None => Ok(merged),
        Some(text) => match document_tree(text@) {
            None => Ok(merged),
            Some(tree) => merge(Some(merged), Some(tree)),
        },
    }
}

/// Whether `r` is what composing the three documents gives: the text of the
/// composed document, or the first failure on the way. The base is read
/// first, then the overlay; the two are merged; the defaults are laid over
/// the result; and the whole is written as text.
pub open spec fn composes_to(
    base: Option<&str>,
    over: Option<&str>,
    defaults: Option<&str>,
    r: Result<String, ComposeError>,
) -> bool {
    match r {
        Ok(text) => {
            &&& source_tree(base) matches Some(b)
            &&& source_tree(over) matches Some(o)
            &&& merge(b, o) matches Ok(merged)
            &&& with_defaults(merged, defaults) matches Ok(tree)
            &&& storable(tree)
            &&& rendered_text(tree) == Some(text@)
        },
        Err(ComposeError::BaseUnreadable(_)) => source_tree(base) is None,
        Err(ComposeError::OverlayUnreadable(_)) => source_tree(base) is Some && source_tree(over)
            is None,
        Err(ComposeError::Merge(e)) => {
            &&& source_tree(base) matches Some(b)
            &&& source_tree(over) matches Some(o)
            &&& merge(b, o) == Err::<Node, MergeError>(e)
        },
        Err(ComposeError::Defaults(e)) => {
            &&& source_tree(base) matches Some(b)
            &&& source_tree(over) matches Some(o)
            &&& merge(b, o) matches Ok(merged)
            &&& with_defaults(merged, defaults) == Err::<Node, MergeError>(e)
        },
        Err(ComposeError::Render(e)) => {
            &&& source_tree(base) matches Some(b)
            &&& source_tree(over) matches Some(o)
            &&& merge(b, o) matches Ok(merged)
            &&& with_defaults(merged, defaults) matches Ok(tree)
            &&& (e is NotStorable <==> !storable(tree))
            &&& (e is Refused ==> rendered_text(tree) is None)
        },
    }
}

/// Composing the same documents twice gives the same outcome: the same text,
/// character for character, or a failure both times. The keys of the composed
/// document stand in the order in which they were first met: the base's keys,
/// then the overlay's new keys, then the new keys of the defaults.
pub proof fn law_composition_is_repeatable(
    base: Option<&str>,
    over: Option<&str>,
    defaults: Option<&str>,
    first: Result<String, ComposeError>,
    second: Result<String, ComposeError>,
)
    requires
        composes_to(base, over, defaults, first),
        composes_to(base, over, defaults, second),
    ensures
        first is Ok <==> second is Ok,
        first matches Ok(a) ==> second matches Ok(b) && a@ == b@,
{
}

/// Composes the engine's configuration: the overlay document laid over the
/// base document, and the defaults laid over the two. The result is the text
/// of the composed document.
pub fn generate_merged_config(base: Option<&str>, over: Option<&str>, defaults: Option<&str>) -> (r:
    Result<String, ComposeError>)
    ensures
        composes_to(base, over, defaults, r),
{
    let base_tree = match base {
        None => None,
        Some(text) => match parse_document(text) {
            Ok(tree) => Some(tree),
            Err(message) => {
                return Err(ComposeError::BaseUnreadable(message));
            },
        },
    };
    let over_tree = match over {
        None => None,
        Some(text) => match parse_document(text) {
            Ok(tree) => Some(tree),
            Err(message) => {
                return Err(ComposeError::OverlayUnreadable(message));
            },
        },
    };
    let merged = match merge_yaml_configs(base_tree.as_ref(), over_tree.as_ref()) {
        Ok(tree) => tree,
        Err(e) => {
            return Err(ComposeError::Merge(e));
        },
    };
    let defaults_tree = match defaults {
        None => None,
        Some(text) => match parse_document(text) {
            Ok(tree) => Some(tree),
            Err(_) => None,
        },
    };
    let full = match defaults_tree {
        None => merged,
        Some(tree) => match merge_yaml_configs(Some(&merged), Some(&tree)) {
            Ok(full) => full,
            Err(e) => {
                return Err(ComposeError::Defaults(e));
            },
        },
    };
    match render_yaml(&full) {
        Ok(text) => Ok(text),
        Err(e) => Err(ComposeError::Render(e)),
    }
}

} // verus!
