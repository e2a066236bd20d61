//! Selection memory: the node chosen in each proxy group, remembered for each
//! pair of active subscription and active user profile.

use vstd::prelude::*;
use crate::config::AppConfig;
use crate::config::ConfigModel;
use crate::config::ProxySelectionRecord;
use crate::config::ProxySelectionSet;
use crate::config::SelectionSetModel;
use crate::config::copy_opt;
use crate::config::opt_same;
use crate::config::record_models;

verus! {

/// Whether a set belongs to the pair that is active in the configuration.
/// Two absent ids count as equal.
pub open spec fn for_active_pair(config: ConfigModel, set: SelectionSetModel) -> bool {
    set.subscription_id == config.active_subscription_id && set.user_profile_id
        == config.active_user_profile_id
}

/// Whether `i` is the position of the first set of the active pair.
pub open spec fn is_current_at(config: ConfigModel, i: int) -> bool {
    &&& 0 <= i < config.proxy_selections.len()
    &&& for_active_pair(config, config.proxy_selections[i])
    &&& forall|j: int| 0 <= j < i ==> !for_active_pair(config, #[trigger] config.proxy_selections[j])
}

/// Whether some set belongs to the active pair.
pub open spec fn has_current(config: ConfigModel) -> bool {
    exists|i: int| is_current_at(config, i)
}

/// The position of the first set of the active pair, where there is one.
pub open spec fn current_index(config: ConfigModel) -> int {
    choose|i: int| is_current_at(config, i)
}

/// The selections remembered for the active pair.
pub open spec fn current_selections(config: ConfigModel) -> Option<Seq<(Seq<char>, Seq<char>)>> {
    if has_current(config) {
        Some(config.proxy_selections[current_index(config)].selections)
    } else {
        None
    }
}

/// Whether `i` is the position of the first selection for a group.
pub open spec fn is_group_at(selections: Seq<(Seq<char>, Seq<char>)>, group: Seq<char>, i: int)
    -> bool {
    &&& 0 <= i < selections.len()
    &&& selections[i].0 == group
    &&& forall|j: int| 0 <= j < i ==> (#[trigger] selections[j]).0 != group
}

/// Whether some selection is for the group.
pub open spec fn has_group(selections: Seq<(Seq<char>, Seq<char>)>, group: Seq<char>) -> bool {
    exists|i: int| is_group_at(selections, group, i)
}

/// The position of the first selection for a group, where there is one.
pub open spec fn group_index(selections: Seq<(Seq<char>, Seq<char>)>, group: Seq<char>) -> int {
    choose|i: int| is_group_at(selections, group, i)
}

/// The selections after choosing `node` in `group`: the group's selection is
/// changed where it has one, else a new selection goes to the end.
pub open spec fn upsert(
    selections: Seq<(Seq<char>, Seq<char>)>,
    group: Seq<char>,
    node: Seq<char>,
) -> Seq<(Seq<char>, Seq<char>)> {
    if has_group(selections, group) {
        selections.update(group_index(selections, group), (group, node))
    } else {
        selections.push((group, node))
    }
}

/// The configuration after recording that `node` is chosen in `group` under
/// the active pair. A set for the pair is made where there is none.
pub open spec fn recorded(config: ConfigModel, group: Seq<char>, node: Seq<char>) -> ConfigModel {
    if has_current(config) {
        let i = current_index(config);
        let set = config.proxy_selections[i];
        ConfigModel {
            proxy_selections: config.proxy_selections.update(
                i,
                SelectionSetModel { selections: upsert(set.selections, group, node), ..set },
            ),
            ..config
        }
    } else {
        ConfigModel {
            proxy_selections: config.proxy_selections.push(
                SelectionSetModel {
                    subscription_id: config.active_subscription_id,
                    user_profile_id: config.active_user_profile_id,
                    selections: seq![(group, node)],
                },
            ),
            ..config
        }
    }
}

/// Whether no two selections are for the same group.
pub open spec fn groups_distinct(selections: Seq<(Seq<char>, Seq<char>)>) -> bool {
    forall|i: int, j: int|
        0 <= i < j < selections.len() ==> (#[trigger] selections[i]).0 != (
        #[trigger] selections[j]).0
}

/// The position of the first set of the active pair.
pub fn find_current_set(config: &AppConfig) -> (r: Option<usize>)
    ensures
        r is Some <==> has_current(config@),
        r matches Some(i) ==> is_current_at(config@, i as int) && i == current_index(config@),
{
    let mut i: usize = 0;
    while i < config.proxy_selections.len()
        invariant
            i <= config.proxy_selections.len(),
            forall|j: int| 0 <= j < i ==> !for_active_pair(config@, #[trigger] config@.proxy_selections[j]),
        decreases config.proxy_selections.len() - i,
    {
        let set = &config.proxy_selections[i];
        assert(config@.proxy_selections[i as int] == set@);
        if opt_same(&set.subscription_id, &config.active_subscription_id) && opt_same(
            &set.user_profile_id,
            &config.active_user_profile_id,
        ) {
            proof {
                lemma_current_index(config@, i as int);
            }
            return Some(i);
        }
        i += 1;
    }
    assert forall|k: int| !is_current_at(config@, k) by {
        if is_current_at(config@, k) {
            assert(!for_active_pair(config@, config@.proxy_selections[k]));
        }
    }
    None
}

/// A position that holds a set of the active pair and has none before it is
/// the current index.
pub proof fn lemma_current_index(config: ConfigModel, i: int)
    requires
        is_current_at(config, i),
    ensures
        has_current(config),
        current_index(config) == i,
{
    let c = current_index(config);
    assert(is_current_at(config, c));
    if c < i {
        assert(!for_active_pair(config, config.proxy_selections[c]));
    }
    if i < c {
        assert(!for_active_pair(config, config.proxy_selections[i]));
    }
}

/// A position that holds the group and has no earlier selection for it is the
/// group's index.
pub proof fn lemma_group_index(selections: Seq<(Seq<char>, Seq<char>)>, group: Seq<char>, i: int)
    requires
        is_group_at(selections, group, i),
    ensures
        has_group(selections, group),
        group_index(selections, group) == i,
{
    let c = group_index(selections, group);
    assert(is_group_at(selections, group, c));
    if c < i {
        assert(selections[c].0 != group);
    }
    if i < c {
        assert(selections[i].0 != group);
    }
}

/// Below any selection for a group there is a first one.
pub proof fn lemma_group_first(selections: Seq<(Seq<char>, Seq<char>)>, group: Seq<char>, w: int)
    requires
        0 <= w < selections.len(),
        selections[w].0 == group,
    ensures
        has_group(selections, group),
        group_index(selections, group) <= w,
        is_group_at(selections, group, group_index(selections, group)),
    decreases w,
{
    if exists|j: int| 0 <= j < w && (#[trigger] selections[j]).0 == group {
        let j = choose|j: int| 0 <= j < w && (#[trigger] selections[j]).0 == group;
        lemma_group_first(selections, group, j);
    } else {
        assert(is_group_at(selections, group, w));
        lemma_group_index(selections, group, w);
    }
}

/// After choosing a node in a group, the group has one selection, which holds
/// the node; selections for other groups stay as they were, and the number of
/// selections stays or grows by one.
pub proof fn lemma_upsert(selections: Seq<(Seq<char>, Seq<char>)>, group: Seq<char>, node: Seq<char>)
    requires
        groups_distinct(selections),
    ensures
        groups_distinct(upsert(selections, group, node)),
        has_group(upsert(selections, group, node), group),
        upsert(selections, group, node)[group_index(upsert(selections, group, node), group)]
            == (group, node),
        forall|i: int|
            0 <= i < upsert(selections, group, node).len() && (#[trigger] upsert(
                selections,
                group,
                node,
            )[i]).0 == group ==> i == group_index(upsert(selections, group, node), group),
        has_group(selections, group) ==> upsert(selections, group, node).len() == selections.len(),
        !has_group(selections, group) ==> upsert(selections, group, node).len() == selections.len()
            + 1,
{
    let after = upsert(selections, group, node);
    if has_group(selections, group) {
        let gi = group_index(selections, group);
        assert(is_group_at(selections, group, gi));
        assert(after == selections.update(gi, (group, node)));
        assert forall|a: int, b: int| 0 <= a < b < after.len() implies (#[trigger] after[a]).0 != (
        #[trigger] after[b]).0 by {
            assert(selections[a].0 != selections[b].0);
        }
        assert(is_group_at(after, group, gi)) by {
            assert forall|j: int| 0 <= j < gi implies (#[trigger] after[j]).0 != group by {
                assert(selections[j].0 != group);
            }
        }
        lemma_group_index(after, group, gi);
        assert forall|i: int| 0 <= i < after.len() && (#[trigger] after[i]).0 == group implies i
            == gi by {
            if i < gi {
                assert(after[i].0 != after[gi].0);
            }
            if gi < i {
                assert(after[gi].0 != after[i].0);
            }
        }
    } else {
        let n = selections.len() as int;
        assert(after == selections.push((group, node)));
        assert forall|j: int| 0 <= j < n implies (#[trigger] selections[j]).0 != group by {
            if selections[j].0 == group {
                lemma_group_first(selections, group, j);
            }
        }
        assert forall|a: int, b: int| 0 <= a < b < after.len() implies (#[trigger] after[a]).0 != (
        #[trigger] after[b]).0 by {
            if b < n {
                assert(selections[a].0 != selections[b].0);
            } else {
                assert(selections[a].0 != group);
            }
        }
        assert(is_group_at(after, group, n)) by {
            assert forall|j: int| 0 <= j < n implies (#[trigger] after[j]).0 != group by {
                assert(selections[j].0 != group);
            }
        }
        lemma_group_index(after, group, n);
        assert forall|i: int| 0 <= i < after.len() && (#[trigger] after[i]).0 == group implies i
            == n by {
            if i < n {
                assert(selections[i].0 != group);
            }
        }
    }
}

/// After recording a choice, the selections of the active pair are the earlier
/// ones with the choice stored among them.
pub proof fn lemma_recorded_current(config: ConfigModel, group: Seq<char>, node: Seq<char>)
    ensures
        has_current(recorded(config, group, node)),
        current_selections(recorded(config, group, node)) == Some(
            match current_selections(config) {
                Some(before) => upsert(before, group, node),
                None => seq![(group, node)],
            },
        ),
{
    let after = recorded(config, group, node);
    if has_current(config) {
        let i = current_index(config);
        assert(is_current_at(config, i));
        assert(is_current_at(after, i)) by {
            assert forall|j: int| 0 <= j < i implies !for_active_pair(
                after,
                #[trigger] after.proxy_selections[j],
            ) by {
                assert(!for_active_pair(config, config.proxy_selections[j]));
            }
        }
        lemma_current_index(after, i);
    } else {
        let n = config.proxy_selections.len() as int;
        assert forall|j: int| 0 <= j < n implies !for_active_pair(
            config,
            #[trigger] config.proxy_selections[j],
        ) by {
            if for_active_pair(config, config.proxy_selections[j]) {
                lemma_current_first(config, j);
            }
        }
        assert(is_current_at(after, n)) by {
            assert forall|j: int| 0 <= j < n implies !for_active_pair(
                after,
                #[trigger] after.proxy_selections[j],
            ) by {
                assert(!for_active_pair(config, config.proxy_selections[j]));
            }
        }
        lemma_current_index(after, n);
    }
}

/// Below any set of the active pair there is a first one.
pub proof fn lemma_current_first(config: ConfigModel, w: int)
    requires
        0 <= w < config.proxy_selections.len(),
        for_active_pair(config, config.proxy_selections[w]),
    ensures
        has_current(config),
    decreases w,
{
    if exists|j: int| 0 <= j < w && for_active_pair(config, #[trigger] config.proxy_selections[j]) {
        let j = choose|j: int|
            0 <= j < w && for_active_pair(config, #[trigger] config.proxy_selections[j]);
        lemma_current_first(config, j);
    } else {
        assert(is_current_at(config, w));
    }
}

/// Recording that `node` is chosen in `group` and then loading the selections
/// of the active pair gives selections among which exactly one is for `group`,
/// and that one holds `node`. Their number is the earlier number where the
/// group had a selection, and one more where it had none.
pub proof fn law_record_then_load(config: ConfigModel, group: Seq<char>, node: Seq<char>)
    requires
        current_selections(config) matches Some(before) ==> groups_distinct(before),
    ensures
        current_selections(recorded(config, group, node)) matches Some(after) && {
            let k = group_index(after, group);
            let earlier = match current_selections(config) {
                Some(before) => before,
                None => Seq::empty(),
            };
            &&& 0 <= k < after.len()
            &&& after[k] == (group, node)
            &&& forall|i: int| 0 <= i < after.len() && (#[trigger] after[i]).0 == group ==> i == k
            &&& has_group(earlier, group) ==> after.len() == earlier.len()
            &&& !has_group(earlier, group) ==> after.len() == earlier.len() + 1
        },
{
    lemma_recorded_current(config, group, node);
    let earlier = match current_selections(config) {
        Some(before) => before,
        None => Seq::empty(),
    };
    lemma_upsert(earlier, group, node);
    let after = upsert(earlier, group, node);
    assert(is_group_at(after, group, group_index(after, group)));
    if current_selections(config) is None {
        assert forall|k: int| !is_group_at(earlier, group, k) by {}
        assert(after =~= seq![(group, node)]);
    }
}

/// Whether the remembered selections are well kept: no two sets are for the
/// same pair, and no set holds two selections for one group.
pub open spec fn sets_valid(config: ConfigModel) -> bool {
    &&& forall|i: int, j: int|
        0 <= i < j < config.proxy_selections.len() ==> !same_pair(
            #[trigger] config.proxy_selections[i],
            #[trigger] config.proxy_selections[j],
        )
    &&& forall|i: int|
        0 <= i < config.proxy_selections.len() ==> groups_distinct(
            (#[trigger] config.proxy_selections[i]).selections,
        )
}

/// Whether two sets are for the same pair.
pub open spec fn same_pair(a: SelectionSetModel, b: SelectionSetModel) -> bool {
    a.subscription_id == b.subscription_id && a.user_profile_id == b.user_profile_id
}

/// Recording a choice keeps the remembered selections well kept: there stays
/// at most one set for each pair, with at most one selection for each group.
pub proof fn law_record_keeps_sets_valid(config: ConfigModel, group: Seq<char>, node: Seq<char>)
    requires
        sets_valid(config),
    ensures
        sets_valid(recorded(config, group, node)),
{
    let after = recorded(config, group, node);
    if has_current(config) {
        let c = current_index(config);
        assert(is_current_at(config, c));
        lemma_upsert(config.proxy_selections[c].selections, group, node);
        assert forall|i: int, j: int| 0 <= i < j < after.proxy_selections.len() implies !same_pair(
            #[trigger] after.proxy_selections[i],
            #[trigger] after.proxy_selections[j],
        ) by {
            assert(!same_pair(config.proxy_selections[i], config.proxy_selections[j]));
        }
        assert forall|i: int| 0 <= i < after.proxy_selections.len() implies groups_distinct(
            (#[trigger] after.proxy_selections[i]).selections,
        ) by {
            assert(groups_distinct(config.proxy_selections[i].selections));
        }
    } else {
        let n = config.proxy_selections.len() as int;
        assert forall|i: int| 0 <= i < n implies !for_active_pair(
            config,
            #[trigger] config.proxy_selections[i],
        ) by {
            if for_active_pair(config, config.proxy_selections[i]) {
                lemma_current_first(config, i);
            }
        }
        assert forall|i: int, j: int| 0 <= i < j < after.proxy_selections.len() implies !same_pair(
            #[trigger] after.proxy_selections[i],
            #[trigger] after.proxy_selections[j],
        ) by {
            if j < n {
                assert(!same_pair(config.proxy_selections[i], config.proxy_selections[j]));
            } else {
                assert(!for_active_pair(config, config.proxy_selections[i]));
            }
        }
        assert forall|i: int| 0 <= i < after.proxy_selections.len() implies groups_distinct(
            (#[trigger] after.proxy_selections[i]).selections,
        ) by {
            if i < n {
                assert(groups_distinct(config.proxy_selections[i].selections));
            }
        }
    }
}

/// Chooses `node` in `group` among the given selections.
pub fn upsert_selection(selections: &mut Vec<ProxySelectionRecord>, group: &str, node: &str)
    ensures
        record_models(final(selections)@) == upsert(record_models(old(selections)@), group@, node@),
{
    let ghost before = record_models(selections@);
    let mut i: usize = 0;
    while i < selections.len()
        invariant
            i <= selections.len(),
            before == record_models(selections@),
            selections@ == old(selections)@,
            forall|j: int| 0 <= j < i ==> (#[trigger] before[j]).0 != group@,
        decreases selections.len() - i,
    {
        assert(before[i as int] == selections[i as int]@);
        if *selections[i].group.as_str() == *group {
            proof {
                lemma_group_index(before, group@, i as int);
            }
            let record = ProxySelectionRecord { group: group.to_owned(), node: node.to_owned() };
            selections[i] = record;
            assert(record_models(selections@) =~= before.update(i as int, (group@, node@)));
            return ;
        }
        i += 1;
    }
    assert forall|k: int| !is_group_at(before, group@, k) by {
        if is_group_at(before, group@, k) {
            assert(before[k].0 != group@);
        }
    }
    selections.push(ProxySelectionRecord { group: group.to_owned(), node: node.to_owned() });
    assert(record_models(selections@) =~= before.push((group@, node@)));
}

/// Records, under the pair that is active, that `node` is chosen in `group`.
pub fn update_proxy_selection_for_current_profile(config: &mut AppConfig, group: &str, node: &str)
    ensures
        final(config)@ == recorded(old(config)@, group@, node@),
{
    let ghost before = config@;
    match find_current_set(config) {
        Some(i) => {
            let mut set = config.proxy_selections.remove(i);
            assert(set@ == before.proxy_selections[i as int]);
            upsert_selection(&mut set.selections, group, node);
            config.proxy_selections.insert(i, set);
            assert(config@.proxy_selections =~= before.proxy_selections.update(
                i as int,
                SelectionSetModel {
                    selections: upsert(before.proxy_selections[i as int].selections, group@, node@),
                    ..before.proxy_selections[i as int]
                },
            ));
        },
        None => {
            let mut selections: Vec<ProxySelectionRecord> = Vec::new();
            selections.push(ProxySelectionRecord { group: group.to_owned(), node: node.to_owned() });
            assert(record_models(selections@) =~= seq![(group@, node@)]);
            let set = ProxySelectionSet {
                subscription_id: copy_opt(&config.active_subscription_id),
                user_profile_id: copy_opt(&config.active_user_profile_id),
                selections,
            };
            config.proxy_selections.push(set);
            assert(config@.proxy_selections =~= before.proxy_selections.push(
                SelectionSetModel {
                    subscription_id: before.active_subscription_id,
                    user_profile_id: before.active_user_profile_id,
                    selections: seq![(group@, node@)],
                },
            ));
        },
    }
}

/// The selections remembered for the pair that is active.
pub fn get_proxy_selections_for_active_profile(config: &AppConfig) -> (r: Option<
    Vec<ProxySelectionRecord>,
>)
    ensures
        r is Some <==> current_selections(config@) is Some,
        r matches Some(records) ==> current_selections(config@) == Some(record_models(records@)),
{
    match find_current_set(config) {
        None => None,
        Some(i) => {
            let set = &config.proxy_selections[i];
            assert(config@.proxy_selections[i as int] == set@);
            let mut out: Vec<ProxySelectionRecord> = Vec::new();
            let mut k: usize = 0;
            while k < set.selections.len()
                invariant
                    k <= set.selections.len(),
                    out.len() == k,
                    forall|j: int| 0 <= j < k ==> out[j]@ == set.selections[j]@,
                decreases set.selections.len() - k,
            {
                out.push(
                    ProxySelectionRecord {
                        group: set.selections[k].group.clone(),
                        node: set.selections[k].node.clone(),
                    },
                );
                k += 1;
            }
            assert(record_models(out@) =~= record_models(set.selections@));
            Some(out)
        },
    }
}

} // verus!
