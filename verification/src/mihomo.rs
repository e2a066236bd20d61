//! What is asked of the engine over its control socket, and what is made of
//! its answers: the view of the proxy groups, the remembered selections that
//! are due, and delay tests.

use vstd::prelude::*;
use crate::api::ErrorCode;
use crate::config::ProxySelectionRecord;
use crate::config::copy_opt;
use crate::config::opt_is;
use crate::config::opt_text;
use crate::config::record_models;
use crate::http::ResponseError;
use crate::http::encode_path_segment;
use crate::http::is_success;
use crate::http::percent_encoded;
use crate::text::chars_of;
use crate::text::decimal_digits;
use crate::text::decimal_text;
use crate::text::eq_ignore_ascii_case;
use crate::text::is_blank;
use crate::text::same_ignoring_ascii_case;
use crate::text::string_of;
use crate::text::trim_chars;
use crate::text::trimmed;
use vstd::utf8::encode_utf8;

verus! {

broadcast use vstd::seq::group_seq_axioms;

/// The address that delay tests ask for unless told otherwise.
pub const DEFAULT_TEST_URL: &'static str = "https://www.gstatic.com/generate_204";

/// After how many milliseconds a delay test gives up unless told otherwise.
pub const DEFAULT_TEST_TIMEOUT_MS: u32 = 5000;

/// The engine's control socket.
pub const MIHOMO_SOCKET_PATH: &'static str = "/tmp/verge/clash-verge-service.sock";

/// A node of a proxy group as the panel shows it.
#[derive(Debug)]
pub struct ProxyNodeDto {
    pub name: String,
    pub proxy_type: String,
    pub delay: Option<u32>,
}

/// A proxy group as the panel shows it.
#[derive(Debug)]
pub struct ProxyGroupDto {
    pub name: String,
    pub group_type: String,
    pub now: Option<String>,
    pub nodes: Vec<ProxyNodeDto>,
}

/// The proxy groups as the panel shows them.
#[derive(Debug)]
pub struct ProxiesViewDto {
    pub groups: Vec<ProxyGroupDto>,
}

/// The delay measured for one node.
#[derive(Debug)]
pub struct GroupDelayResultDto {
    pub node: String,
    pub delay_ms: u32,
}

/// The delays measured for the nodes of a group.
#[derive(Debug)]
pub struct GroupDelayResponseDto {
    pub group: String,
    pub url: String,
    pub timeout_ms: u32,
    pub results: Vec<GroupDelayResultDto>,
}

/// The delay measured for a node.
#[derive(Debug)]
pub struct ProxyDelayResponseDto {
    pub group: String,
    pub node: String,
    pub url: String,
    pub timeout_ms: u32,
    pub delay_ms: u32,
}

/// What the panel sends to choose a node in a group.
#[derive(Debug)]
pub struct SelectProxyRequest {
    pub name: String,
}

/// What the panel sends to test the delays of a group.
#[derive(Debug)]
pub struct GroupDelayRequest {
    pub url: Option<String>,
    pub timeout_ms: Option<u32>,
    pub mode: Option<String>,
    /// Where present, only these nodes are tested.
    pub nodes: Option<Vec<String>>,
}

/// What the panel sends to test the delay of a node.
#[derive(Debug)]
pub struct NodeDelayRequest {
    pub url: Option<String>,
    pub timeout_ms: Option<u32>,
}

/// One measurement in a proxy's history.
#[derive(Clone, Copy, PartialEq, Eq, Structural, Debug)]
pub struct DelayEntry {
    pub delay: Option<u32>,
}

/// A proxy as the engine reports it. A proxy that lists members is a group.
#[derive(Debug)]
pub struct ProxyRaw {
    pub name: String,
    pub proxy_type: Option<String>,
    pub all: Option<Vec<String>>,
    pub now: Option<String>,
    pub history: Vec<DelayEntry>,
}

/// The texts of a list of strings.
pub open spec fn texts(names: Seq<String>) -> Seq<Seq<char>> {
    Seq::new(names.len(), |i: int| names[i]@)
}

/// The texts of a list of strings that may be absent.
pub open spec fn opt_texts(names: Option<Vec<String>>) -> Option<Seq<Seq<char>>> {
    match names {
        Some(v) => Some(texts(v@)),
        None => None,
    }
}

/// The model of a proxy as the engine reports it.
pub struct RawModel {
    pub name: Seq<char>,
    pub proxy_type: Option<Seq<char>>,
    pub all: Option<Seq<Seq<char>>>,
    pub now: Option<Seq<char>>,
    pub history: Seq<DelayEntry>,
}

impl View for ProxyRaw {
    type V = RawModel;

    open spec fn view(&self) -> RawModel {
        RawModel {
            name: self.name@,
            proxy_type: opt_text(self.proxy_type),
            all: opt_texts(self.all),
            now: opt_text(self.now),
            history: self.history@,
        }
    }
}

/// The models of a list of proxies.
pub open spec fn raw_models(raws: Seq<ProxyRaw>) -> Seq<RawModel> {
    Seq::new(raws.len(), |i: int| raws[i]@)
}

/// The model of a node as the panel shows it.
pub struct NodeModel {
    pub name: Seq<char>,
    pub proxy_type: Seq<char>,
    pub delay: Option<u32>,
}

/// The model of a group as the panel shows it.
pub struct GroupModel {
    pub name: Seq<char>,
    pub group_type: Seq<char>,
    pub now: Option<Seq<char>>,
    pub nodes: Seq<NodeModel>,
}

impl View for ProxyNodeDto {
    type V = NodeModel;

    open spec fn view(&self) -> NodeModel {
        NodeModel { name: self.name@, proxy_type: self.proxy_type@, delay: self.delay }
    }
}

/// The models of a list of nodes.
pub open spec fn node_models(nodes: Seq<ProxyNodeDto>) -> Seq<NodeModel> {
    Seq::new(nodes.len(), |i: int| nodes[i]@)
}

impl View for ProxyGroupDto {
    type V = GroupModel;

    open spec fn view(&self) -> GroupModel {
        GroupModel {
            name: self.name@,
            group_type: self.group_type@,
            now: opt_text(self.now),
            nodes: node_models(self.nodes@),
        }
    }
}

/// The models of a list of groups.
pub open spec fn group_models(groups: Seq<ProxyGroupDto>) -> Seq<GroupModel> {
    Seq::new(groups.len(), |i: int| groups[i]@)
}

/// Whether `i` is the position of the first proxy with a name.
pub open spec fn is_raw_at(raws: Seq<RawModel>, name: Seq<char>, i: int) -> bool {
    &&& 0 <= i < raws.len()
    &&& raws[i].name == name
    &&& forall|j: int| 0 <= j < i ==> (#[trigger] raws[j]).name != name
}

/// The position of the first proxy with a name, where there is one.
pub open spec fn raw_index(raws: Seq<RawModel>, name: Seq<char>) -> Option<int> {
    if exists|i: int| is_raw_at(raws, name, i) {
        Some(choose|i: int| is_raw_at(raws, name, i))
    } else {
        None
    }
}

/// The position of the first proxy with a name.
pub fn find_raw(raws: &Vec<ProxyRaw>, name: &str) -> (r: Option<usize>)
    ensures
        match r {
            Some(i) => raw_index(raw_models(raws@), name@) == Some(i as int) && is_raw_at(
                raw_models(raws@),
                name@,
                i as int,
            ),
            None => raw_index(raw_models(raws@), name@) is None,
        },
{
    let ghost models = raw_models(raws@);
    let mut i: usize = 0;
    while i < raws.len()
        invariant
            i <= raws.len(),
            models == raw_models(raws@),
            forall|j: int| 0 <= j < i ==> (#[trigger] models[j]).name != name@,
        decreases raws.len() - i,
    {
        assert(models[i as int] == raws[i as int]@);
        if *raws[i].name.as_str() == *name {
            assert(is_raw_at(models, name@, i as int));
            let ghost k = choose|k: int| is_raw_at(models, name@, k);
            assert(k == i) by {
                if k < i {
                    assert(models[k].name != name@);
                }
                if i < k {
                    assert(models[i as int].name != name@);
                }
            }
            return Some(i);
        }
        i += 1;
    }
    assert forall|k: int| !is_raw_at(models, name@, k) by {
        if is_raw_at(models, name@, k) {
            assert(models[k].name != name@);
        }
    }
    None
}

/// The kind of a proxy, or `unknown` where the engine names none.
pub open spec fn kind_text(proxy_type: Option<Seq<char>>) -> Seq<char> {
    match proxy_type {
        Some(t) => t,
        None => "unknown"@,
    }
}

/// The delay that a history ends with.
pub open spec fn last_delay(history: Seq<DelayEntry>) -> Option<u32> {
    if history.len() == 0 {
        None
    } else {
        history.last().delay
    }
}

/// A member of a group as the panel shows it: the proxy of that name with
/// its kind and its last delay, or a node of unknown kind where the engine
/// reports no proxy of that name.
pub open spec fn node_of(raws: Seq<RawModel>, name: Seq<char>) -> NodeModel {
    match raw_index(raws, name) {
        Some(i) => NodeModel {
            name: raws[i].name,
            proxy_type: kind_text(raws[i].proxy_type),
            delay: last_delay(raws[i].history),
        },
        None => NodeModel { name: name, proxy_type: "unknown"@, delay: None },
    }
}

/// The members of a group as the panel shows them, in the group's order.
pub open spec fn nodes_of_group(raws: Seq<RawModel>, members: Seq<Seq<char>>) -> Seq<NodeModel> {
    Seq::new(members.len(), |k: int| node_of(raws, members[k]))
}

/// The group that the proxy at a position shows as.
pub open spec fn group_of(raws: Seq<RawModel>, i: int) -> GroupModel {
    GroupModel {
        name: raws[i].name,
        group_type: kind_text(raws[i].proxy_type),
        now: raws[i].now,
        nodes: nodes_of_group(
            raws,
            match raws[i].all {
                Some(members) => members,
                None => Seq::empty(),
            },
        ),
    }
}

/// Whether the proxy at a position is shown as a group: it lists members,
/// and no proxy before it has its name.
pub open spec fn is_listed_group(raws: Seq<RawModel>, i: int) -> bool {
    &&& 0 <= i < raws.len()
    &&& raws[i].all is Some
    &&& forall|j: int| 0 <= j < i ==> (#[trigger] raws[j]).name != raws[i].name
}

/// The positions of the groups that the names pin to the front: for each
/// name in order, the group of that name, once.
pub open spec fn pinned(raws: Seq<RawModel>, names: Seq<Seq<char>>) -> Seq<int>
    decreases names.len(),
{
    if names.len() == 0 {
        Seq::empty()
    } else {
        let before = pinned(raws, names.drop_last());
        match raw_index(raws, names.last()) {
            Some(i) if is_listed_group(raws, i) && !before.contains(i) => before.push(i),
            _ => before,
        }
    }
}

/// The positions, below `upto`, of the groups that are not pinned, in the
/// order in which the engine reports them.
pub open spec fn unpinned(raws: Seq<RawModel>, front: Seq<int>, upto: int) -> Seq<int>
    decreases upto,
{
    if upto <= 0 {
        Seq::empty()
    } else {
        let before = unpinned(raws, front, upto - 1);
        if is_listed_group(raws, upto - 1) && !front.contains(upto - 1) {
            before.push(upto - 1)
        } else {
            before
        }
    }
}

/// The names that the group of all groups lists, where the engine reports
/// that group with members.
pub open spec fn global_members(raws: Seq<RawModel>) -> Seq<Seq<char>> {
    match raw_index(raws, "GLOBAL"@) {
        Some(i) => match raws[i].all {
            Some(members) => members,
            None => Seq::empty(),
        },
        None => Seq::empty(),
    }
}

/// The positions of the groups in the order in which the panel shows them:
/// first those that the group of all groups lists, in its order, then the
/// others in the order in which the engine reports them.
pub open spec fn group_order(raws: Seq<RawModel>) -> Seq<int> {
    let front = pinned(raws, global_members(raws));
    front + unpinned(raws, front, raws.len() as int)
}

/// The groups as the panel shows them.
pub open spec fn view_of(raws: Seq<RawModel>) -> Seq<GroupModel> {
    Seq::new(group_order(raws).len(), |k: int| group_of(raws, group_order(raws)[k]))
}

/// The positions as numbers.
pub open spec fn positions(v: Seq<usize>) -> Seq<int> {
    Seq::new(v.len(), |i: int| v[i] as int)
}

/// Whether a position is among the given ones.
fn has_position(v: &Vec<usize>, x: usize) -> (r: bool)
    ensures
        r == positions(v@).contains(x as int),
{
    let mut i: usize = 0;
    while i < v.len()
        invariant
            i <= v.len(),
            forall|j: int| 0 <= j < i ==> positions(v@)[j] != x as int,
        decreases v.len() - i,
    {
        if v[i] == x {
            assert(positions(v@)[i as int] == x as int);
            return true;
        }
        i += 1;
    }
    false
}

/// Whether the proxy at a position is shown as a group.
fn listed_group(raws: &Vec<ProxyRaw>, i: usize) -> (r: bool)
    requires
        i < raws.len(),
    ensures
        r == is_listed_group(raw_models(raws@), i as int),
{
    let ghost models = raw_models(raws@);
    assert(models[i as int] == raws[i as int]@);
    if raws[i].all.is_none() {
        return false;
    }
    match find_raw(raws, raws[i].name.as_str()) {
        Some(first) => {
            if first != i {
                assert(models[first as int].name == models[i as int].name);
            }
            first == i
        },
        None => {
            assert(is_raw_at(models, models[i as int].name, i as int) || exists|j: int|
                0 <= j < i && (#[trigger] models[j]).name == models[i as int].name);
            false
        },
    }
}

/// The node that a member of a group shows as.
fn node_for(raws: &Vec<ProxyRaw>, name: &str) -> (r: ProxyNodeDto)
    ensures
        r@ == node_of(raw_models(raws@), name@),
{
    let ghost models = raw_models(raws@);
    match find_raw(raws, name) {
        Some(i) => {
            assert(models[i as int] == raws[i as int]@);
            let raw = &raws[i];
            let delay = if raw.history.len() == 0 {
                None
            } else {
                raw.history[raw.history.len() - 1].delay
            };
            ProxyNodeDto {
                name: raw.name.clone(),
                proxy_type: match &raw.proxy_type {
                    Some(t) => t.clone(),
                    None => "unknown".to_owned(),
                },
                delay,
            }
        },
        None => ProxyNodeDto { name: name.to_owned(), proxy_type: "unknown".to_owned(), delay: None },
    }
}

/// The group that the proxy at a position shows as.
fn group_for(raws: &Vec<ProxyRaw>, i: usize) -> (r: ProxyGroupDto)
    requires
        i < raws.len(),
    ensures
        r@ == group_of(raw_models(raws@), i as int),
{
    let ghost models = raw_models(raws@);
    assert(models[i as int] == raws[i as int]@);
    let raw = &raws[i];
    let mut nodes: Vec<ProxyNodeDto> = Vec::new();
    match &raw.all {
        Some(members) => {
            let mut k: usize = 0;
            while k < members.len()
                invariant
                    k <= members.len(),
                    nodes.len() == k,
                    models == raw_models(raws@),
                    forall|j: int|
                        0 <= j < k ==> (#[trigger] nodes[j])@ == node_of(models, members[j]@),
                decreases members.len() - k,
            {
                nodes.push(node_for(raws, members[k].as_str()));
                k += 1;
            }
            assert(node_models(nodes@) =~= nodes_of_group(models, texts(members@)));
        },
        None => {
            assert(node_models(nodes@) =~= nodes_of_group(models, Seq::empty()));
        },
    }
    ProxyGroupDto {
        name: raw.name.clone(),
        group_type: match &raw.proxy_type {
            Some(t) => t.clone(),
            None => "unknown".to_owned(),
        },
        now: copy_opt(&raw.now),
        nodes,
    }
}

/// The view of the proxy groups that the panel shows, from the proxies that
/// the engine reports. A proxy that lists members is a group. The groups that
/// the group of all groups lists come first, in its order; the other groups
/// follow in the order in which the engine reports them. Each group shows
/// its members in its own order.
pub fn fetch_proxies_view(raws: &Vec<ProxyRaw>) -> (r: ProxiesViewDto)
    ensures
        group_models(r.groups@) == view_of(raw_models(raws@)),
{
    let ghost models = raw_models(raws@);
    let mut order: Vec<usize> = Vec::new();
    assert(positions(order@) =~= Seq::empty());
    match find_raw(raws, "GLOBAL") {
        Some(g) => {
            assert(models[g as int] == raws[g as int]@);
            match &raws[g].all {
                Some(members) => {
                    let ghost names = texts(members@);
                    let mut k: usize = 0;
                    assert(names.subrange(0, 0) =~= Seq::empty());
                    while k < members.len()
                        invariant
                            k <= members.len(),
                            models == raw_models(raws@),
                            names == texts(members@),
                            positions(order@) == pinned(models, names.subrange(0, k as int)),
                            forall|j: int| 0 <= j < order.len() ==> (#[trigger] order[j]) < raws.len(),
                        decreases members.len() - k,
                    {
                        let ghost done = positions(order@);
                        let ghost next = names.subrange(0, k + 1);
                        assert(next.drop_last() =~= names.subrange(0, k as int));
                        assert(next.last() == members[k as int]@);
                        match find_raw(raws, members[k].as_str()) {
                            Some(i) => {
                                if listed_group(raws, i) && !has_position(&order, i) {
                                    order.push(i);
                                    assert(positions(order@) =~= done.push(i as int));
                                }
                            },
                            None => {},
                        }
                        k += 1;
                    }
                    assert(names.subrange(0, members.len() as int) =~= names);
                },
                None => {},
            }
        },
        None => {},
    }
    let ghost front = positions(order@);
    assert(front == pinned(models, global_members(models)));
    let pinned_count = order.len();
    let mut i: usize = 0;
    assert(front + Seq::<int>::empty() =~= front);
    while i < raws.len()
        invariant
            i <= raws.len(),
            models == raw_models(raws@),
            pinned_count <= order.len(),
            positions(order@).subrange(0, pinned_count as int) == front,
            positions(order@) == front + unpinned(models, front, i as int),
            forall|j: int| 0 <= j < order.len() ==> (#[trigger] order[j]) < raws.len(),
        decreases raws.len() - i,
    {
        let ghost done = positions(order@);
        let ghost rest = unpinned(models, front, i as int);
        let mut is_pinned = false;
        let mut k: usize = 0;
        while k < pinned_count
            invariant
                k <= pinned_count <= order.len(),
                positions(order@).subrange(0, pinned_count as int) == front,
                is_pinned == (exists|j: int| 0 <= j < k && front[j] == i as int),
            decreases pinned_count - k,
        {
            assert(front[k as int] == order[k as int] as int) by {
                assert(positions(order@).subrange(0, pinned_count as int)[k as int] == positions(
                    order@,
                )[k as int]);
            }
            if order[k] == i {
                is_pinned = true;
            }
            k += 1;
        }
        assert(is_pinned == front.contains(i as int)) by {
            assert(front.len() == pinned_count);
        }
        if !is_pinned && listed_group(raws, i) {
            order.push(i);
            assert(positions(order@) =~= done.push(i as int));
            assert(done.push(i as int) =~= front + rest.push(i as int));
            assert(positions(order@).subrange(0, pinned_count as int) =~= front);
        }
        i += 1;
    }
    let ghost all = group_order(models);
    assert(positions(order@) == all);
    let mut groups: Vec<ProxyGroupDto> = Vec::new();
    let mut k: usize = 0;
    while k < order.len()
        invariant
            k <= order.len(),
            models == raw_models(raws@),
            groups.len() == k,
            forall|j: int| 0 <= j < order.len() ==> (#[trigger] order[j]) < raws.len(),
            forall|j: int| 0 <= j < k ==> (#[trigger] groups[j])@ == group_of(models, order[j] as int),
        decreases order.len() - k,
    {
        groups.push(group_for(raws, order[k]));
        k += 1;
    }
    assert(group_models(groups@) =~= view_of(models)) by {
        assert forall|j: int| 0 <= j < order.len() implies group_models(groups@)[j] == view_of(
            models,
        )[j] by {
            assert(positions(order@)[j] == order[j] as int);
        }
    }
    ProxiesViewDto { groups }
}

/// The JSON text that `serde_json` writes for a string, where it writes one:
/// the string in quotes, with what JSON cannot hold as it is escaped.
pub uninterp spec fn json_string(text: Seq<char>) -> Option<Seq<char>>;

/// `serde_json::to_string` at `str`: the string as a JSON text.
#[verifier::external_body]
fn to_json_string(text: &str) -> (r: Option<String>)
    ensures
        match r {
            Some(json) => json_string(text@) == Some(json@),
            None => json_string(text@) is None,
        },
{
    serde_json::to_string(text).ok()
}

/// The body of the request that chooses a node: an object with the node's
/// name.
pub open spec fn select_body(node: Seq<char>) -> Option<Seq<char>> {
    match json_string(node) {
        Some(json) => Some("{\"name\":"@ + json + "}"@),
        None => None,
    }
}

/// The body of the request that makes the engine load a configuration: an
/// object with the configuration's path, and the word to force the reload.
pub open spec fn reload_body(path: Seq<char>) -> Option<Seq<char>> {
    match json_string(path) {
        Some(json) => Some("{\"path\":"@ + json + ",\"force\":true}"@),
        None => None,
    }
}

/// The path of the request that chooses a node in a group.
pub open spec fn select_path(group: Seq<char>) -> Seq<char> {
    "/proxies/"@ + percent_encoded(encode_utf8(group))
}

/// A request to the engine: its method, its path and its body.
#[derive(Debug)]
pub struct EngineRequest {
    pub method: &'static str,
    pub path: String,
    pub body: Option<String>,
}

/// The request that chooses a node in a group.
pub fn select_node_for_group(group: &str, node: &str) -> (r: Option<EngineRequest>)
    ensures
        match select_body(node@) {
            Some(body) => r matches Some(request) && request.method@ == "PUT"@ && request.path@
                == select_path(group@) && opt_text(request.body) == Some(body),
            None => r is None,
        },
{
    let Some(json) = to_json_string(node) else {
        return None;
    };
    let mut path = "/proxies/".to_owned();
    path.append(encode_path_segment(group).as_str());
    let mut body = "{\"name\":".to_owned();
    body.append(json.as_str());
    body.append("}");
    Some(EngineRequest { method: "PUT", path, body: Some(body) })
}

/// The request that makes the engine load the composed configuration from a
/// path.
pub fn reload_config_with_merged(merged_path: &str) -> (r: Option<EngineRequest>)
    ensures
        match reload_body(merged_path@) {
            Some(body) => r matches Some(request) && request.method@ == "PUT"@ && request.path@
                == "/configs"@ && opt_text(request.body) == Some(body),
            None => r is None,
        },
{
    let Some(json) = to_json_string(merged_path) else {
        return None;
    };
    let mut body = "{\"path\":".to_owned();
    body.append(json.as_str());
    body.append(",\"force\":true}");
    Some(EngineRequest { method: "PUT", path: "/configs".to_owned(), body: Some(body) })
}

/// Checks a request to choose a node: the node's name must not be blank.
pub fn select_proxy(body: &SelectProxyRequest) -> (r: Result<(), ErrorCode>)
    ensures
        r == (if is_blank(body.name@) {
            Err::<(), ErrorCode>(ErrorCode::MihomoInvalidProxyName)
        } else {
            Ok(())
        }),
{
    if crate::text::blank_text(body.name.as_str()) {
        Err(ErrorCode::MihomoInvalidProxyName)
    } else {
        Ok(())
    }
}

/// The message of an answer of the engine that reports a failure. `message`
/// is what the answer's body holds where it is read as a JSON object: nothing
/// where it cannot be read so, else the object's message, where it has one.
pub open spec fn error_message(status: u16, body: Seq<char>, message: Option<Option<Seq<char>>>)
    -> Seq<char> {
    if body.len() == 0 {
        "mihomo returned "@ + decimal_digits(status as nat) + " with empty body"@
    } else {
        match message {
            Some(Some(text)) => text,
            Some(None) => "mihomo returned status "@ + decimal_digits(status as nat),
            None => "mihomo returned status "@ + decimal_digits(status as nat) + ": "@ + body,
        }
    }
}

/// The message of an answer of the engine that reports a failure.
pub fn map_error_from_body(status: u16, body: &str, message: Option<Option<String>>) -> (r: String)
    ensures
        r@ == error_message(
            status,
            body@,
            match message {
                Some(m) => Some(opt_text(m)),
                None => None,
            },
        ),
{
    let code = decimal_text(status as u64);
    if body.is_empty() {
        let mut text = "mihomo returned ".to_owned();
        text.append(code.as_str());
        text.append(" with empty body");
        return text;
    }
    match message {
        Some(Some(text)) => text,
        Some(None) => {
            let mut text = "mihomo returned status ".to_owned();
            text.append(code.as_str());
            text
        },
        None => {
            let mut text = "mihomo returned status ".to_owned();
            text.append(code.as_str());
            text.append(": ");
            text.append(body);
            text
        },
    }
}

/// Whether a group of a kind takes a selection: selectors, URL tests,
/// fallbacks and load balancers do, in whatever case the kind is written.
pub open spec fn selectable_kind(kind: Seq<char>) -> bool {
    ||| same_ignoring_ascii_case("Selector"@, kind)
    ||| same_ignoring_ascii_case("URLTest"@, kind)
    ||| same_ignoring_ascii_case("Fallback"@, kind)
    ||| same_ignoring_ascii_case("LoadBalance"@, kind)
}

/// Whether `i` is the position of the first group with a name.
pub open spec fn is_group_named_at(groups: Seq<GroupModel>, name: Seq<char>, i: int) -> bool {
    &&& 0 <= i < groups.len()
    &&& groups[i].name == name
    &&& forall|j: int| 0 <= j < i ==> (#[trigger] groups[j]).name != name
}

/// The position of the first group with a name, where there is one.
pub open spec fn group_named(groups: Seq<GroupModel>, name: Seq<char>) -> Option<int> {
    if exists|i: int| is_group_named_at(groups, name, i) {
        Some(choose|i: int| is_group_named_at(groups, name, i))
    } else {
        None
    }
}

/// Whether a group has a node with a name.
pub open spec fn has_node(group: GroupModel, node: Seq<char>) -> bool {
    exists|k: int| 0 <= k < group.nodes.len() && (#[trigger] group.nodes[k]).name == node
}

/// The selection that is due for a remembered one: the group and the node to
/// choose in it. Nothing is due where the group is gone, where it takes no
/// selection and is not the group of all groups, where the node is chosen
/// already, or where the node is gone from the group.
pub open spec fn due(groups: Seq<GroupModel>, record: (Seq<char>, Seq<char>)) -> Option<
    (Seq<char>, Seq<char>),
> {
    match group_named(groups, record.0) {
        None => None,
        Some(i) => {
            let group = groups[i];
            if !selectable_kind(group.group_type) && group.name != "GLOBAL"@ {
                None
            } else if group.now == Some(record.1) {
                None
            } else if !has_node(group, record.1) {
                None
            } else {
                Some((group.name, record.1))
            }
        },
    }
}

/// The selections that are due for the remembered ones, in their order.
pub open spec fn due_selections(groups: Seq<GroupModel>, records: Seq<(Seq<char>, Seq<char>)>)
    -> Seq<(Seq<char>, Seq<char>)>
    decreases records.len(),
{
    if records.len() == 0 {
        Seq::empty()
    } else {
        let before = due_selections(groups, records.drop_last());
        match due(groups, records.last()) {
            Some(pair) => before.push(pair),
            None => before,
        }
    }
}

/// The position of the first group with a name.
pub fn find_group(view: &ProxiesViewDto, name: &str) -> (r: Option<usize>)
    ensures
        match r {
            Some(i) => group_named(group_models(view.groups@), name@) == Some(i as int)
                && i < view.groups.len(),
            None => group_named(group_models(view.groups@), name@) is None,
        },
{
    let ghost models = group_models(view.groups@);
    let mut i: usize = 0;
    while i < view.groups.len()
        invariant
            i <= view.groups.len(),
            models == group_models(view.groups@),
            forall|j: int| 0 <= j < i ==> (#[trigger] models[j]).name != name@,
        decreases view.groups.len() - i,
    {
        assert(models[i as int] == view.groups[i as int]@);
        if *view.groups[i].name.as_str() == *name {
            assert(is_group_named_at(models, name@, i as int));
            let ghost k = choose|k: int| is_group_named_at(models, name@, k);
            assert(k == i) by {
                if k < i {
                    assert(models[k].name != name@);
                }
                if i < k {
                    assert(models[i as int].name != name@);
                }
            }
            return Some(i);
        }
        i += 1;
    }
    assert forall|k: int| !is_group_named_at(models, name@, k) by {
        if is_group_named_at(models, name@, k) {
            assert(models[k].name != name@);
        }
    }
    None
}

/// Whether a group has a node with a name.
pub fn group_has_node(group: &ProxyGroupDto, node: &str) -> (r: bool)
    ensures
        r == has_node(group@, node@),
{
    let mut k: usize = 0;
    while k < group.nodes.len()
        invariant
            k <= group.nodes.len(),
            forall|j: int| 0 <= j < k ==> (#[trigger] group@.nodes[j]).name != node@,
        decreases group.nodes.len() - k,
    {
        assert(group@.nodes[k as int] == group.nodes[k as int]@);
        if *group.nodes[k].name.as_str() == *node {
            return true;
        }
        k += 1;
    }
    false
}

/// Whether a group of a kind takes a selection.
pub fn is_selectable(kind: &str) -> (r: bool)
    ensures
        r == selectable_kind(kind@),
{
    eq_ignore_ascii_case("Selector", kind) || eq_ignore_ascii_case("URLTest", kind)
        || eq_ignore_ascii_case("Fallback", kind) || eq_ignore_ascii_case("LoadBalance", kind)
}

/// The remembered selections that are due once the engine is up: for each,
/// in order, the group and the node to choose in it.
pub fn apply_saved_proxy_selection(selections: &Vec<ProxySelectionRecord>, view: &ProxiesViewDto)
    -> (r: Vec<ProxySelectionRecord>)
    ensures
        record_models(r@) == due_selections(
            group_models(view.groups@),
            record_models(selections@),
        ),
{
    let ghost groups = group_models(view.groups@);
    let ghost records = record_models(selections@);
    let mut out: Vec<ProxySelectionRecord> = Vec::new();
    let mut i: usize = 0;
    assert(records.subrange(0, 0) =~= Seq::empty());
    assert(record_models(out@) =~= Seq::empty());
    while i < selections.len()
        invariant
            i <= selections.len(),
            groups == group_models(view.groups@),
            records == record_models(selections@),
            record_models(out@) == due_selections(groups, records.subrange(0, i as int)),
        decreases selections.len() - i,
    {
        let ghost done = record_models(out@);
        let ghost next = records.subrange(0, i + 1);
        assert(next.drop_last() =~= records.subrange(0, i as int));
        assert(next.last() == selections[i as int]@);
        let record = &selections[i];
        match find_group(view, record.group.as_str()) {
            None => {},
            Some(g) => {
                assert(groups[g as int] == view.groups[g as int]@);
                let group = &view.groups[g];
                let open = is_selectable(group.group_type.as_str()) || *group.name.as_str()
                    == *"GLOBAL";
                if open && !opt_is(&group.now, record.node.as_str()) && group_has_node(
                    group,
                    record.node.as_str(),
                ) {
                    out.push(
                        ProxySelectionRecord {
                            group: group.name.clone(),
                            node: record.node.clone(),
                        },
                    );
                    assert(record_models(out@) =~= done.push((group.name@, record.node@)));
                }
            },
        }
        i += 1;
    }
    assert(records.subrange(0, selections.len() as int) =~= records);
    out
}

/// The texts joined with a separator between them.
pub open spec fn joined(parts: Seq<Seq<char>>, sep: Seq<char>) -> Seq<char>
    decreases parts.len(),
{
    if parts.len() == 0 {
        Seq::empty()
    } else if parts.len() == 1 {
        parts[0]
    } else {
        joined(parts.drop_last(), sep) + sep + parts.last()
    }
}

/// What is reported of the selections that were applied: success where none
/// failed, else the messages of the failures, joined.
pub fn saved_selection_report(failures: &Vec<String>) -> (r: Result<(), String>)
    ensures
        match r {
            Ok(_) => failures.len() == 0,
            Err(text) => failures.len() > 0 && text@
                == "some saved proxy selections failed to apply: "@ + joined(
                texts(failures@),
                "; "@,
            ),
        },
{
    if failures.len() == 0 {
        return Ok(());
    }
    let ghost all = texts(failures@);
    let mut list = failures[0].clone();
    let mut i: usize = 1;
    assert(all.subrange(0, 1) =~= seq![all[0]]);
    while i < failures.len()
        invariant
            1 <= i <= failures.len(),
            all == texts(failures@),
            list@ == joined(all.subrange(0, i as int), "; "@),
        decreases failures.len() - i,
    {
        let ghost next = all.subrange(0, i + 1);
        assert(next.drop_last() =~= all.subrange(0, i as int));
        assert(next.last() == failures[i as int]@);
        list.append("; ");
        list.append(failures[i].as_str());
        i += 1;
    }
    assert(all.subrange(0, failures.len() as int) =~= all);
    let mut text = "some saved proxy selections failed to apply: ".to_owned();
    text.append(list.as_str());
    Err(text)
}

/// The address that a delay test asks for: the given one, trimmed, where it
/// is not blank, else the default.
pub open spec fn test_url(url: Option<Seq<char>>) -> Seq<char> {
    match url {
        Some(u) if !is_blank(u) => trimmed(u),
        _ => DEFAULT_TEST_URL@,
    }
}

/// The address and the timeout of a delay test, with the defaults for what
/// the request leaves out.
pub fn delay_settings(url: &Option<String>, timeout_ms: Option<u32>) -> (r: (String, u32))
    ensures
        r.0@ == test_url(opt_text(*url)),
        r.1 == (match timeout_ms {
            Some(t) => t,
            None => DEFAULT_TEST_TIMEOUT_MS,
        }),
{
    let address = match url {
        Some(u) => {
            let inner = trim_chars(&chars_of(u.as_str()));
            if inner.len() > 0 {
                string_of(&inner)
            } else {
                DEFAULT_TEST_URL.to_owned()
            }
        },
        None => DEFAULT_TEST_URL.to_owned(),
    };
    let timeout = match timeout_ms {
        Some(t) => t,
        None => DEFAULT_TEST_TIMEOUT_MS,
    };
    (address, timeout)
}

/// The path of a delay test of a proxy or, where `group` holds, of a group.
pub open spec fn delay_path(group: bool, name: Seq<char>, url: Seq<char>, timeout_ms: u32) -> Seq<
    char,
> {
    (if group {
        "/group/"@
    } else {
        "/proxies/"@
    }) + percent_encoded(encode_utf8(name)) + "/delay?url="@ + percent_encoded(encode_utf8(url))
        + "&timeout="@ + decimal_digits(timeout_ms as nat)
}

/// The path of a delay test.
fn delay_request_path(group: bool, name: &str, url: &str, timeout_ms: u32) -> (r: String)
    ensures
        r@ == delay_path(group, name@, url@, timeout_ms),
{
    let mut path = if group {
        "/group/".to_owned()
    } else {
        "/proxies/".to_owned()
    };
    path.append(encode_path_segment(name).as_str());
    path.append("/delay?url=");
    path.append(encode_path_segment(url).as_str());
    path.append("&timeout=");
    path.append(decimal_text(timeout_ms as u64).as_str());
    path
}

/// The request that tests the delay of a proxy.
pub fn delay_proxy(proxy: &str, url: &str, timeout_ms: u32) -> (r: EngineRequest)
    ensures
        r.method@ == "GET"@,
        r.path@ == delay_path(false, proxy@, url@, timeout_ms),
        r.body is None,
{
    EngineRequest { method: "GET", path: delay_request_path(false, proxy, url, timeout_ms), body: None }
}

/// The request that tests the delays of the nodes of a group.
pub fn delay_group(group: &str, url: &str, timeout_ms: u32) -> (r: EngineRequest)
    ensures
        r.method@ == "GET"@,
        r.path@ == delay_path(true, group@, url@, timeout_ms),
        r.body is None,
{
    EngineRequest { method: "GET", path: delay_request_path(true, group, url, timeout_ms), body: None }
}

/// The delay that an answer to a delay test of a proxy reports. An answer
/// that reports a failure counts as a timeout, which is a delay of zero; an
/// answer that reports success without a delay is no answer.
pub open spec fn delay_of(status: u16, delay: Option<u32>) -> Option<u32> {
    if is_success(status) {
        delay
    } else {
        Some(0u32)
    }
}

/// The delay that an answer to a delay test of a proxy reports. `delay` is
/// what the answer's body holds where it is read as a JSON object with a
/// delay.
pub fn proxy_delay_result(status: u16, delay: Option<u32>) -> (r: Option<u32>)
    ensures
        r == delay_of(status, delay),
{
    if 200 <= status && status < 300 {
        delay
    } else {
        Some(0)
    }
}

/// What a delay test of a group reports of one node: the delay that was
/// measured, and a delay of zero, which stands for a timeout, where the test
/// of the node failed.
pub fn group_delay_result(node: String, measured: Option<u32>) -> (r: GroupDelayResultDto)
    ensures
        r.node@ == node@,
        r.delay_ms == (match measured {
            Some(d) => d,
            None => 0u32,
        }),
{
    GroupDelayResultDto {
        node,
        delay_ms: match measured {
            Some(d) => d,
            None => 0,
        },
    }
}

/// Whether a text is among the given ones.
pub fn has_text(names: &Vec<String>, name: &str) -> (r: bool)
    ensures
        r == texts(names@).contains(name@),
{
    let mut i: usize = 0;
    while i < names.len()
        invariant
            i <= names.len(),
            forall|j: int| 0 <= j < i ==> texts(names@)[j] != name@,
        decreases names.len() - i,
    {
        if *names[i].as_str() == *name {
            assert(texts(names@)[i as int] == name@);
            return true;
        }
        i += 1;
    }
    false
}

/// The names of the nodes that a delay test of a group covers: the group's
/// nodes in their order, and of them only the named ones where the request
/// names some.
pub open spec fn delay_targets(nodes: Seq<NodeModel>, only: Option<Seq<Seq<char>>>) -> Seq<
    Seq<char>,
>
    decreases nodes.len(),
{
    if nodes.len() == 0 {
        Seq::empty()
    } else {
        let before = delay_targets(nodes.drop_last(), only);
        let name = nodes.last().name;
        match only {
            Some(names) if !names.contains(name) => before,
            _ => before.push(name),
        }
    }
}

/// The names of the nodes that a delay test of a group covers. The group is
/// looked up in the view by its name.
pub fn test_group_delay(view: &ProxiesViewDto, group: &str, body: &GroupDelayRequest) -> (r: Result<
    Vec<String>,
    ErrorCode,
>)
    ensures
        match group_named(group_models(view.groups@), group@) {
            None => r == Err::<Vec<String>, ErrorCode>(ErrorCode::MihomoGroupNotFound),
            Some(i) => r matches Ok(names) && texts(names@) == delay_targets(
                group_models(view.groups@)[i].nodes,
                opt_texts(body.nodes),
            ),
        },
{
    let Some(g) = find_group(view, group) else {
        return Err(ErrorCode::MihomoGroupNotFound);
    };
    let ghost groups = group_models(view.groups@);
    assert(groups[g as int] == view.groups[g as int]@);
    let nodes = &view.groups[g].nodes;
    let ghost models = groups[g as int].nodes;
    let ghost only = opt_texts(body.nodes);
    let mut out: Vec<String> = Vec::new();
    let mut i: usize = 0;
    assert(models.subrange(0, 0) =~= Seq::empty());
    assert(texts(out@) =~= Seq::empty());
    while i < nodes.len()
        invariant
            i <= nodes.len(),
            models == node_models(nodes@),
            only == opt_texts(body.nodes),
            texts(out@) == delay_targets(models.subrange(0, i as int), only),
        decreases nodes.len() - i,
    {
        let ghost done = texts(out@);
        let ghost next = models.subrange(0, i + 1);
        assert(next.drop_last() =~= models.subrange(0, i as int));
        assert(next.last() == nodes[i as int]@);
        let wanted = match &body.nodes {
            Some(names) => has_text(names, nodes[i].name.as_str()),
            None => true,
        };
        if wanted {
            out.push(nodes[i].name.clone());
            assert(texts(out@) =~= done.push(nodes[i as int].name@));
        }
        i += 1;
    }
    assert(models.subrange(0, nodes.len() as int) =~= models);
    Ok(out)
}

/// What the panel is told of a delay test of a node.
pub fn test_node_delay(group: String, node: String, url: String, timeout_ms: u32, delay: Option<u32>)
    -> (r: Result<ProxyDelayResponseDto, ErrorCode>)
    ensures
        match delay {
            Some(d) => r matches Ok(dto) && dto.group@ == group@ && dto.node@ == node@ && dto.url@
                == url@ && dto.timeout_ms == timeout_ms && dto.delay_ms == d,
            None => r matches Err(e) && e == ErrorCode::MihomoDelayProxyFailed,
        },
{
    match delay {
        Some(delay_ms) => Ok(ProxyDelayResponseDto { group, node, url, timeout_ms, delay_ms }),
        None => Err(ErrorCode::MihomoDelayProxyFailed),
    }
}

/// The kinds of failure of a request to the engine.
#[derive(Clone, Copy, PartialEq, Eq, Structural, Debug)]
pub enum EngineErrorKind {
    /// The engine's control socket is not there.
    SocketMissing,
    /// The socket is there, and the request could not be sent or the answer
    /// not received.
    Transport,
    /// The answer could not be read as a response.
    InvalidResponse(ResponseError),
    /// The engine answered with a status that reports a failure.
    Refused,
}

/// Why a request to the engine failed.
#[derive(Debug)]
pub struct EngineError {
    pub kind: EngineErrorKind,
    /// The status of the engine's answer, where there was one.
    pub status: Option<u16>,
    pub message: String,
}

/// What came of sending a request over the control socket.
#[derive(Debug)]
pub enum SocketOutcome {
    /// The socket is not there.
    Missing,
    /// Connecting, writing or reading failed. The error's text is kept.
    Failed(String),
    /// The bytes that the engine sent before it closed the connection.
    Answer(Vec<u8>),
}

/// The status and the body of the engine's answer to a request, or why there
/// is none.
pub fn send_mihomo_request(outcome: &SocketOutcome) -> (r: Result<(u16, String), EngineError>)
    ensures
        match outcome {
            SocketOutcome::Missing => r matches Err(e) && e.kind == EngineErrorKind::SocketMissing
                && e.status is None,
            SocketOutcome::Failed(message) => r matches Err(e) && e.kind
                == EngineErrorKind::Transport && e.status is None && e.message@ == message@,
            SocketOutcome::Answer(raw) => match crate::http::http_response(raw@) {
                Ok(pair) => r matches Ok(got) && got.0 == pair.0 && got.1@ == pair.1,
                Err(error) => r matches Err(e) && e.kind == EngineErrorKind::InvalidResponse(error)
                    && e.status is None,
            },
        },
{
    match outcome {
        SocketOutcome::Missing => Err(
            EngineError {
                kind: EngineErrorKind::SocketMissing,
                status: None,
                message: "mihomo unix socket not found".to_owned(),
            },
        ),
        SocketOutcome::Failed(message) => Err(
            EngineError { kind: EngineErrorKind::Transport, status: None, message: message.clone() },
        ),
        SocketOutcome::Answer(raw) => match crate::http::parse_http_response(raw.as_slice()) {
            Ok(pair) => Ok(pair),
            Err(error) => Err(
                EngineError {
                    kind: EngineErrorKind::InvalidResponse(error),
                    status: None,
                    message: "invalid mihomo response".to_owned(),
                },
            ),
        },
    }
}

/// Whether the engine's answer reports success, and the error that it
/// reports where it does not. `message` is what the answer's body holds where
/// it is read as a JSON object.
pub fn check_engine_status(status: u16, body: &str, message: Option<Option<String>>) -> (r: Result<
    (),
    EngineError,
>)
    ensures
        match r {
            Ok(_) => is_success(status),
            Err(e) => !is_success(status) && e.kind == EngineErrorKind::Refused && e.status
                == Some(status) && e.message@ == error_message(
                status,
                body@,
                match message {
                    Some(m) => Some(opt_text(m)),
                    None => None,
                },
            ),
        },
{
    if 200 <= status && status < 300 {
        Ok(())
    } else {
        Err(
            EngineError {
                kind: EngineErrorKind::Refused,
                status: Some(status),
                message: map_error_from_body(status, body, message),
            },
        )
    }
}

} // verus!
