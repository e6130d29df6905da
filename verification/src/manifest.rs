//! Locating and patching deployment manifests.
//!
//! A parsed YAML document is held as a [`YamlNode`] tree: strings, maps
//! and sequences are explicit (they are what the patch logic reads and
//! writes), every other scalar is carried through untouched as an opaque
//! `serde_yaml::Value`. The mathematical model of a tree is the
//! [`YamlTree`], where every string is a character sequence; maps are
//! association lists keyed by their first matching entry, which is how
//! the insertion-ordered maps of the YAML parser behave.

use vstd::prelude::*;
use crate::quantity::nat_min;
use crate::recommender::ResourceRecommendation;
use crate::strutil::str_eq;

verus! {

#[verifier::external_type_specification]
#[verifier::external_body]
pub struct ExYamlValue(serde_yaml::Value);

/// One parsed YAML document (or a piece of one).
#[verifier::ext_equal]
pub enum YamlNode {
    /// A string scalar.
    Str(String),
    /// A sequence of nodes.
    List(Vec<YamlNode>),
    /// A mapping, in insertion order; lookups take the first entry whose
    /// key is a matching string.
    Mapping(Vec<(YamlNode, YamlNode)>),
    /// Any other scalar (null, boolean, number, tagged value), carried
    /// through unread and unchanged.
    Other(serde_yaml::Value),
}

/// The mathematical shape of a document tree.
pub enum YamlTree {
    Str(Seq<char>),
    List(Seq<YamlTree>),
    Mapping(Seq<(YamlTree, YamlTree)>),
    Other(serde_yaml::Value),
}

pub open spec fn node_view(n: YamlNode) -> YamlTree
    decreases n,
{
    match n {
        YamlNode::Str(s) => YamlTree::Str(s@),
        YamlNode::List(xs) => YamlTree::List(nodes_view(xs@)),
        YamlNode::Mapping(es) => YamlTree::Mapping(entries_view(es@)),
        YamlNode::Other(v) => YamlTree::Other(v),
    }
}

/// The views of a sequence of nodes, elementwise.
pub open spec fn nodes_view(xs: Seq<YamlNode>) -> Seq<YamlTree>
    decreases xs,
{
    if xs.len() == 0 {
        Seq::empty()
    } else {
        seq![node_view(xs[0])] + nodes_view(xs.drop_first())
    }
}

/// The views of a map's entries, elementwise.
pub open spec fn entries_view(es: Seq<(YamlNode, YamlNode)>) -> Seq<(YamlTree, YamlTree)>
    decreases es,
{
    if es.len() == 0 {
        Seq::empty()
    } else {
        seq![(node_view(es[0].0), node_view(es[0].1))] + entries_view(es.drop_first())
    }
}

impl View for YamlNode {
    type V = YamlTree;

    open spec fn view(&self) -> YamlTree {
        node_view(*self)
    }
}

/// `nodes_view` maps the view over the elements.
pub proof fn lemma_nodes_view(xs: Seq<YamlNode>)
    ensures
        nodes_view(xs).len() == xs.len(),
        forall|i: int| 0 <= i < xs.len() ==> #[trigger] nodes_view(xs)[i] == node_view(xs[i]),
    decreases xs.len(),
{
    if xs.len() > 0 {
        lemma_nodes_view(xs.drop_first());
        assert(forall|i: int|
            0 <= i < xs.len() - 1 ==> #[trigger] xs.drop_first()[i] == xs[i + 1]);
    }
}

/// `entries_view` maps the views over the entry pairs.
pub proof fn lemma_entries_view(es: Seq<(YamlNode, YamlNode)>)
    ensures
        entries_view(es).len() == es.len(),
        forall|i: int|
            0 <= i < es.len() ==> #[trigger] entries_view(es)[i] == (node_view(es[i].0),
            node_view(es[i].1)),
    decreases es.len(),
{
    if es.len() > 0 {
        lemma_entries_view(es.drop_first());
        assert(forall|i: int|
            0 <= i < es.len() - 1 ==> #[trigger] es.drop_first()[i] == es[i + 1]);
    }
}

/// The first entry whose key is the string `key`.
pub open spec fn t_find(es: Seq<(YamlTree, YamlTree)>, key: Seq<char>) -> Option<int>
    decreases es.len(),
{
    if es.len() == 0 {
        None
    } else if es[0].0 == YamlTree::Str(key) {
        Some(0)
    } else {
        match t_find(es.drop_first(), key) {
            Some(i) => Some(i + 1),
            None => None,
        }
    }
}

/// The value under the string key `key`, by first match.
pub open spec fn t_get(es: Seq<(YamlTree, YamlTree)>, key: Seq<char>) -> Option<YamlTree> {
    match t_find(es, key) {
        Some(i) => Some(es[i].1),
        None => None,
    }
}

/// Overwrites the first entry under `key` (keeping its key node and
/// position), or appends a new entry.
pub open spec fn t_set(
    es: Seq<(YamlTree, YamlTree)>,
    key: Seq<char>,
    val: YamlTree,
) -> Seq<(YamlTree, YamlTree)> {
    match t_find(es, key) {
        Some(i) => es.update(i, (es[i].0, val)),
        None => es.push((YamlTree::Str(key), val)),
    }
}

/// The entries of a map node under `key`; an absent or non-map value
/// counts as the empty map, so that the patch can create the nesting.
pub open spec fn t_entries_or_empty(o: Option<YamlTree>) -> Seq<(YamlTree, YamlTree)> {
    match o {
        Some(YamlTree::Mapping(es)) => es,
        _ => Seq::empty(),
    }
}

/// The string value under `key` of a map tree, when the tree is a map,
/// the key is present and its value is a string.
pub open spec fn t_str_field(t: YamlTree, key: Seq<char>) -> Option<Seq<char>> {
    match t {
        YamlTree::Mapping(es) => match t_get(es, key) {
            Some(YamlTree::Str(s)) => Some(s),
            _ => None,
        },
        _ => None,
    }
}

proof fn lemma_t_find_bounds(es: Seq<(YamlTree, YamlTree)>, key: Seq<char>)
    ensures
        t_find(es, key) matches Some(i) ==> 0 <= i < es.len() && es[i].0 == YamlTree::Str(key),
        t_find(es, key) is None ==> forall|i: int|
            0 <= i < es.len() ==> #[trigger] es[i].0 != YamlTree::Str(key),
    decreases es.len(),
{
    if es.len() > 0 {
        lemma_t_find_bounds(es.drop_first(), key);
        if t_find(es, key) is None {
            assert forall|i: int|
                0 <= i < es.len() implies #[trigger] es[i].0 != YamlTree::Str(key) by {
                if i > 0 {
                    assert(es.drop_first()[i - 1] == es[i]);
                }
            }
        }
    }
}

/// `t_find` returns the first matching index.
proof fn lemma_t_find_first(es: Seq<(YamlTree, YamlTree)>, key: Seq<char>, i: int)
    requires
        0 <= i <= es.len(),
        forall|j: int| 0 <= j < i ==> #[trigger] es[j].0 != YamlTree::Str(key),
        i < es.len() ==> es[i].0 == YamlTree::Str(key),
    ensures
        i < es.len() ==> t_find(es, key) == Some(i),
        i == es.len() ==> t_find(es, key) is None,
    decreases es.len(),
{
    if es.len() > 0 {
        if es[0].0 == YamlTree::Str(key) {
            assert(i == 0);
        } else {
            assert(i >= 1);
            assert(forall|j: int|
                0 <= j < i - 1 ==> #[trigger] es.drop_first()[j] == es[j + 1]);
            lemma_t_find_first(es.drop_first(), key, i - 1);
        }
    }
}

/// Finds the index of the first entry keyed by the string `key`.
fn entry_index_of(es: &Vec<(YamlNode, YamlNode)>, key: &str) -> (r: Option<usize>)
    ensures
        r matches Some(i) ==> t_find(entries_view(es@), key@) == Some(i as int),
        r is None ==> t_find(entries_view(es@), key@) is None,
{
    proof {
        lemma_entries_view(es@);
    }
    let mut i: usize = 0;
    while i < es.len()
        invariant
            i <= es@.len(),
            entries_view(es@).len() == es@.len(),
            forall|j: int|
                0 <= j < es@.len() ==> #[trigger] entries_view(es@)[j] == (node_view(es@[j].0),
                node_view(es@[j].1)),
            forall|j: int|
                0 <= j < i ==> #[trigger] entries_view(es@)[j].0 != YamlTree::Str(key@),
        decreases es@.len() - i,
    {
        let hit = match &es[i].0 {
            YamlNode::Str(s) => str_eq(s.as_str(), key),
            _ => false,
        };
        if hit {
            proof {
                assert(entries_view(es@)[i as int].0 == YamlTree::Str(key@));
                lemma_t_find_first(entries_view(es@), key@, i as int);
            }
            return Some(i);
        }
        proof {
            assert(entries_view(es@)[i as int].0 != YamlTree::Str(key@));
        }
        i += 1;
    }
    proof {
        lemma_t_find_first(entries_view(es@), key@, es@.len() as int);
    }
    None
}

/// Overwrites or appends the entry under `key`, as `t_set` describes.
fn set_entry(es: &mut Vec<(YamlNode, YamlNode)>, key: &str, val: YamlNode)
    ensures
        entries_view(final(es)@) == t_set(entries_view(old(es)@), key@, node_view(val)),
{
    let ghost pre = entries_view(es@);
    let ghost pre_nodes = es@;
    proof {
        lemma_entries_view(es@);
        lemma_t_find_bounds(pre, key@);
    }
    match entry_index_of(es, key) {
        Some(i) => {
            let (k, _old_val) = es.remove(i);
            es.insert(i, (k, val));
            proof {
                assert(es@ =~= pre_nodes.update(i as int, (pre_nodes[i as int].0, val)));
                lemma_entries_view(es@);
                assert(entries_view(es@) =~= pre.update(i as int, (pre[i as int].0,
                    node_view(val))));
            }
        },
        None => {
            es.push((YamlNode::Str(key.to_owned()), val));
            proof {
                lemma_entries_view(es@);
                assert(entries_view(es@) =~= pre.push((YamlTree::Str(key@), node_view(val))));
            }
        },
    }
}

/// What one recommendation writes into a matching manifest: the target
/// coordinates and the four quantity strings.
pub struct PatchView {
    pub deployment: Seq<char>,
    pub namespace: Seq<char>,
    pub container: Seq<char>,
    pub cpu_request: Seq<char>,
    pub cpu_limit: Seq<char>,
    pub memory_request: Seq<char>,
    pub memory_limit: Seq<char>,
}

pub open spec fn patch_view_of(rec: ResourceRecommendation) -> PatchView {
    PatchView {
        deployment: rec.deployment@,
        namespace: rec.namespace@,
        container: rec.container@,
        cpu_request: rec.recommended_cpu_request@,
        cpu_limit: rec.recommended_cpu_limit@,
        memory_request: rec.recommended_memory_request@,
        memory_limit: rec.recommended_memory_limit@,
    }
}

/// The document is a `Deployment` with the target's name and, where the
/// document carries a namespace string, the target's namespace.
pub open spec fn doc_matches(doc: YamlTree, p: PatchView) -> bool {
    match doc {
        YamlTree::Mapping(es) => {
            &&& t_str_field(doc, "kind"@) == Some("Deployment"@)
            &&& match t_get(es, "metadata"@) {
                Some(md) => {
                    &&& t_str_field(md, "name"@) == Some(p.deployment)
                    &&& match t_str_field(md, "namespace"@) {
                        Some(ns) => ns == p.namespace,
                        None => true,
                    }
                },
                None => false,
            }
        },
        _ => false,
    }
}

/// The resource block with requests and limits overwritten: the nesting
/// is created where absent, and a present non-map value under one of the
/// keys is replaced by a fresh map.
pub open spec fn updated_resources(
    res: Seq<(YamlTree, YamlTree)>,
    p: PatchView,
) -> Seq<(YamlTree, YamlTree)> {
    let req = t_set(
        t_set(t_entries_or_empty(t_get(res, "requests"@)), "cpu"@, YamlTree::Str(p.cpu_request)),
        "memory"@,
        YamlTree::Str(p.memory_request),
    );
    let res1 = t_set(res, "requests"@, YamlTree::Mapping(req));
    let lim = t_set(
        t_set(t_entries_or_empty(t_get(res1, "limits"@)), "cpu"@, YamlTree::Str(p.cpu_limit)),
        "memory"@,
        YamlTree::Str(p.memory_limit),
    );
    t_set(res1, "limits"@, YamlTree::Mapping(lim))
}

/// A container map with its `resources` entry rebuilt; anything that is
/// not a map is left alone.
pub open spec fn updated_container(c: YamlTree, p: PatchView) -> YamlTree {
    match c {
        YamlTree::Mapping(es) => {
            let res = t_entries_or_empty(t_get(es, "resources"@));
            YamlTree::Mapping(
                t_set(es, "resources"@, YamlTree::Mapping(updated_resources(res, p))),
            )
        },
        _ => c,
    }
}

/// The container's `name` field equals `name`.
pub open spec fn container_named(c: YamlTree, name: Seq<char>) -> bool {
    t_str_field(c, "name"@) == Some(name)
}

/// Every container whose name matches is updated, the rest stay as they
/// are.
pub open spec fn patched_containers(cs: Seq<YamlTree>, p: PatchView) -> Seq<YamlTree>
    decreases cs.len(),
{
    if cs.len() == 0 {
        Seq::empty()
    } else {
        let h = if container_named(cs[0], p.container) {
            updated_container(cs[0], p)
        } else {
            cs[0]
        };
        seq![h] + patched_containers(cs.drop_first(), p)
    }
}

/// The number of containers in the list that carry the given name.
pub open spec fn matched_count(cs: Seq<YamlTree>, name: Seq<char>) -> nat
    decreases cs.len(),
{
    if cs.len() == 0 {
        0
    } else {
        (if container_named(cs[0], name) {
            1nat
        } else {
            0nat
        }) + matched_count(cs.drop_first(), name)
    }
}

/// The container list under `spec.template.spec.containers`, present only
/// when every step of the path is a map and the last is a sequence.
pub open spec fn containers_of(doc: YamlTree) -> Option<Seq<YamlTree>> {
    match doc {
        YamlTree::Mapping(d) => match t_get(d, "spec"@) {
            Some(YamlTree::Mapping(s)) => match t_get(s, "template"@) {
                Some(YamlTree::Mapping(t)) => match t_get(t, "spec"@) {
                    Some(YamlTree::Mapping(ss)) => match t_get(ss, "containers"@) {
                        Some(YamlTree::List(cs)) => Some(cs),
                        _ => None,
                    },
                    _ => None,
                },
                _ => None,
            },
            _ => None,
        },
        _ => None,
    }
}

/// The document with its matching containers updated, and how many
/// containers matched; a document without the containers path is left
/// alone. The matching test is the caller's.
pub open spec fn updated_doc(doc: YamlTree, p: PatchView) -> (YamlTree, nat) {
    match doc {
        YamlTree::Mapping(d) => match t_get(d, "spec"@) {
            Some(YamlTree::Mapping(s)) => match t_get(s, "template"@) {
                Some(YamlTree::Mapping(t)) => match t_get(t, "spec"@) {
                    Some(YamlTree::Mapping(ss)) => match t_get(ss, "containers"@) {
                        Some(YamlTree::List(cs)) => {
                            let cs2 = patched_containers(cs, p);
                            let ss2 = t_set(ss, "containers"@, YamlTree::List(cs2));
                            let t2 = t_set(t, "spec"@, YamlTree::Mapping(ss2));
                            let s2 = t_set(s, "template"@, YamlTree::Mapping(t2));
                            (
                                YamlTree::Mapping(t_set(d, "spec"@, YamlTree::Mapping(s2))),
                                matched_count(cs, p.container),
                            )
                        },
                        _ => (doc, 0),
                    },
                    _ => (doc, 0),
                },
                _ => (doc, 0),
            },
            _ => (doc, 0),
        },
        _ => (doc, 0),
    }
}

/// One document after the patch: updated when it matches the target,
/// untouched otherwise; the count is of its updated containers.
pub open spec fn patched_doc(doc: YamlTree, p: PatchView) -> (YamlTree, nat) {
    if doc_matches(doc, p) {
        updated_doc(doc, p)
    } else {
        (doc, 0)
    }
}

/// All documents after the patch, with the total number of updated
/// containers across them.
pub open spec fn patched_docs(docs: Seq<YamlTree>, p: PatchView) -> (Seq<YamlTree>, nat)
    decreases docs.len(),
{
    if docs.len() == 0 {
        (Seq::empty(), 0)
    } else {
        let head = patched_doc(docs[0], p);
        let rest = patched_docs(docs.drop_first(), p);
        (seq![head.0] + rest.0, head.1 + rest.1)
    }
}

/// Tests whether the map entries hold a string `key` entry equal to
/// `expected`.
fn str_field_equals(es: &Vec<(YamlNode, YamlNode)>, key: &str, expected: &str) -> (r: bool)
    ensures
        r == (t_str_field(YamlTree::Mapping(entries_view(es@)), key@) == Some(expected@)),
{
    proof {
        lemma_entries_view(es@);
        lemma_t_find_bounds(entries_view(es@), key@);
    }
    match entry_index_of(es, key) {
        Some(i) => match &es[i].1 {
            YamlNode::Str(s) => str_eq(s.as_str(), expected),
            _ => false,
        },
        None => false,
    }
}

/// Tests whether the map entries either lack a string `key` entry or hold
/// one equal to `expected`.
fn str_field_matches_or_absent(
    es: &Vec<(YamlNode, YamlNode)>,
    key: &str,
    expected: &str,
) -> (r: bool)
    ensures
        r == (match t_str_field(YamlTree::Mapping(entries_view(es@)), key@) {
            Some(s) => s == expected@,
            None => true,
        }),
{
    proof {
        lemma_entries_view(es@);
        lemma_t_find_bounds(entries_view(es@), key@);
    }
    match entry_index_of(es, key) {
        Some(i) => match &es[i].1 {
            YamlNode::Str(s) => str_eq(s.as_str(), expected),
            _ => true,
        },
        None => true,
    }
}

/// Checks whether a document is the Deployment the recommendation is
/// aimed at: the kind, the name, and (where present) the namespace.
pub fn is_matching_deployment(doc: &YamlNode, rec: &ResourceRecommendation) -> (r: bool)
    ensures
        r == doc_matches(doc@, patch_view_of(*rec)),
{
    match doc {
        YamlNode::Mapping(es) => {
            if !str_field_equals(es, "kind", "Deployment") {
                return false;
            }
            proof {
                lemma_entries_view(es@);
                lemma_t_find_bounds(entries_view(es@), "metadata"@);
            }
            match entry_index_of(es, "metadata") {
                Some(i) => match &es[i].1 {
                    YamlNode::Mapping(md) => {
                        str_field_equals(md, "name", rec.deployment.as_str())
                            && str_field_matches_or_absent(md, "namespace",
                            rec.namespace.as_str())
                    },
                    _ => false,
                },
                None => false,
            }
        },
        _ => false,
    }
}

proof fn lemma_nodes_view_push(xs: Seq<YamlNode>, x: YamlNode)
    ensures
        nodes_view(xs.push(x)) == nodes_view(xs).push(node_view(x)),
{
    lemma_nodes_view(xs);
    lemma_nodes_view(xs.push(x));
    assert(nodes_view(xs.push(x)) =~= nodes_view(xs).push(node_view(x)));
}

proof fn lemma_nodes_view_drop_first(xs: Seq<YamlNode>)
    requires
        xs.len() > 0,
    ensures
        nodes_view(xs.drop_first()) == nodes_view(xs).drop_first(),
{
    lemma_nodes_view(xs);
    lemma_nodes_view(xs.drop_first());
    assert(nodes_view(xs.drop_first()) =~= nodes_view(xs).drop_first());
}

/// Ensures `es[outer_key]` is a map and overwrites its `k1` and `k2`
/// entries with the given string values, preserving entry order.
fn set_map_entry_pair(
    es: &mut Vec<(YamlNode, YamlNode)>,
    outer_key: &str,
    k1: &str,
    v1: String,
    k2: &str,
    v2: String,
)
    ensures
        entries_view(final(es)@) == t_set(
            entries_view(old(es)@),
            outer_key@,
            YamlTree::Mapping(
                t_set(
                    t_set(
                        t_entries_or_empty(t_get(entries_view(old(es)@), outer_key@)),
                        k1@,
                        YamlTree::Str(v1@),
                    ),
                    k2@,
                    YamlTree::Str(v2@),
                ),
            ),
        ),
{
    let ghost pre_nodes = es@;
    let ghost pre = entries_view(es@);
    proof {
        lemma_entries_view(es@);
        lemma_t_find_bounds(pre, outer_key@);
    }
    match entry_index_of(es, outer_key) {
        Some(i) => {
            let (k, v) = es.remove(i);
            let ghost inner0 = t_entries_or_empty(t_get(pre, outer_key@));
            let mut inner = match v {
                YamlNode::Mapping(m) => m,
                _ => Vec::new(),
            };
            proof {
                assert(t_get(pre, outer_key@) == Some(node_view(pre_nodes[i as int].1)));
                assert(entries_view(inner@) =~= inner0);
            }
            set_entry(&mut inner, k1, YamlNode::Str(v1));
            set_entry(&mut inner, k2, YamlNode::Str(v2));
            let ghost inner_final = entries_view(inner@);
            es.insert(i, (k, YamlNode::Mapping(inner)));
            proof {
                assert(es@ =~= pre_nodes.update(i as int, (pre_nodes[i as int].0, es@[i
                    as int].1)));
                lemma_entries_view(es@);
                assert(node_view(es@[i as int].1) == YamlTree::Mapping(inner_final));
                assert(entries_view(es@) =~= t_set(pre, outer_key@, YamlTree::Mapping(
                    inner_final)));
            }
        },
        None => {
            let mut inner: Vec<(YamlNode, YamlNode)> = Vec::new();
            proof {
                assert(entries_view(inner@) =~= t_entries_or_empty(t_get(pre, outer_key@)));
            }
            set_entry(&mut inner, k1, YamlNode::Str(v1));
            set_entry(&mut inner, k2, YamlNode::Str(v2));
            let ghost inner_final = entries_view(inner@);
            es.push((YamlNode::Str(outer_key.to_owned()), YamlNode::Mapping(inner)));
            proof {
                lemma_entries_view(es@);
                assert(entries_view(es@) =~= pre.push((YamlTree::Str(outer_key@),
                    YamlTree::Mapping(inner_final))));
            }
        },
    }
}

/// Rewrites one container's resource block with the recommendation's
/// values, creating the nesting where it is absent.
fn update_one_container(c: YamlNode, rec: &ResourceRecommendation) -> (r: YamlNode)
    ensures
        r@ == updated_container(c@, patch_view_of(*rec)),
{
    match c {
        YamlNode::Mapping(mut es) => {
            let ghost pre_nodes = es@;
            let ghost pre = entries_view(es@);
            proof {
                lemma_entries_view(es@);
                lemma_t_find_bounds(pre, "resources"@);
            }
            match entry_index_of(&es, "resources") {
                Some(i) => {
                    let (k, v) = es.remove(i);
                    let mut inner = match v {
                        YamlNode::Mapping(m) => m,
                        _ => Vec::new(),
                    };
                    proof {
                        assert(t_get(pre, "resources"@) == Some(node_view(pre_nodes[i
                            as int].1)));
                        assert(entries_view(inner@) =~= t_entries_or_empty(t_get(pre,
                            "resources"@)));
                    }
                    set_map_entry_pair(&mut inner, "requests", "cpu",
                        rec.recommended_cpu_request.clone(), "memory",
                        rec.recommended_memory_request.clone());
                    set_map_entry_pair(&mut inner, "limits", "cpu",
                        rec.recommended_cpu_limit.clone(), "memory",
                        rec.recommended_memory_limit.clone());
                    let ghost inner_final = entries_view(inner@);
                    es.insert(i, (k, YamlNode::Mapping(inner)));
                    proof {
                        assert(es@ =~= pre_nodes.update(i as int, (pre_nodes[i as int].0,
                            es@[i as int].1)));
                        lemma_entries_view(es@);
                        assert(node_view(es@[i as int].1) == YamlTree::Mapping(inner_final));
                        assert(entries_view(es@) =~= t_set(pre, "resources"@,
                            YamlTree::Mapping(inner_final)));
                    }
                    YamlNode::Mapping(es)
                },
                None => {
                    let mut inner: Vec<(YamlNode, YamlNode)> = Vec::new();
                    proof {
                        assert(entries_view(inner@) =~= t_entries_or_empty(t_get(pre,
                            "resources"@)));
                    }
                    set_map_entry_pair(&mut inner, "requests", "cpu",
                        rec.recommended_cpu_request.clone(), "memory",
                        rec.recommended_memory_request.clone());
                    set_map_entry_pair(&mut inner, "limits", "cpu",
                        rec.recommended_cpu_limit.clone(), "memory",
                        rec.recommended_memory_limit.clone());
                    let ghost inner_final = entries_view(inner@);
                    es.push((YamlNode::Str(String::from_str("resources")),
                        YamlNode::Mapping(inner)));
                    proof {
                        lemma_entries_view(es@);
                        assert(entries_view(es@) =~= pre.push((YamlTree::Str("resources"@),
                            YamlTree::Mapping(inner_final))));
                    }
                    YamlNode::Mapping(es)
                },
            }
        },
        other => other,
    }
}

/// Tests whether a container map's `name` field equals `name`.
fn container_is_named(c: &YamlNode, name: &str) -> (r: bool)
    ensures
        r == container_named(c@, name@),
{
    match c {
        YamlNode::Mapping(es) => str_field_equals(es, "name", name),
        _ => false,
    }
}

/// Updates every container whose name matches the recommendation, and
/// counts how many did.
fn update_containers(cs: Vec<YamlNode>, rec: &ResourceRecommendation) -> (r: (
    Vec<YamlNode>,
    usize,
))
    ensures
        nodes_view(r.0@) == patched_containers(nodes_view(cs@), patch_view_of(*rec)),
        r.1 as nat == matched_count(nodes_view(cs@), patch_view_of(*rec).container),
{
    let ghost p = patch_view_of(*rec);
    let ghost cs0 = nodes_view(cs@);
    let n = cs.len();
    let mut rest = cs;
    let mut out: Vec<YamlNode> = Vec::new();
    let mut count: usize = 0;
    proof {
        lemma_nodes_view(rest@);
        assert(cs0.len() == n);
        assert(patched_containers(cs0, p) =~= nodes_view(out@) + patched_containers(
            nodes_view(rest@), p));
    }
    while rest.len() > 0
        invariant
            p == patch_view_of(*rec),
            cs0.len() == n,
            count + nodes_view(rest@).len() <= n,
            patched_containers(cs0, p) == nodes_view(out@) + patched_containers(
                nodes_view(rest@),
                p,
            ),
            matched_count(cs0, p.container) == count + matched_count(
                nodes_view(rest@),
                p.container,
            ),
        decreases rest@.len(),
    {
        let ghost rest_nodes_pre = rest@;
        let ghost rest_pre = nodes_view(rest@);
        let ghost out_nodes_pre = out@;
        let ghost out_pre = nodes_view(out@);
        let c = rest.remove(0);
        proof {
            assert(rest@ =~= rest_nodes_pre.drop_first());
            lemma_nodes_view_drop_first(rest_nodes_pre);
            lemma_nodes_view(rest_nodes_pre);
            assert(nodes_view(rest@) == rest_pre.drop_first());
            assert(node_view(c) == rest_pre[0]);
        }
        let named = container_is_named(&c, rec.container.as_str());
        proof {
            assert(c@ == node_view(c));
            assert(named == container_named(rest_pre[0], p.container));
            assert(rest_pre.len() > 0);
            assert(matched_count(rest_pre, p.container) == (if container_named(rest_pre[0],
                p.container) {
                1nat
            } else {
                0nat
            }) + matched_count(rest_pre.drop_first(), p.container));
        }
        if named {
            let c2 = update_one_container(c, rec);
            out.push(c2);
            count = count + 1;
            proof {
                assert(out@ == out_nodes_pre.push(c2));
                lemma_nodes_view_push(out_nodes_pre, c2);
                assert(nodes_view(out@) == out_pre.push(node_view(c2)));
                assert(container_named(rest_pre[0], p.container));
                assert(patched_containers(rest_pre, p) == seq![updated_container(rest_pre[0],
                    p)] + patched_containers(rest_pre.drop_first(), p));
                assert(patched_containers(cs0, p) =~= nodes_view(out@) + patched_containers(
                    nodes_view(rest@), p));
            }
        } else {
            out.push(c);
            proof {
                assert(out@ == out_nodes_pre.push(c));
                lemma_nodes_view_push(out_nodes_pre, c);
                assert(nodes_view(out@) == out_pre.push(node_view(c)));
                assert(patched_containers(rest_pre, p) =~= seq![rest_pre[0]]
                    + patched_containers(rest_pre.drop_first(), p));
                assert(patched_containers(cs0, p) =~= nodes_view(out@) + patched_containers(
                    nodes_view(rest@), p));
            }
        }
    }
    proof {
        assert(nodes_view(rest@) =~= Seq::<YamlTree>::empty());
        assert(patched_containers(cs0, p) =~= nodes_view(out@));
    }
    (out, count)
}

proof fn lemma_replace_entry(s: Seq<(YamlNode, YamlNode)>, i: int, x: (YamlNode, YamlNode))
    requires
        0 <= i < s.len(),
    ensures
        s.remove(i).insert(i, x) =~= s.update(i, x),
{
    s.remove_ensures(i);
    s.remove(i).insert_ensures(i, x);
    let r = s.remove(i).insert(i, x);
    assert forall|j: int| 0 <= j < s.len() implies r[j] == s.update(i, x)[j] by {
        if j < i {
            assert(r[j] == s.remove(i)[j]);
        } else if j > i {
            assert(r[j] == s.remove(i)[j - 1]);
        }
    }
}

/// Putting back an entry whose key node is unchanged and whose value has
/// the same view leaves the map's view unchanged.
proof fn lemma_entries_view_restore(
    pre: Seq<(YamlNode, YamlNode)>,
    i: int,
    x: (YamlNode, YamlNode),
)
    requires
        0 <= i < pre.len(),
        x.0 == pre[i].0,
        node_view(x.1) == node_view(pre[i].1),
    ensures
        entries_view(pre.remove(i).insert(i, x)) =~= entries_view(pre),
{
    pre.remove_ensures(i);
    pre.remove(i).insert_ensures(i, x);
    let cur = pre.remove(i).insert(i, x);
    lemma_entries_view(pre);
    lemma_entries_view(cur);
    assert forall|j: int|
        0 <= j < pre.len() implies entries_view(cur)[j] == entries_view(pre)[j] by {
        if j < i {
            assert(cur[j] == pre.remove(i)[j]);
            assert(cur[j] == pre[j]);
        } else if j > i {
            assert(cur[j] == pre.remove(i)[j - 1]);
            assert(cur[j] == pre[j]);
        } else {
            assert(cur[j] == x);
        }
    }
}

/// Rewrites the matching containers of one document along the
/// `spec.template.spec.containers` path; a document without that path is
/// returned unchanged. The caller has already checked that the document
/// matches the target.
fn update_matching_doc(doc: YamlNode, rec: &ResourceRecommendation) -> (r: (YamlNode, usize))
    ensures
        r.0@ == updated_doc(doc@, patch_view_of(*rec)).0,
        r.1 as nat == updated_doc(doc@, patch_view_of(*rec)).1,
{
    let ghost p = patch_view_of(*rec);
    match doc {
        YamlNode::Mapping(mut d) => {
            let ghost d0_nodes = d@;
            let ghost d0 = entries_view(d@);
            proof {
                lemma_entries_view(d@);
                lemma_t_find_bounds(d0, "spec"@);
            }
            let i1 = match entry_index_of(&d, "spec") {
                Some(i) => i,
                None => {
                    return (YamlNode::Mapping(d), 0);
                },
            };
            let (k1, v1) = d.remove(i1);
            let mut s = match v1 {
                YamlNode::Mapping(m) => m,
                other => {
                    proof {
                        assert(node_view(other) == node_view(d0_nodes[i1 as int].1));
                        lemma_entries_view_restore(d0_nodes, i1 as int, (k1, other));
                    }
                    d.insert(i1, (k1, other));
                    proof {
                        assert(entries_view(d@) =~= d0);
                    }
                    return (YamlNode::Mapping(d), 0);
                },
            };
            let ghost s0_nodes = s@;
            let ghost s0 = entries_view(s@);
            proof {
                assert(d0_nodes[i1 as int] == (k1, v1));
                assert(node_view(v1) == YamlTree::Mapping(s0));
                assert(t_get(d0, "spec"@) == Some(YamlTree::Mapping(s0)));
                lemma_entries_view(s@);
                lemma_t_find_bounds(s0, "template"@);
            }
            let i2 = match entry_index_of(&s, "template") {
                Some(i) => i,
                None => {
                    proof {
                        assert(node_view(YamlNode::Mapping(s)) == node_view(d0_nodes[i1
                            as int].1));
                        lemma_entries_view_restore(d0_nodes, i1 as int, (k1,
                            YamlNode::Mapping(s)));
                    }
                    d.insert(i1, (k1, YamlNode::Mapping(s)));
                    proof {
                        assert(entries_view(d@) =~= d0);
                    }
                    return (YamlNode::Mapping(d), 0);
                },
            };
            let (k2, v2) = s.remove(i2);
            let mut t = match v2 {
                YamlNode::Mapping(m) => m,
                other => {
                    proof {
                        assert(node_view(other) == node_view(s0_nodes[i2 as int].1));
                        lemma_entries_view_restore(s0_nodes, i2 as int, (k2, other));
                    }
                    s.insert(i2, (k2, other));
                    proof {
                        assert(entries_view(s@) =~= s0);
                        assert(node_view(YamlNode::Mapping(s)) == node_view(d0_nodes[i1
                            as int].1));
                        lemma_entries_view_restore(d0_nodes, i1 as int, (k1,
                            YamlNode::Mapping(s)));
                    }
                    d.insert(i1, (k1, YamlNode::Mapping(s)));
                    proof {
                        assert(entries_view(d@) =~= d0);
                    }
                    return (YamlNode::Mapping(d), 0);
                },
            };
            let ghost t0_nodes = t@;
            let ghost t0 = entries_view(t@);
            proof {
                assert(s0_nodes[i2 as int] == (k2, v2));
                assert(node_view(v2) == YamlTree::Mapping(t0));
                assert(t_get(s0, "template"@) == Some(YamlTree::Mapping(t0)));
                lemma_entries_view(t@);
                lemma_t_find_bounds(t0, "spec"@);
            }
            let i3 = match entry_index_of(&t, "spec") {
                Some(i) => i,
                None => {
                    proof {
                        assert(node_view(YamlNode::Mapping(t)) == node_view(s0_nodes[i2
                            as int].1));
                        lemma_entries_view_restore(s0_nodes, i2 as int, (k2,
                            YamlNode::Mapping(t)));
                    }
                    s.insert(i2, (k2, YamlNode::Mapping(t)));
                    proof {
                        assert(entries_view(s@) =~= s0);
                        assert(node_view(YamlNode::Mapping(s)) == node_view(d0_nodes[i1
                            as int].1));
                        lemma_entries_view_restore(d0_nodes, i1 as int, (k1,
                            YamlNode::Mapping(s)));
                    }
                    d.insert(i1, (k1, YamlNode::Mapping(s)));
                    proof {
                        assert(entries_view(d@) =~= d0);
                    }
                    return (YamlNode::Mapping(d), 0);
                },
            };
            let (k3, v3) = t.remove(i3);
            let mut ss = match v3 {
                YamlNode::Mapping(m) => m,
                other => {
                    proof {
                        assert(node_view(other) == node_view(t0_nodes[i3 as int].1));
                        lemma_entries_view_restore(t0_nodes, i3 as int, (k3, other));
                    }
                    t.insert(i3, (k3, other));
                    proof {
                        assert(entries_view(t@) =~= t0);
                        assert(node_view(YamlNode::Mapping(t)) == node_view(s0_nodes[i2
                            as int].1));
                        lemma_entries_view_restore(s0_nodes, i2 as int, (k2,
                            YamlNode::Mapping(t)));
                    }
                    s.insert(i2, (k2, YamlNode::Mapping(t)));
                    proof {
                        assert(entries_view(s@) =~= s0);
                        assert(node_view(YamlNode::Mapping(s)) == node_view(d0_nodes[i1
                            as int].1));
                        lemma_entries_view_restore(d0_nodes, i1 as int, (k1,
                            YamlNode::Mapping(s)));
                    }
                    d.insert(i1, (k1, YamlNode::Mapping(s)));
                    proof {
                        assert(entries_view(d@) =~= d0);
                    }
                    return (YamlNode::Mapping(d), 0);
                },
            };
            let ghost ss0_nodes = ss@;
            let ghost ss0 = entries_view(ss@);
            proof {
                assert(t0_nodes[i3 as int] == (k3, v3));
                assert(node_view(v3) == YamlTree::Mapping(ss0));
                assert(t_get(t0, "spec"@) == Some(YamlTree::Mapping(ss0)));
                lemma_entries_view(ss@);
                lemma_t_find_bounds(ss0, "containers"@);
            }
            let i4 = match entry_index_of(&ss, "containers") {
                Some(i) => i,
                None => {
                    proof {
                        assert(node_view(YamlNode::Mapping(ss)) == node_view(t0_nodes[i3
                            as int].1));
                        lemma_entries_view_restore(t0_nodes, i3 as int, (k3,
                            YamlNode::Mapping(ss)));
                    }
                    t.insert(i3, (k3, YamlNode::Mapping(ss)));
                    proof {
                        assert(entries_view(t@) =~= t0);
                        assert(node_view(YamlNode::Mapping(t)) == node_view(s0_nodes[i2
                            as int].1));
                        lemma_entries_view_restore(s0_nodes, i2 as int, (k2,
                            YamlNode::Mapping(t)));
                    }
                    s.insert(i2, (k2, YamlNode::Mapping(t)));
                    proof {
                        assert(entries_view(s@) =~= s0);
                        assert(node_view(YamlNode::Mapping(s)) == node_view(d0_nodes[i1
                            as int].1));
                        lemma_entries_view_restore(d0_nodes, i1 as int, (k1,
                            YamlNode::Mapping(s)));
                    }
                    d.insert(i1, (k1, YamlNode::Mapping(s)));
                    proof {
                        assert(entries_view(d@) =~= d0);
                    }
                    return (YamlNode::Mapping(d), 0);
                },
            };
            let (k4, v4) = ss.remove(i4);
            let cs = match v4 {
                YamlNode::List(xs) => xs,
                other => {
                    proof {
                        assert(node_view(other) == node_view(ss0_nodes[i4 as int].1));
                        lemma_entries_view_restore(ss0_nodes, i4 as int, (k4, other));
                    }
                    ss.insert(i4, (k4, other));
                    proof {
                        assert(entries_view(ss@) =~= ss0);
                        assert(node_view(YamlNode::Mapping(ss)) == node_view(t0_nodes[i3
                            as int].1));
                        lemma_entries_view_restore(t0_nodes, i3 as int, (k3,
                            YamlNode::Mapping(ss)));
                    }
                    t.insert(i3, (k3, YamlNode::Mapping(ss)));
                    proof {
                        assert(entries_view(t@) =~= t0);
                        assert(node_view(YamlNode::Mapping(t)) == node_view(s0_nodes[i2
                            as int].1));
                        lemma_entries_view_restore(s0_nodes, i2 as int, (k2,
                            YamlNode::Mapping(t)));
                    }
                    s.insert(i2, (k2, YamlNode::Mapping(t)));
                    proof {
                        assert(entries_view(s@) =~= s0);
                        assert(node_view(YamlNode::Mapping(s)) == node_view(d0_nodes[i1
                            as int].1));
                        lemma_entries_view_restore(d0_nodes, i1 as int, (k1,
                            YamlNode::Mapping(s)));
                    }
                    d.insert(i1, (k1, YamlNode::Mapping(s)));
                    proof {
                        assert(entries_view(d@) =~= d0);
                    }
                    return (YamlNode::Mapping(d), 0);
                },
            };
            let ghost cs0 = nodes_view(cs@);
            proof {
                assert(ss0_nodes[i4 as int] == (k4, v4));
                assert(node_view(v4) == YamlTree::List(cs0));
                assert(t_get(ss0, "containers"@) == Some(YamlTree::List(cs0)));
            }
            let (cs2, count) = update_containers(cs, rec);
            let ghost cs2v = nodes_view(cs2@);
            proof {
                lemma_replace_entry(ss0_nodes, i4 as int, (k4, YamlNode::List(cs2)));
            }
            ss.insert(i4, (k4, YamlNode::List(cs2)));
            proof {
                assert(ss@ =~= ss0_nodes.update(i4 as int, ss@[i4 as int]));
                assert(node_view(ss@[i4 as int].1) == YamlTree::List(cs2v));
                assert(ss@[i4 as int].0 == k4);
                lemma_entries_view(ss@);
                lemma_entries_view(ss0_nodes);
                assert(entries_view(ss@) =~= t_set(ss0, "containers"@, YamlTree::List(cs2v)));
                assert(cs2v == patched_containers(cs0, p));
            }
            let ghost ss2 = entries_view(ss@);
            proof {
                lemma_replace_entry(t0_nodes, i3 as int, (k3, YamlNode::Mapping(ss)));
            }
            t.insert(i3, (k3, YamlNode::Mapping(ss)));
            proof {
                assert(t@ =~= t0_nodes.update(i3 as int, t@[i3 as int]));
                assert(node_view(t@[i3 as int].1) == YamlTree::Mapping(ss2));
                assert(t@[i3 as int].0 == k3);
                lemma_entries_view(t@);
                lemma_entries_view(t0_nodes);
                assert(entries_view(t@) =~= t_set(t0, "spec"@, YamlTree::Mapping(ss2)));
            }
            let ghost t2 = entries_view(t@);
            proof {
                lemma_replace_entry(s0_nodes, i2 as int, (k2, YamlNode::Mapping(t)));
            }
            s.insert(i2, (k2, YamlNode::Mapping(t)));
            proof {
                assert(s@ =~= s0_nodes.update(i2 as int, s@[i2 as int]));
                assert(node_view(s@[i2 as int].1) == YamlTree::Mapping(t2));
                assert(s@[i2 as int].0 == k2);
                lemma_entries_view(s@);
                lemma_entries_view(s0_nodes);
                assert(entries_view(s@) =~= t_set(s0, "template"@, YamlTree::Mapping(t2)));
            }
            let ghost s2 = entries_view(s@);
            proof {
                lemma_replace_entry(d0_nodes, i1 as int, (k1, YamlNode::Mapping(s)));
            }
            d.insert(i1, (k1, YamlNode::Mapping(s)));
            proof {
                assert(d@ =~= d0_nodes.update(i1 as int, d@[i1 as int]));
                assert(node_view(d@[i1 as int].1) == YamlTree::Mapping(s2));
                assert(d@[i1 as int].0 == k1);
                lemma_entries_view(d@);
                lemma_entries_view(d0_nodes);
                assert(entries_view(d@) =~= t_set(d0, "spec"@, YamlTree::Mapping(s2)));
            }
            (YamlNode::Mapping(d), count)
        },
        other => (other, 0),
    }
}

/// Patches every document that matches the recommendation's target, and
/// counts the matching containers that were updated, capped at the
/// integer bound.
pub fn apply_recommendation_to_documents(docs: Vec<YamlNode>, rec: &ResourceRecommendation) -> (r: (
    Vec<YamlNode>,
    usize,
))
    ensures
        nodes_view(r.0@) == patched_docs(nodes_view(docs@), patch_view_of(*rec)).0,
        r.1 as nat == nat_min(
            patched_docs(nodes_view(docs@), patch_view_of(*rec)).1,
            usize::MAX as nat,
        ),
        r.0@.len() == docs@.len(),
{
    let ghost p = patch_view_of(*rec);
    let ghost all0 = nodes_view(docs@);
    let total = docs.len();
    let mut rest = docs;
    let mut out: Vec<YamlNode> = Vec::new();
    let mut count: usize = 0;
    let ghost mut applied: nat = 0;
    proof {
        lemma_nodes_view(rest@);
        assert(patched_docs(all0, p).0 =~= nodes_view(out@) + patched_docs(nodes_view(rest@),
            p).0);
    }
    while rest.len() > 0
        invariant
            p == patch_view_of(*rec),
            total == all0.len(),
            out@.len() + rest@.len() == all0.len(),
            patched_docs(all0, p).0 == nodes_view(out@) + patched_docs(nodes_view(rest@), p).0,
            patched_docs(all0, p).1 == applied + patched_docs(nodes_view(rest@), p).1,
            count as nat == nat_min(applied, usize::MAX as nat),
        decreases rest@.len(),
    {
        let ghost rest_nodes_pre = rest@;
        let ghost rest_pre = nodes_view(rest@);
        let ghost out_nodes_pre = out@;
        let ghost out_pre = nodes_view(out@);
        let dnode = rest.remove(0);
        proof {
            assert(rest@ =~= rest_nodes_pre.drop_first());
            lemma_nodes_view_drop_first(rest_nodes_pre);
            lemma_nodes_view(rest_nodes_pre);
            lemma_nodes_view(rest@);
            assert(nodes_view(rest@) == rest_pre.drop_first());
            assert(node_view(dnode) == rest_pre[0]);
        }
        let matching = is_matching_deployment(&dnode, rec);
        proof {
            assert(dnode@ == node_view(dnode));
            assert(matching == doc_matches(rest_pre[0], p));
        }
        if matching {
            let (d2, doc_count) = update_matching_doc(dnode, rec);
            out.push(d2);
            proof {
                applied = applied + doc_count as nat;
            }
            if count <= usize::MAX - doc_count {
                count = count + doc_count;
            } else {
                count = usize::MAX;
            }
            proof {
                assert(out@ == out_nodes_pre.push(d2));
                lemma_nodes_view_push(out_nodes_pre, d2);
                assert(nodes_view(out@) == out_pre.push(node_view(d2)));
                assert(patched_doc(rest_pre[0], p).0 == node_view(d2));
                assert(patched_doc(rest_pre[0], p).1 == doc_count as nat);
                assert(patched_docs(rest_pre, p).0 =~= seq![patched_doc(rest_pre[0], p).0]
                    + patched_docs(rest_pre.drop_first(), p).0);
                assert(patched_docs(all0, p).0 =~= nodes_view(out@) + patched_docs(
                    nodes_view(rest@), p).0);
                assert(count as nat == nat_min(applied, usize::MAX as nat));
            }
        } else {
            out.push(dnode);
            proof {
                assert(out@ == out_nodes_pre.push(dnode));
                lemma_nodes_view_push(out_nodes_pre, dnode);
                assert(nodes_view(out@) == out_pre.push(node_view(dnode)));
                assert(patched_doc(rest_pre[0], p).0 == rest_pre[0]);
                assert(patched_doc(rest_pre[0], p).1 == 0);
                assert(patched_docs(rest_pre, p).0 =~= seq![patched_doc(rest_pre[0], p).0]
                    + patched_docs(rest_pre.drop_first(), p).0);
                assert(patched_docs(all0, p).0 =~= nodes_view(out@) + patched_docs(
                    nodes_view(rest@), p).0);
            }
        }
    }
    proof {
        assert(nodes_view(rest@) =~= Seq::<YamlTree>::empty());
        assert(patched_docs(all0, p).0 =~= nodes_view(out@));
        lemma_nodes_view(out@);
    }
    (out, count)
}

proof fn lemma_t_find_some_first(es: Seq<(YamlTree, YamlTree)>, key: Seq<char>)
    ensures
        t_find(es, key) matches Some(i) ==> 0 <= i < es.len() && es[i].0 == YamlTree::Str(key)
            && (forall|j: int| 0 <= j < i ==> #[trigger] es[j].0 != YamlTree::Str(key)),
    decreases es.len(),
{
    if es.len() > 0 && !(es[0].0 == YamlTree::Str(key)) {
        lemma_t_find_some_first(es.drop_first(), key);
        match t_find(es, key) {
            Some(i) => {
                assert(t_find(es.drop_first(), key) == Some(i - 1));
                assert forall|j: int|
                    0 <= j < i implies #[trigger] es[j].0 != YamlTree::Str(key) by {
                    if j > 0 {
                        assert(es.drop_first()[j - 1] == es[j]);
                    }
                }
            },
            None => {},
        }
    }
}

/// Two entry lists with the same keys find every key at the same place.
proof fn lemma_t_find_same_keys(
    a: Seq<(YamlTree, YamlTree)>,
    b: Seq<(YamlTree, YamlTree)>,
    key: Seq<char>,
)
    requires
        a.len() == b.len(),
        forall|j: int| 0 <= j < a.len() ==> #[trigger] a[j].0 == b[j].0,
    ensures
        t_find(a, key) == t_find(b, key),
    decreases a.len(),
{
    if a.len() > 0 {
        assert(forall|j: int|
            0 <= j < a.len() - 1 ==> #[trigger] a.drop_first()[j].0 == b.drop_first()[j].0) by {
            assert(forall|j: int|
                0 <= j < a.len() - 1 ==> a.drop_first()[j] == a[j + 1] && b.drop_first()[j]
                    == b[j + 1]);
        }
        lemma_t_find_same_keys(a.drop_first(), b.drop_first(), key);
    }
}

/// Reading back the key just written gives the written value.
proof fn lemma_t_get_set_same(es: Seq<(YamlTree, YamlTree)>, key: Seq<char>, val: YamlTree)
    ensures
        t_get(t_set(es, key, val), key) == Some(val),
{
    lemma_t_find_bounds(es, key);
    match t_find(es, key) {
        Some(i) => {
            let up = es.update(i, (es[i].0, val));
            assert(forall|j: int| 0 <= j < es.len() ==> #[trigger] es[j].0 == up[j].0);
            lemma_t_find_same_keys(up, es, key);
        },
        None => {
            let pu = es.push((YamlTree::Str(key), val));
            assert(forall|j: int| 0 <= j < es.len() ==> #[trigger] pu[j].0 == es[j].0);
            lemma_t_find_first(pu, key, es.len() as int);
        },
    }
}

/// Writing one key leaves every other key's value alone.
proof fn lemma_t_get_set_other(
    es: Seq<(YamlTree, YamlTree)>,
    key: Seq<char>,
    val: YamlTree,
    key2: Seq<char>,
)
    requires
        key2 != key,
    ensures
        t_get(t_set(es, key, val), key2) == t_get(es, key2),
{
    lemma_t_find_bounds(es, key);
    lemma_t_find_some_first(es, key2);
    lemma_t_find_bounds(es, key2);
    match t_find(es, key) {
        Some(i) => {
            let up = es.update(i, (es[i].0, val));
            assert(forall|j: int| 0 <= j < es.len() ==> #[trigger] up[j].0 == es[j].0);
            lemma_t_find_same_keys(up, es, key2);
            match t_find(es, key2) {
                Some(j) => {
                    assert(es[j].0 == YamlTree::Str(key2));
                    assert(es[i].0 == YamlTree::Str(key));
                    assert(j != i);
                    assert(up[j].1 == es[j].1);
                },
                None => {},
            }
        },
        None => {
            let pu = es.push((YamlTree::Str(key), val));
            match t_find(es, key2) {
                Some(j) => {
                    assert(forall|t: int| 0 <= t < j ==> #[trigger] pu[t].0 == es[t].0);
                    assert(pu[j].0 == YamlTree::Str(key2));
                    lemma_t_find_first(pu, key2, j);
                },
                None => {
                    lemma_t_find_bounds(es, key2);
                    assert(forall|t: int|
                        0 <= t < pu.len() ==> #[trigger] pu[t].0 != YamlTree::Str(key2)) by {
                        assert(forall|t: int|
                            0 <= t < es.len() ==> #[trigger] pu[t].0 == es[t].0);
                        assert(pu[es.len() as int].0 == YamlTree::Str(key));
                    }
                    lemma_t_find_first(pu, key2, pu.len() as int);
                },
            }
        },
    }
}

/// Writing back a value that is already there changes nothing.
proof fn lemma_t_set_same(es: Seq<(YamlTree, YamlTree)>, key: Seq<char>, val: YamlTree)
    requires
        t_get(es, key) == Some(val),
    ensures
        t_set(es, key, val) =~= es,
{
    lemma_t_find_bounds(es, key);
    let i = t_find(es, key).unwrap();
    assert(es.update(i, (es[i].0, val)) =~= es);
}

proof fn lemma_patch_keys_distinct()
    ensures
        "requests"@ != "limits"@,
        "cpu"@ != "memory"@,
        "name"@ != "resources"@,
        "kind"@ != "spec"@,
        "metadata"@ != "spec"@,
        "template"@ != "spec"@,
        "containers"@ != "spec"@,
        "requests"@ != "cpu"@,
        "requests"@ != "memory"@,
        "limits"@ != "cpu"@,
        "limits"@ != "memory"@,
{
    reveal_strlit("requests");
    reveal_strlit("limits");
    reveal_strlit("cpu");
    reveal_strlit("memory");
    reveal_strlit("name");
    reveal_strlit("resources");
    reveal_strlit("kind");
    reveal_strlit("spec");
    reveal_strlit("metadata");
    reveal_strlit("template");
    reveal_strlit("containers");
    assert("requests"@.len() == 8);
    assert("limits"@.len() == 6);
    assert("cpu"@.len() == 3);
    assert("memory"@.len() == 6);
    assert("name"@.len() == 4);
    assert("resources"@.len() == 9);
    assert("kind"@.len() == 4);
    assert("spec"@.len() == 4);
    assert("metadata"@.len() == 8);
    assert("template"@.len() == 8);
    assert("containers"@.len() == 10);
    assert("kind"@[0] == 'k' && "spec"@[0] == 's');
    assert("cpu"@[0] == 'c' && "limits"@[0] == 'l' && "memory"@[0] == 'm');
}

/// Writing the same resource values a second time changes nothing.
proof fn lemma_updated_resources_idem(res: Seq<(YamlTree, YamlTree)>, p: PatchView)
    ensures
        updated_resources(updated_resources(res, p), p) == updated_resources(res, p),
{
    lemma_patch_keys_distinct();
    let cpu_rq = YamlTree::Str(p.cpu_request);
    let mem_rq = YamlTree::Str(p.memory_request);
    let cpu_lm = YamlTree::Str(p.cpu_limit);
    let mem_lm = YamlTree::Str(p.memory_limit);

    let req0 = t_entries_or_empty(t_get(res, "requests"@));
    let req_c = t_set(req0, "cpu"@, cpu_rq);
    let req = t_set(req_c, "memory"@, mem_rq);
    let res1 = t_set(res, "requests"@, YamlTree::Mapping(req));
    let lim0 = t_entries_or_empty(t_get(res1, "limits"@));
    let lim_c = t_set(lim0, "cpu"@, cpu_lm);
    let lim = t_set(lim_c, "memory"@, mem_lm);
    let r1 = t_set(res1, "limits"@, YamlTree::Mapping(lim));
    assert(updated_resources(res, p) == r1);

    // The first result still shows the written "requests" map.
    lemma_t_get_set_other(res1, "limits"@, YamlTree::Mapping(lim), "requests"@);
    lemma_t_get_set_same(res, "requests"@, YamlTree::Mapping(req));
    assert(t_get(r1, "requests"@) == Some(YamlTree::Mapping(req)));
    assert(t_entries_or_empty(t_get(r1, "requests"@)) == req);

    // Rewriting the same request values inside `req` is a no-op.
    lemma_t_get_set_other(req_c, "memory"@, mem_rq, "cpu"@);
    lemma_t_get_set_same(req0, "cpu"@, cpu_rq);
    assert(t_get(req, "cpu"@) == Some(cpu_rq));
    lemma_t_set_same(req, "cpu"@, cpu_rq);
    lemma_t_get_set_same(req_c, "memory"@, mem_rq);
    assert(t_get(req, "memory"@) == Some(mem_rq));
    lemma_t_set_same(req, "memory"@, mem_rq);
    assert(t_set(t_set(req, "cpu"@, cpu_rq), "memory"@, mem_rq) == req);

    // So the second "requests" write is a no-op on `r1`.
    lemma_t_set_same(r1, "requests"@, YamlTree::Mapping(req));
    let r2 = t_set(r1, "requests"@, YamlTree::Mapping(req));
    assert(r2 == r1);

    // The same argument for "limits".
    lemma_t_get_set_same(res1, "limits"@, YamlTree::Mapping(lim));
    assert(t_get(r1, "limits"@) == Some(YamlTree::Mapping(lim)));
    assert(t_entries_or_empty(t_get(r2, "limits"@)) == lim);
    lemma_t_get_set_other(lim_c, "memory"@, mem_lm, "cpu"@);
    lemma_t_get_set_same(lim0, "cpu"@, cpu_lm);
    assert(t_get(lim, "cpu"@) == Some(cpu_lm));
    lemma_t_set_same(lim, "cpu"@, cpu_lm);
    lemma_t_get_set_same(lim_c, "memory"@, mem_lm);
    assert(t_get(lim, "memory"@) == Some(mem_lm));
    lemma_t_set_same(lim, "memory"@, mem_lm);
    assert(t_set(t_set(lim, "cpu"@, cpu_lm), "memory"@, mem_lm) == lim);
    lemma_t_set_same(r2, "limits"@, YamlTree::Mapping(lim));
    assert(updated_resources(r1, p) == r1);
}

/// A container's name survives the resource rewrite.
proof fn lemma_updated_container_name(c: YamlTree, p: PatchView, name: Seq<char>)
    ensures
        container_named(updated_container(c, p), name) == container_named(c, name),
{
    lemma_patch_keys_distinct();
    match c {
        YamlTree::Mapping(es) => {
            lemma_t_get_set_other(es, "resources"@, YamlTree::Mapping(updated_resources(
                t_entries_or_empty(t_get(es, "resources"@)), p)), "name"@);
        },
        _ => {},
    }
}

/// Rewriting a container's resources a second time changes nothing.
proof fn lemma_updated_container_idem(c: YamlTree, p: PatchView)
    ensures
        updated_container(updated_container(c, p), p) == updated_container(c, p),
{
    match c {
        YamlTree::Mapping(es) => {
            let res0 = t_entries_or_empty(t_get(es, "resources"@));
            let r1 = updated_resources(res0, p);
            let es1 = t_set(es, "resources"@, YamlTree::Mapping(r1));
            lemma_t_get_set_same(es, "resources"@, YamlTree::Mapping(r1));
            assert(t_entries_or_empty(t_get(es1, "resources"@)) == r1);
            lemma_updated_resources_idem(res0, p);
            assert(updated_resources(r1, p) == r1);
            lemma_t_set_same(es1, "resources"@, YamlTree::Mapping(r1));
            assert(t_set(es1, "resources"@, YamlTree::Mapping(r1)) == es1);
        },
        _ => {},
    }
}

/// Patching the container list a second time changes nothing, and keeps
/// the number of matching names.
proof fn lemma_patched_containers_idem(cs: Seq<YamlTree>, p: PatchView)
    ensures
        patched_containers(patched_containers(cs, p), p) == patched_containers(cs, p),
        matched_count(patched_containers(cs, p), p.container) == matched_count(
            cs,
            p.container,
        ),
    decreases cs.len(),
{
    if cs.len() == 0 {
        assert(patched_containers(cs, p) == Seq::<YamlTree>::empty());
    } else {
        lemma_patched_containers_idem(cs.drop_first(), p);
        let h = if container_named(cs[0], p.container) {
            updated_container(cs[0], p)
        } else {
            cs[0]
        };
        let out = patched_containers(cs, p);
        assert(out == seq![h] + patched_containers(cs.drop_first(), p));
        assert(out.len() > 0);
        assert(out[0] == h);
        assert(out.drop_first() =~= patched_containers(cs.drop_first(), p));
        lemma_updated_container_name(cs[0], p, p.container);
        lemma_updated_container_idem(cs[0], p);
        assert(container_named(h, p.container) == container_named(cs[0], p.container));
        assert(matched_count(out, p.container) == (if container_named(out[0], p.container) {
            1nat
        } else {
            0nat
        }) + matched_count(out.drop_first(), p.container));
        let h2 = if container_named(out[0], p.container) {
            updated_container(out[0], p)
        } else {
            out[0]
        };
        assert(h2 == h);
        assert(patched_containers(out, p) == seq![h2] + patched_containers(out.drop_first(), p));
        assert(patched_containers(out, p) == out);
    }
}

/// Patching one document a second time changes nothing, and reports the
/// same count.
proof fn lemma_patched_doc_idem(doc: YamlTree, p: PatchView)
    ensures
        patched_doc(patched_doc(doc, p).0, p).0 == patched_doc(doc, p).0,
        patched_doc(patched_doc(doc, p).0, p).1 == patched_doc(doc, p).1,
{
    lemma_patch_keys_distinct();
    if doc_matches(doc, p) {
        match doc {
            YamlTree::Mapping(d) => {
                match t_get(d, "spec"@) {
                    Some(YamlTree::Mapping(s)) => match t_get(s, "template"@) {
                        Some(YamlTree::Mapping(t)) => match t_get(t, "spec"@) {
                            Some(YamlTree::Mapping(ss)) => match t_get(ss, "containers"@) {
                                Some(YamlTree::List(cs)) => {
                                    let cs2 = patched_containers(cs, p);
                                    let ss2 = t_set(ss, "containers"@, YamlTree::List(cs2));
                                    let t2 = t_set(t, "spec"@, YamlTree::Mapping(ss2));
                                    let s2 = t_set(s, "template"@, YamlTree::Mapping(t2));
                                    let d2 = t_set(d, "spec"@, YamlTree::Mapping(s2));
                                    let doc2 = YamlTree::Mapping(d2);
                                    // The second pass still matches.
                                    lemma_t_get_set_other(d, "spec"@, YamlTree::Mapping(s2),
                                        "kind"@);
                                    lemma_t_get_set_other(d, "spec"@, YamlTree::Mapping(s2),
                                        "metadata"@);
                                    assert(doc_matches(doc2, p));
                                    // Navigation lands on the same containers.
                                    lemma_t_get_set_same(d, "spec"@, YamlTree::Mapping(s2));
                                    lemma_t_get_set_same(s, "template"@, YamlTree::Mapping(t2));
                                    lemma_t_get_set_same(t, "spec"@, YamlTree::Mapping(ss2));
                                    lemma_t_get_set_same(ss, "containers"@, YamlTree::List(cs2));
                                    lemma_patched_containers_idem(cs, p);
                                    assert(patched_containers(cs2, p) == cs2);
                                    lemma_t_set_same(ss2, "containers"@, YamlTree::List(cs2));
                                    lemma_t_set_same(t2, "spec"@, YamlTree::Mapping(ss2));
                                    lemma_t_set_same(s2, "template"@, YamlTree::Mapping(t2));
                                    lemma_t_set_same(d2, "spec"@, YamlTree::Mapping(s2));
                                    assert(updated_doc(doc2, p).0 == doc2);
                                    assert(updated_doc(doc2, p).1 == matched_count(cs2,
                                        p.container));
                                },
                                _ => {
                                    assert(updated_doc(doc, p) == (doc, 0nat));
                                },
                            },
                            _ => {
                                assert(updated_doc(doc, p) == (doc, 0nat));
                            },
                        },
                        _ => {
                            assert(updated_doc(doc, p) == (doc, 0nat));
                        },
                    },
                    _ => {
                        assert(updated_doc(doc, p) == (doc, 0nat));
                    },
                }
            },
            _ => {},
        }
    }
}

/// Applying the same recommendation twice to a document list gives the
/// same documents and the same count as applying it once.
pub proof fn lemma_patch_idempotent(docs: Seq<YamlTree>, p: PatchView)
    ensures
        patched_docs(patched_docs(docs, p).0, p).0 == patched_docs(docs, p).0,
        patched_docs(patched_docs(docs, p).0, p).1 == patched_docs(docs, p).1,
    decreases docs.len(),
{
    if docs.len() > 0 {
        lemma_patch_idempotent(docs.drop_first(), p);
        lemma_patched_doc_idem(docs[0], p);
        let out = patched_docs(docs, p);
        assert(out.0 == seq![patched_doc(docs[0], p).0] + patched_docs(docs.drop_first(), p).0);
        assert(out.0.len() > 0);
        assert(out.0[0] == patched_doc(docs[0], p).0);
        assert(out.0.drop_first() =~= patched_docs(docs.drop_first(), p).0);
        assert(patched_docs(out.0, p).0 == seq![patched_doc(out.0[0], p).0] + patched_docs(
            out.0.drop_first(), p).0);
        assert(patched_docs(out.0, p).0 =~= out.0);
    }
}

/// A recommendation whose deployment matches no document leaves every
/// document untouched and counts nothing.
pub proof fn lemma_patch_no_match(docs: Seq<YamlTree>, p: PatchView)
    requires
        forall|i: int| 0 <= i < docs.len() ==> !doc_matches(#[trigger] docs[i], p),
    ensures
        patched_docs(docs, p).0 == docs,
        patched_docs(docs, p).1 == 0,
    decreases docs.len(),
{
    if docs.len() > 0 {
        assert(forall|i: int|
            0 <= i < docs.len() - 1 ==> !doc_matches(#[trigger] docs.drop_first()[i], p)) by {
            assert(forall|i: int|
                0 <= i < docs.len() - 1 ==> docs.drop_first()[i] == docs[i + 1]);
        }
        lemma_patch_no_match(docs.drop_first(), p);
        assert(!doc_matches(docs[0], p));
        assert(patched_docs(docs, p).0 =~= docs);
    }
}

/// What the YAML parser makes of a text: the trees of its documents, or
/// nothing when the text is not well-formed YAML. The result depends on
/// the text alone.
pub uninterp spec fn yaml_docs_of(s: Seq<char>) -> Option<Seq<YamlTree>>;

/// What the YAML serializer writes for one document tree. The result
/// depends on the tree alone.
pub uninterp spec fn yaml_text_of(d: YamlTree) -> Seq<char>;

/// Whether the YAML serializer succeeds on one document tree; like its
/// output, this depends on the tree alone.
pub uninterp spec fn yaml_serializable(d: YamlTree) -> bool;

/// Relies on serde_yaml::Value: moves each parsed value into the
/// library's tree, keeping strings, sequences and mappings and carrying
/// every other scalar through as it came.
#[verifier::external_body]
fn node_from_value(v: serde_yaml::Value) -> YamlNode {
    match v {
        serde_yaml::Value::String(s) => YamlNode::Str(s),
        serde_yaml::Value::Sequence(xs) => YamlNode::List(
            xs.into_iter().map(node_from_value).collect(),
        ),
        serde_yaml::Value::Mapping(m) => YamlNode::Mapping(
            m.into_iter().map(|(k, val)| (node_from_value(k), node_from_value(val))).collect(),
        ),
        other => YamlNode::Other(other),
    }
}

/// Relies on serde_yaml::Value: the exact inverse move of
/// `node_from_value`.
#[verifier::external_body]
fn value_from_node(n: YamlNode) -> serde_yaml::Value {
    match n {
        YamlNode::Str(s) => serde_yaml::Value::String(s),
        YamlNode::List(xs) => serde_yaml::Value::Sequence(
            xs.into_iter().map(value_from_node).collect(),
        ),
        YamlNode::Mapping(es) => serde_yaml::Value::Mapping(
            es.into_iter().map(|(k, v)| (value_from_node(k), value_from_node(v))).collect(),
        ),
        YamlNode::Other(v) => v,
    }
}

/// Relies on serde_yaml's Deserializer and Value::deserialize: parses a
/// multi-document YAML text into one tree per document; a malformed text
/// gives nothing. Parsing is a function of the text alone.
#[verifier::external_body]
fn parse_yaml_documents(text: &str) -> (r: Option<Vec<YamlNode>>)
    ensures
        (r is Some) == (yaml_docs_of(text@) is Some),
        r matches Some(docs) ==> Some(nodes_view(docs@)) == yaml_docs_of(text@),
{
    let mut docs: Vec<YamlNode> = Vec::new();
    for de in serde_yaml::Deserializer::from_str(text) {
        match <serde_yaml::Value as serde::Deserialize>::deserialize(de) {
            Ok(v) => docs.push(node_from_value(v)),
            Err(_) => return None,
        }
    }
    Some(docs)
}

/// Relies on serde_yaml::to_string: writes one document; both the text
/// and whether writing succeeds are functions of the document tree alone.
#[verifier::external_body]
fn yaml_doc_to_string(doc: YamlNode) -> (r: Option<String>)
    ensures
        (r is Some) == yaml_serializable(doc@),
        r matches Some(s) ==> s@ == yaml_text_of(doc@),
{
    serde_yaml::to_string(&value_from_node(doc)).ok()
}

/// The rewritten file text: the documents in their order, separated as
/// multi-document YAML.
pub open spec fn joined_docs_text(ds: Seq<YamlTree>) -> Seq<char>
    decreases ds.len(),
{
    if ds.len() == 0 {
        Seq::empty()
    } else if ds.len() == 1 {
        yaml_text_of(ds[0])
    } else {
        joined_docs_text(ds.drop_last()) + "\n---\n"@ + yaml_text_of(ds.last())
    }
}

/// Applies one recommendation to a manifest file's text: parses the
/// documents, patches every matching Deployment, and serializes them
/// back with the document separator reinserted. Returns the new text and
/// the number of updated containers; when nothing was updated the text
/// comes back unchanged. Nothing is returned when the text does not
/// parse, or when the serializer fails on a patched document.
pub fn patch_yaml_text(text: &str, rec: &ResourceRecommendation) -> (r: Option<(String, usize)>)
    ensures
        yaml_docs_of(text@) is None ==> r is None,
        r matches Some(pair) ==> {
            &&& yaml_docs_of(text@) matches Some(ds)
            &&& pair.1 as nat == nat_min(
                patched_docs(ds, patch_view_of(*rec)).1,
                usize::MAX as nat,
            )
            &&& (pair.1 == 0 ==> pair.0@ == text@)
            &&& (pair.1 > 0 ==> pair.0@ == joined_docs_text(
                patched_docs(ds, patch_view_of(*rec)).0,
            ))
        },
        (yaml_docs_of(text@) matches Some(ds) && patched_docs(ds, patch_view_of(*rec)).1
            == 0) ==> r is Some,
        (yaml_docs_of(text@) matches Some(ds) && (forall|i: int|
            0 <= i < patched_docs(ds, patch_view_of(*rec)).0.len() ==> yaml_serializable(
                #[trigger] patched_docs(ds, patch_view_of(*rec)).0[i],
            ))) ==> r is Some,
{
    let ghost p = patch_view_of(*rec);
    match parse_yaml_documents(text) {
        None => None,
        Some(docs) => {
            let ghost ds = nodes_view(docs@);
            let (patched, count) = apply_recommendation_to_documents(docs, rec);
            if count == 0 {
                Some((text.to_owned(), 0))
            } else {
                let ghost full = nodes_view(patched@);
                let mut rest = patched;
                let mut out = String::new();
                let mut k: usize = 0;
                let n_docs = rest.len();
                proof {
                    assert(full.subrange(0, 0) =~= Seq::<YamlTree>::empty());
                    lemma_nodes_view(rest@);
                    assert(rest@.len() == n_docs);
                    assert(full.len() == rest@.len());
                    assert(nodes_view(rest@) =~= full.skip(0));
                }
                while rest.len() > 0
                    invariant
                        p == patch_view_of(*rec),
                        Some(ds) == yaml_docs_of(text@),
                        count as nat == nat_min(patched_docs(ds, p).1, usize::MAX as nat),
                        count > 0,
                        full == patched_docs(ds, p).0,
                        full.len() <= usize::MAX,
                        k + rest@.len() == full.len(),
                        nodes_view(rest@) == full.skip(k as int),
                        out@ == joined_docs_text(full.subrange(0, k as int)),
                    decreases rest@.len(),
                {
                    let ghost rest_nodes_pre = rest@;
                    let dnode = rest.remove(0);
                    proof {
                        assert(rest@ =~= rest_nodes_pre.drop_first());
                        lemma_nodes_view_drop_first(rest_nodes_pre);
                        lemma_nodes_view(rest_nodes_pre);
                        assert(nodes_view(rest_nodes_pre) == full.skip(k as int));
                        assert(nodes_view(rest@) =~= full.skip(k + 1));
                        assert(node_view(dnode) == full.skip(k as int)[0]);
                        assert(node_view(dnode) == full[k as int]);
                    }
                    if k > 0 {
                        out.append("\n---\n");
                    }
                    match yaml_doc_to_string(dnode) {
                        Some(stext) => {
                            out.append(stext.as_str());
                        },
                        None => {
                            proof {
                                assert(!yaml_serializable(patched_docs(ds, p).0[k as int]));
                                assert(!yaml_serializable(patched_docs(
                                    yaml_docs_of(text@).unwrap(),
                                    patch_view_of(*rec),
                                ).0[k as int]));
                                assert(0 <= k < patched_docs(yaml_docs_of(text@).unwrap(),
                                    patch_view_of(*rec)).0.len());
                            }
                            return None;
                        },
                    }
                    proof {
                        let pre = full.subrange(0, k as int);
                        let post = full.subrange(0, k + 1);
                        assert(post.drop_last() =~= pre);
                        assert(post.last() == full[k as int]);
                        if k == 0 {
                            assert(post.len() == 1);
                            assert(out@ == joined_docs_text(post));
                        } else {
                            assert(out@ == joined_docs_text(pre) + "\n---\n"@ + yaml_text_of(
                                full[k as int]));
                            assert(out@ == joined_docs_text(post));
                        }
                    }
                    k += 1;
                }
                proof {
                    assert(full.subrange(0, full.len() as int) =~= full);
                    assert(out@ == joined_docs_text(full));
                }
                Some((out, count))
            }
        },
    }
}

} // verus!
