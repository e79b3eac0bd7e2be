//! What holds of the library as a whole: of placing values at paths, of fresh
//! builders, of ports exposed and published, and of serializing.

use crate::container::{
    assemble, blank, body_seed, host_binding, is_serialization_of, OptsModel, SerializationError,
};
use crate::path::{join_dots, lemma_split_join, lemma_split_plain, split_dots};
use crate::store::{
    lemma_get_after_remove, lemma_get_after_set, lemma_get_other, lemma_get_other_removed,
    lemma_set_same, lemma_set_twice, store_get, store_set,
};
use crate::text::{lemma_port_key_injective, port_key_text};
use crate::json::json_text;
use crate::tree::{empty_object, put, TreeModel};
use vstd::prelude::*;

verus! {

/// What stands in a tree at a path: the node reached by entering one member per
/// segment, each of them in an object.
pub open spec fn lookup(node: TreeModel, path: Seq<Seq<char>>) -> Option<TreeModel>
    decreases path.len(),
{
    if path.len() == 0 {
        Some(node)
    } else {
        match node {
            TreeModel::Object(members) => {
                if members.contains_key(path[0]) {
                    lookup(members[path[0]], path.skip(1))
                } else {
                    None
                }
            },
            _ => None,
        }
    }
}

/// Whether a path can be walked in a tree to its last segment: every level met
/// before the last segment is an object. Levels that are missing do not count.
pub open spec fn enterable(node: TreeModel, path: Seq<Seq<char>>) -> bool
    decreases path.len(),
{
    if path.len() == 0 {
        true
    } else {
        match node {
            TreeModel::Object(members) => path.len() == 1 || !members.contains_key(path[0])
                || enterable(members[path[0]], path.skip(1)),
            _ => false,
        }
    }
}

/// A value placed at a path that can be walked stands at that path afterwards,
/// and every level above it is an object.
pub proof fn lemma_put_places_value(node: TreeModel, path: Seq<Seq<char>>, value: TreeModel)
    requires
        path.len() >= 1,
        enterable(node, path),
    ensures
        lookup(put(node, path, value), path) == Some(value),
        forall|k: int|
            0 <= k < path.len() ==> #[trigger] lookup(put(node, path, value), path.take(k)) is Some
                && lookup(put(node, path, value), path.take(k))->Some_0 is Object,
    decreases path.len(),
{
    let result = put(node, path, value);
    let members = node->Object_0;
    let rest = path.skip(1);
    assert(path.take(0).len() == 0);
    if path.len() == 1 {
        assert(rest.len() == 0);
        assert(lookup(value, rest) == Some(value));
    } else {
        let child = if members.contains_key(path[0]) {
            members[path[0]]
        } else {
            empty_object()
        };
        lemma_put_places_value(child, rest, value);
        let below = put(child, rest, value);
        assert(result == TreeModel::Object(members.insert(path[0], below)));
        assert forall|k: int| 0 <= k < path.len() implies #[trigger] lookup(
            result,
            path.take(k),
        ) is Some && lookup(result, path.take(k))->Some_0 is Object by {
            if k > 0 {
                assert(path.take(k).skip(1) =~= rest.take(k - 1));
                assert(path.take(k)[0] == path[0]);
                assert(lookup(result, path.take(k)) == lookup(below, rest.take(k - 1)));
            }
        }
    }
}

/// A value placed under a key that joins segments by dots stands at the path of
/// those segments, with an object at every level above it, where that path can
/// be walked.
pub proof fn lemma_dotted_key_places_value(
    node: TreeModel,
    segments: Seq<Seq<char>>,
    value: TreeModel,
)
    requires
        segments.len() >= 1,
        forall|i: int, j: int|
            0 <= i < segments.len() && 0 <= j < segments[i].len() ==> segments[i][j] != '.',
        enterable(node, segments),
    ensures
        lookup(put(node, split_dots(join_dots(segments)), value), segments) == Some(value),
        forall|k: int|
            0 <= k < segments.len() ==> #[trigger] lookup(
                put(node, split_dots(join_dots(segments)), value),
                segments.take(k),
            ) is Some && lookup(
                put(node, split_dots(join_dots(segments)), value),
                segments.take(k),
            )->Some_0 is Object,
{
    lemma_split_join(segments);
    lemma_put_places_value(node, segments, value);
}

/// Whether two paths part ways: at some level, before either ends, their
/// segments differ. Neither is then a prefix of the other.
pub open spec fn diverge(p: Seq<Seq<char>>, q: Seq<Seq<char>>) -> bool
    decreases p.len(),
{
    p.len() > 0 && q.len() > 0 && (p[0] != q[0] || diverge(p.skip(1), q.skip(1)))
}

/// The member of an object that a walk enters: an empty object where it is missing.
pub open spec fn entered(members: Map<Seq<char>, TreeModel>, key: Seq<char>) -> TreeModel {
    if members.contains_key(key) {
        members[key]
    } else {
        empty_object()
    }
}

/// Values placed at two paths that part ways can be placed in either order.
pub proof fn lemma_put_commutes(
    node: TreeModel,
    p: Seq<Seq<char>>,
    v: TreeModel,
    q: Seq<Seq<char>>,
    w: TreeModel,
)
    requires
        diverge(p, q),
    ensures
        put(put(node, p, v), q, w) == put(put(node, q, w), p, v),
    decreases p.len(),
{
    match node {
        TreeModel::Object(members) => {
            let a = if p.len() == 1 {
                v
            } else {
                put(entered(members, p[0]), p.skip(1), v)
            };
            let b = if q.len() == 1 {
                w
            } else {
                put(entered(members, q[0]), q.skip(1), w)
            };
            assert(put(node, p, v) == TreeModel::Object(members.insert(p[0], a)));
            assert(put(node, q, w) == TreeModel::Object(members.insert(q[0], b)));
            let left = TreeModel::Object(members.insert(p[0], a));
            let right = TreeModel::Object(members.insert(q[0], b));
            if p[0] != q[0] {
                assert(entered(members.insert(p[0], a), q[0]) == entered(members, q[0]));
                assert(entered(members.insert(q[0], b), p[0]) == entered(members, p[0]));
                assert(put(left, q, w) == TreeModel::Object(
                    members.insert(p[0], a).insert(q[0], b),
                ));
                assert(put(right, p, v) == TreeModel::Object(
                    members.insert(q[0], b).insert(p[0], a),
                ));
                assert(members.insert(p[0], a).insert(q[0], b) =~= members.insert(q[0], b).insert(
                    p[0],
                    a,
                ));
            } else {
                let child = entered(members, p[0]);
                assert(diverge(p.skip(1), q.skip(1)));
                assert(p.len() > 1 && q.len() > 1);
                lemma_put_commutes(child, p.skip(1), v, q.skip(1), w);
                assert(a == put(child, p.skip(1), v));
                assert(b == put(child, q.skip(1), w));
                let ab = put(a, q.skip(1), w);
                let ba = put(b, p.skip(1), v);
                assert(ab == ba);
                assert(entered(members.insert(p[0], a), q[0]) == a);
                assert(entered(members.insert(q[0], b), p[0]) == b);
                assert(put(left, q, w) == TreeModel::Object(
                    members.insert(p[0], a).insert(q[0], ab),
                ));
                assert(put(right, p, v) == TreeModel::Object(
                    members.insert(q[0], b).insert(p[0], ba),
                ));
                assert(members.insert(p[0], a).insert(q[0], ab) =~= members.insert(p[0], ab));
                assert(members.insert(q[0], b).insert(p[0], ba) =~= members.insert(p[0], ba));
            }
        },
        _ => {
            assert(put(node, p, v) == node);
            assert(put(node, q, w) == node);
        },
    }
}

/// Two parameters whose keys spell paths that part ways can be assembled in
/// either order.
pub proof fn lemma_assemble_order(
    params: Seq<(Seq<char>, TreeModel)>,
    first: (Seq<char>, TreeModel),
    second: (Seq<char>, TreeModel),
    seed: TreeModel,
)
    requires
        diverge(split_dots(first.0), split_dots(second.0)),
    ensures
        assemble(params.push(first).push(second), seed) == assemble(
            params.push(second).push(first),
            seed,
        ),
{
    assert(params.push(first).push(second).drop_last() =~= params.push(first));
    assert(params.push(second).push(first).drop_last() =~= params.push(second));
    assert(params.push(first).drop_last() =~= params);
    assert(params.push(second).drop_last() =~= params);
    let base = assemble(params, seed);
    assert(assemble(params.push(first), seed) == put(base, split_dots(first.0), first.1));
    assert(assemble(params.push(second), seed) == put(base, split_dots(second.0), second.1));
    assert(assemble(params.push(first).push(second), seed) == put(
        assemble(params.push(first), seed),
        split_dots(second.0),
        second.1,
    ));
    assert(assemble(params.push(second).push(first), seed) == put(
        assemble(params.push(second), seed),
        split_dots(first.0),
        first.1,
    ));
    lemma_put_commutes(
        assemble(params, seed),
        split_dots(first.0),
        first.1,
        split_dots(second.0),
        second.1,
    );
}

/// Parting ways is mutual.
pub proof fn lemma_diverge_symmetric(p: Seq<Seq<char>>, q: Seq<Seq<char>>)
    requires
        diverge(p, q),
    ensures
        diverge(q, p),
    decreases p.len(),
{
    if p[0] == q[0] {
        lemma_diverge_symmetric(p.skip(1), q.skip(1));
    }
}

/// Placing a value at one path leaves what stands at a path that parts ways with it.
pub proof fn lemma_lookup_unaffected(
    node: TreeModel,
    p: Seq<Seq<char>>,
    q: Seq<Seq<char>>,
    w: TreeModel,
)
    requires
        diverge(p, q),
    ensures
        lookup(put(node, q, w), p) == lookup(node, p),
    decreases p.len(),
{
    match node {
        TreeModel::Object(members) => {
            let b = if q.len() == 1 {
                w
            } else {
                put(entered(members, q[0]), q.skip(1), w)
            };
            assert(put(node, q, w) == TreeModel::Object(members.insert(q[0], b)));
            if p[0] == q[0] {
                assert(diverge(p.skip(1), q.skip(1)));
                assert(p.len() > 1 && q.len() > 1);
                lemma_lookup_unaffected(entered(members, p[0]), p.skip(1), q.skip(1), w);
                assert(lookup(put(node, q, w), p) == lookup(b, p.skip(1)));
                if !members.contains_key(p[0]) {
                    assert(lookup(empty_object(), p.skip(1)) is None);
                }
            }
        },
        _ => {},
    }
}

/// A path that can be walked can still be walked after a value is placed at a
/// path that parts ways with it.
pub proof fn lemma_enterable_kept(
    node: TreeModel,
    p: Seq<Seq<char>>,
    q: Seq<Seq<char>>,
    w: TreeModel,
)
    requires
        diverge(p, q),
        enterable(node, p),
    ensures
        enterable(put(node, q, w), p),
    decreases p.len(),
{
    assert(p.len() > 0 && q.len() > 0);
    assert(node is Object);
    let members = node->Object_0;
    let b = if q.len() == 1 {
        w
    } else {
        put(entered(members, q[0]), q.skip(1), w)
    };
    assert(put(node, q, w) == TreeModel::Object(members.insert(q[0], b)));
    if p[0] == q[0] {
        assert(diverge(p.skip(1), q.skip(1)));
        assert(p.len() > 1 && q.len() > 1);
        if !members.contains_key(p[0]) {
            assert(enterable(empty_object(), p.skip(1)));
        }
        lemma_enterable_kept(entered(members, p[0]), p.skip(1), q.skip(1), w);
    }
}

/// Whether the keys of a store spell paths that part ways, each two of them.
pub open spec fn keys_part_ways(params: Seq<(Seq<char>, TreeModel)>) -> bool {
    forall|i: int, j: int|
        0 <= i < j < params.len() ==> diverge(
            split_dots(#[trigger] params[i].0),
            split_dots(#[trigger] params[j].0),
        )
}

/// A path that can be walked in the seed can be walked in what is assembled from
/// parameters whose paths all part ways with it.
pub proof fn lemma_enterable_assembled(
    params: Seq<(Seq<char>, TreeModel)>,
    seed: TreeModel,
    p: Seq<Seq<char>>,
)
    requires
        enterable(seed, p),
        forall|j: int| 0 <= j < params.len() ==> diverge(p, split_dots(#[trigger] params[j].0)),
    ensures
        enterable(assemble(params, seed), p),
    decreases params.len(),
{
    if params.len() > 0 {
        let front = params.drop_last();
        assert forall|j: int| 0 <= j < front.len() implies diverge(
            p,
            split_dots(#[trigger] front[j].0),
        ) by {
            assert(front[j] == params[j]);
        }
        lemma_enterable_assembled(front, seed, p);
        assert(diverge(p, split_dots(params[params.len() - 1].0)));
        lemma_enterable_kept(
            assemble(front, seed),
            p,
            split_dots(params.last().0),
            params.last().1,
        );
    }
}

/// Every parameter of a store whose keys part ways stands in the assembled tree
/// at the path that its key spells, where that path can be walked in the seed.
pub proof fn lemma_every_param_is_placed(
    params: Seq<(Seq<char>, TreeModel)>,
    seed: TreeModel,
    i: int,
)
    requires
        0 <= i < params.len(),
        keys_part_ways(params),
        enterable(seed, split_dots(params[i].0)),
    ensures
        lookup(assemble(params, seed), split_dots(params[i].0)) == Some(params[i].1),
    decreases params.len(),
{
    let front = params.drop_last();
    let last = params.len() - 1;
    let p = split_dots(params[i].0);
    if i == last {
        assert forall|j: int| 0 <= j < front.len() implies diverge(
            p,
            split_dots(#[trigger] front[j].0),
        ) by {
            assert(front[j] == params[j]);
            assert(diverge(split_dots(params[j].0), split_dots(params[i].0)));
            lemma_diverge_symmetric(split_dots(params[j].0), p);
        }
        lemma_enterable_assembled(front, seed, p);
        crate::path::lemma_split_nonempty(params[i].0);
        lemma_put_places_value(assemble(front, seed), p, params[i].1);
    } else {
        assert(front[i] == params[i]);
        assert forall|a: int, b: int| 0 <= a < b < front.len() implies diverge(
            split_dots(#[trigger] front[a].0),
            split_dots(#[trigger] front[b].0),
        ) by {
            assert(front[a] == params[a]);
            assert(front[b] == params[b]);
        }
        lemma_every_param_is_placed(front, seed, i);
        assert(diverge(split_dots(params[i].0), split_dots(params[last].0)));
        lemma_lookup_unaffected(
            assemble(front, seed),
            p,
            split_dots(params.last().0),
            params.last().1,
        );
    }
}

/// The first segments of the keys of a store.
pub open spec fn first_segments(params: Seq<(Seq<char>, TreeModel)>) -> Set<Seq<char>> {
    Set::new(
        |s: Seq<char>| exists|i: int| 0 <= i < params.len() && split_dots(#[trigger] params[i].0)[0] == s,
    )
}

/// What is assembled over an object is an object; its members are those of the
/// seed and one for the first segment of each key.
pub proof fn lemma_top_level_keys(params: Seq<(Seq<char>, TreeModel)>, seed: TreeModel)
    requires
        seed is Object,
    ensures
        assemble(params, seed) is Object,
        assemble(params, seed)->Object_0.dom() == seed->Object_0.dom().union(
            first_segments(params),
        ),
    decreases params.len(),
{
    if params.len() == 0 {
        assert(seed->Object_0.dom().union(first_segments(params)) =~= seed->Object_0.dom());
    } else {
        let front = params.drop_last();
        lemma_top_level_keys(front, seed);
        crate::path::lemma_split_nonempty(params.last().0);
        let path = split_dots(params.last().0);
        let before = assemble(front, seed);
        let after = put(before, path, params.last().1);
        assert(after->Object_0.dom() =~= before->Object_0.dom().insert(path[0]));
        assert forall|s: Seq<char>| first_segments(params).contains(s) <==> (first_segments(
            front,
        ).contains(s) || s == path[0]) by {
            if first_segments(front).contains(s) {
                let j = choose|j: int|
                    0 <= j < front.len() && split_dots(#[trigger] front[j].0)[0] == s;
                assert(params[j] == front[j]);
            }
            if s == path[0] {
                assert(split_dots(params[params.len() - 1].0)[0] == s);
            }
            if first_segments(params).contains(s) {
                let j = choose|j: int|
                    0 <= j < params.len() && split_dots(#[trigger] params[j].0)[0] == s;
                if j < front.len() {
                    assert(front[j] == params[j]);
                }
            }
        }
        assert(after->Object_0.dom() =~= seed->Object_0.dom().union(first_segments(params)));
    }
}

/// The members of a body are the host configuration and one for the first
/// segment of each key; the name is none of them. The host configuration is an
/// object where no key is `HostConfig` itself, and an empty one where no key
/// starts with that segment.
pub proof fn lemma_body_members(m: OptsModel)
    ensures
        m.body() is Object,
        m.body()->Object_0.dom() == first_segments(m.params).insert("HostConfig"@),
        (forall|i: int| 0 <= i < m.params.len() ==> split_dots(#[trigger] m.params[i].0) != seq![
            "HostConfig"@,
        ]) ==> m.body()->Object_0["HostConfig"@] is Object,
        !first_segments(m.params).contains("HostConfig"@) ==> m.body()->Object_0["HostConfig"@]
            == empty_object(),
{
    lemma_top_level_keys(m.params, body_seed());
    assert(body_seed()->Object_0.dom().union(first_segments(m.params)) =~= first_segments(
        m.params,
    ).insert("HostConfig"@));
    lemma_host_config_stays(m.params);
}

/// The host configuration of what is assembled over the empty body: an object
/// where no key is `HostConfig` itself, an empty one where no key starts with
/// that segment.
pub proof fn lemma_host_config_stays(params: Seq<(Seq<char>, TreeModel)>)
    ensures
        assemble(params, body_seed()) is Object,
        assemble(params, body_seed())->Object_0.contains_key("HostConfig"@),
        (forall|i: int| 0 <= i < params.len() ==> split_dots(#[trigger] params[i].0) != seq![
            "HostConfig"@,
        ]) ==> assemble(params, body_seed())->Object_0["HostConfig"@] is Object,
        !first_segments(params).contains("HostConfig"@) ==> assemble(
            params,
            body_seed(),
        )->Object_0["HostConfig"@] == empty_object(),
    decreases params.len(),
{
    if params.len() > 0 {
        let front = params.drop_last();
        lemma_host_config_stays(front);
        crate::path::lemma_split_nonempty(params.last().0);
        let path = split_dots(params.last().0);
        let before = assemble(front, body_seed());
        let members = before->Object_0;
        let after = put(before, path, params.last().1);
        assert(after is Object);
        assert(after->Object_0.contains_key("HostConfig"@));
        assert(split_dots(params[params.len() - 1].0)[0] == path[0]);
        if forall|i: int| 0 <= i < params.len() ==> split_dots(#[trigger] params[i].0) != seq![
            "HostConfig"@,
        ] {
            assert forall|i: int| 0 <= i < front.len() implies split_dots(
                #[trigger] front[i].0,
            ) != seq!["HostConfig"@] by {
                assert(front[i] == params[i]);
            }
            assert(split_dots(params[params.len() - 1].0) != seq!["HostConfig"@]);
            if path[0] == "HostConfig"@ {
                if path.len() == 1 {
                    assert(path =~= seq!["HostConfig"@]);
                } else {
                    assert(put(members["HostConfig"@], path.skip(1), params.last().1) is Object);
                }
            }
        }
        if !first_segments(params).contains("HostConfig"@) {
            assert forall|i: int| 0 <= i < front.len() implies split_dots(
                #[trigger] front[i].0,
            )[0] != "HostConfig"@ by {
                assert(front[i] == params[i]);
            }
            assert(path[0] != "HostConfig"@);
        }
    }
}

/// The last parameter of a store whose key can be walked in what the earlier
/// parameters assembled stands in the body at the path that its key spells.
pub proof fn lemma_last_param_is_placed(
    params: Seq<(Seq<char>, TreeModel)>,
    key: Seq<char>,
    value: TreeModel,
    seed: TreeModel,
)
    requires
        enterable(assemble(params, seed), split_dots(key)),
    ensures
        lookup(assemble(params.push((key, value)), seed), split_dots(key)) == Some(value),
{
    crate::path::lemma_split_nonempty(key);
    assert(params.push((key, value)).drop_last() =~= params);
    lemma_put_places_value(assemble(params, seed), split_dots(key), value);
}

/// The body of a builder that holds an image and nothing else: the empty host
/// configuration and the image.
pub proof fn lemma_fresh_body(image: Seq<char>)
    ensures
        (OptsModel { name: None, params: seq![("Image"@, TreeModel::Text(image))] }).body()
            == TreeModel::Object(
            Map::empty().insert("HostConfig"@, empty_object()).insert(
                "Image"@,
                TreeModel::Text(image),
            ),
        ),
{
    reveal_strlit("Image");
    lemma_split_plain("Image"@);
    let params = seq![("Image"@, TreeModel::Text(image))];
    assert(params.drop_last().len() == 0);
    assert(assemble(params.drop_last(), body_seed()) == body_seed());
    assert(assemble(params, body_seed()) == put(
        body_seed(),
        split_dots("Image"@),
        TreeModel::Text(image),
    ));
}

/// The two keys under which ports are filed differ.
pub proof fn lemma_port_keys_differ()
    ensures
        "HostConfig.PortBindings"@ != "ExposedPorts"@,
{
    reveal_strlit("HostConfig.PortBindings");
    reveal_strlit("ExposedPorts");
    assert("HostConfig.PortBindings"@.len() != "ExposedPorts"@.len());
}

/// After a port is bound, the port bindings are the earlier ones with the new
/// binding set, and the exposed ports are the keys of the port bindings.
pub proof fn lemma_after_expose(m: OptsModel, srcport: u32, protocol: Seq<char>, hostport: u32)
    ensures
        m.expose(srcport, protocol, hostport).port_bindings() == m.port_bindings().insert(
            port_key_text(srcport, protocol),
            host_binding(hostport),
        ),
        m.expose(srcport, protocol, hostport).exposed_ports() == blank(
            m.expose(srcport, protocol, hostport).port_bindings(),
        ),
{
    lemma_port_keys_differ();
    let merged = m.port_bindings().insert(port_key_text(srcport, protocol), host_binding(hostport));
    let bound = store_set(m.params, "HostConfig.PortBindings"@, TreeModel::Object(merged));
    lemma_get_after_set(m.params, "HostConfig.PortBindings"@, TreeModel::Object(merged));
    lemma_get_other(
        bound,
        "ExposedPorts"@,
        TreeModel::Object(blank(merged)),
        "HostConfig.PortBindings"@,
    );
    lemma_get_after_set(bound, "ExposedPorts"@, TreeModel::Object(blank(merged)));
}

/// Two different pairs of port and protocol, bound one after the other, are both
/// among the port bindings, each with the single binding to its own host port,
/// and the exposed ports have the keys of the port bindings. Where no port was
/// bound before, these two keys are all there are.
pub proof fn lemma_expose_two_ports(
    m: OptsModel,
    first_port: u32,
    first_protocol: Seq<char>,
    first_host: u32,
    second_port: u32,
    second_protocol: Seq<char>,
    second_host: u32,
)
    requires
        first_port != second_port || first_protocol != second_protocol,
    ensures
        ({
            let first_key = port_key_text(first_port, first_protocol);
            let second_key = port_key_text(second_port, second_protocol);
            let r = m.expose(first_port, first_protocol, first_host).expose(
                second_port,
                second_protocol,
                second_host,
            );
            &&& first_key != second_key
            &&& r.port_bindings().dom() == m.port_bindings().dom().insert(first_key).insert(
                second_key,
            )
            &&& r.port_bindings()[first_key] == host_binding(first_host)
            &&& r.port_bindings()[second_key] == host_binding(second_host)
            &&& host_binding(first_host)->List_0.len() == 1
            &&& host_binding(second_host)->List_0.len() == 1
            &&& r.exposed_ports().dom() == r.port_bindings().dom()
            &&& m.port_bindings() == Map::<Seq<char>, TreeModel>::empty() ==> r.port_bindings().dom()
                == set![first_key, second_key]
        }),
{
    let first_key = port_key_text(first_port, first_protocol);
    let second_key = port_key_text(second_port, second_protocol);
    if first_key == second_key {
        lemma_port_key_injective(first_port, first_protocol, second_port, second_protocol);
    }
    let first = m.expose(first_port, first_protocol, first_host);
    let r = first.expose(second_port, second_protocol, second_host);
    lemma_after_expose(m, first_port, first_protocol, first_host);
    lemma_after_expose(first, second_port, second_protocol, second_host);
    assert(r.port_bindings().dom() =~= m.port_bindings().dom().insert(first_key).insert(
        second_key,
    ));
    assert(r.exposed_ports().dom() =~= r.port_bindings().dom());
    if m.port_bindings() == Map::<Seq<char>, TreeModel>::empty() {
        assert(r.port_bindings().dom() =~= set![first_key, second_key]);
    }
}

/// Binding a port adds at most its own key to the port bindings and keeps every
/// binding under another key: after any number of bindings of different pairs,
/// each pair has its key and its own binding.
pub proof fn lemma_expose_keeps_others(
    m: OptsModel,
    port: u32,
    protocol: Seq<char>,
    host: u32,
    other: Seq<char>,
)
    requires
        other != port_key_text(port, protocol),
    ensures
        m.expose(port, protocol, host).port_bindings().contains_key(other)
            == m.port_bindings().contains_key(other),
        m.port_bindings().contains_key(other) ==> m.expose(port, protocol, host).port_bindings()[other]
            == m.port_bindings()[other],
        m.expose(port, protocol, host).port_bindings().contains_key(port_key_text(port, protocol)),
        m.expose(port, protocol, host).port_bindings()[port_key_text(port, protocol)]
            == host_binding(host),
{
    lemma_after_expose(m, port, protocol, host);
}

/// Two different pairs of port and protocol can be bound in either order: the
/// port bindings and the exposed ports come out the same.
pub proof fn lemma_expose_order(
    m: OptsModel,
    first_port: u32,
    first_protocol: Seq<char>,
    first_host: u32,
    second_port: u32,
    second_protocol: Seq<char>,
    second_host: u32,
)
    requires
        first_port != second_port || first_protocol != second_protocol,
    ensures
        m.expose(first_port, first_protocol, first_host).expose(
            second_port,
            second_protocol,
            second_host,
        ).port_bindings() == m.expose(second_port, second_protocol, second_host).expose(
            first_port,
            first_protocol,
            first_host,
        ).port_bindings(),
        m.expose(first_port, first_protocol, first_host).expose(
            second_port,
            second_protocol,
            second_host,
        ).exposed_ports() == m.expose(second_port, second_protocol, second_host).expose(
            first_port,
            first_protocol,
            first_host,
        ).exposed_ports(),
{
    let first_key = port_key_text(first_port, first_protocol);
    let second_key = port_key_text(second_port, second_protocol);
    if first_key == second_key {
        lemma_port_key_injective(first_port, first_protocol, second_port, second_protocol);
    }
    let one = m.expose(first_port, first_protocol, first_host);
    let other = m.expose(second_port, second_protocol, second_host);
    lemma_after_expose(m, first_port, first_protocol, first_host);
    lemma_after_expose(m, second_port, second_protocol, second_host);
    lemma_after_expose(one, second_port, second_protocol, second_host);
    lemma_after_expose(other, first_port, first_protocol, first_host);
    assert(one.expose(second_port, second_protocol, second_host).port_bindings()
        =~= other.expose(first_port, first_protocol, first_host).port_bindings());
}

/// One port bound twice keeps only the second host port: the port bindings are
/// those from before with the second binding set. Where no port was bound
/// before, its key is the only one.
pub proof fn lemma_expose_overwrites(m: OptsModel, p: u32, first_host: u32, second_host: u32, protocol: Seq<char>)
    ensures
        ({
            let k = port_key_text(p, protocol);
            let r = m.expose(p, protocol, first_host).expose(p, protocol, second_host);
            &&& r.port_bindings() == m.port_bindings().insert(k, host_binding(second_host))
            &&& r.port_bindings() == m.expose(p, protocol, second_host).port_bindings()
            &&& r.exposed_ports() == m.expose(p, protocol, second_host).exposed_ports()
            &&& m.port_bindings() == Map::<Seq<char>, TreeModel>::empty() ==> r.port_bindings().dom()
                == set![k]
        }),
{
    let k = port_key_text(p, protocol);
    let first = m.expose(p, protocol, first_host);
    let r = first.expose(p, protocol, second_host);
    lemma_after_expose(m, p, protocol, first_host);
    lemma_after_expose(m, p, protocol, second_host);
    lemma_after_expose(first, p, protocol, second_host);
    assert(r.port_bindings() =~= m.port_bindings().insert(k, host_binding(second_host)));
    if m.port_bindings() == Map::<Seq<char>, TreeModel>::empty() {
        assert(r.port_bindings().dom() =~= set![k]);
    }
}

/// Binding a port a second time to the same host port changes nothing.
pub proof fn lemma_expose_idempotent(m: OptsModel, p: u32, h: u32, protocol: Seq<char>)
    ensures
        m.expose(p, protocol, h).expose(p, protocol, h) == m.expose(p, protocol, h),
{
    lemma_port_keys_differ();
    let k = port_key_text(p, protocol);
    let first = m.expose(p, protocol, h);
    lemma_after_expose(m, p, protocol, h);
    let merged = first.port_bindings();
    assert(merged.insert(k, host_binding(h)) =~= merged);
    let bound = store_set(m.params, "HostConfig.PortBindings"@, TreeModel::Object(merged));
    lemma_get_after_set(m.params, "HostConfig.PortBindings"@, TreeModel::Object(merged));
    lemma_get_other(
        bound,
        "ExposedPorts"@,
        TreeModel::Object(blank(merged)),
        "HostConfig.PortBindings"@,
    );
    lemma_get_after_set(bound, "ExposedPorts"@, TreeModel::Object(blank(merged)));
    lemma_set_same(first.params, "HostConfig.PortBindings"@, TreeModel::Object(merged));
    lemma_set_same(first.params, "ExposedPorts"@, TreeModel::Object(blank(merged)));
}

/// Publishing a port a second time changes nothing: what is held, and with it
/// the body and its text, is the same after one publication and after two.
pub proof fn lemma_publish_idempotent(m: OptsModel, p: u32, protocol: Seq<char>)
    ensures
        m.publish(p, protocol).publish(p, protocol) == m.publish(p, protocol),
        m.publish(p, protocol).publish(p, protocol).body() == m.publish(p, protocol).body(),
{
    let k = port_key_text(p, protocol);
    let first = m.publish(p, protocol);
    let merged = m.exposed_ports().insert(k, empty_object());
    lemma_get_after_set(m.params, "ExposedPorts"@, TreeModel::Object(blank(merged)));
    assert(first.exposed_ports() == blank(merged));
    assert(blank(blank(merged).insert(k, empty_object())) =~= blank(merged));
    lemma_set_twice(
        m.params,
        "ExposedPorts"@,
        TreeModel::Object(blank(merged)),
        TreeModel::Object(blank(merged)),
    );
}

/// Publishing leaves the port bindings as they are.
pub proof fn lemma_publish_keeps_bindings(m: OptsModel, p: u32, protocol: Seq<char>)
    ensures
        m.publish(p, protocol).port_bindings() == m.port_bindings(),
        m.publish(p, protocol).exposed_ports().contains_key(port_key_text(p, protocol)),
        m.publish(p, protocol).exposed_ports()[port_key_text(p, protocol)] == empty_object(),
{
    lemma_port_keys_differ();
    let merged = m.exposed_ports().insert(port_key_text(p, protocol), empty_object());
    lemma_get_other(
        m.params,
        "ExposedPorts"@,
        TreeModel::Object(blank(merged)),
        "HostConfig.PortBindings"@,
    );
    lemma_get_after_set(m.params, "ExposedPorts"@, TreeModel::Object(blank(merged)));
}

/// Serializing is a function of what a specification holds: it succeeds, and two
/// results of serializing specifications with one model hold the same text.
pub proof fn lemma_serialize_deterministic(
    model: OptsModel,
    first: Result<String, SerializationError>,
    second: Result<String, SerializationError>,
)
    requires
        is_serialization_of(model, first),
        is_serialization_of(model, second),
    ensures
        first is Ok,
        second is Ok,
        first->Ok_0@ == second->Ok_0@,
        first->Ok_0@ == json_text(model.body()),
{
}

/// After a restart policy with a name other than `on-failure` no retry count is
/// filed, whatever was filed before; with `on-failure` the given count is.
pub proof fn lemma_restart_policy_count(m: OptsModel, name: Seq<char>, maximum_retry_count: u64)
    ensures
        name != "on-failure"@ ==> store_get(
            m.restart_policy(name, maximum_retry_count).params,
            "HostConfig.RestartPolicy.MaximumRetryCount"@,
        ) is None,
        name == "on-failure"@ ==> store_get(
            m.restart_policy(name, maximum_retry_count).params,
            "HostConfig.RestartPolicy.MaximumRetryCount"@,
        ) == Some(TreeModel::Number(maximum_retry_count as int)),
        store_get(
            m.restart_policy(name, maximum_retry_count).params,
            "HostConfig.RestartPolicy.Name"@,
        ) == Some(TreeModel::Text(name)),
{
    reveal_strlit("HostConfig.RestartPolicy.MaximumRetryCount");
    reveal_strlit("HostConfig.RestartPolicy.Name");
    assert("HostConfig.RestartPolicy.MaximumRetryCount"@.len()
        != "HostConfig.RestartPolicy.Name"@.len());
    let named = store_set(m.params, "HostConfig.RestartPolicy.Name"@, TreeModel::Text(name));
    lemma_get_after_set(m.params, "HostConfig.RestartPolicy.Name"@, TreeModel::Text(name));
    if name == "on-failure"@ {
        lemma_get_after_set(
            named,
            "HostConfig.RestartPolicy.MaximumRetryCount"@,
            TreeModel::Number(maximum_retry_count as int),
        );
        lemma_get_other(
            named,
            "HostConfig.RestartPolicy.MaximumRetryCount"@,
            TreeModel::Number(maximum_retry_count as int),
            "HostConfig.RestartPolicy.Name"@,
        );
    } else {
        lemma_get_after_remove(named, "HostConfig.RestartPolicy.MaximumRetryCount"@);
        lemma_get_other_removed(
            named,
            "HostConfig.RestartPolicy.MaximumRetryCount"@,
            "HostConfig.RestartPolicy.Name"@,
        );
    }
}

} // verus!
