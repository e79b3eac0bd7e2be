//! The JSON-like tree that request bodies are made of, and its mathematical model.

use vstd::prelude::*;

verus! {

/// A JSON-like document. An object is a list of pairs read in order: where a key
/// occurs more than once, the last pair decides.
#[derive(Debug)]
pub enum TreeValue {
    Null,
    Bool(bool),
    Unsigned(u64),
    Signed(i64),
    String(String),
    Array(Vec<TreeValue>),
    Object(Vec<(String, TreeValue)>),
}

/// What a `TreeValue` means: numbers are integers, objects are maps.
pub enum TreeModel {
    Null,
    Bool(bool),
    Number(int),
    Text(Seq<char>),
    List(Seq<TreeModel>),
    Object(Map<Seq<char>, TreeModel>),
}

/// The object without members.
pub open spec fn empty_object() -> TreeModel {
    TreeModel::Object(Map::empty())
}

/// The model of a tree.
pub open spec fn tree_model(v: TreeValue) -> TreeModel
    decreases v, 0nat,
{
    match v {
        TreeValue::Null => TreeModel::Null,
        TreeValue::Bool(b) => TreeModel::Bool(b),
        TreeValue::Unsigned(n) => TreeModel::Number(n as int),
        TreeValue::Signed(n) => TreeModel::Number(n as int),
        TreeValue::String(s) => TreeModel::Text(s@),
        TreeValue::Array(items) => TreeModel::List(items_model(items, items.len() as nat)),
        TreeValue::Object(pairs) => TreeModel::Object(pairs_model(pairs, pairs.len() as nat)),
    }
}

/// The models of the first `n` items.
pub open spec fn items_model(items: Vec<TreeValue>, n: nat) -> Seq<TreeModel>
    decreases items, n,
{
    if n == 0 || n > items.len() {
        Seq::empty()
    } else {
        items_model(items, (n - 1) as nat).push(tree_model(items[n - 1]))
    }
}

/// The map that the first `n` pairs stand for: a later pair replaces an earlier
/// one with the same key.
pub open spec fn pairs_model(pairs: Vec<(String, TreeValue)>, n: nat) -> Map<Seq<char>, TreeModel>
    decreases pairs, n,
{
    if n == 0 || n > pairs.len() {
        Map::empty()
    } else {
        pairs_model(pairs, (n - 1) as nat).insert(pairs[n - 1].0@, tree_model(pairs[n - 1].1))
    }
}

impl View for TreeValue {
    type V = TreeModel;

    open spec fn view(&self) -> TreeModel {
        tree_model(*self)
    }
}

/// The map that a list of pairs stands for.
pub open spec fn object_of(pairs: Vec<(String, TreeValue)>) -> Map<Seq<char>, TreeModel> {
    pairs_model(pairs, pairs.len() as nat)
}

/// The models of a list of trees.
pub open spec fn list_of(items: Vec<TreeValue>) -> Seq<TreeModel> {
    items_model(items, items.len() as nat)
}

/// A copy of a list of trees.
pub fn clone_items(items: &Vec<TreeValue>) -> (r: Vec<TreeValue>)
    ensures
        list_of(r) == list_of(*items),
    decreases *items, 1nat,
{
    let mut out: Vec<TreeValue> = Vec::new();
    let mut i: usize = 0;
    while i < items.len()
        invariant
            i <= items.len(),
            out.len() == i,
            items_model(out, i as nat) == items_model(*items, i as nat),
        decreases items.len() - i,
    {
        let c = items[i].clone_tree();
        let ghost before = out;
        out.push(c);
        proof {
            lemma_items_prefix(before, out, i as nat);
        }
        i += 1;
    }
    out
}

/// A copy of a list of pairs.
pub fn clone_pairs(pairs: &Vec<(String, TreeValue)>) -> (r: Vec<(String, TreeValue)>)
    ensures
        object_of(r) == object_of(*pairs),
    decreases *pairs, 1nat,
{
    let mut out: Vec<(String, TreeValue)> = Vec::new();
    let mut i: usize = 0;
    while i < pairs.len()
        invariant
            i <= pairs.len(),
            out.len() == i,
            pairs_model(out, i as nat) == pairs_model(*pairs, i as nat),
        decreases pairs.len() - i,
    {
        let k = pairs[i].0.clone();
        let c = pairs[i].1.clone_tree();
        let ghost before = out;
        out.push((k, c));
        proof {
            lemma_pairs_prefix(before, out, i as nat);
        }
        i += 1;
    }
    out
}

impl TreeValue {
    /// A deep copy: a tree with the same model.
    pub fn clone_tree(&self) -> (r: TreeValue)
        ensures
            r@ == self@,
        decreases *self, 0nat,
    {
        match self {
            TreeValue::Null => TreeValue::Null,
            TreeValue::Bool(b) => TreeValue::Bool(*b),
            TreeValue::Unsigned(n) => TreeValue::Unsigned(*n),
            TreeValue::Signed(n) => TreeValue::Signed(*n),
            TreeValue::String(s) => TreeValue::String(s.clone()),
            TreeValue::Array(items) => TreeValue::Array(clone_items(items)),
            TreeValue::Object(pairs) => TreeValue::Object(clone_pairs(pairs)),
        }
    }

    /// An object without members.
    pub fn empty_object() -> (r: TreeValue)
        ensures
            r@ == empty_object(),
    {
        TreeValue::Object(Vec::new())
    }

    /// A string leaf.
    pub fn text(s: &str) -> (r: TreeValue)
        ensures
            r@ == TreeModel::Text(s@),
    {
        TreeValue::String(s.to_owned())
    }
}

/// Two lists that agree on their first `n` places have the same first `n` models.
pub proof fn lemma_items_prefix(a: Vec<TreeValue>, b: Vec<TreeValue>, n: nat)
    requires
        n <= a.len(),
        n <= b.len(),
        forall|i: int| 0 <= i < n ==> a[i] == b[i],
    ensures
        items_model(a, n) == items_model(b, n),
    decreases n,
{
    if n > 0 {
        lemma_items_prefix(a, b, (n - 1) as nat);
    }
}

/// Two lists of pairs that agree on their first `n` places stand for the same map there.
pub proof fn lemma_pairs_prefix(a: Vec<(String, TreeValue)>, b: Vec<(String, TreeValue)>, n: nat)
    requires
        n <= a.len(),
        n <= b.len(),
        forall|i: int| 0 <= i < n ==> a[i] == b[i],
    ensures
        pairs_model(a, n) == pairs_model(b, n),
    decreases n,
{
    if n > 0 {
        lemma_pairs_prefix(a, b, (n - 1) as nat);
    }
}

/// The first `n` models of a list are the models of its first `n` items.
pub proof fn lemma_items_model_index(items: Vec<TreeValue>, n: nat)
    requires
        n <= items.len(),
    ensures
        items_model(items, n).len() == n,
        forall|i: int| 0 <= i < n ==> #[trigger] items_model(items, n)[i] == items[i]@,
    decreases n,
{
    if n > 0 {
        lemma_items_model_index(items, (n - 1) as nat);
    }
}

/// The tree with `value` placed at `path`. Every level but the last is entered,
/// and made as an empty object where it is missing; the last segment names the
/// member that is set. Where a level that is met is not an object, the tree
/// stays as it is.
pub open spec fn put(node: TreeModel, path: Seq<Seq<char>>, value: TreeModel) -> TreeModel
    decreases path.len(),
{
    if path.len() == 0 {
        node
    } else {
        match node {
            TreeModel::Object(members) => {
                if path.len() == 1 {
                    TreeModel::Object(members.insert(path[0], value))
                } else {
                    let child = if members.contains_key(path[0]) {
                        members[path[0]]
                    } else {
                        empty_object()
                    };
                    TreeModel::Object(members.insert(path[0], put(child, path.skip(1), value)))
                }
            },
            _ => node,
        }
    }
}

/// Looks a key up among the pairs of an object: the place of the pair that decides.
pub fn find_member(pairs: &Vec<(String, TreeValue)>, key: &String) -> (r: Option<usize>)
    ensures
        r is Some <==> object_of(*pairs).contains_key(key@),
        r matches Some(i) ==> i < pairs.len() && object_of(*pairs)[key@] == pairs[i as int].1@,
{
    let mut found: Option<usize> = None;
    let mut i: usize = 0;
    while i < pairs.len()
        invariant
            i <= pairs.len(),
            found is Some <==> pairs_model(*pairs, i as nat).contains_key(key@),
            found matches Some(j) ==> j < i && pairs_model(*pairs, i as nat)[key@]
                == pairs[j as int].1@,
        decreases pairs.len() - i,
    {
        if pairs[i].0 == *key {
            found = Some(i);
        }
        i += 1;
    }
    found
}

/// The pairs of an object with one member set: the pairs under other keys, then
/// the new pair.
pub fn with_member(pairs: &Vec<(String, TreeValue)>, key: &String, child: TreeValue) -> (r: Vec<
    (String, TreeValue),
>)
    ensures
        object_of(r) == object_of(*pairs).insert(key@, child@),
{
    let mut out: Vec<(String, TreeValue)> = Vec::new();
    let mut i: usize = 0;
    while i < pairs.len()
        invariant
            i <= pairs.len(),
            object_of(out) == pairs_model(*pairs, i as nat).remove(key@),
        decreases pairs.len() - i,
    {
        if !(pairs[i].0 == *key) {
            let k = pairs[i].0.clone();
            let c = pairs[i].1.clone_tree();
            let ghost before = out;
            out.push((k, c));
            proof {
                lemma_pairs_prefix(before, out, before.len() as nat);
                assert(object_of(out) =~= pairs_model(*pairs, (i + 1) as nat).remove(key@));
            }
        } else {
            proof {
                assert(object_of(out) =~= pairs_model(*pairs, (i + 1) as nat).remove(key@));
            }
        }
        i += 1;
    }
    let ghost before = out;
    let k = key.clone();
    out.push((k, child));
    proof {
        lemma_pairs_prefix(before, out, before.len() as nat);
        assert(object_of(out) =~= object_of(*pairs).insert(key@, child@));
    }
    out
}

/// Places a copy of `value` in `node` at the segments of `path` from `from` on.
/// Where no segment is left, the result is a copy of `node`.
pub fn put_path(node: &TreeValue, path: &Vec<String>, from: usize, value: &TreeValue) -> (r:
    TreeValue)
    ensures
        from <= path.len() ==> r@ == put(
            node@,
            crate::path::segments_of(*path).skip(from as int),
            value@,
        ),
        from >= path.len() ==> r@ == node@,
    decreases path.len() - from,
{
    let ghost rest = crate::path::segments_of(*path).skip(from as int);
    if from >= path.len() {
        return node.clone_tree();
    }
    match node {
        TreeValue::Object(pairs) => {
            let key = &path[from];
            proof {
                assert(rest[0] == key@);
                assert(rest.skip(1) =~= crate::path::segments_of(*path).skip(from + 1));
            }
            if from + 1 == path.len() {
                TreeValue::Object(with_member(pairs, key, value.clone_tree()))
            } else {
                let child = match find_member(pairs, key) {
                    Some(i) => put_path(&pairs[i].1, path, from + 1, value),
                    None => put_path(&TreeValue::empty_object(), path, from + 1, value),
                };
                TreeValue::Object(with_member(pairs, key, child))
            }
        },
        _ => node.clone_tree(),
    }
}

} // verus!
