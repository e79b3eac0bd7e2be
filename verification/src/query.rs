//! Builders of query strings: which containers to list, which logs to fetch, how
//! to remove a container.

use crate::json::{json_text, render};
use crate::store::{query_text, store_set, QueryStore};
use crate::text::{decimal_string, decimal_text};
use crate::tree::{
    clone_items, find_member, lemma_items_prefix, list_of, object_of, with_member, TreeModel,
    TreeValue,
};
use vstd::prelude::*;
use vstd::string::StringExecFns;

verus! {

/// A condition on the containers that a listing returns.
pub enum ContainerFilter {
    ExitCode(u64),
    Status(String),
    LabelName(String),
    Label(String, String),
}

/// The kind under which a filter is filed.
pub open spec fn filter_kind(f: ContainerFilter) -> Seq<char> {
    match f {
        ContainerFilter::ExitCode(_) => "exit"@,
        ContainerFilter::Status(_) => "status"@,
        ContainerFilter::LabelName(_) => "label"@,
        ContainerFilter::Label(_, _) => "label"@,
    }
}

/// The text that a filter asks for.
pub open spec fn filter_value(f: ContainerFilter) -> Seq<char> {
    match f {
        ContainerFilter::ExitCode(code) => decimal_text(code as int),
        ContainerFilter::Status(status) => status@,
        ContainerFilter::LabelName(name) => name@,
        ContainerFilter::Label(name, value) => name@ + seq!['='] + value@,
    }
}

/// The texts filed under a kind: none where the kind is not filed yet.
pub open spec fn kind_values(members: Map<Seq<char>, TreeModel>, kind: Seq<char>) -> Seq<
    TreeModel,
> {
    if members.contains_key(kind) {
        match members[kind] {
            TreeModel::List(values) => values,
            _ => Seq::empty(),
        }
    } else {
        Seq::empty()
    }
}

/// The filters of the first `n` places, by kind: each kind with the texts of its
/// filters, in the order in which they were given.
pub open spec fn filter_members(filters: Vec<ContainerFilter>, n: nat) -> Map<
    Seq<char>,
    TreeModel,
>
    decreases n,
{
    if n == 0 || n > filters.len() {
        Map::empty()
    } else {
        let before = filter_members(filters, (n - 1) as nat);
        let kind = filter_kind(filters[n - 1]);
        before.insert(
            kind,
            TreeModel::List(
                kind_values(before, kind).push(TreeModel::Text(filter_value(filters[n - 1]))),
            ),
        )
    }
}

/// The object that a list of filters is sent as.
pub open spec fn filters_object(filters: Vec<ContainerFilter>) -> TreeModel {
    TreeModel::Object(filter_members(filters, filters.len() as nat))
}

/// A boolean as it is written in a query string.
pub open spec fn bool_text(b: bool) -> Seq<char> {
    if b {
        "true"@
    } else {
        "false"@
    }
}

/// A boolean as it is written in a query string.
pub fn bool_string(b: bool) -> (r: String)
    ensures
        r@ == bool_text(b),
{
    if b {
        "true".to_owned()
    } else {
        "false".to_owned()
    }
}

/// The kind and the text of one filter.
pub fn filter_entry(f: &ContainerFilter) -> (r: (String, String))
    ensures
        r.0@ == filter_kind(*f),
        r.1@ == filter_value(*f),
{
    match f {
        ContainerFilter::ExitCode(code) => ("exit".to_owned(), decimal_string(*code as i128)),
        ContainerFilter::Status(status) => ("status".to_owned(), status.clone()),
        ContainerFilter::LabelName(name) => ("label".to_owned(), name.clone()),
        ContainerFilter::Label(name, value) => {
            proof {
                reveal_strlit("=");
                assert("="@ =~= seq!['=']);
            }
            let mut text = name.clone();
            text.append("=");
            text.append(value.as_str());
            ("label".to_owned(), text)
        },
    }
}

/// The object that a list of filters is sent as, as a tree.
pub fn filters_tree(filters: &Vec<ContainerFilter>) -> (r: TreeValue)
    ensures
        r@ == filters_object(*filters),
{
    let mut members: Vec<(String, TreeValue)> = Vec::new();
    let mut i: usize = 0;
    while i < filters.len()
        invariant
            i <= filters.len(),
            object_of(members) == filter_members(*filters, i as nat),
        decreases filters.len() - i,
    {
        let entry = filter_entry(&filters[i]);
        let mut items: Vec<TreeValue> = match find_member(&members, &entry.0) {
            Some(j) => match &members[j].1 {
                TreeValue::Array(filed) => clone_items(filed),
                _ => Vec::new(),
            },
            None => Vec::new(),
        };
        let ghost filed = items;
        proof {
            assert(list_of(filed) == kind_values(object_of(members), entry.0@));
        }
        items.push(TreeValue::String(entry.1));
        proof {
            lemma_items_prefix(filed, items, filed.len() as nat);
            assert(items[filed.len() as int]@ == TreeModel::Text(
                filter_value(filters[i as int]),
            ));
            assert(list_of(items) == crate::tree::items_model(items, filed.len() as nat).push(
                items[filed.len() as int]@,
            ));
            assert(list_of(items) == list_of(filed).push(
                TreeModel::Text(filter_value(filters[i as int])),
            ));
        }
        members = with_member(&members, &entry.0, TreeValue::Array(items));
        i += 1;
    }
    TreeValue::Object(members)
}

/// The text that is filed for a list of filters, given how their rendering went:
/// the rendered text, or nothing where it failed.
pub fn filters_param(rendered: Result<String, serde_json::Error>) -> (r: String)
    ensures
        match rendered {
            Ok(s) => r@ == s@,
            Err(_) => r@ == Seq::<char>::empty(),
        },
{
    match rendered {
        Ok(s) => s,
        Err(_) => String::new(),
    }
}

/// Which containers to list.
pub struct ContainerListOpts {
    params: QueryStore,
}

impl View for ContainerListOpts {
    type V = Seq<(Seq<char>, Seq<char>)>;

    closed spec fn view(&self) -> Seq<(Seq<char>, Seq<char>)> {
        self.params@
    }
}

impl ContainerListOpts {
    /// A builder with nothing set.
    pub fn builder() -> (r: ContainerListOptsBuilder)
        ensures
            r@ == Seq::<(Seq<char>, Seq<char>)>::empty(),
    {
        ContainerListOptsBuilder::new()
    }

    /// The query string; `None` where nothing was set.
    pub fn serialize(&self) -> (r: Option<String>)
        ensures
            self@.len() == 0 ==> r is None,
            self@.len() > 0 ==> r is Some,
            r matches Some(s) ==> s@ == query_text(self@),
    {
        self.params.encode()
    }
}

/// Collects the conditions of a listing.
pub struct ContainerListOptsBuilder {
    params: QueryStore,
}

impl View for ContainerListOptsBuilder {
    type V = Seq<(Seq<char>, Seq<char>)>;

    closed spec fn view(&self) -> Seq<(Seq<char>, Seq<char>)> {
        self.params@
    }
}

impl Default for ContainerListOptsBuilder {
    /// A builder with nothing set.
    fn default() -> (r: ContainerListOptsBuilder)
        ensures
            r@ == Seq::<(Seq<char>, Seq<char>)>::empty(),
    {
        ContainerListOptsBuilder::new()
    }
}

impl ContainerListOptsBuilder {
    /// A builder with nothing set.
    pub fn new() -> (r: ContainerListOptsBuilder)
        ensures
            r@ == Seq::<(Seq<char>, Seq<char>)>::empty(),
    {
        ContainerListOptsBuilder { params: QueryStore::new() }
    }

    /// Files `value` under `key`, in place of what was filed there.
    pub fn insert(&mut self, key: &str, value: String) -> (r: &mut ContainerListOptsBuilder)
        ensures
            r@ == store_set(old(self)@, key@, value@),
            *final(self) == *final(r),
    {
        self.params.insert(key, value);
        self
    }

    /// Sets the filters of the listing, in place of those set before: the JSON
    /// text of an object from each kind of filter to the list of its texts.
    pub fn filter(&mut self, filters: Vec<ContainerFilter>) -> (r: &mut ContainerListOptsBuilder)
        ensures
            r@ == store_set(old(self)@, "filters"@, json_text(filters_object(filters))),
            *final(self) == *final(r),
    {
        let tree = filters_tree(&filters);
        let text = filters_param(render(&tree));
        self.insert("filters", text)
    }

    /// Whether stopped containers are listed too.
    pub fn all(&mut self, all: bool) -> (r: &mut ContainerListOptsBuilder)
        ensures
            r@ == store_set(old(self)@, "all"@, bool_text(all)),
            *final(self) == *final(r),
    {
        self.insert("all", bool_string(all))
    }

    /// Lists only containers created since the given one.
    pub fn since(&mut self, since: &str) -> (r: &mut ContainerListOptsBuilder)
        ensures
            r@ == store_set(old(self)@, "since"@, since@),
            *final(self) == *final(r),
    {
        self.insert("since", since.to_owned())
    }

    /// Lists only containers created before the given one.
    pub fn before(&mut self, before: &str) -> (r: &mut ContainerListOptsBuilder)
        ensures
            r@ == store_set(old(self)@, "before"@, before@),
            *final(self) == *final(r),
    {
        self.insert("before", before.to_owned())
    }

    /// Whether the sizes of the containers are returned.
    pub fn sized(&mut self, sized: bool) -> (r: &mut ContainerListOptsBuilder)
        ensures
            r@ == store_set(old(self)@, "size"@, bool_text(sized)),
            *final(self) == *final(r),
    {
        self.insert("size", bool_string(sized))
    }

    /// A snapshot of what was set so far; the builder stays usable.
    pub fn build(&self) -> (r: ContainerListOpts)
        ensures
            r@ == self@,
    {
        ContainerListOpts { params: self.params.clone_store() }
    }
}

/// Which logs of a container to fetch.
pub struct LogsOpts {
    params: QueryStore,
}

impl View for LogsOpts {
    type V = Seq<(Seq<char>, Seq<char>)>;

    closed spec fn view(&self) -> Seq<(Seq<char>, Seq<char>)> {
        self.params@
    }
}

impl LogsOpts {
    /// A builder with nothing set.
    pub fn builder() -> (r: LogsOptsBuilder)
        ensures
            r@ == Seq::<(Seq<char>, Seq<char>)>::empty(),
    {
        LogsOptsBuilder::new()
    }

    /// The query string; `None` where nothing was set.
    pub fn serialize(&self) -> (r: Option<String>)
        ensures
            self@.len() == 0 ==> r is None,
            self@.len() > 0 ==> r is Some,
            r matches Some(s) ==> s@ == query_text(self@),
    {
        self.params.encode()
    }
}

/// Collects the settings of a log query.
pub struct LogsOptsBuilder {
    params: QueryStore,
}

impl View for LogsOptsBuilder {
    type V = Seq<(Seq<char>, Seq<char>)>;

    closed spec fn view(&self) -> Seq<(Seq<char>, Seq<char>)> {
        self.params@
    }
}

impl Default for LogsOptsBuilder {
    /// A builder with nothing set.
    fn default() -> (r: LogsOptsBuilder)
        ensures
            r@ == Seq::<(Seq<char>, Seq<char>)>::empty(),
    {
        LogsOptsBuilder::new()
    }
}

impl LogsOptsBuilder {
    /// A builder with nothing set.
    pub fn new() -> (r: LogsOptsBuilder)
        ensures
            r@ == Seq::<(Seq<char>, Seq<char>)>::empty(),
    {
        LogsOptsBuilder { params: QueryStore::new() }
    }

    /// Files `value` under `key`, in place of what was filed there.
    pub fn insert(&mut self, key: &str, value: String) -> (r: &mut LogsOptsBuilder)
        ensures
            r@ == store_set(old(self)@, key@, value@),
            *final(self) == *final(r),
    {
        self.params.insert(key, value);
        self
    }

    /// Whether the stream stays open for new output.
    pub fn follow(&mut self, follow: bool) -> (r: &mut LogsOptsBuilder)
        ensures
            r@ == store_set(old(self)@, "follow"@, bool_text(follow)),
            *final(self) == *final(r),
    {
        self.insert("follow", bool_string(follow))
    }

    /// Whether `stdout` is returned.
    pub fn stdout(&mut self, stdout: bool) -> (r: &mut LogsOptsBuilder)
        ensures
            r@ == store_set(old(self)@, "stdout"@, bool_text(stdout)),
            *final(self) == *final(r),
    {
        self.insert("stdout", bool_string(stdout))
    }

    /// Whether `stderr` is returned.
    pub fn stderr(&mut self, stderr: bool) -> (r: &mut LogsOptsBuilder)
        ensures
            r@ == store_set(old(self)@, "stderr"@, bool_text(stderr)),
            *final(self) == *final(r),
    {
        self.insert("stderr", bool_string(stderr))
    }

    /// Whether each line carries its time.
    pub fn timestamps(&mut self, timestamps: bool) -> (r: &mut LogsOptsBuilder)
        ensures
            r@ == store_set(old(self)@, "timestamps"@, bool_text(timestamps)),
            *final(self) == *final(r),
    {
        self.insert("timestamps", bool_string(timestamps))
    }

    /// How many lines from the end are returned: a number, or `all`.
    pub fn tail(&mut self, tail: &str) -> (r: &mut LogsOptsBuilder)
        ensures
            r@ == store_set(old(self)@, "tail"@, tail@),
            *final(self) == *final(r),
    {
        self.insert("tail", tail.to_owned())
    }

    /// Returns only what was logged since the given time, in seconds of the Unix epoch.
    pub fn since(&mut self, timestamp: i64) -> (r: &mut LogsOptsBuilder)
        ensures
            r@ == store_set(old(self)@, "since"@, decimal_text(timestamp as int)),
            *final(self) == *final(r),
    {
        self.insert("since", decimal_string(timestamp as i128))
    }

    /// A snapshot of what was set so far; the builder stays usable.
    pub fn build(&self) -> (r: LogsOpts)
        ensures
            r@ == self@,
    {
        LogsOpts { params: self.params.clone_store() }
    }
}

/// How to remove a container.
pub struct RmContainerOpts {
    params: QueryStore,
}

impl View for RmContainerOpts {
    type V = Seq<(Seq<char>, Seq<char>)>;

    closed spec fn view(&self) -> Seq<(Seq<char>, Seq<char>)> {
        self.params@
    }
}

impl RmContainerOpts {
    /// A builder with nothing set.
    pub fn builder() -> (r: RmContainerOptsBuilder)
        ensures
            r@ == Seq::<(Seq<char>, Seq<char>)>::empty(),
    {
        RmContainerOptsBuilder::new()
    }

    /// The query string; `None` where nothing was set.
    pub fn serialize(&self) -> (r: Option<String>)
        ensures
            self@.len() == 0 ==> r is None,
            self@.len() > 0 ==> r is Some,
            r matches Some(s) ==> s@ == query_text(self@),
    {
        self.params.encode()
    }
}

/// Collects the settings of a removal.
pub struct RmContainerOptsBuilder {
    params: QueryStore,
}

impl View for RmContainerOptsBuilder {
    type V = Seq<(Seq<char>, Seq<char>)>;

    closed spec fn view(&self) -> Seq<(Seq<char>, Seq<char>)> {
        self.params@
    }
}

impl Default for RmContainerOptsBuilder {
    /// A builder with nothing set.
    fn default() -> (r: RmContainerOptsBuilder)
        ensures
            r@ == Seq::<(Seq<char>, Seq<char>)>::empty(),
    {
        RmContainerOptsBuilder::new()
    }
}

impl RmContainerOptsBuilder {
    /// A builder with nothing set.
    pub fn new() -> (r: RmContainerOptsBuilder)
        ensures
            r@ == Seq::<(Seq<char>, Seq<char>)>::empty(),
    {
        RmContainerOptsBuilder { params: QueryStore::new() }
    }

    /// Files `value` under `key`, in place of what was filed there.
    pub fn insert(&mut self, key: &str, value: String) -> (r: &mut RmContainerOptsBuilder)
        ensures
            r@ == store_set(old(self)@, key@, value@),
            *final(self) == *final(r),
    {
        self.params.insert(key, value);
        self
    }

    /// Whether a running container is killed first.
    pub fn force(&mut self, force: bool) -> (r: &mut RmContainerOptsBuilder)
        ensures
            r@ == store_set(old(self)@, "force"@, bool_text(force)),
            *final(self) == *final(r),
    {
        self.insert("force", bool_string(force))
    }

    /// Whether the container's volumes are removed with it.
    pub fn volumes(&mut self, volumes: bool) -> (r: &mut RmContainerOptsBuilder)
        ensures
            r@ == store_set(old(self)@, "v"@, bool_text(volumes)),
            *final(self) == *final(r),
    {
        self.insert("v", bool_string(volumes))
    }

    /// A snapshot of what was set so far; the builder stays usable.
    pub fn build(&self) -> (r: RmContainerOpts)
        ensures
            r@ == self@,
    {
        RmContainerOpts { params: self.params.clone_store() }
    }
}

} // verus!
