//! The specification of a container to create: a builder that files values under
//! dotted keys, and the request body that is assembled from them.

use crate::json::{json_text, render};
use crate::path::{segments_of, split_dots, split_key};
use crate::store::{keys_distinct, store_get, store_remove, store_set, ParamStore};
use crate::text::{decimal_digits, decimal_string, port_key, port_key_text};
use crate::tree::{
    clone_pairs, empty_object, lemma_items_model_index, lemma_pairs_prefix, object_of,
    pairs_model, put, put_path, with_member, TreeModel, TreeValue,
};
use vstd::prelude::*;

verus! {

/// What can go wrong when a request body is rendered.
#[derive(Debug)]
pub enum SerializationError {
    /// `serde_json` could not render the body.
    Json(serde_json::Error),
}

/// What a builder or a finished specification holds: the name, which is no part
/// of the body, and the parameters in the order in which their keys were first set.
pub struct OptsModel {
    pub name: Option<Seq<char>>,
    pub params: Seq<(Seq<char>, TreeModel)>,
}

/// The body before any parameter is placed: an empty host configuration.
pub open spec fn body_seed() -> TreeModel {
    TreeModel::Object(Map::empty().insert("HostConfig"@, empty_object()))
}

/// The tree that comes of placing each parameter, in order, at the path that its
/// key spells.
pub open spec fn assemble(params: Seq<(Seq<char>, TreeModel)>, seed: TreeModel) -> TreeModel
    decreases params.len(),
{
    if params.len() == 0 {
        seed
    } else {
        put(assemble(params.drop_last(), seed), split_dots(params.last().0), params.last().1)
    }
}

/// The members of the object filed under `key`; none where nothing is filed
/// there, or something that is no object.
pub open spec fn object_at(params: Seq<(Seq<char>, TreeModel)>, key: Seq<char>) -> Map<
    Seq<char>,
    TreeModel,
> {
    match store_get(params, key) {
        Some(TreeModel::Object(members)) => members,
        _ => Map::empty(),
    }
}

/// The same keys, each with an empty object: a set of keys in the shape of a map.
pub open spec fn blank(members: Map<Seq<char>, TreeModel>) -> Map<Seq<char>, TreeModel> {
    Map::new(|k: Seq<char>| members.contains_key(k), |k: Seq<char>| empty_object())
}

/// The bindings of a container port to one host port.
pub open spec fn host_binding(hostport: u32) -> TreeModel {
    TreeModel::List(
        seq![
            TreeModel::Object(
                Map::empty().insert("HostPort"@, TreeModel::Text(decimal_digits(hostport as nat))),
            ),
        ],
    )
}

/// The strings of a list as text leaves.
pub open spec fn texts(items: Vec<String>) -> Seq<TreeModel> {
    Seq::new(items.len() as nat, |i: int| TreeModel::Text(items[i]@))
}

/// The map that the first `n` labels stand for: a later label replaces an
/// earlier one with the same name.
pub open spec fn labels_map(labels: Vec<(String, String)>, n: nat) -> Map<Seq<char>, TreeModel>
    decreases n,
{
    if n == 0 || n > labels.len() {
        Map::empty()
    } else {
        labels_map(labels, (n - 1) as nat).insert(
            labels[n - 1].0@,
            TreeModel::Text(labels[n - 1].1@),
        )
    }
}

/// The object of a list of labels.
pub open spec fn labels_object(labels: Vec<(String, String)>) -> TreeModel {
    TreeModel::Object(labels_map(labels, labels.len() as nat))
}

/// The objects of a list of devices.
pub open spec fn devices_list(devices: Vec<Vec<(String, String)>>) -> Seq<TreeModel> {
    Seq::new(devices.len() as nat, |i: int| labels_object(devices[i]))
}

/// A duration as it is written in a body: its whole seconds and the nanoseconds
/// beyond them.
pub open spec fn duration_object(secs: u64, nanos: u32) -> TreeModel {
    TreeModel::Object(
        Map::empty().insert("secs"@, TreeModel::Number(secs as int)).insert(
            "nanos"@,
            TreeModel::Number(nanos as int),
        ),
    )
}

impl OptsModel {
    /// With `value` filed under `key`.
    pub open spec fn with_param(self, key: Seq<char>, value: TreeModel) -> OptsModel {
        OptsModel { name: self.name, params: store_set(self.params, key, value) }
    }

    /// The port bindings that are filed.
    pub open spec fn port_bindings(self) -> Map<Seq<char>, TreeModel> {
        object_at(self.params, "HostConfig.PortBindings"@)
    }

    /// The exposed ports that are filed.
    pub open spec fn exposed_ports(self) -> Map<Seq<char>, TreeModel> {
        object_at(self.params, "ExposedPorts"@)
    }

    /// With a container port bound to a host port: the binding joins the port
    /// bindings, replacing the one for the same port and protocol, and the exposed
    /// ports become the keys of the port bindings.
    pub open spec fn expose(self, srcport: u32, protocol: Seq<char>, hostport: u32) -> OptsModel {
        let merged = self.port_bindings().insert(
            port_key_text(srcport, protocol),
            host_binding(hostport),
        );
        self.with_param("HostConfig.PortBindings"@, TreeModel::Object(merged)).with_param(
            "ExposedPorts"@,
            TreeModel::Object(blank(merged)),
        )
    }

    /// With a container port exposed and no host port chosen: the port joins the
    /// exposed ports; the port bindings stay.
    pub open spec fn publish(self, srcport: u32, protocol: Seq<char>) -> OptsModel {
        let merged = self.exposed_ports().insert(port_key_text(srcport, protocol), empty_object());
        self.with_param("ExposedPorts"@, TreeModel::Object(blank(merged)))
    }

    /// Without what is filed under `key`.
    pub open spec fn without_param(self, key: Seq<char>) -> OptsModel {
        OptsModel { name: self.name, params: store_remove(self.params, key) }
    }

    /// With a restart policy: its name, and the retry count where the name is
    /// `on-failure`. With another name no retry count is filed afterwards.
    pub open spec fn restart_policy(self, name: Seq<char>, maximum_retry_count: u64) -> OptsModel {
        let named = self.with_param("HostConfig.RestartPolicy.Name"@, TreeModel::Text(name));
        if name == "on-failure"@ {
            named.with_param(
                "HostConfig.RestartPolicy.MaximumRetryCount"@,
                TreeModel::Number(maximum_retry_count as int),
            )
        } else {
            named.without_param("HostConfig.RestartPolicy.MaximumRetryCount"@)
        }
    }

    /// The request body: the parameters assembled over the empty host configuration.
    pub open spec fn body(self) -> TreeModel {
        assemble(self.params, body_seed())
    }
}

/// Whether `r` is what serializing a specification with this model returns: the
/// JSON text of the model's body.
pub open spec fn is_serialization_of(model: OptsModel, r: Result<String, SerializationError>) -> bool {
    r matches Ok(s) && s@ == json_text(model.body())
}

/// A copy of an optional name.
fn clone_name(name: &Option<String>) -> (r: Option<String>)
    ensures
        name_model(r) == name_model(*name),
{
    match name {
        Some(n) => Some(n.clone()),
        None => None,
    }
}

/// The text of an optional name.
pub open spec fn name_model(name: Option<String>) -> Option<Seq<char>> {
    match name {
        Some(n) => Some(n@),
        None => None,
    }
}

/// A list of strings as an array of text leaves.
pub fn text_list(items: &Vec<String>) -> (r: TreeValue)
    ensures
        r@ == TreeModel::List(texts(*items)),
{
    let mut out: Vec<TreeValue> = Vec::new();
    let mut i: usize = 0;
    while i < items.len()
        invariant
            i <= items.len(),
            out.len() == i,
            forall|j: int| 0 <= j < i ==> out[j]@ == TreeModel::Text(items[j]@),
        decreases items.len() - i,
    {
        out.push(TreeValue::String(items[i].clone()));
        i += 1;
    }
    proof {
        lemma_items_model_index(out, out.len() as nat);
        assert(crate::tree::list_of(out) =~= texts(*items));
    }
    TreeValue::Array(out)
}

/// A list of labels as an object of text leaves.
pub fn labels_tree(labels: &Vec<(String, String)>) -> (r: TreeValue)
    ensures
        r@ == labels_object(*labels),
{
    let mut out: Vec<(String, TreeValue)> = Vec::new();
    let mut i: usize = 0;
    while i < labels.len()
        invariant
            i <= labels.len(),
            out.len() == i,
            object_of(out) == labels_map(*labels, i as nat),
        decreases labels.len() - i,
    {
        let ghost before = out;
        let name = labels[i].0.clone();
        let value = TreeValue::String(labels[i].1.clone());
        out.push((name, value));
        proof {
            lemma_pairs_prefix(before, out, i as nat);
            assert(out[i as int].0@ == labels[i as int].0@);
            assert(out[i as int].1@ == TreeModel::Text(labels[i as int].1@));
            assert(pairs_model(out, (i + 1) as nat) == pairs_model(out, i as nat).insert(
                out[i as int].0@,
                out[i as int].1@,
            ));
        }
        i += 1;
    }
    TreeValue::Object(out)
}

/// A list of devices as an array of objects.
pub fn devices_tree(devices: &Vec<Vec<(String, String)>>) -> (r: TreeValue)
    ensures
        r@ == TreeModel::List(devices_list(*devices)),
{
    let mut out: Vec<TreeValue> = Vec::new();
    let mut i: usize = 0;
    while i < devices.len()
        invariant
            i <= devices.len(),
            out.len() == i,
            forall|j: int| 0 <= j < i ==> out[j]@ == labels_object(devices[j]),
        decreases devices.len() - i,
    {
        out.push(labels_tree(&devices[i]));
        i += 1;
    }
    proof {
        lemma_items_model_index(out, out.len() as nat);
        assert(crate::tree::list_of(out) =~= devices_list(*devices));
    }
    TreeValue::Array(out)
}

/// The pairs of an object with every value replaced by an empty object.
pub fn blank_pairs(pairs: &Vec<(String, TreeValue)>) -> (r: Vec<(String, TreeValue)>)
    ensures
        object_of(r) == blank(object_of(*pairs)),
{
    let mut out: Vec<(String, TreeValue)> = Vec::new();
    let mut i: usize = 0;
    proof {
        assert(object_of(out) =~= blank(pairs_model(*pairs, 0)));
    }
    while i < pairs.len()
        invariant
            i <= pairs.len(),
            out.len() == i,
            object_of(out) == blank(pairs_model(*pairs, i as nat)),
        decreases pairs.len() - i,
    {
        let ghost before = out;
        out.push((pairs[i].0.clone(), TreeValue::empty_object()));
        proof {
            lemma_pairs_prefix(before, out, i as nat);
            assert(object_of(out) =~= blank(pairs_model(*pairs, (i + 1) as nat)));
        }
        i += 1;
    }
    out
}

/// A copy of the pairs of the object filed under `key`: none where nothing is
/// filed there, or something that is no object.
pub fn object_pairs(params: &ParamStore, key: &str) -> (r: Vec<(String, TreeValue)>)
    ensures
        object_of(r) == object_at(params@, key@),
{
    match params.get(key) {
        Some(TreeValue::Object(pairs)) => clone_pairs(pairs),
        _ => Vec::new(),
    }
}

/// The bindings of a container port to one host port, as a tree.
pub fn host_binding_tree(hostport: u32) -> (r: TreeValue)
    ensures
        r@ == host_binding(hostport),
{
    let port = TreeValue::String(decimal_string(hostport as i128));
    let mut pairs: Vec<(String, TreeValue)> = Vec::new();
    pairs.push(("HostPort".to_owned(), port));
    let entry = TreeValue::Object(pairs);
    let mut items: Vec<TreeValue> = Vec::new();
    items.push(entry);
    proof {
        assert(crate::text::decimal_text(hostport as i128 as int) == decimal_digits(hostport as nat));
        assert(pairs_model(pairs, 0) =~= Map::empty());
        assert(pairs_model(pairs, 1) == pairs_model(pairs, 0).insert(pairs[0].0@, pairs[0].1@));
        assert(entry@ == TreeModel::Object(
            Map::empty().insert("HostPort"@, TreeModel::Text(decimal_digits(hostport as nat))),
        ));
        lemma_items_model_index(items, 1);
        assert(crate::tree::list_of(items) =~= seq![entry@]);
    }
    TreeValue::Array(items)
}

/// Maps the outcome of rendering to this library's result: the text as it is,
/// the failure as a serialization error.
pub fn serialized(rendered: Result<String, serde_json::Error>) -> (r: Result<String, SerializationError>)
    ensures
        match rendered {
            Ok(s) => r == Ok::<String, SerializationError>(s),
            Err(e) => r == Err::<String, SerializationError>(SerializationError::Json(e)),
        },
{
    match rendered {
        Ok(s) => Ok(s),
        Err(e) => Err(SerializationError::Json(e)),
    }
}

/// The finished specification of a container: a snapshot of a builder.
#[derive(Debug)]
pub struct ContainerOpts {
    pub name: Option<String>,
    pub params: ParamStore,
}

impl View for ContainerOpts {
    type V = OptsModel;

    open spec fn view(&self) -> OptsModel {
        OptsModel { name: name_model(self.name), params: self.params@ }
    }
}

impl ContainerOpts {
    /// A builder for a container of the given image.
    pub fn builder(name: &str) -> (r: ContainerOptsBuilder)
        ensures
            r@ == (OptsModel { name: None, params: seq![("Image"@, TreeModel::Text(name@))] }),
    {
        ContainerOptsBuilder::new(name)
    }

    /// The request body as JSON text.
    pub fn serialize(&self) -> (r: Result<String, SerializationError>)
        ensures
            is_serialization_of(self@, r),
    {
        let body = self.to_json();
        serialized(render(&body))
    }

    /// The name, which travels beside the body.
    pub fn name(&self) -> (r: &Option<String>)
        ensures
            name_model(*r) == self@.name,
    {
        &self.name
    }

    /// The parameters that were set; no key is among them twice.
    pub fn params(&self) -> (r: &ParamStore)
        ensures
            r@ == self@.params,
            keys_distinct(self@.params),
    {
        let _count: usize = self.params.len();
        &self.params
    }

    /// The request body as a tree.
    pub fn to_json(&self) -> (r: TreeValue)
        ensures
            r@ == self@.body(),
    {
        let mut members: Vec<(String, TreeValue)> = Vec::new();
        members.push(("HostConfig".to_owned(), TreeValue::empty_object()));
        proof {
            assert(pairs_model(members, 0) =~= Map::empty());
        }
        let mut body = TreeValue::Object(members);
        self.parse_from(&self.params, &mut body);
        body
    }

    /// Places every parameter of `params` in `body`, each at the path that its
    /// key spells.
    pub fn parse_from(&self, params: &ParamStore, body: &mut TreeValue)
        ensures
            final(body)@ == assemble(params@, old(body)@),
    {
        let n: usize = params.len();
        let mut i: usize = 0;
        while i < n
            invariant
                n == params@.len(),
                i <= n,
                body@ == assemble(params@.take(i as int), old(body)@),
            decreases n - i,
        {
            let path = split_key(params.key(i).as_str());
            let next = put_path(&*body, &path, 0, params.value(i));
            proof {
                assert(params@.take(i + 1).drop_last() =~= params@.take(i as int));
                assert(params@.take(i + 1).last() == params@[i as int]);
                assert(segments_of(path).skip(0) =~= segments_of(path));
            }
            *body = next;
            i += 1;
        }
        proof {
            assert(params@.take(n as int) =~= params@);
        }
    }
}

/// Collects the specification of a container, one setting at a time.
pub struct ContainerOptsBuilder {
    pub name: Option<String>,
    pub params: ParamStore,
}

impl View for ContainerOptsBuilder {
    type V = OptsModel;

    open spec fn view(&self) -> OptsModel {
        OptsModel { name: name_model(self.name), params: self.params@ }
    }
}

impl Default for ContainerOptsBuilder {
    /// A builder with nothing set, not even an image.
    fn default() -> (r: ContainerOptsBuilder)
        ensures
            r@ == (OptsModel { name: None, params: Seq::empty() }),
    {
        ContainerOptsBuilder { name: None, params: ParamStore::new() }
    }
}

impl ContainerOptsBuilder {
    /// A builder for a container of the given image.
    pub fn new(image: &str) -> (r: ContainerOptsBuilder)
        ensures
            r@ == (OptsModel { name: None, params: seq![("Image"@, TreeModel::Text(image@))] }),
    {
        let mut params = ParamStore::new();
        params.insert("Image", TreeValue::text(image));
        proof {
            assert(store_set(Seq::<(Seq<char>, TreeModel)>::empty(), "Image"@, TreeModel::Text(image@))
                =~= seq![("Image"@, TreeModel::Text(image@))]);
        }
        ContainerOptsBuilder { name: None, params }
    }

    /// Files `value` under `key`, in place of what was filed there.
    pub fn insert(&mut self, key: &str, value: TreeValue) -> (r: &mut ContainerOptsBuilder)
        ensures
            r@ == old(self)@.with_param(key@, value@),
            *final(self) == *final(r),
    {
        self.params.insert(key, value);
        self
    }

    /// Sets the container's name, which is no part of the body.
    pub fn name(&mut self, name: &str) -> (r: &mut ContainerOptsBuilder)
        ensures
            r@ == (OptsModel { name: Some(name@), params: old(self)@.params }),
            *final(self) == *final(r),
    {
        self.name = Some(name.to_owned());
        self
    }

    /// Has every exposed port mapped to a free port of the host.
    pub fn publish_all_ports(&mut self) -> (r: &mut ContainerOptsBuilder)
        ensures
            r@ == old(self)@.with_param("HostConfig.PublishAllPorts"@, TreeModel::Bool(true)),
            *final(self) == *final(r),
    {
        self.insert("HostConfig.PublishAllPorts", TreeValue::Bool(true))
    }

    /// Binds a port of the container to a port of the host.
    pub fn expose(&mut self, srcport: u32, protocol: &str, hostport: u32) -> (r: &mut ContainerOptsBuilder)
        ensures
            r@ == old(self)@.expose(srcport, protocol@, hostport),
            *final(self) == *final(r),
    {
        let key = port_key(srcport, protocol);
        let current = object_pairs(&self.params, "HostConfig.PortBindings");
        let merged = with_member(&current, &key, host_binding_tree(hostport));
        let exposed = blank_pairs(&merged);
        self.insert("HostConfig.PortBindings", TreeValue::Object(merged)).insert(
            "ExposedPorts",
            TreeValue::Object(exposed),
        )
    }

    /// Exposes a port of the container without choosing a port of the host.
    pub fn publish(&mut self, srcport: u32, protocol: &str) -> (r: &mut ContainerOptsBuilder)
        ensures
            r@ == old(self)@.publish(srcport, protocol@),
            *final(self) == *final(r),
    {
        let key = port_key(srcport, protocol);
        let current = object_pairs(&self.params, "ExposedPorts");
        let merged = with_member(&current, &key, TreeValue::empty_object());
        let exposed = blank_pairs(&merged);
        self.insert("ExposedPorts", TreeValue::Object(exposed))
    }

    /// Whether to attach to `stdin`, and to keep it open.
    pub fn attach_stdin(&mut self, attach: bool) -> (r: &mut ContainerOptsBuilder)
        ensures
            r@ == old(self)@.with_param("AttachStdin"@, TreeModel::Bool(attach)).with_param(
                "OpenStdin"@,
                TreeModel::Bool(attach),
            ),
            *final(self) == *final(r),
    {
        self.insert("AttachStdin", TreeValue::Bool(attach)).insert(
            "OpenStdin",
            TreeValue::Bool(attach),
        )
    }

    /// The devices to hand to the container, each a list of named settings.
    pub fn devices(&mut self, devices: Vec<Vec<(String, String)>>) -> (r: &mut ContainerOptsBuilder)
        ensures
            r@ == old(self)@.with_param("HostConfig.Devices"@, TreeModel::List(devices_list(devices))),
            *final(self) == *final(r),
    {
        self.insert("HostConfig.Devices", devices_tree(&devices))
    }

    /// Takes out what is filed under `key`, if anything is.
    pub fn remove(&mut self, key: &str) -> (r: &mut ContainerOptsBuilder)
        ensures
            r@ == old(self)@.without_param(key@),
            *final(self) == *final(r),
    {
        self.params.remove(key);
        self
    }

    /// The restart policy; a retry count is kept only with `on-failure`.
    pub fn restart_policy(&mut self, name: &str, maximum_retry_count: u64) -> (r: &mut ContainerOptsBuilder)
        ensures
            r@ == old(self)@.restart_policy(name@, maximum_retry_count),
            *final(self) == *final(r),
    {
        let named = self.insert("HostConfig.RestartPolicy.Name", TreeValue::text(name));
        if name.to_owned() == "on-failure".to_owned() {
            named.insert(
                "HostConfig.RestartPolicy.MaximumRetryCount",
                TreeValue::Unsigned(maximum_retry_count),
            )
        } else {
            named.remove("HostConfig.RestartPolicy.MaximumRetryCount")
        }
    }

    /// The working directory of the container's command.
    pub fn working_dir(&mut self, dir: &str) -> (r: &mut ContainerOptsBuilder)
        ensures
            r@ == old(self)@.with_param("WorkingDir"@, TreeModel::Text(dir@)),
            *final(self) == *final(r),
    {
        self.insert("WorkingDir", TreeValue::text(dir))
    }

    /// The network mode of the container.
    pub fn network_mode(&mut self, mode: &str) -> (r: &mut ContainerOptsBuilder)
        ensures
            r@ == old(self)@.with_param("HostConfig.NetworkMode"@, TreeModel::Text(mode@)),
            *final(self) == *final(r),
    {
        self.insert("HostConfig.NetworkMode", TreeValue::text(mode))
    }

    /// The logging driver of the container.
    pub fn log_driver(&mut self, driver: &str) -> (r: &mut ContainerOptsBuilder)
        ensures
            r@ == old(self)@.with_param("HostConfig.LogConfig.Type"@, TreeModel::Text(driver@)),
            *final(self) == *final(r),
    {
        self.insert("HostConfig.LogConfig.Type", TreeValue::text(driver))
    }

    /// The signal that stops the container, by name.
    pub fn stop_signal(&mut self, signal: &str) -> (r: &mut ContainerOptsBuilder)
        ensures
            r@ == old(self)@.with_param("StopSignal"@, TreeModel::Text(signal@)),
            *final(self) == *final(r),
    {
        self.insert("StopSignal", TreeValue::text(signal))
    }

    /// The user namespace mode of the container.
    pub fn userns_mode(&mut self, mode: &str) -> (r: &mut ContainerOptsBuilder)
        ensures
            r@ == old(self)@.with_param("HostConfig.UsernsMode"@, TreeModel::Text(mode@)),
            *final(self) == *final(r),
    {
        self.insert("HostConfig.UsernsMode", TreeValue::text(mode))
    }

    /// The user that the container's command runs as.
    pub fn user(&mut self, user: &str) -> (r: &mut ContainerOptsBuilder)
        ensures
            r@ == old(self)@.with_param("User"@, TreeModel::Text(user@)),
            *final(self) == *final(r),
    {
        self.insert("User", TreeValue::text(user))
    }

    /// The bind mounts, each of the form `/host/path:/container/path`.
    pub fn volumes(&mut self, items: Vec<String>) -> (r: &mut ContainerOptsBuilder)
        ensures
            r@ == old(self)@.with_param("HostConfig.Binds"@, TreeModel::List(texts(items))),
            *final(self) == *final(r),
    {
        self.insert("HostConfig.Binds", text_list(&items))
    }

    /// The links to other containers.
    pub fn links(&mut self, items: Vec<String>) -> (r: &mut ContainerOptsBuilder)
        ensures
            r@ == old(self)@.with_param("HostConfig.Links"@, TreeModel::List(texts(items))),
            *final(self) == *final(r),
    {
        self.insert("HostConfig.Links", text_list(&items))
    }

    /// The host names to add to the container's hosts file.
    pub fn extra_hosts(&mut self, items: Vec<String>) -> (r: &mut ContainerOptsBuilder)
        ensures
            r@ == old(self)@.with_param("HostConfig.ExtraHosts"@, TreeModel::List(texts(items))),
            *final(self) == *final(r),
    {
        self.insert("HostConfig.ExtraHosts", text_list(&items))
    }

    /// The containers whose volumes are mounted.
    pub fn volumes_from(&mut self, items: Vec<String>) -> (r: &mut ContainerOptsBuilder)
        ensures
            r@ == old(self)@.with_param("HostConfig.VolumesFrom"@, TreeModel::List(texts(items))),
            *final(self) == *final(r),
    {
        self.insert("HostConfig.VolumesFrom", text_list(&items))
    }

    /// The variables handed to the container, each of the form `KEY=VALUE`.
    pub fn env(&mut self, items: Vec<String>) -> (r: &mut ContainerOptsBuilder)
        ensures
            r@ == old(self)@.with_param("Env"@, TreeModel::List(texts(items))),
            *final(self) == *final(r),
    {
        self.insert("Env", text_list(&items))
    }

    /// The command to run, word by word.
    pub fn cmd(&mut self, items: Vec<String>) -> (r: &mut ContainerOptsBuilder)
        ensures
            r@ == old(self)@.with_param("Cmd"@, TreeModel::List(texts(items))),
            *final(self) == *final(r),
    {
        self.insert("Cmd", text_list(&items))
    }

    /// The entry point of the container, word by word.
    pub fn entrypoint(&mut self, items: Vec<String>) -> (r: &mut ContainerOptsBuilder)
        ensures
            r@ == old(self)@.with_param("Entrypoint"@, TreeModel::List(texts(items))),
            *final(self) == *final(r),
    {
        self.insert("Entrypoint", text_list(&items))
    }

    /// The kernel capabilities to add.
    pub fn capabilities(&mut self, items: Vec<String>) -> (r: &mut ContainerOptsBuilder)
        ensures
            r@ == old(self)@.with_param("HostConfig.CapAdd"@, TreeModel::List(texts(items))),
            *final(self) == *final(r),
    {
        self.insert("HostConfig.CapAdd", text_list(&items))
    }

    /// The memory limit in bytes.
    pub fn memory(&mut self, value: u64) -> (r: &mut ContainerOptsBuilder)
        ensures
            r@ == old(self)@.with_param("HostConfig.Memory"@, TreeModel::Number(value as int)),
            *final(self) == *final(r),
    {
        self.insert("HostConfig.Memory", TreeValue::Unsigned(value))
    }

    /// The limit of memory and swap together in bytes; -1 lifts the limit on swap.
    pub fn memory_swap(&mut self, value: i64) -> (r: &mut ContainerOptsBuilder)
        ensures
            r@ == old(self)@.with_param("HostConfig.MemorySwap"@, TreeModel::Number(value as int)),
            *final(self) == *final(r),
    {
        self.insert("HostConfig.MemorySwap", TreeValue::Signed(value))
    }

    /// The CPU quota in billionths of a CPU; 0 sets no limit.
    pub fn nano_cpus(&mut self, value: u64) -> (r: &mut ContainerOptsBuilder)
        ensures
            r@ == old(self)@.with_param("HostConfig.NanoCpus"@, TreeModel::Number(value as int)),
            *final(self) == *final(r),
    {
        self.insert("HostConfig.NanoCpus", TreeValue::Unsigned(value))
    }

    /// The CPU weight of the container relative to other containers.
    pub fn cpu_shares(&mut self, value: u32) -> (r: &mut ContainerOptsBuilder)
        ensures
            r@ == old(self)@.with_param("HostConfig.CpuShares"@, TreeModel::Number(value as int)),
            *final(self) == *final(r),
    {
        self.insert("HostConfig.CpuShares", TreeValue::Unsigned(value as u64))
    }

    /// The signal that stops the container, by number.
    pub fn stop_signal_num(&mut self, value: u64) -> (r: &mut ContainerOptsBuilder)
        ensures
            r@ == old(self)@.with_param("StopSignal"@, TreeModel::Number(value as int)),
            *final(self) == *final(r),
    {
        self.insert("StopSignal", TreeValue::Unsigned(value))
    }

    /// Whether to attach to `stdout`.
    pub fn attach_stdout(&mut self, value: bool) -> (r: &mut ContainerOptsBuilder)
        ensures
            r@ == old(self)@.with_param("AttachStdout"@, TreeModel::Bool(value)),
            *final(self) == *final(r),
    {
        self.insert("AttachStdout", TreeValue::Bool(value))
    }

    /// Whether to attach to `stderr`.
    pub fn attach_stderr(&mut self, value: bool) -> (r: &mut ContainerOptsBuilder)
        ensures
            r@ == old(self)@.with_param("AttachStderr"@, TreeModel::Bool(value)),
            *final(self) == *final(r),
    {
        self.insert("AttachStderr", TreeValue::Bool(value))
    }

    /// Whether the standard streams are attached to a TTY.
    pub fn tty(&mut self, value: bool) -> (r: &mut ContainerOptsBuilder)
        ensures
            r@ == old(self)@.with_param("Tty"@, TreeModel::Bool(value)),
            *final(self) == *final(r),
    {
        self.insert("Tty", TreeValue::Bool(value))
    }

    /// Whether the container is removed when it exits.
    pub fn auto_remove(&mut self, value: bool) -> (r: &mut ContainerOptsBuilder)
        ensures
            r@ == old(self)@.with_param("HostConfig.AutoRemove"@, TreeModel::Bool(value)),
            *final(self) == *final(r),
    {
        self.insert("HostConfig.AutoRemove", TreeValue::Bool(value))
    }

    /// Whether the container runs with extended privileges.
    pub fn privileged(&mut self, value: bool) -> (r: &mut ContainerOptsBuilder)
        ensures
            r@ == old(self)@.with_param("HostConfig.Privileged"@, TreeModel::Bool(value)),
            *final(self) == *final(r),
    {
        self.insert("HostConfig.Privileged", TreeValue::Bool(value))
    }

    /// The labels of the container; of two labels with one name the later stays.
    pub fn labels(&mut self, labels: Vec<(String, String)>) -> (r: &mut ContainerOptsBuilder)
        ensures
            r@ == old(self)@.with_param("Labels"@, labels_object(labels)),
            *final(self) == *final(r),
    {
        self.insert("Labels", labels_tree(&labels))
    }

    /// The time to wait before the container is killed, in whole seconds and the
    /// nanoseconds beyond them.
    pub fn stop_timeout(&mut self, secs: u64, nanos: u32) -> (r: &mut ContainerOptsBuilder)
        ensures
            r@ == old(self)@.with_param("StopTimeout"@, duration_object(secs, nanos)),
            *final(self) == *final(r),
    {
        let mut members: Vec<(String, TreeValue)> = Vec::new();
        members.push(("secs".to_owned(), TreeValue::Unsigned(secs)));
        members.push(("nanos".to_owned(), TreeValue::Unsigned(nanos as u64)));
        proof {
            assert(pairs_model(members, 0) =~= Map::empty());
            assert(pairs_model(members, 1) == pairs_model(members, 0).insert(
                members[0].0@,
                members[0].1@,
            ));
            assert(pairs_model(members, 2) == pairs_model(members, 1).insert(
                members[1].0@,
                members[1].1@,
            ));
        }
        self.insert("StopTimeout", TreeValue::Object(members))
    }

    /// A snapshot of what was set so far; the builder stays usable.
    pub fn build(&self) -> (r: ContainerOpts)
        ensures
            r@ == self@,
            keys_distinct(r@.params),
    {
        let _count: usize = self.params.len();
        ContainerOpts { name: clone_name(&self.name), params: self.params.clone_store() }
    }
}

} // verus!
