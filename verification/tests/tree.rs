use container_opts::container::{ContainerOpts, ContainerOptsBuilder};
use container_opts::json::render;
use container_opts::path::split_key;
use container_opts::store::ParamStore;
use container_opts::tree::{find_member, put_path, with_member, TreeValue};

fn text(tree: &TreeValue) -> String {
    render(tree).unwrap()
}

fn path(segments: &[&str]) -> Vec<String> {
    segments.iter().map(|s| String::from(*s)).collect()
}

#[test]
fn split_key_on_dots() {
    assert_eq!(path(&["a", "b", "c"]), split_key("a.b.c"));
    assert_eq!(path(&["Image"]), split_key("Image"));
    assert_eq!(path(&[""]), split_key(""));
    assert_eq!(path(&["a", "", "b"]), split_key("a..b"));
    assert_eq!(path(&["", "a"]), split_key(".a"));
    assert_eq!(path(&["a", ""]), split_key("a."));
    assert_eq!(path(&["é", "ü"]), split_key("é.ü"));
}

#[test]
fn put_path_creates_the_levels_between() {
    let root = TreeValue::empty_object();
    let tree = put_path(&root, &path(&["a", "b", "c"]), 0, &TreeValue::Unsigned(1));
    assert_eq!(r#"{"a":{"b":{"c":1}}}"#, text(&tree));
    assert_eq!("{}", text(&root));
}

#[test]
fn put_path_single_segment_sets_a_member_of_the_root() {
    let root = TreeValue::empty_object();
    let tree = put_path(&root, &path(&["a"]), 0, &TreeValue::Bool(false));
    assert_eq!(r#"{"a":false}"#, text(&tree));
}

#[test]
fn put_path_enters_existing_objects_and_keeps_their_members() {
    let root = TreeValue::empty_object();
    let tree = put_path(&root, &path(&["a", "x"]), 0, &TreeValue::Unsigned(1));
    let tree = put_path(&tree, &path(&["a", "y"]), 0, &TreeValue::Unsigned(2));
    let tree = put_path(&tree, &path(&["a", "x"]), 0, &TreeValue::Null);
    assert_eq!(r#"{"a":{"x":null,"y":2}}"#, text(&tree));
}

#[test]
fn put_path_through_a_leaf_changes_nothing() {
    let root = TreeValue::empty_object();
    let tree = put_path(&root, &path(&["a"]), 0, &TreeValue::text("leaf"));
    let tree = put_path(&tree, &path(&["a", "b"]), 0, &TreeValue::Unsigned(1));
    assert_eq!(r#"{"a":"leaf"}"#, text(&tree));
    let tree = put_path(&tree, &path(&["a", "b", "c"]), 0, &TreeValue::Unsigned(1));
    assert_eq!(r#"{"a":"leaf"}"#, text(&tree));
}

#[test]
fn put_path_into_a_root_that_is_no_object_changes_nothing() {
    let root = TreeValue::Array(vec![TreeValue::Null]);
    let tree = put_path(&root, &path(&["a"]), 0, &TreeValue::Unsigned(1));
    assert_eq!("[null]", text(&tree));
}

#[test]
fn put_path_from_a_later_segment() {
    let root = TreeValue::empty_object();
    let tree = put_path(&root, &path(&["a", "b", "c"]), 1, &TreeValue::Unsigned(1));
    assert_eq!(r#"{"b":{"c":1}}"#, text(&tree));
    let same = put_path(&root, &path(&["a"]), 1, &TreeValue::Unsigned(1));
    assert_eq!("{}", text(&same));
    let same = put_path(&root, &path(&["a"]), 7, &TreeValue::Unsigned(1));
    assert_eq!("{}", text(&same));
}

#[test]
fn empty_segments_are_member_names() {
    let options = ContainerOptsBuilder::new("i")
        .insert("a..b", TreeValue::Unsigned(1))
        .build();
    assert_eq!(
        r#"{"HostConfig":{},"Image":"i","a":{"":{"b":1}}}"#,
        options.serialize().unwrap()
    );
}

#[test]
fn dotted_key_is_placed_at_its_path() {
    let options = ContainerOptsBuilder::new("i")
        .insert("HostConfig.A.B.C", TreeValue::text("deep"))
        .build();
    assert_eq!(
        r#"{"HostConfig":{"A":{"B":{"C":"deep"}}},"Image":"i"}"#,
        options.serialize().unwrap()
    );
}

#[test]
fn key_through_a_leaf_is_dropped() {
    let options = ContainerOptsBuilder::new("i")
        .insert("Image.Tag", TreeValue::text("latest"))
        .build();
    assert_eq!(r#"{"HostConfig":{},"Image":"i"}"#, options.serialize().unwrap());
}

#[test]
fn to_json_and_parse_from() {
    let options = ContainerOpts::builder("i").tty(true).build();
    assert_eq!(
        r#"{"HostConfig":{},"Image":"i","Tty":true}"#,
        text(&options.to_json())
    );
    let mut params = ParamStore::new();
    params.insert("x.y", TreeValue::Signed(-3));
    params.insert("x.z", TreeValue::Null);
    params.insert("x.y", TreeValue::Signed(-4));
    let mut body = TreeValue::empty_object();
    options.parse_from(&params, &mut body);
    assert_eq!(r#"{"x":{"y":-4,"z":null}}"#, text(&body));
}

#[test]
fn store_get_and_insert() {
    let mut params = ParamStore::new();
    assert!(params.get("a").is_none());
    params.insert("a", TreeValue::Unsigned(1));
    params.insert("b", TreeValue::Unsigned(2));
    params.insert("a", TreeValue::Unsigned(3));
    assert_eq!("3", text(params.get("a").unwrap()));
    assert_eq!("2", text(params.get("b").unwrap()));
    assert_eq!(2, params.len());
    assert_eq!("a", params.key(0));
    assert_eq!("b", params.key(1));
    assert_eq!("3", text(params.value(0)));
    let copy = params.clone_store();
    assert_eq!("3", text(copy.get("a").unwrap()));
}

#[test]
fn members_of_an_object() {
    let pairs = vec![
        ("a".to_string(), TreeValue::Unsigned(1)),
        ("b".to_string(), TreeValue::Unsigned(2)),
        ("a".to_string(), TreeValue::Unsigned(3)),
    ];
    assert_eq!(Some(2), find_member(&pairs, &"a".to_string()));
    assert_eq!(Some(1), find_member(&pairs, &"b".to_string()));
    assert_eq!(None, find_member(&pairs, &"c".to_string()));
    let set = with_member(&pairs, &"a".to_string(), TreeValue::Null);
    assert_eq!(r#"{"a":null,"b":2}"#, text(&TreeValue::Object(set)));
    assert_eq!(r#"{"a":3,"b":2}"#, text(&TreeValue::Object(pairs)));
}

#[test]
fn render_every_kind_of_tree() {
    let tree = TreeValue::Array(vec![
        TreeValue::Null,
        TreeValue::Bool(true),
        TreeValue::Unsigned(18446744073709551615),
        TreeValue::Signed(-9223372036854775808),
        TreeValue::Signed(7),
        TreeValue::text("a\"b"),
        TreeValue::Array(vec![]),
        TreeValue::empty_object(),
    ]);
    assert_eq!(
        r#"[null,true,18446744073709551615,-9223372036854775808,7,"a\"b",[],{}]"#,
        text(&tree)
    );
    assert_eq!(text(&tree), text(&tree.clone_tree()));
}

#[test]
fn keys_that_part_ways_can_be_set_in_either_order() {
    let one = ContainerOptsBuilder::new("i")
        .insert("a.b.c", TreeValue::Unsigned(1))
        .insert("a.b.d", TreeValue::Unsigned(2))
        .insert("e", TreeValue::Unsigned(3))
        .build();
    let other = ContainerOptsBuilder::new("i")
        .insert("e", TreeValue::Unsigned(3))
        .insert("a.b.d", TreeValue::Unsigned(2))
        .insert("a.b.c", TreeValue::Unsigned(1))
        .build();
    assert_eq!(
        r#"{"HostConfig":{},"Image":"i","a":{"b":{"c":1,"d":2}},"e":3}"#,
        one.serialize().unwrap()
    );
    assert_eq!(one.serialize().unwrap(), other.serialize().unwrap());
}

#[test]
fn a_key_and_its_prefix_go_by_the_order_of_first_setting() {
    let options = ContainerOptsBuilder::new("i")
        .insert("a.b", TreeValue::Unsigned(1))
        .insert("a", TreeValue::Unsigned(2))
        .build();
    assert_eq!(
        r#"{"HostConfig":{},"Image":"i","a":2}"#,
        options.serialize().unwrap()
    );
    let options = ContainerOptsBuilder::new("i")
        .insert("a", TreeValue::Unsigned(2))
        .insert("a.b", TreeValue::Unsigned(1))
        .build();
    assert_eq!(
        r#"{"HostConfig":{},"Image":"i","a":2}"#,
        options.serialize().unwrap()
    );
}

#[test]
fn top_level_members_are_host_config_and_first_segments() {
    let options = ContainerOptsBuilder::new("i")
        .name("not-in-body")
        .insert("a.b", TreeValue::Unsigned(1))
        .insert("HostConfig.X.Y", TreeValue::Bool(true))
        .insert("c", TreeValue::Null)
        .build();
    match options.to_json() {
        TreeValue::Object(members) => {
            let mut keys: Vec<String> = members.iter().map(|m| m.0.clone()).collect();
            keys.sort();
            assert_eq!(path(&["HostConfig", "Image", "a", "c"]), keys);
        }
        other => panic!("the body is no object: {:?}", other),
    }
    assert_eq!(
        r#"{"HostConfig":{"X":{"Y":true}},"Image":"i","a":{"b":1},"c":null}"#,
        options.serialize().unwrap()
    );
}

#[test]
fn ports_of_two_protocols_have_two_keys() {
    let one = ContainerOptsBuilder::new("i")
        .expose(53, "tcp", 1053)
        .expose(53, "udp", 2053)
        .build();
    let other = ContainerOptsBuilder::new("i")
        .expose(53, "udp", 2053)
        .expose(53, "tcp", 1053)
        .build();
    assert_eq!(
        r#"{"ExposedPorts":{"53/tcp":{},"53/udp":{}},"HostConfig":{"PortBindings":{"53/tcp":[{"HostPort":"1053"}],"53/udp":[{"HostPort":"2053"}]}},"Image":"i"}"#,
        one.serialize().unwrap()
    );
    assert_eq!(one.serialize().unwrap(), other.serialize().unwrap());
}
