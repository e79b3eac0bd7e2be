use container_opts::query::{
    bool_string, filter_entry, filters_param, ContainerFilter, ContainerListOpts,
    ContainerListOptsBuilder, LogsOpts, LogsOptsBuilder, RmContainerOpts, RmContainerOptsBuilder,
};
use container_opts::store::QueryStore;
use container_opts::text::port_key;

#[test]
fn empty_query_is_none() {
    assert_eq!(None, LogsOptsBuilder::default().build().serialize());
    assert_eq!(None, ContainerListOpts::builder().build().serialize());
    assert_eq!(None, RmContainerOpts::builder().build().serialize());
    assert_eq!(None, LogsOpts::builder().build().serialize());
}

#[test]
fn logs_query_in_order_of_first_setting() {
    let options = LogsOptsBuilder::default()
        .follow(true)
        .tail("10")
        .follow(false)
        .stdout(true)
        .build();
    assert_eq!(
        Some("follow=false&tail=10&stdout=true".to_string()),
        options.serialize()
    );
}

#[test]
fn logs_since_is_written_in_decimal() {
    let options = LogsOptsBuilder::new().since(-5).build();
    assert_eq!(Some("since=-5".to_string()), options.serialize());
    let options = LogsOptsBuilder::new().since(0).build();
    assert_eq!(Some("since=0".to_string()), options.serialize());
    let options = LogsOptsBuilder::new().since(i64::MIN).build();
    assert_eq!(
        Some("since=-9223372036854775808".to_string()),
        options.serialize()
    );
    let options = LogsOptsBuilder::new().since(1203).build();
    assert_eq!(Some("since=1203".to_string()), options.serialize());
}

#[test]
fn remove_query() {
    let options = RmContainerOptsBuilder::default()
        .force(true)
        .volumes(false)
        .build();
    assert_eq!(Some("force=true&v=false".to_string()), options.serialize());
}

#[test]
fn list_query() {
    let options = ContainerListOptsBuilder::default()
        .all(true)
        .since("abc")
        .before("def")
        .sized(false)
        .build();
    assert_eq!(
        Some("all=true&since=abc&before=def&size=false".to_string()),
        options.serialize()
    );
}

#[test]
fn list_filters_are_json_under_one_key() {
    let options = ContainerListOptsBuilder::default()
        .filter(vec![
            ContainerFilter::ExitCode(1),
            ContainerFilter::Status("running".to_string()),
            ContainerFilter::LabelName("old".to_string()),
            ContainerFilter::Label("a".to_string(), "b".to_string()),
        ])
        .build();
    assert_eq!(
        Some(r#"filters={"exit":["1"],"label":["old","a=b"],"status":["running"]}"#.to_string()),
        options.serialize()
    );
}

#[test]
fn list_filters_are_replaced_as_a_whole() {
    let options = ContainerListOptsBuilder::default()
        .filter(vec![ContainerFilter::ExitCode(1)])
        .filter(vec![ContainerFilter::Status("exited".to_string())])
        .build();
    assert_eq!(
        Some(r#"filters={"status":["exited"]}"#.to_string()),
        options.serialize()
    );
    let none = ContainerListOptsBuilder::default().filter(vec![]).build();
    assert_eq!(Some("filters={}".to_string()), none.serialize());
}

#[test]
fn filter_entries() {
    assert_eq!(
        ("exit".to_string(), "137".to_string()),
        filter_entry(&ContainerFilter::ExitCode(137))
    );
    assert_eq!(
        ("label".to_string(), "k=v".to_string()),
        filter_entry(&ContainerFilter::Label("k".to_string(), "v".to_string()))
    );
}

#[test]
fn filters_param_is_empty_on_failure() {
    let failure = serde_json::from_str::<serde_json::Value>("[").unwrap_err();
    assert_eq!("", filters_param(Err(failure)));
    assert_eq!("{}", filters_param(Ok("{}".to_string())));
}

#[test]
fn booleans_and_port_keys() {
    assert_eq!("true", bool_string(true));
    assert_eq!("false", bool_string(false));
    assert_eq!("80/tcp", port_key(80, "tcp"));
    assert_eq!("65535/udp", port_key(65535, "udp"));
}

#[test]
fn query_store_encoding() {
    let mut store = QueryStore::new();
    assert_eq!(None, store.encode());
    store.insert("a", "1".to_string());
    assert_eq!(Some("a=1".to_string()), store.encode());
    store.insert("b", "2".to_string());
    store.insert("a", "3".to_string());
    assert_eq!(Some("a=3&b=2".to_string()), store.encode());
    assert_eq!(Some("a=3&b=2".to_string()), store.clone_store().encode());
}

#[test]
fn filters_of_one_kind_add_up_within_a_call() {
    let options = ContainerListOptsBuilder::default()
        .filter(vec![
            ContainerFilter::LabelName("a".to_string()),
            ContainerFilter::Label("b".to_string(), "c".to_string()),
        ])
        .build();
    assert_eq!(
        Some(r#"filters={"label":["a","b=c"]}"#.to_string()),
        options.serialize()
    );
    let options = ContainerListOptsBuilder::default()
        .filter(vec![
            ContainerFilter::ExitCode(1),
            ContainerFilter::ExitCode(2),
            ContainerFilter::ExitCode(1),
        ])
        .build();
    assert_eq!(
        Some(r#"filters={"exit":["1","2","1"]}"#.to_string()),
        options.serialize()
    );
}
