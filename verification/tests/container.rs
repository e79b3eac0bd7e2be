use container_opts::container::{serialized, ContainerOpts, ContainerOptsBuilder, SerializationError};
use container_opts::query::LogsOptsBuilder;

fn strings(items: &[&str]) -> Vec<String> {
    items.iter().map(|s| String::from(*s)).collect()
}

#[test]
fn container_options_simple() {
    let builder = ContainerOptsBuilder::new("test_image");
    let options = builder.build();

    assert_eq!(
        r#"{"HostConfig":{},"Image":"test_image"}"#,
        options.serialize().unwrap()
    );
}

#[test]
fn container_options_env() {
    let options = ContainerOptsBuilder::new("test_image")
        .env(strings(&["foo", "bar"]))
        .build();

    assert_eq!(
        r#"{"Env":["foo","bar"],"HostConfig":{},"Image":"test_image"}"#,
        options.serialize().unwrap()
    );
}

#[test]
fn container_options_env_dynamic() {
    let env: Vec<String> = ["foo", "bar", "baz"]
        .iter()
        .map(|s| String::from(*s))
        .collect();

    let options = ContainerOptsBuilder::new("test_image").env(env.clone()).build();

    assert_eq!(
        r#"{"Env":["foo","bar","baz"],"HostConfig":{},"Image":"test_image"}"#,
        options.serialize().unwrap()
    );
}

#[test]
fn container_options_user() {
    let options = ContainerOptsBuilder::new("test_image")
        .user("alice")
        .build();

    assert_eq!(
        r#"{"HostConfig":{},"Image":"test_image","User":"alice"}"#,
        options.serialize().unwrap()
    );
}

#[test]
fn container_options_host_config() {
    let options = ContainerOptsBuilder::new("test_image")
        .network_mode("host")
        .auto_remove(true)
        .privileged(true)
        .build();

    assert_eq!(
        r#"{"HostConfig":{"AutoRemove":true,"NetworkMode":"host","Privileged":true},"Image":"test_image"}"#,
        options.serialize().unwrap()
    );
}

#[test]
fn container_options_expose() {
    let options = ContainerOptsBuilder::new("test_image")
        .expose(80, "tcp", 8080)
        .build();
    assert_eq!(
        r#"{"ExposedPorts":{"80/tcp":{}},"HostConfig":{"PortBindings":{"80/tcp":[{"HostPort":"8080"}]}},"Image":"test_image"}"#,
        options.serialize().unwrap()
    );
    // try exposing two
    let options = ContainerOptsBuilder::new("test_image")
        .expose(80, "tcp", 8080)
        .expose(81, "tcp", 8081)
        .build();
    assert_eq!(
        r#"{"ExposedPorts":{"80/tcp":{},"81/tcp":{}},"HostConfig":{"PortBindings":{"80/tcp":[{"HostPort":"8080"}],"81/tcp":[{"HostPort":"8081"}]}},"Image":"test_image"}"#,
        options.serialize().unwrap()
    );
}

#[test]
fn container_options_publish() {
    let options = ContainerOptsBuilder::new("test_image")
        .publish(80, "tcp")
        .build();
    assert_eq!(
        r#"{"ExposedPorts":{"80/tcp":{}},"HostConfig":{},"Image":"test_image"}"#,
        options.serialize().unwrap()
    );
    // try exposing two
    let options = ContainerOptsBuilder::new("test_image")
        .publish(80, "tcp")
        .publish(81, "tcp")
        .build();
    assert_eq!(
        r#"{"ExposedPorts":{"80/tcp":{},"81/tcp":{}},"HostConfig":{},"Image":"test_image"}"#,
        options.serialize().unwrap()
    );
}

/// Test container option PublishAllPorts
#[test]
fn container_options_publish_all_ports() {
    let options = ContainerOptsBuilder::new("test_image")
        .publish_all_ports()
        .build();

    assert_eq!(
        r#"{"HostConfig":{"PublishAllPorts":true},"Image":"test_image"}"#,
        options.serialize().unwrap()
    );
}

/// Test container Opts that are nested 3 levels deep.
#[test]
fn container_options_nested() {
    let options = ContainerOptsBuilder::new("test_image")
        .log_driver("fluentd")
        .build();

    assert_eq!(
        r#"{"HostConfig":{"LogConfig":{"Type":"fluentd"}},"Image":"test_image"}"#,
        options.serialize().unwrap()
    );
}

/// Test the restart policy settings
#[test]
fn container_options_restart_policy() {
    let mut options = ContainerOptsBuilder::new("test_image")
        .restart_policy("on-failure", 10)
        .build();

    assert_eq!(
        r#"{"HostConfig":{"RestartPolicy":{"MaximumRetryCount":10,"Name":"on-failure"}},"Image":"test_image"}"#,
        options.serialize().unwrap()
    );

    options = ContainerOptsBuilder::new("test_image")
        .restart_policy("always", 0)
        .build();

    assert_eq!(
        r#"{"HostConfig":{"RestartPolicy":{"Name":"always"}},"Image":"test_image"}"#,
        options.serialize().unwrap()
    );
}

#[allow(deprecated)]
#[test]
fn logs_options() {
    let timestamp = chrono::NaiveDateTime::from_timestamp(2_147_483_647, 0);
    let since = chrono::DateTime::<chrono::Utc>::from_utc(timestamp, chrono::Utc);

    let options = LogsOptsBuilder::default()
        .follow(true)
        .stdout(true)
        .stderr(true)
        .timestamps(true)
        .tail("all")
        .since(since.timestamp())
        .build();

    let serialized = options.serialize().unwrap();

    assert!(serialized.contains("follow=true"));
    assert!(serialized.contains("stdout=true"));
    assert!(serialized.contains("stderr=true"));
    assert!(serialized.contains("timestamps=true"));
    assert!(serialized.contains("tail=all"));
    assert!(serialized.contains("since=2147483647"));
}

#[allow(non_snake_case)]
#[test]
fn logs_Opts() {
    let options = LogsOptsBuilder::default()
        .follow(true)
        .stdout(true)
        .stderr(true)
        .timestamps(true)
        .tail("all")
        .since(2_147_483_647)
        .build();

    let serialized = options.serialize().unwrap();

    assert!(serialized.contains("follow=true"));
    assert!(serialized.contains("stdout=true"));
    assert!(serialized.contains("stderr=true"));
    assert!(serialized.contains("timestamps=true"));
    assert!(serialized.contains("tail=all"));
    assert!(serialized.contains("since=2147483647"));
}

#[test]
fn builder_of_opts_starts_with_the_image() {
    let options = ContainerOpts::builder("busybox").build();
    assert_eq!(
        r#"{"HostConfig":{},"Image":"busybox"}"#,
        options.serialize().unwrap()
    );
    assert_eq!(None, options.name);
}

#[test]
fn name_is_kept_out_of_the_body() {
    let options = ContainerOptsBuilder::new("test_image").name("web").build();
    assert_eq!(Some("web".to_string()), options.name);
    assert_eq!(&Some("web".to_string()), options.name());
    assert_eq!(1, options.params().len());
    assert_eq!(
        r#"{"HostConfig":{},"Image":"test_image"}"#,
        options.serialize().unwrap()
    );
}

#[test]
fn build_leaves_the_builder_usable() {
    let mut builder = ContainerOptsBuilder::new("test_image");
    builder.user("alice");
    let first = builder.build();
    builder.tty(true);
    let second = builder.build();
    assert_eq!(
        r#"{"HostConfig":{},"Image":"test_image","User":"alice"}"#,
        first.serialize().unwrap()
    );
    assert_eq!(
        r#"{"HostConfig":{},"Image":"test_image","Tty":true,"User":"alice"}"#,
        second.serialize().unwrap()
    );
}

#[test]
fn serialize_twice_gives_the_same_text() {
    let options = ContainerOptsBuilder::new("test_image")
        .expose(80, "tcp", 8080)
        .env(strings(&["A=1"]))
        .memory(1024)
        .build();
    let first = options.serialize().unwrap();
    let second = options.serialize().unwrap();
    assert_eq!(first, second);
}

#[test]
fn expose_same_port_twice_overwrites() {
    let options = ContainerOptsBuilder::new("test_image")
        .expose(80, "tcp", 8080)
        .expose(80, "tcp", 9090)
        .build();
    assert_eq!(
        r#"{"ExposedPorts":{"80/tcp":{}},"HostConfig":{"PortBindings":{"80/tcp":[{"HostPort":"9090"}]}},"Image":"test_image"}"#,
        options.serialize().unwrap()
    );
}

#[test]
fn expose_keeps_other_bindings() {
    let options = ContainerOptsBuilder::new("test_image")
        .expose(80, "tcp", 8080)
        .expose(53, "udp", 5353)
        .expose(80, "tcp", 9090)
        .build();
    assert_eq!(
        r#"{"ExposedPorts":{"53/udp":{},"80/tcp":{}},"HostConfig":{"PortBindings":{"53/udp":[{"HostPort":"5353"}],"80/tcp":[{"HostPort":"9090"}]}},"Image":"test_image"}"#,
        options.serialize().unwrap()
    );
}

#[test]
fn expose_replaces_published_ports_by_the_bound_ones() {
    let options = ContainerOptsBuilder::new("test_image")
        .publish(22, "tcp")
        .expose(80, "tcp", 8080)
        .build();
    assert_eq!(
        r#"{"ExposedPorts":{"80/tcp":{}},"HostConfig":{"PortBindings":{"80/tcp":[{"HostPort":"8080"}]}},"Image":"test_image"}"#,
        options.serialize().unwrap()
    );
}

#[test]
fn publish_twice_is_publish_once() {
    let once = ContainerOptsBuilder::new("test_image")
        .publish(80, "tcp")
        .build();
    let twice = ContainerOptsBuilder::new("test_image")
        .publish(80, "tcp")
        .publish(80, "tcp")
        .build();
    assert_eq!(once.serialize().unwrap(), twice.serialize().unwrap());
}

#[test]
fn publish_does_not_touch_port_bindings() {
    let options = ContainerOptsBuilder::new("test_image")
        .expose(80, "tcp", 8080)
        .publish(443, "tcp")
        .build();
    assert_eq!(
        r#"{"ExposedPorts":{"443/tcp":{},"80/tcp":{}},"HostConfig":{"PortBindings":{"80/tcp":[{"HostPort":"8080"}]}},"Image":"test_image"}"#,
        options.serialize().unwrap()
    );
}

#[test]
fn publish_over_something_that_is_no_object_starts_afresh() {
    let options = ContainerOptsBuilder::new("test_image")
        .insert("ExposedPorts", container_opts::tree::TreeValue::Bool(true))
        .publish(80, "tcp")
        .build();
    assert_eq!(
        r#"{"ExposedPorts":{"80/tcp":{}},"HostConfig":{},"Image":"test_image"}"#,
        options.serialize().unwrap()
    );
}

#[test]
fn port_numbers_are_written_in_decimal() {
    let options = ContainerOptsBuilder::new("i")
        .expose(0, "tcp", 4294967295)
        .build();
    assert_eq!(
        r#"{"ExposedPorts":{"0/tcp":{}},"HostConfig":{"PortBindings":{"0/tcp":[{"HostPort":"4294967295"}]}},"Image":"i"}"#,
        options.serialize().unwrap()
    );
}

#[test]
fn attach_stdin_opens_stdin_too() {
    let options = ContainerOptsBuilder::new("i").attach_stdin(true).build();
    assert_eq!(
        r#"{"AttachStdin":true,"HostConfig":{},"Image":"i","OpenStdin":true}"#,
        options.serialize().unwrap()
    );
}

#[test]
fn numbers_and_flags() {
    let options = ContainerOptsBuilder::new("i")
        .memory(1024)
        .memory_swap(-1)
        .nano_cpus(500_000_000)
        .cpu_shares(2)
        .attach_stdout(true)
        .attach_stderr(false)
        .stop_signal_num(15)
        .build();
    assert_eq!(
        r#"{"AttachStderr":false,"AttachStdout":true,"HostConfig":{"CpuShares":2,"Memory":1024,"MemorySwap":-1,"NanoCpus":500000000},"Image":"i","StopSignal":15}"#,
        options.serialize().unwrap()
    );
}

#[test]
fn later_setting_of_a_key_wins() {
    let options = ContainerOptsBuilder::new("i")
        .stop_signal("SIGINT")
        .stop_signal_num(2)
        .build();
    assert_eq!(
        r#"{"HostConfig":{},"Image":"i","StopSignal":2}"#,
        options.serialize().unwrap()
    );
}

#[test]
fn text_and_list_settings() {
    let options = ContainerOptsBuilder::new("i")
        .working_dir("/srv")
        .volumes(strings(&["/a:/b"]))
        .links(strings(&["db"]))
        .extra_hosts(strings(&["h:1.2.3.4"]))
        .volumes_from(strings(&["data"]))
        .cmd(strings(&["ls", "-l"]))
        .entrypoint(strings(&["/bin/sh"]))
        .capabilities(strings(&["NET_ADMIN"]))
        .userns_mode("host")
        .stop_signal("SIGKILL")
        .build();
    assert_eq!(
        r#"{"Cmd":["ls","-l"],"Entrypoint":["/bin/sh"],"HostConfig":{"Binds":["/a:/b"],"CapAdd":["NET_ADMIN"],"ExtraHosts":["h:1.2.3.4"],"Links":["db"],"UsernsMode":"host","VolumesFrom":["data"]},"Image":"i","StopSignal":"SIGKILL","WorkingDir":"/srv"}"#,
        options.serialize().unwrap()
    );
}

#[test]
fn labels_devices_and_timeout() {
    let labels = vec![
        ("b".to_string(), "2".to_string()),
        ("a".to_string(), "1".to_string()),
        ("b".to_string(), "3".to_string()),
    ];
    let device = vec![("PathOnHost".to_string(), "/dev/null".to_string())];
    let options = ContainerOptsBuilder::new("i")
        .labels(labels)
        .devices(vec![device])
        .stop_timeout(10, 5)
        .build();
    assert_eq!(
        r#"{"HostConfig":{"Devices":[{"PathOnHost":"/dev/null"}]},"Image":"i","Labels":{"a":"1","b":"3"},"StopTimeout":{"nanos":5,"secs":10}}"#,
        options.serialize().unwrap()
    );
}

#[test]
fn default_builder_has_no_image() {
    let options = ContainerOptsBuilder::default().build();
    assert_eq!(r#"{"HostConfig":{}}"#, options.serialize().unwrap());
}

#[test]
fn rendering_failure_becomes_a_serialization_error() {
    let failure = serde_json::from_str::<serde_json::Value>("{").unwrap_err();
    let text = failure.to_string();
    match serialized(Err(failure)) {
        Err(SerializationError::Json(e)) => assert_eq!(text, e.to_string()),
        Ok(_) => panic!("a failure was turned into a success"),
    }
    assert_eq!("x", serialized(Ok("x".to_string())).unwrap());
}

#[test]
fn restart_policy_drops_an_earlier_retry_count() {
    let options = ContainerOptsBuilder::new("test_image")
        .restart_policy("on-failure", 10)
        .restart_policy("always", 0)
        .build();
    assert_eq!(
        r#"{"HostConfig":{"RestartPolicy":{"Name":"always"}},"Image":"test_image"}"#,
        options.serialize().unwrap()
    );
    let options = ContainerOptsBuilder::new("test_image")
        .restart_policy("always", 0)
        .restart_policy("on-failure", 3)
        .build();
    assert_eq!(
        r#"{"HostConfig":{"RestartPolicy":{"MaximumRetryCount":3,"Name":"on-failure"}},"Image":"test_image"}"#,
        options.serialize().unwrap()
    );
}

#[test]
fn remove_takes_a_key_out() {
    let options = ContainerOptsBuilder::new("test_image")
        .user("alice")
        .tty(true)
        .remove("User")
        .remove("Absent")
        .build();
    assert_eq!(
        r#"{"HostConfig":{},"Image":"test_image","Tty":true}"#,
        options.serialize().unwrap()
    );
    assert_eq!(2, options.params().len());
}

#[test]
fn serialize_always_succeeds() {
    assert!(ContainerOptsBuilder::default().build().serialize().is_ok());
    let options = ContainerOptsBuilder::new("i")
        .insert("a", container_opts::tree::TreeValue::Array(vec![]))
        .insert("", container_opts::tree::TreeValue::Null)
        .build();
    assert_eq!(
        r#"{"":null,"HostConfig":{},"Image":"i","a":[]}"#,
        options.serialize().unwrap()
    );
}
