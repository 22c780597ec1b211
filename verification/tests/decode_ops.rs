use dockhand::decode::{
    decode_containers, decode_images, decode_stats_output, decode_volumes, inspect_first,
};
use dockhand::ops::{
    container_action_args, create_volume_args, inspect_args, list_containers_args,
    list_images_args, list_volumes_args, logs_args, pull_image_args, remove_image_args,
    remove_volume_args, stats_args, u32_to_string,
};

#[test]
fn listing_skips_one_malformed_line_among_valid() {
    let output = "{\"ID\":\"a1\",\"Names\":\"web\",\"Image\":\"alpine\",\"State\":\"running\"}\n\
        this line is not json\n\
        {\"ID\":\"b2\",\"Names\":\"db\",\"Image\":\"postgres\",\"State\":\"exited\"}\n";
    let cs = decode_containers(output);
    assert_eq!(cs.len(), 2);
    assert_eq!(cs[0].id, "a1");
    assert_eq!(cs[0].names, vec!["web".to_string()]);
    assert_eq!(cs[0].image, "alpine");
    assert_eq!(cs[0].state, "running");
    assert_eq!(cs[1].id, "b2");
}

#[test]
fn listing_decodes_created_and_ports() {
    let line = "{\"ID\":\"c3\",\"CreatedAt\":\"2024-01-01 00:00:00 +0000\",\
        \"Ports\":\"0.0.0.0:8080->80/tcp\"}\n";
    let cs = decode_containers(line);
    assert_eq!(cs.len(), 1);
    assert_eq!(cs[0].created, 1704067200);
    assert_eq!(cs[0].ports.len(), 1);
    assert_eq!(cs[0].ports[0].private_port, 80);
}

#[test]
fn listing_of_empty_output_is_empty() {
    assert_eq!(decode_containers("").len(), 0);
    assert_eq!(decode_containers("\n\r\n").len(), 0);
}

#[test]
fn image_listing_decodes_fields() {
    let output = "{\"ID\":\"abc\",\"Repository\":\"alpine\",\"Tag\":\"3.19\",\"Size\":\"5MB\",\
        \"CreatedAt\":\"2024-01-01 00:00:00 +0000\"}\nnot json\n";
    let ims = decode_images(output);
    assert_eq!(ims.len(), 1);
    assert_eq!(ims[0].id, "sha256:abc");
    assert_eq!(ims[0].repo_tags, Some(vec!["alpine:3.19".to_string()]));
    assert_eq!(ims[0].size, 5 * 1048576);
    assert_eq!(ims[0].created, 1704067200);
}

#[test]
fn volume_listing_decodes_fields() {
    let output = "{\"Name\":\"data\",\"Driver\":\"local\",\"Mountpoint\":\"/mnt/data\",\
        \"Scope\":\"global\"}\n{}\n";
    let vs = decode_volumes(output);
    assert_eq!(vs.len(), 2);
    assert_eq!(vs[0].name, "data");
    assert_eq!(vs[0].mountpoint, "/mnt/data");
    assert_eq!(vs[0].scope, "global");
    assert_eq!(vs[1].name, "");
    assert_eq!(vs[1].scope, "local");
}

#[test]
fn stats_output_decodes_display_strings() {
    let output = "{\"CPUPerc\":\"12.5%\",\"MemPerc\":\"20%\",\"MemUsage\":\"100MiB / 500MiB\",\
        \"NetIO\":\"1kB / 2kB\",\"BlockIO\":\"3kB / 4kB\"}\n";
    let st = decode_stats_output(output).unwrap();
    assert_eq!(st.cpu_percent_text.parse::<f64>().unwrap(), 12.5);
    assert_eq!(st.memory_usage, 104857600);
    assert_eq!(st.memory_limit, 524288000);
    assert_eq!(st.network_rx, 1024);
    assert_eq!(st.network_tx, 2048);
    assert_eq!(st.block_read, 3072);
    assert_eq!(st.block_write, 4096);
}

#[test]
fn stats_failures_are_distinct() {
    assert_eq!(decode_stats_output(""), Err("No stats available".to_string()));
    let e = decode_stats_output("garbage").unwrap_err();
    assert!(e.starts_with("Failed to parse stats: "));
    assert!(e.len() > "Failed to parse stats: ".len());
}

#[test]
fn inspect_empty_array_is_not_found() {
    assert_eq!(inspect_first("[]"), Err("No container found".to_string()));
}

#[test]
fn inspect_returns_first_element_regardless_of_field_order() {
    let a = inspect_first("[{\"b\":1,\"a\":2}]").unwrap();
    let b = inspect_first("[{\"a\":2,\"b\":1}]").unwrap();
    assert_eq!(a, b);
    assert_eq!(a, "{\"a\":2,\"b\":1}");
}

#[test]
fn inspect_takes_only_the_first_element() {
    assert_eq!(inspect_first("[1,2,3]"), Ok("1".to_string()));
    let e = inspect_first("not json").unwrap_err();
    assert!(e.starts_with("Failed to parse inspect output: "));
    assert!(e.len() > "Failed to parse inspect output: ".len());
}

#[test]
fn action_args_map_to_exact_invocations() {
    assert_eq!(
        container_action_args("c1", "start").unwrap(),
        vec!["start".to_string(), "c1".to_string()]
    );
    assert_eq!(
        container_action_args("c1", "stop").unwrap(),
        vec!["stop".to_string(), "c1".to_string()]
    );
    assert_eq!(
        container_action_args("c1", "restart").unwrap(),
        vec!["restart".to_string(), "c1".to_string()]
    );
    assert_eq!(
        container_action_args("c1", "remove").unwrap(),
        vec!["rm".to_string(), "-f".to_string(), "c1".to_string()]
    );
    assert_eq!(
        container_action_args("c1", "pause").unwrap(),
        vec!["pause".to_string(), "c1".to_string()]
    );
    assert_eq!(
        container_action_args("c1", "unpause").unwrap(),
        vec!["unpause".to_string(), "c1".to_string()]
    );
}

#[test]
fn unknown_action_fails_naming_it() {
    let e = container_action_args("c1", "destroy").unwrap_err();
    assert_eq!(e, "Unknown action: destroy");
}

#[test]
fn fixed_invocation_templates() {
    assert_eq!(list_containers_args(), vec!["ps", "-a", "--format", "{{json .}}"]);
    assert_eq!(logs_args("c1", 100), vec!["logs", "--tail", "100", "c1"]);
    assert_eq!(inspect_args("c1"), vec!["inspect", "c1"]);
    assert_eq!(
        stats_args("c1"),
        vec!["stats", "--no-stream", "--format", "{{json .}}", "c1"]
    );
    assert_eq!(list_images_args(), vec!["images", "--format", "{{json .}}"]);
    assert_eq!(remove_image_args("i1"), vec!["rmi", "i1"]);
    assert_eq!(pull_image_args("alpine"), vec!["pull", "alpine"]);
    assert_eq!(list_volumes_args(), vec!["volume", "ls", "--format", "{{json .}}"]);
    assert_eq!(remove_volume_args("v1"), vec!["volume", "rm", "v1"]);
    assert_eq!(create_volume_args("v1"), vec!["volume", "create", "v1"]);
}

#[test]
fn numbers_render_in_decimal() {
    assert_eq!(u32_to_string(0), "0");
    assert_eq!(u32_to_string(7), "7");
    assert_eq!(u32_to_string(100), "100");
    assert_eq!(u32_to_string(4294967295), "4294967295");
}
