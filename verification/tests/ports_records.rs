use dockhand::ports::parse_ports;
use dockhand::records::{
    container_from_fields, image_from_fields, stats_from_fields, volume_from_fields,
};

#[test]
fn port_full_mapping() {
    let ports = parse_ports("0.0.0.0:8080->80/tcp");
    assert_eq!(ports.len(), 1);
    assert_eq!(ports[0].ip, Some("0.0.0.0".to_string()));
    assert_eq!(ports[0].public_port, Some(8080));
    assert_eq!(ports[0].private_port, 80);
    assert_eq!(ports[0].port_type, "tcp");
}

#[test]
fn port_without_arrow_is_dropped() {
    assert_eq!(parse_ports("80/tcp").len(), 0);
    assert_eq!(parse_ports("").len(), 0);
}

#[test]
fn port_type_defaults_to_tcp() {
    let ports = parse_ports("8080->80");
    assert_eq!(ports.len(), 1);
    assert_eq!(ports[0].ip, None);
    assert_eq!(ports[0].public_port, Some(8080));
    assert_eq!(ports[0].private_port, 80);
    assert_eq!(ports[0].port_type, "tcp");
}

#[test]
fn port_list_keeps_order_and_duplicates() {
    let ports = parse_ports("0.0.0.0:8080->80/tcp, :::8080->80/tcp, 0.0.0.0:8080->80/tcp");
    assert_eq!(ports.len(), 3);
    assert_eq!(ports[1].ip, Some("::".to_string()));
    assert_eq!(ports[0].ip, ports[2].ip);
}

#[test]
fn port_accepts_leading_plus_sign() {
    let ports = parse_ports("+8080->80");
    assert_eq!(ports.len(), 1);
    assert_eq!(ports[0].public_port, Some(8080));
    assert_eq!(ports[0].private_port, 80);
}

#[test]
fn port_unparseable_numbers_degrade() {
    let ports = parse_ports("host:abc->def/udp");
    assert_eq!(ports.len(), 1);
    assert_eq!(ports[0].ip, Some("host".to_string()));
    assert_eq!(ports[0].public_port, None);
    assert_eq!(ports[0].private_port, 0);
    assert_eq!(ports[0].port_type, "udp");
}

#[test]
fn container_fields_default() {
    let c = container_from_fields(
        Some("abc".to_string()),
        Some("web".to_string()),
        None,
        None,
        Some("running".to_string()),
        None,
        42,
        Vec::new(),
    );
    assert_eq!(c.id, "abc");
    assert_eq!(c.names, vec!["web".to_string()]);
    assert_eq!(c.image, "");
    assert_eq!(c.image_id, "");
    assert_eq!(c.command, "");
    assert_eq!(c.created, 42);
    assert_eq!(c.ports.len(), 0);
    assert_eq!(c.state, "running");
    assert_eq!(c.status, "");
    assert!(c.labels.is_empty());
}

#[test]
fn image_fields_and_sentinel() {
    let im = image_from_fields(
        Some("abc".to_string()),
        Some("alpine".to_string()),
        Some("3.19".to_string()),
        Some("5MB".to_string()),
        7,
    );
    assert_eq!(im.id, "sha256:abc");
    assert_eq!(im.repo_tags, Some(vec!["alpine:3.19".to_string()]));
    assert_eq!(im.size, 5 * 1048576);
    assert_eq!(im.created, 7);
    assert_eq!(im.shared_size, 0);
    assert_eq!(im.containers, 0);
    assert!(im.repo_digests.is_none());
    assert!(im.virtual_size.is_none());
    assert!(im.labels.is_none());

    let anon = image_from_fields(None, Some("<none>".to_string()), None, None, 0);
    assert_eq!(anon.id, "sha256:");
    assert_eq!(anon.repo_tags, Some(Vec::new()));
    assert_eq!(anon.size, 0);
}

#[test]
fn volume_scope_defaults_to_local() {
    let v = volume_from_fields(Some("data".to_string()), Some("local".to_string()), None, None);
    assert_eq!(v.name, "data");
    assert_eq!(v.driver, "local");
    assert_eq!(v.mountpoint, "");
    assert_eq!(v.scope, "local");
    assert!(v.created_at.is_none());
    assert!(v.usage_data.is_none());
}

#[test]
fn stats_fields_decode() {
    let st = stats_from_fields(
        Some("12.5%".to_string()),
        Some("20%".to_string()),
        Some("100MiB / 500MiB".to_string()),
        Some("1kB / 2kB".to_string()),
        None,
    );
    assert_eq!(st.cpu_percent_text.parse::<f64>().unwrap(), 12.5);
    assert_eq!(st.memory_percent_text.parse::<f64>().unwrap(), 20.0);
    assert_eq!(st.memory_usage, 104857600);
    assert_eq!(st.memory_limit, 524288000);
    assert_eq!(st.network_rx, 1024);
    assert_eq!(st.network_tx, 2048);
    assert_eq!(st.block_read, 0);
    assert_eq!(st.block_write, 0);
}
