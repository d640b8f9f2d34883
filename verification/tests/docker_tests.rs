use shao::docker::{container_from_raw, response_body, state_is_running, DockerClient, RawContainer, RawPort};
use shao::dockge::DockgeCollector;

fn port(private: Option<u16>, public: Option<u16>) -> RawPort {
    RawPort { ip: None, private_port: private, public_port: public, port_type: None }
}

fn raw(id: &str, names: &[&str], state: &str, ports: Vec<RawPort>) -> RawContainer {
    RawContainer {
        id: id.to_string(),
        names: names.iter().map(|s| s.to_string()).collect(),
        image: "img".to_string(),
        status: "Up 2 hours".to_string(),
        state: state.to_string(),
        created: 1700000000,
        ports,
    }
}

#[test]
fn client_socket() {
    assert_eq!(DockerClient::new().socket_path(), "/var/run/docker.sock");
}

#[test]
fn container_mapping() {
    let c = container_from_raw(raw(
        "0123456789abcdef0123",
        &["//immich_server", "/other"],
        "Running",
        vec![port(Some(3000), Some(2283)), port(Some(80), None), port(None, None), port(Some(2283), None)],
    ));
    assert_eq!(c.id, "0123456789ab");
    assert_eq!(c.name, "immich_server");
    assert!(c.is_running);
    assert_eq!(c.ports, vec![80, 2283]);
    assert_eq!(c.created_at, 1700000000);
    assert_eq!(c.image, "img");

    let d = container_from_raw(raw("abc", &[], "exited", vec![]));
    assert_eq!(d.id, "abc");
    assert_eq!(d.name, "container");
    assert!(!d.is_running);
    assert!(d.ports.is_empty());
}

#[test]
fn running_state_ignores_case_only() {
    assert!(state_is_running("running"));
    assert!(state_is_running("RUNNING"));
    assert!(!state_is_running("running "));
    assert!(!state_is_running("paused"));
}

#[test]
fn http_body_split() {
    let r = b"HTTP/1.0 200 OK\r\nContent-Type: application/json\r\n\r\n[{\"Id\":1}]\r\n\r\nx";
    assert_eq!(response_body(r).unwrap(), b"[{\"Id\":1}]\r\n\r\nx".to_vec());
    assert_eq!(response_body(b"HTTP/1.0 200 OK\r\n"), None);
    assert_eq!(response_body(b"\r\n\r\n").unwrap(), Vec::<u8>::new());
}

#[test]
fn dockge_counts() {
    let a = container_from_raw(raw("a", &["/a"], "running", vec![]));
    let b = container_from_raw(raw("b", &["/b"], "exited", vec![]));
    let c = container_from_raw(raw("c", &["/c"], "running", vec![]));
    let s = DockgeCollector::collect(&[a, b, c], 0);
    assert_eq!(s.total_containers, 3);
    assert_eq!(s.running_containers, 2);
    assert_eq!(s.active_stacks, 3);
    let t = DockgeCollector::collect(&[], 5);
    assert_eq!(t.active_stacks, 5);
    assert_eq!(t.total_containers, 0);
    assert_eq!(DockgeCollector::stacks_path(), "/home/rh/stacks");
}
