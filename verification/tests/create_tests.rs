use docker_native_manager::create::plan_container;

fn s(v: &[&str]) -> Vec<String> {
    v.iter().map(|x| x.to_string()).collect()
}

#[test]
fn port_mappings_last_wins_and_tcp_is_default() {
    let plan = plan_container(
        "web".to_string(),
        "nginx".to_string(),
        s(&["8080:80", "bad", "9000:90/udp", "8081:80", "1:2:3"]),
        s(&["A=1"]),
        s(&["/data:/data"]),
    );
    assert_eq!(plan.name, Some("web".to_string()));
    assert_eq!(plan.image, "nginx");
    let bs = plan.port_bindings.unwrap();
    assert_eq!(bs.len(), 2);
    assert_eq!(bs[0].container_port, "80/tcp");
    assert_eq!(bs[0].host_port, "8081");
    assert_eq!(bs[0].host_ip, "0.0.0.0");
    assert_eq!(bs[1].container_port, "90/udp");
    assert_eq!(bs[1].host_port, "9000");
    assert_eq!(plan.exposed_ports, Some(s(&["80/tcp", "90/udp"])));
    assert_eq!(plan.env, Some(s(&["A=1"])));
    assert_eq!(plan.binds, Some(s(&["/data:/data"])));
}

#[test]
fn blank_name_and_empty_lists_are_left_out() {
    let plan = plan_container(" \t".to_string(), "redis".to_string(), s(&["nope"]), vec![], vec![]);
    assert_eq!(plan.name, None);
    assert!(plan.port_bindings.is_none());
    assert!(plan.exposed_ports.is_none());
    assert!(plan.env.is_none());
    assert!(plan.binds.is_none());
}

#[test]
fn name_keeps_surrounding_spaces() {
    let plan = plan_container(" web ".to_string(), "x".to_string(), vec![], vec![], vec![]);
    assert_eq!(plan.name, Some(" web ".to_string()));
}
