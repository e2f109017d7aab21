use docker_native_manager::containers::{
    container_info, format_ports, volume_users, ContainerSummary, MountedContainer, PortProtocol,
    PortSummary,
};
use docker_native_manager::images::{image_info, short_id, ImageSummary};
use docker_native_manager::resources::{
    network_info, prune_networks_message, system_info, volume_info, DaemonInfo, VolumeUsage,
};

fn port(ip: Option<&str>, private: u16, public: Option<u16>, protocol: PortProtocol) -> PortSummary {
    PortSummary { ip: ip.map(|s| s.to_string()), private_port: private, public_port: public, protocol }
}

#[test]
fn ports_are_listed_like_docker_ps() {
    let ps = vec![
        port(Some("0.0.0.0"), 80, Some(8080), PortProtocol::Tcp),
        port(None, 443, None, PortProtocol::Unspecified),
        port(None, 53, Some(53), PortProtocol::Udp),
        port(Some("::"), 9, None, PortProtocol::Sctp),
    ];
    assert_eq!(format_ports(&ps), "0.0.0.0:8080->80/tcp, 443/, :53->53/udp, 9/sctp");
    assert_eq!(format_ports(&vec![]), "");
}

#[test]
fn container_fields_are_shown_with_defaults() {
    let c = ContainerSummary {
        id: Some("abc".to_string()),
        names: Some(vec!["/web".to_string(), "/alias".to_string()]),
        image: Some("nginx".to_string()),
        state: Some("running".to_string()),
        status: Some("Up 2 hours".to_string()),
        ports: Some(vec![port(None, 80, None, PortProtocol::Tcp)]),
        created: Some(17),
        ip_address: Some("172.17.0.2".to_string()),
        labels: Some(vec![("k".to_string(), "v".to_string())]),
    };
    let info = container_info(c);
    assert_eq!(info.id, "abc");
    assert_eq!(info.name, "web");
    assert_eq!(info.image, "nginx");
    assert_eq!(info.status, "running");
    assert_eq!(info.state, "Up 2 hours");
    assert_eq!(info.ports, "80/tcp");
    assert_eq!(info.created, 17);
    assert_eq!(info.ip_address, "172.17.0.2");
    assert_eq!(info.labels, vec![("k".to_string(), "v".to_string())]);

    let empty = ContainerSummary {
        id: None,
        names: Some(vec![]),
        image: None,
        state: None,
        status: None,
        ports: None,
        created: None,
        ip_address: None,
        labels: None,
    };
    let info = container_info(empty);
    assert_eq!(info.name, "unnamed");
    assert_eq!(info.id, "");
    assert_eq!(info.ports, "");
    assert_eq!(info.created, 0);
    assert!(info.labels.is_empty());
}

#[test]
fn volume_users_are_named_or_short_ids() {
    let cs = vec![
        MountedContainer {
            id: Some("0123456789abcdef".to_string()),
            names: None,
            mounts: Some(vec![None, Some("data".to_string())]),
        },
        MountedContainer {
            id: Some("x".to_string()),
            names: Some(vec!["/db".to_string()]),
            mounts: Some(vec![Some("data".to_string())]),
        },
        MountedContainer {
            id: Some("y".to_string()),
            names: Some(vec!["/other".to_string()]),
            mounts: Some(vec![Some("cache".to_string())]),
        },
        MountedContainer { id: Some("z".to_string()), names: None, mounts: None },
    ];
    assert_eq!(volume_users(&cs, &"data".to_string()), vec!["0123456789ab".to_string(), "db".to_string()]);
    assert!(volume_users(&cs, &"none".to_string()).is_empty());
}

#[test]
fn image_rows_split_repository_and_tag() {
    let img = ImageSummary {
        id: "sha256:0123456789abcdef0123".to_string(),
        repo_tags: vec!["nginx:1.25".to_string(), "nginx:latest".to_string()],
        created: 1700000000,
    };
    let info = image_info(&img, "1.50 MB".to_string(), Some("2023-11-14T22:13:20+00:00".to_string()));
    assert_eq!(info.id, "0123456789ab");
    assert_eq!(info.repository, "nginx");
    assert_eq!(info.tag, "1.25");
    assert_eq!(info.size, "1.50 MB");
    assert_eq!(info.created, "1700000000");
    assert_eq!(info.created_at, "2023-11-14T22:13:20+00:00");

    let bare = ImageSummary { id: "abc".to_string(), repo_tags: vec![], created: -5 };
    let info = image_info(&bare, "0.00 MB".to_string(), None);
    assert_eq!(info.repository, "none");
    assert_eq!(info.tag, "none");
    assert_eq!(info.created, "-5");
    assert_eq!(info.created_at, "unknown");

    let registry = ImageSummary { id: "x".to_string(), repo_tags: vec!["localhost:5000/app:v1".to_string()], created: 0 };
    let info = image_info(&registry, String::new(), None);
    assert_eq!(info.repository, "localhost");
    assert_eq!(info.tag, "5000/app");

    let untagged = ImageSummary { id: "x".to_string(), repo_tags: vec!["plain".to_string()], created: 0 };
    assert_eq!(image_info(&untagged, String::new(), None).tag, "none");
}

#[test]
fn short_ids_drop_the_digest_prefix() {
    assert_eq!(short_id("sha256:abc"), "abc");
    assert_eq!(short_id("sha256:sha256:abcdefabcdefabcdef"), "abcdefabcdef");
}

#[test]
fn volumes_without_usage_show_minus_one() {
    let v = volume_info("v".to_string(), "local".to_string(), "/mnt".to_string(), None, vec![], None);
    assert_eq!((v.size, v.usage_count), (-1, -1));
    assert_eq!(v.created_at, "");
    let v = volume_info(
        "v".to_string(),
        "local".to_string(),
        "/mnt".to_string(),
        Some("2024".to_string()),
        vec![("a".to_string(), "b".to_string())],
        Some(VolumeUsage { size: 10, ref_count: 2 }),
    );
    assert_eq!((v.size, v.usage_count), (10, 2));
    assert_eq!(v.created_at, "2024");
    assert_eq!(v.labels.len(), 1);
}

#[test]
fn networks_show_short_ids() {
    let n = network_info(Some("0123456789abcdef".to_string()), Some("bridge".to_string()), None, Some("local".to_string()));
    assert_eq!(n.id, "0123456789ab");
    assert_eq!(n.name, "bridge");
    assert_eq!(n.driver, "");
    assert_eq!(n.scope, "local");
}

#[test]
fn network_prune_report() {
    assert_eq!(prune_networks_message(3), "Deleted 3 unused networks");
    assert_eq!(prune_networks_message(0), "Deleted 0 unused networks");
}

#[test]
fn system_figures_default_to_zero_and_empty() {
    let info = DaemonInfo {
        containers: Some(5),
        containers_running: Some(2),
        containers_paused: None,
        containers_stopped: Some(-1),
        images: Some(9),
        operating_system: Some("Debian".to_string()),
        kernel_version: None,
        driver: Some("overlay2".to_string()),
        logging_driver: None,
        architecture: Some("x86_64".to_string()),
        ncpu: Some(8),
        mem_total: None,
    };
    let s = system_info(info, Some("27.0".to_string()));
    assert_eq!(s.containers, 5);
    assert_eq!(s.containers_running, 2);
    assert_eq!(s.containers_paused, 0);
    assert_eq!(s.containers_stopped, -1i64 as usize);
    assert_eq!(s.images, 9);
    assert_eq!(s.version, "27.0");
    assert_eq!(s.operating_system, "Debian");
    assert_eq!(s.kernel_version, "");
    assert_eq!(s.storage_driver, "overlay2");
    assert_eq!(s.architecture, "x86_64");
    assert_eq!(s.ncpu, 8);
    assert_eq!(s.mem_total, 0);
}

