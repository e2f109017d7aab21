use docker_native_manager::actions::full_image_ref;
use docker_native_manager::images::{image_info, short_id, ImageSummary};
use docker_native_manager::service::{docker_gate, service_plan, ServicePlan};
use docker_native_manager::stats::{memory_report, HostSampler, HostTotals, MemoryDetail};
use docker_native_manager::text::split_string;

#[test]
fn split_then_join_gives_the_text_back() {
    for s in ["a:b", "::", "", "x", "nginx:1.25:extra"] {
        assert_eq!(split_string(s, ':').join(":"), s);
    }
}

#[test]
fn repository_and_tag_rebuild_the_reference() {
    let img = ImageSummary { id: "i".to_string(), repo_tags: vec!["redis:7-alpine".to_string()], created: 0 };
    let info = image_info(&img, String::new(), None);
    assert_eq!(format!("{}:{}", info.repository, info.tag), "redis:7-alpine");
}

#[test]
fn short_ids_are_at_most_twelve_characters() {
    for id in ["sha256:0123456789abcdef0123456789", "abc", "sha256:"] {
        let s = short_id(id);
        assert!(s.chars().count() <= 12);
        assert!(id.replace("sha256:", "").starts_with(&s));
    }
}

#[test]
fn completing_a_reference_twice_changes_nothing() {
    for image in ["nginx", "nginx:1.25", "localhost:5000/app", ""] {
        let once = full_image_ref(image.to_string());
        assert!(once.contains(':'));
        assert_eq!(full_image_ref(once.clone()), once);
    }
}

#[test]
fn shown_memory_never_exceeds_usage() {
    for (usage, detail) in [
        (Some(10u64), Some(MemoryDetail::CgroupV1 { cache: 20 })),
        (Some(10), Some(MemoryDetail::CgroupV2 { inactive_file: 3 })),
        (None, Some(MemoryDetail::CgroupV1 { cache: 1 })),
        (Some(u64::MAX), None),
    ] {
        let r = memory_report(usage, None, detail);
        assert!(r.usage <= usage.unwrap_or(0));
    }
}

#[test]
fn rates_are_at_most_half_the_new_count() {
    let mut s = HostSampler::new();
    let t = |v: u64| HostTotals { disk_read: v, disk_write: v, net_rx: v, net_tx: v };
    s.record(t(100));
    let r = s.record(t(1001)).unwrap();
    assert_eq!(r.disk_read, 450);
    assert!(r.disk_read <= 1001 / 2);
    let r = s.record(t(5)).unwrap();
    assert_eq!((r.disk_read, r.net_tx), (0, 0));
}

fn switch_after(actions: &[&str]) -> bool {
    let mut stopped = false;
    for a in actions {
        match service_plan(&a.to_string()) {
            Ok(ServicePlan::Run { stopped: s, .. }) => stopped = s,
            Ok(ServicePlan::Reconnect { .. }) => stopped = false,
            Err(_) => {}
        }
    }
    stopped
}

#[test]
fn daemon_is_left_alone_until_docker_is_started_again() {
    assert!(docker_gate(switch_after(&["stop"])).is_err());
    assert!(docker_gate(switch_after(&["stop", "bogus", "stop"])).is_err());
    assert!(docker_gate(switch_after(&["stop", "start"])).is_ok());
    assert!(docker_gate(switch_after(&["stop", "restart"])).is_ok());
    assert!(docker_gate(switch_after(&["stop", "reconnect"])).is_ok());
    assert!(docker_gate(switch_after(&["start", "stop", "oops"])).is_err());
    assert!(docker_gate(switch_after(&[])).is_ok());
}
