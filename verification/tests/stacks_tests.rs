use docker_native_manager::stacks::{compose_project, summarize_stacks, StackContainer};

fn member(project: Option<&str>, state: &str, created: Option<i64>) -> StackContainer {
    StackContainer {
        labels: project.map(|p| {
            vec![
                ("other".to_string(), "x".to_string()),
                ("com.docker.compose.project".to_string(), p.to_string()),
            ]
        }),
        state: Some(state.to_string()),
        created,
    }
}

#[test]
fn project_label_is_found_among_others() {
    let labels = Some(vec![
        ("a".to_string(), "1".to_string()),
        ("com.docker.compose.project".to_string(), "shop".to_string()),
    ]);
    assert_eq!(compose_project(&labels), Some("shop".to_string()));
    assert_eq!(compose_project(&Some(vec![])), None);
    assert_eq!(compose_project(&None), None);
}

#[test]
fn stacks_group_by_project_in_first_seen_order() {
    let cs = vec![
        member(Some("shop"), "running", Some(100)),
        member(None, "running", Some(5)),
        member(Some("blog"), "running", Some(300)),
        member(Some("shop"), "exited", Some(50)),
        member(Some("shop"), "running", Some(200)),
    ];
    let stacks = summarize_stacks(&cs);
    assert_eq!(stacks.len(), 2);
    assert_eq!(stacks[0].name, "shop");
    assert_eq!(stacks[0].services, 3);
    assert_eq!(stacks[0].status, "degraded");
    assert_eq!(stacks[0].created, 50);
    assert_eq!(stacks[0].updated, 200);
    assert_eq!(stacks[1].name, "blog");
    assert_eq!(stacks[1].services, 1);
    assert_eq!(stacks[1].status, "running");
    assert_eq!(stacks[1].created, 300);
    assert_eq!(stacks[1].updated, 300);
}

#[test]
fn unknown_creation_times_do_not_lower_created() {
    let cs = vec![
        member(Some("app"), "running", Some(10)),
        member(Some("app"), "running", None),
        member(Some("app"), "running", Some(30)),
    ];
    let stacks = summarize_stacks(&cs);
    assert_eq!(stacks.len(), 1);
    assert_eq!(stacks[0].created, 10);
    assert_eq!(stacks[0].updated, 30);
    assert_eq!(stacks[0].status, "running");
}

#[test]
fn first_unknown_creation_time_stays() {
    let cs = vec![
        member(Some("app"), "running", None),
        member(Some("app"), "running", Some(30)),
    ];
    let stacks = summarize_stacks(&cs);
    assert_eq!(stacks[0].created, 0);
    assert_eq!(stacks[0].updated, 30);
}

#[test]
fn missing_state_counts_as_not_running() {
    let mut c = member(Some("app"), "running", Some(1));
    c.state = None;
    let stacks = summarize_stacks(&vec![c]);
    assert_eq!(stacks[0].status, "degraded");
}

#[test]
fn no_compose_containers_no_stacks() {
    let stacks = summarize_stacks(&vec![member(None, "running", Some(1))]);
    assert!(stacks.is_empty());
}
