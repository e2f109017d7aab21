use docker_native_manager::actions::{
    container_stats_event, exec_output_event, exec_user, full_image_ref, logs_since, logs_tail,
    pull_item_action, pull_progress_event, shell_path, stats_unavailable, PullItem,
};
use docker_native_manager::compose::{
    command_result, compose_file_name, compose_text, deploy_stack_command, remove_stack_command,
    restart_stack_command, scale_stack_command, stack_logs_command, stack_logs_text,
    start_stack_command, stop_stack_command, system_prune_command, system_prune_result,
    update_stack_commands, CommandArg, DockerCommand,
};
use docker_native_manager::service::{docker_gate, privileged_command, service_outcome, service_plan, ServicePlan};

const FILE: &str = "<file>";

fn line(cmd: &DockerCommand) -> Vec<String> {
    let mut out = vec![cmd.program.clone()];
    for a in &cmd.args {
        match a {
            CommandArg::Text(t) => out.push(t.clone()),
            CommandArg::ComposeFile => out.push(FILE.to_string()),
        }
    }
    out
}

fn words(s: &str) -> Vec<String> {
    s.split(' ').map(|w| w.to_string()).collect()
}

#[test]
fn stack_command_lines() {
    assert_eq!(compose_file_name("shop"), "compose-shop.yaml");
    assert_eq!(line(&deploy_stack_command("shop")), words("docker compose -p shop -f <file> up -d"));
    assert_eq!(line(&remove_stack_command("shop")), words("docker compose -p shop down"));
    assert_eq!(line(&stop_stack_command("shop")), words("docker compose -p shop stop"));
    assert_eq!(line(&restart_stack_command("shop")), words("docker compose -p shop restart"));
    assert_eq!(line(&start_stack_command("shop", true)), words("docker compose -p shop -f <file> up -d"));
    assert_eq!(line(&start_stack_command("shop", false)), words("docker compose -p shop start"));
    assert_eq!(line(&stack_logs_command("shop", false, Some(100))), words("docker compose -p shop logs --no-color --tail 100"));
    assert_eq!(line(&stack_logs_command("shop", true, None)), words("docker compose -p shop -f <file> logs --no-color"));
    assert_eq!(line(&scale_stack_command("shop", true, "web", 3)), words("docker compose -p shop -f <file> up -d --scale web=3"));
    assert_eq!(line(&system_prune_command()), words("docker system prune -f"));
}

#[test]
fn update_needs_the_compose_file() {
    match update_stack_commands("shop", false) {
        Err(e) => assert_eq!(e, "Compose file not found. Cannot update stack created outside this app."),
        Ok(_) => panic!("update without a compose file must fail"),
    }
    let (pull, up) = update_stack_commands("shop", true).unwrap();
    assert_eq!(line(&pull), words("docker compose -p shop -f <file> pull"));
    assert_eq!(line(&up), words("docker compose -p shop -f <file> up -d"));
}

#[test]
fn command_outcomes() {
    assert_eq!(command_result(true, "ignored".to_string()), Ok(()));
    assert_eq!(command_result(false, "boom".to_string()), Err("boom".to_string()));
    assert_eq!(system_prune_result(true, "freed".to_string(), "e".to_string()), Ok("freed".to_string()));
    assert_eq!(system_prune_result(false, "o".to_string(), "e".to_string()), Err("e".to_string()));
    assert_eq!(stack_logs_text("out\n".to_string(), "err\n"), "out\nerr\n");
    assert_eq!(compose_text(Some("services: {}".to_string())), Ok("services: {}".to_string()));
    assert_eq!(
        compose_text(None),
        Err("Compose file not found. It might have been created outside this app.".to_string())
    );
}

#[test]
fn service_actions() {
    match service_plan(&"stop".to_string()).unwrap() {
        ServicePlan::Run { stopped, shell_command } => {
            assert!(stopped);
            assert_eq!(shell_command, "systemctl stop docker.socket docker.service");
        }
        _ => panic!(),
    }
    match service_plan(&"start".to_string()).unwrap() {
        ServicePlan::Run { stopped, shell_command } => {
            assert!(!stopped);
            assert_eq!(shell_command, "systemctl start docker.socket docker.service");
        }
        _ => panic!(),
    }
    match service_plan(&"restart".to_string()).unwrap() {
        ServicePlan::Run { stopped, shell_command } => {
            assert!(!stopped);
            assert_eq!(shell_command, "systemctl restart docker.service");
        }
        _ => panic!(),
    }
    match service_plan(&"reconnect".to_string()).unwrap() {
        ServicePlan::Reconnect { message } => assert_eq!(message, "Reconnection logic triggered"),
        _ => panic!(),
    }
    assert!(matches!(service_plan(&"kill".to_string()), Err(e) if e == "Invalid action"));
    let cmd = privileged_command("systemctl restart docker.service".to_string());
    assert_eq!(cmd.program, "pkexec");
    assert_eq!(cmd.args, vec!["sh".to_string(), "-c".to_string(), "systemctl restart docker.service".to_string()]);
}

#[test]
fn service_reports() {
    let a = "stop".to_string();
    assert_eq!(service_outcome(&a, true, String::new()), Ok("Docker service stoped successfully".to_string()));
    assert_eq!(service_outcome(&a, false, String::new()), Err("Failed to stop Docker service".to_string()));
    assert_eq!(service_outcome(&a, false, "denied".to_string()), Err("denied".to_string()));
}

#[test]
fn gate_closes_while_stopped() {
    assert_eq!(docker_gate(false), Ok(()));
    assert_eq!(docker_gate(true), Err("Docker is intentionally stopped".to_string()));
}

#[test]
fn pulls_default_to_latest() {
    assert_eq!(full_image_ref("nginx".to_string()), "nginx:latest");
    assert_eq!(full_image_ref("nginx:1.25".to_string()), "nginx:1.25");
    assert_eq!(pull_progress_event("nginx:latest"), "pull-progress-nginx:latest");
    assert_eq!(pull_item_action(PullItem::Progress { error: None }), Ok(()));
    assert_eq!(
        pull_item_action(PullItem::Progress { error: Some("denied".to_string()) }),
        Err("Docker pull error: denied".to_string())
    );
    assert_eq!(
        pull_item_action(PullItem::StreamError("eof".to_string())),
        Err("Docker stream error: eof".to_string())
    );
}

#[test]
fn log_request_parameters() {
    assert_eq!(logs_tail(None), "all");
    assert_eq!(logs_tail(Some(250)), "250");
    assert_eq!(logs_since(None), 0);
    assert_eq!(logs_since(Some(1700000000)), 1700000000);
    assert_eq!(logs_since(Some(u64::MAX)), -1);
    assert_eq!(logs_since(Some(1u64 << 63)), i64::MIN);
}

#[test]
fn terminal_parameters() {
    assert_eq!(shell_path(&"bash".to_string()), "/bin/bash");
    assert_eq!(shell_path(&"ash".to_string()), "/bin/ash");
    assert_eq!(shell_path(&"zsh".to_string()), "/bin/sh");
    assert_eq!(exec_user(Some("root".to_string())), Some("root".to_string()));
    assert_eq!(exec_user(Some(String::new())), None);
    assert_eq!(exec_user(None), None);
    assert_eq!(exec_output_event("abc"), "exec-output-abc");
    assert_eq!(container_stats_event("abc"), "container-stats-abc");
    assert_eq!(stats_unavailable(), "Could not get stats");
}
