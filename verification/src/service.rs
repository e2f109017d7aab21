//! Stopping and starting the Docker service, and the switch that keeps the
//! manager away from the daemon while the user has stopped it.
use vstd::prelude::*;
use crate::text::{push_str, string_of};

verus! {

/// What a service action asks for.
pub enum ServicePlan {
    /// Set the "stopped on purpose" switch to `stopped`, then run
    /// `pkexec sh -c <shell_command>`.
    Run { stopped: bool, shell_command: String },
    /// Clear the switch and report `message` at once.
    Reconnect { message: String },
}

/// The switch after `action`: set by "stop", cleared by "start", "restart"
/// and "reconnect", left alone by anything else.
pub open spec fn switch_after(action: Seq<char>, stopped: bool) -> bool {
    if action == "stop"@ {
        true
    } else if action == "start"@ || action == "restart"@ || action == "reconnect"@ {
        false
    } else {
        stopped
    }
}

/// Whether `action` is one of the four service actions.
pub open spec fn is_service_action(action: Seq<char>) -> bool {
    action == "stop"@ || action == "start"@ || action == "restart"@ || action == "reconnect"@
}

proof fn lemma_actions_distinct()
    ensures
        "stop"@ != "start"@,
        "stop"@ != "restart"@,
        "stop"@ != "reconnect"@,
        "start"@ != "restart"@,
        "start"@ != "reconnect"@,
        "restart"@ != "reconnect"@,
{
    reveal_strlit("stop");
    reveal_strlit("start");
    reveal_strlit("restart");
    reveal_strlit("reconnect");
    assert("stop"@[2] != "start"@[2]);
    assert("stop"@.len() != "restart"@.len());
    assert("stop"@.len() != "reconnect"@.len());
    assert("start"@.len() != "restart"@.len());
    assert("start"@.len() != "reconnect"@.len());
    assert("restart"@[2] != "reconnect"@[2]);
}

/// The plan of a service action; any other text is refused.
pub fn service_plan(action: &String) -> (r: Result<ServicePlan, String>)
    ensures
        r is Ok <==> is_service_action(action@),
        match r {
            Ok(ServicePlan::Run { stopped, shell_command }) => {
                &&& stopped == switch_after(action@, false)
                &&& (action@ == "stop"@ ==> shell_command@ == "systemctl stop docker.socket docker.service"@)
                &&& (action@ == "start"@ ==> shell_command@ == "systemctl start docker.socket docker.service"@)
                &&& (action@ == "restart"@ ==> shell_command@ == "systemctl restart docker.service"@)
                &&& action@ != "reconnect"@
            },
            Ok(ServicePlan::Reconnect { message }) => action@ == "reconnect"@ && message@
                == "Reconnection logic triggered"@,
            Err(e) => e@ == "Invalid action"@,
        },
{
    let stop = String::from_str("stop");
    let start = String::from_str("start");
    let restart = String::from_str("restart");
    let reconnect = String::from_str("reconnect");
    proof {
        lemma_actions_distinct();
    }
    if *action == stop {
        Ok(ServicePlan::Run {
            stopped: true,
            shell_command: String::from_str("systemctl stop docker.socket docker.service"),
        })
    } else if *action == start {
        Ok(ServicePlan::Run {
            stopped: false,
            shell_command: String::from_str("systemctl start docker.socket docker.service"),
        })
    } else if *action == restart {
        Ok(ServicePlan::Run { stopped: false, shell_command: String::from_str("systemctl restart docker.service") })
    } else if *action == reconnect {
        Ok(ServicePlan::Reconnect { message: String::from_str("Reconnection logic triggered") })
    } else {
        Err(String::from_str("Invalid action"))
    }
}

/// A command line on the host.
pub struct HostCommand {
    pub program: String,
    pub args: Vec<String>,
}

/// `pkexec sh -c <shell_command>`: runs the command as root after asking once.
pub fn privileged_command(shell_command: String) -> (cmd: HostCommand)
    ensures
        cmd.program@ == "pkexec"@,
        cmd.args@.len() == 3,
        cmd.args@[0]@ == "sh"@,
        cmd.args@[1]@ == "-c"@,
        cmd.args@[2] == shell_command,
{
    let mut args: Vec<String> = Vec::new();
    args.push(String::from_str("sh"));
    args.push(String::from_str("-c"));
    args.push(shell_command);
    HostCommand { program: String::from_str("pkexec"), args: args }
}

/// The report of a service action that ran: "Docker service <action>ed
/// successfully", else its error output, or "Failed to <action> Docker
/// service" when the error output is empty.
pub fn service_outcome(action: &String, success: bool, stderr: String) -> (r: Result<String, String>)
    ensures
        success <==> r is Ok,
        match r {
            Ok(m) => m@ == "Docker service "@ + action@ + "ed successfully"@,
            Err(e) => if stderr@.len() == 0 {
                e@ == "Failed to "@ + action@ + " Docker service"@
            } else {
                e == stderr
            },
        },
{
    if success {
        let mut v: Vec<char> = Vec::new();
        push_str(&mut v, "Docker service ");
        push_str(&mut v, action.as_str());
        push_str(&mut v, "ed successfully");
        Ok(string_of(&v))
    } else if stderr.as_str().unicode_len() == 0 {
        let mut v: Vec<char> = Vec::new();
        push_str(&mut v, "Failed to ");
        push_str(&mut v, action.as_str());
        push_str(&mut v, " Docker service");
        Err(string_of(&v))
    } else {
        Err(stderr)
    }
}

/// Whether the manager may talk to the daemon: not while the user has
/// stopped Docker on purpose.
pub fn docker_gate(stopped: bool) -> (r: Result<(), String>)
    ensures
        stopped <==> r is Err,
        match r {
            Ok(_) => true,
            Err(e) => e@ == "Docker is intentionally stopped"@,
        },
{
    if stopped {
        Err(String::from_str("Docker is intentionally stopped"))
    } else {
        Ok(())
    }
}

/// The switch after a run of service actions, starting from `stopped`.
pub open spec fn switch_after_all(actions: Seq<Seq<char>>, stopped: bool) -> bool
    decreases actions.len(),
{
    if actions.len() == 0 {
        stopped
    } else {
        switch_after(actions.last(), switch_after_all(actions.drop_last(), stopped))
    }
}

/// Whether the action at `k` turns the switch off.
pub open spec fn clears_switch(action: Seq<char>) -> bool {
    action == "start"@ || action == "restart"@ || action == "reconnect"@
}

/// After any run of service actions from a running Docker, the manager
/// keeps away from the daemon exactly when some "stop" was asked for and no
/// "start", "restart" or "reconnect" came after it.
pub proof fn lemma_switch_tracks_last_stop(actions: Seq<Seq<char>>)
    ensures
        switch_after_all(actions, false) <==> exists|k: int|
            0 <= k < actions.len() && #[trigger] actions[k] == "stop"@ && forall|j: int|
                k < j < actions.len() ==> !clears_switch(#[trigger] actions[j]),
    decreases actions.len(),
{
    if actions.len() == 0 {
        return;
    }
    let prev = actions.drop_last();
    let n = actions.len() - 1;
    let a = actions.last();
    lemma_switch_tracks_last_stop(prev);
    assert(forall|i: int| 0 <= i < n ==> #[trigger] prev[i] == actions[i]);
    if a == "stop"@ {
        assert(actions[n] == "stop"@);
    } else if clears_switch(a) {
        assert(a != "stop"@) by {
            lemma_actions_distinct();
        }
        if exists|k: int|
            0 <= k < actions.len() && #[trigger] actions[k] == "stop"@ && forall|j: int|
                k < j < actions.len() ==> !clears_switch(#[trigger] actions[j]) {
            let k = choose|k: int|
                0 <= k < actions.len() && #[trigger] actions[k] == "stop"@ && forall|j: int|
                    k < j < actions.len() ==> !clears_switch(#[trigger] actions[j]);
            assert(k != n);
            assert(!clears_switch(actions[n]));
        }
    } else {
        if switch_after_all(prev, false) {
            let k = choose|k: int|
                0 <= k < prev.len() && #[trigger] prev[k] == "stop"@ && forall|j: int|
                    k < j < prev.len() ==> !clears_switch(#[trigger] prev[j]);
            assert(actions[k] == "stop"@);
            assert forall|j: int| k < j < actions.len() implies !clears_switch(#[trigger] actions[j]) by {
                if j < n {
                    assert(prev[j] == actions[j]);
                }
            }
        } else {
            if exists|k: int|
                0 <= k < actions.len() && #[trigger] actions[k] == "stop"@ && forall|j: int|
                    k < j < actions.len() ==> !clears_switch(#[trigger] actions[j]) {
                let k = choose|k: int|
                    0 <= k < actions.len() && #[trigger] actions[k] == "stop"@ && forall|j: int|
                        k < j < actions.len() ==> !clears_switch(#[trigger] actions[j]);
                assert(k != n);
                assert(prev[k] == "stop"@);
                assert forall|j: int| k < j < prev.len() implies !clears_switch(#[trigger] prev[j]) by {
                    assert(prev[j] == actions[j]);
                }
            }
        }
    }
}

} // verus!
