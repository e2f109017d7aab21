//! The `docker compose` and `docker system` command lines behind the stack
//! actions, and how their outcome is reported.
use vstd::prelude::*;
use crate::text::{chars_of, decimal, decimal_string, push_decimal, push_str, string_of};

verus! {

/// One argument of a command line.
pub enum CommandArg {
    Text(String),
    /// The path of the stack's compose file, which the caller knows.
    ComposeFile,
}

/// A command line: the program and its arguments.
pub struct DockerCommand {
    pub program: String,
    pub args: Vec<CommandArg>,
}

/// An argument as text, or none for the compose file's path.
pub open spec fn arg_view(a: CommandArg) -> Option<Seq<char>> {
    match a {
        CommandArg::Text(s) => Some(s@),
        CommandArg::ComposeFile => None,
    }
}

pub open spec fn args_view(args: Seq<CommandArg>) -> Seq<Option<Seq<char>>> {
    args.map_values(|a: CommandArg| arg_view(a))
}

/// Whether `cmd` runs `docker` with the arguments `args`.
pub open spec fn runs_docker(cmd: DockerCommand, args: Seq<Option<Seq<char>>>) -> bool {
    cmd.program@ == "docker"@ && args_view(cmd.args@) == args
}

pub open spec fn text(s: Seq<char>) -> Option<Seq<char>> {
    Some(s)
}

/// "compose -p <name>": the arguments that address a stack's project.
pub open spec fn project_args(name: Seq<char>) -> Seq<Option<Seq<char>>> {
    seq![text("compose"@), text("-p"@), text(name)]
}

/// "-f <compose file>" when the stack's compose file exists, else nothing.
pub open spec fn file_args(has_file: bool) -> Seq<Option<Seq<char>>> {
    if has_file {
        seq![text("-f"@), None]
    } else {
        Seq::<Option<Seq<char>>>::empty()
    }
}

/// The file name under which a stack's compose file is kept.
pub open spec fn compose_file_name_spec(name: Seq<char>) -> Seq<char> {
    "compose-"@ + name + ".yaml"@
}

/// The file name under which a stack's compose file is kept.
pub fn compose_file_name(name: &str) -> (r: String)
    ensures
        r@ == compose_file_name_spec(name@),
{
    let mut v: Vec<char> = Vec::new();
    push_str(&mut v, "compose-");
    push_str(&mut v, name);
    push_str(&mut v, ".yaml");
    string_of(&v)
}

struct ArgsBuilder {
    args: Vec<CommandArg>,
}

impl ArgsBuilder {
    fn new() -> (b: Self)
        ensures
            args_view(b.args@) == Seq::<Option<Seq<char>>>::empty(),
    {
        let b = ArgsBuilder { args: Vec::new() };
        assert(args_view(b.args@) =~= Seq::<Option<Seq<char>>>::empty());
        b
    }

    fn text(&mut self, s: &str)
        ensures
            args_view(final(self).args@) == args_view(old(self).args@).push(Some(s@)),
    {
        self.args.push(CommandArg::Text(String::from_str(s)));
        assert(args_view(self.args@) =~= args_view(old(self).args@).push(Some(s@)));
    }

    fn compose_file(&mut self)
        ensures
            args_view(final(self).args@) == args_view(old(self).args@).push(None),
    {
        self.args.push(CommandArg::ComposeFile);
        assert(args_view(self.args@) =~= args_view(old(self).args@).push(None));
    }

    fn project(&mut self, name: &str)
        ensures
            args_view(final(self).args@) == args_view(old(self).args@) + project_args(name@),
    {
        self.text("compose");
        self.text("-p");
        self.text(name);
        assert(args_view(self.args@) =~= args_view(old(self).args@) + project_args(name@));
    }

    fn file_if(&mut self, has_file: bool)
        ensures
            args_view(final(self).args@) == args_view(old(self).args@) + file_args(has_file),
    {
        if has_file {
            self.text("-f");
            self.compose_file();
        }
        assert(args_view(self.args@) =~= args_view(old(self).args@) + file_args(has_file));
    }

    fn docker(self) -> (cmd: DockerCommand)
        ensures
            cmd.program@ == "docker"@,
            cmd.args == self.args,
    {
        DockerCommand { program: String::from_str("docker"), args: self.args }
    }
}

/// "docker compose -p <name> -f <file> up -d": brings a stack up from the
/// compose file just written.
pub fn deploy_stack_command(name: &str) -> (cmd: DockerCommand)
    ensures
        runs_docker(cmd, project_args(name@) + file_args(true) + seq![text("up"@), text("-d"@)]),
{
    let mut b = ArgsBuilder::new();
    b.project(name);
    b.file_if(true);
    b.text("up");
    b.text("-d");
    proof {
        assert(args_view(b.args@) =~= project_args(name@) + file_args(true) + seq![text("up"@), text("-d"@)]);
    }
    b.docker()
}

/// "docker compose -p <name> <verb>" for the actions that need no file.
fn project_verb_command(name: &str, verb: &str) -> (cmd: DockerCommand)
    ensures
        runs_docker(cmd, project_args(name@).push(text(verb@))),
{
    let mut b = ArgsBuilder::new();
    b.project(name);
    b.text(verb);
    proof {
        assert(args_view(b.args@) =~= project_args(name@).push(text(verb@)));
    }
    b.docker()
}

/// "docker compose -p <name> down": removes a stack.
pub fn remove_stack_command(name: &str) -> (cmd: DockerCommand)
    ensures
        runs_docker(cmd, project_args(name@).push(text("down"@))),
{
    project_verb_command(name, "down")
}

/// "docker compose -p <name> stop": stops a stack.
pub fn stop_stack_command(name: &str) -> (cmd: DockerCommand)
    ensures
        runs_docker(cmd, project_args(name@).push(text("stop"@))),
{
    project_verb_command(name, "stop")
}

/// "docker compose -p <name> restart": restarts a stack.
pub fn restart_stack_command(name: &str) -> (cmd: DockerCommand)
    ensures
        runs_docker(cmd, project_args(name@).push(text("restart"@))),
{
    project_verb_command(name, "restart")
}

/// Starts a stack: "up -d" from its compose file when the file exists,
/// else "start" of the project's stopped containers.
pub fn start_stack_command(name: &str, has_file: bool) -> (cmd: DockerCommand)
    ensures
        has_file ==> runs_docker(cmd, project_args(name@) + file_args(true) + seq![text("up"@), text("-d"@)]),
        !has_file ==> runs_docker(cmd, project_args(name@).push(text("start"@))),
{
    if has_file {
        deploy_stack_command(name)
    } else {
        project_verb_command(name, "start")
    }
}

/// Updates a stack: pull its images, then "up -d" again from its compose
/// file. A stack without a compose file cannot be updated.
pub fn update_stack_commands(name: &str, has_file: bool) -> (r: Result<(DockerCommand, DockerCommand), String>)
    ensures
        has_file <==> r is Ok,
        match r {
            Ok(cmds) => {
                &&& runs_docker(cmds.0, project_args(name@) + file_args(true) + seq![text("pull"@)])
                &&& runs_docker(cmds.1, project_args(name@) + file_args(true) + seq![text("up"@), text("-d"@)])
            },
            Err(e) => e@ == "Compose file not found. Cannot update stack created outside this app."@,
        },
{
    if !has_file {
        return Err(String::from_str("Compose file not found. Cannot update stack created outside this app."));
    }
    let mut b = ArgsBuilder::new();
    b.project(name);
    b.file_if(true);
    b.text("pull");
    proof {
        assert(args_view(b.args@) =~= project_args(name@) + file_args(true) + seq![text("pull"@)]);
    }
    let pull = b.docker();
    Ok((pull, deploy_stack_command(name)))
}

/// The logs of a stack: "logs --no-color", from the compose file when it
/// exists, limited to the last `tail` lines when a limit is given.
pub fn stack_logs_command(name: &str, has_file: bool, tail: Option<usize>) -> (cmd: DockerCommand)
    ensures
        runs_docker(
            cmd,
            project_args(name@) + file_args(has_file) + seq![text("logs"@), text("--no-color"@)] + match tail {
                Some(t) => seq![text("--tail"@), text(decimal(t as nat))],
                None => Seq::<Option<Seq<char>>>::empty(),
            },
        ),
{
    let mut b = ArgsBuilder::new();
    b.project(name);
    b.file_if(has_file);
    b.text("logs");
    b.text("--no-color");
    match tail {
        Some(t) => {
            b.text("--tail");
            let n = decimal_string(t as u64);
            b.text(n.as_str());
        },
        None => {},
    }
    proof {
        assert(args_view(b.args@) =~= project_args(name@) + file_args(has_file) + seq![
            text("logs"@),
            text("--no-color"@),
        ] + match tail {
            Some(t) => seq![text("--tail"@), text(decimal(t as nat))],
            None => Seq::<Option<Seq<char>>>::empty(),
        });
    }
    b.docker()
}

/// Scales one service of a stack: "up -d --scale <service>=<count>", from
/// the compose file when it exists.
pub fn scale_stack_command(name: &str, has_file: bool, service: &str, scale: u32) -> (cmd: DockerCommand)
    ensures
        runs_docker(
            cmd,
            project_args(name@) + file_args(has_file) + seq![
                text("up"@),
                text("-d"@),
                text("--scale"@),
                text(service@ + "="@ + decimal(scale as nat)),
            ],
        ),
{
    let mut b = ArgsBuilder::new();
    b.project(name);
    b.file_if(has_file);
    b.text("up");
    b.text("-d");
    b.text("--scale");
    let mut v: Vec<char> = chars_of(service);
    push_str(&mut v, "=");
    push_decimal(&mut v, scale as u64);
    let arg = string_of(&v);
    b.text(arg.as_str());
    proof {
        assert(args_view(b.args@) =~= project_args(name@) + file_args(has_file) + seq![
            text("up"@),
            text("-d"@),
            text("--scale"@),
            text(service@ + "="@ + decimal(scale as nat)),
        ]);
    }
    b.docker()
}

/// "docker system prune -f": removes everything unused without asking.
pub fn system_prune_command() -> (cmd: DockerCommand)
    ensures
        runs_docker(cmd, seq![text("system"@), text("prune"@), text("-f"@)]),
{
    let mut b = ArgsBuilder::new();
    b.text("system");
    b.text("prune");
    b.text("-f");
    proof {
        assert(args_view(b.args@) =~= seq![text("system"@), text("prune"@), text("-f"@)]);
    }
    b.docker()
}

/// The outcome of a command: success, or the command's error output.
pub fn command_result(success: bool, stderr: String) -> (r: Result<(), String>)
    ensures
        success <==> r is Ok,
        match r {
            Ok(_) => true,
            Err(e) => e == stderr,
        },
{
    if success {
        Ok(())
    } else {
        Err(stderr)
    }
}

/// The outcome of a system prune: its report, or its error output.
pub fn system_prune_result(success: bool, stdout: String, stderr: String) -> (r: Result<String, String>)
    ensures
        success <==> r is Ok,
        match r {
            Ok(out) => out == stdout,
            Err(e) => e == stderr,
        },
{
    if success {
        Ok(stdout)
    } else {
        Err(stderr)
    }
}

/// The text shown for a stack's logs: the standard output followed by the
/// error output, whether or not the command succeeded.
pub fn stack_logs_text(stdout: String, stderr: &str) -> (r: String)
    ensures
        r@ == stdout@ + stderr@,
{
    let mut v = chars_of(stdout.as_str());
    push_str(&mut v, stderr);
    string_of(&v)
}

/// The compose file of a stack, or why it cannot be shown.
pub fn compose_text(contents: Option<String>) -> (r: Result<String, String>)
    ensures
        contents is Some <==> r is Ok,
        match r {
            Ok(t) => contents == Some(t),
            Err(e) => e@ == "Compose file not found. It might have been created outside this app."@,
        },
{
    match contents {
        Some(t) => Ok(t),
        None => Err(String::from_str("Compose file not found. It might have been created outside this app.")),
    }
}

} // verus!
