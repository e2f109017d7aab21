//! Per-request decisions: image pulls, log requests, terminals and the
//! names of the events sent to the user interface.
use vstd::prelude::*;
use crate::text::{chars_of, contains_char, decimal, decimal_string, push_str, string_of};

verus! {

/// An image reference with its tag: as given when it names one (holds a
/// ':'), else with ":latest".
pub open spec fn full_image_ref_spec(image: Seq<char>) -> Seq<char> {
    if image.contains(':') {
        image
    } else {
        image + ":latest"@
    }
}

/// The reference pulled for `image`.
pub fn full_image_ref(image: String) -> (r: String)
    ensures
        r@ == full_image_ref_spec(image@),
        image@.contains(':') ==> r@ == image@,
        !image@.contains(':') ==> r@ == image@ + ":latest"@,
{
    let mut v = chars_of(image.as_str());
    if contains_char(&v, ':') {
        image
    } else {
        push_str(&mut v, ":latest");
        string_of(&v)
    }
}

/// `prefix` followed by `id`: the name of a per-object event.
fn event_name(prefix: &str, id: &str) -> (r: String)
    ensures
        r@ == prefix@ + id@,
{
    let mut v = chars_of(prefix);
    push_str(&mut v, id);
    string_of(&v)
}

/// The event that carries the progress of pulling `image_ref`.
pub fn pull_progress_event(image_ref: &str) -> (r: String)
    ensures
        r@ == "pull-progress-"@ + image_ref@,
{
    event_name("pull-progress-", image_ref)
}

/// The event that carries a terminal's output for container `id`.
pub fn exec_output_event(id: &str) -> (r: String)
    ensures
        r@ == "exec-output-"@ + id@,
{
    event_name("exec-output-", id)
}

/// The event that carries the resource figures of container `id`.
pub fn container_stats_event(id: &str) -> (r: String)
    ensures
        r@ == "container-stats-"@ + id@,
{
    event_name("container-stats-", id)
}

/// One item of an image pull's progress stream.
pub enum PullItem {
    /// A progress report, with the daemon's error message if it has one.
    Progress { error: Option<String> },
    /// The stream itself failed, with the failure's message.
    StreamError(String),
}

/// What to do with a pull item: pass the progress on (`Ok`), or stop the
/// pull with the error shown to the user.
pub fn pull_item_action(item: PullItem) -> (r: Result<(), String>)
    ensures
        match item {
            PullItem::Progress { error: None } => r is Ok,
            PullItem::Progress { error: Some(e) } => r matches Err(m) && m@ == "Docker pull error: "@ + e@,
            PullItem::StreamError(e) => r matches Err(m) && m@ == "Docker stream error: "@ + e@,
        },
{
    match item {
        PullItem::Progress { error: None } => Ok(()),
        PullItem::Progress { error: Some(e) } => Err(event_name("Docker pull error: ", e.as_str())),
        PullItem::StreamError(e) => Err(event_name("Docker stream error: ", e.as_str())),
    }
}

/// How many log lines to fetch: the number given, else "all".
pub fn logs_tail(tail: Option<usize>) -> (r: String)
    ensures
        r@ == match tail {
            Some(t) => decimal(t as nat),
            None => "all"@,
        },
{
    match tail {
        Some(t) => decimal_string(t as u64),
        None => String::from_str("all"),
    }
}

/// From when to fetch logs, in seconds since the Unix epoch: the time given
/// read as a signed 64-bit number (so times past `i64::MAX` wrap around),
/// else 0.
pub fn logs_since(since: Option<u64>) -> (r: i64)
    ensures
        r as int == match since {
            Some(s) => if s <= i64::MAX {
                s as int
            } else {
                s as int - 0x1_0000_0000_0000_0000
            },
            None => 0,
        },
{
    match since {
        Some(s) => if s <= 0x7fff_ffff_ffff_ffff {
            s as i64
        } else {
            let d: u64 = s - 0x8000_0000_0000_0000;
            let r: i64 = d as i64;
            r - 0x7fff_ffff_ffff_ffff - 1
        },
        None => 0,
    }
}

/// The shell a terminal runs: bash or ash when asked for, else sh.
pub fn shell_path(shell: &String) -> (r: String)
    ensures
        r@ == if shell@ == "bash"@ {
            "/bin/bash"@
        } else if shell@ == "ash"@ {
            "/bin/ash"@
        } else {
            "/bin/sh"@
        },
{
    let bash = String::from_str("bash");
    let ash = String::from_str("ash");
    if *shell == bash {
        String::from_str("/bin/bash")
    } else if *shell == ash {
        String::from_str("/bin/ash")
    } else {
        String::from_str("/bin/sh")
    }
}

/// The user a terminal runs as: the one given unless it is empty, else the
/// container's default.
pub fn exec_user(user: Option<String>) -> (r: Option<String>)
    ensures
        match user {
            Some(u) => if u@.len() > 0 {
                r == Some(u)
            } else {
                r is None
            },
            None => r is None,
        },
{
    match user {
        Some(u) => if u.as_str().unicode_len() > 0 {
            Some(u)
        } else {
            None
        },
        None => None,
    }
}

/// The error shown when a container's figures cannot be read.
pub fn stats_unavailable() -> (r: String)
    ensures
        r@ == "Could not get stats"@,
{
    String::from_str("Could not get stats")
}

/// The reference pulled always names a tag, and completing it again
/// changes nothing.
pub proof fn lemma_full_image_ref_idempotent(image: Seq<char>)
    ensures
        full_image_ref_spec(image).contains(':'),
        full_image_ref_spec(full_image_ref_spec(image)) == full_image_ref_spec(image),
{
    if !image.contains(':') {
        reveal_strlit(":latest");
        let r = image + ":latest"@;
        assert(r[image.len() as int] == ':');
    }
}

/// A reference that names no tag (holds no ':', whatever else it holds,
/// such as '/') is pulled with ":latest" appended; one that holds ':' is
/// pulled as given.
pub proof fn lemma_full_image_ref_completes(image: Seq<char>)
    ensures
        !image.contains(':') ==> full_image_ref_spec(image) == image + ":latest"@,
        image.contains(':') ==> full_image_ref_spec(image) == image,
        full_image_ref_spec(image).len() == image.len() + if image.contains(':') {
            0int
        } else {
            7int
        },
{
    reveal_strlit(":latest");
}

} // verus!
