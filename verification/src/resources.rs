//! Volumes, networks and the daemon's own figures as shown to the user.
use vstd::prelude::*;
use crate::containers::or_empty;
use crate::text::{decimal, prefix, prefix_string, push_decimal, push_str, string_of};

verus! {

/// A volume as shown to the user.
pub struct VolumeInfo {
    pub name: String,
    pub driver: String,
    pub mountpoint: String,
    pub created_at: String,
    pub labels: Vec<(String, String)>,
    /// Bytes used, -1 when the daemon did not measure it.
    pub size: i64,
    /// Number of containers using it, -1 when the daemon did not count them.
    pub usage_count: i64,
}

/// What the daemon measured of a volume's use.
pub struct VolumeUsage {
    pub size: i64,
    pub ref_count: i64,
}

/// A listed volume as shown to the user: a missing creation time is empty
/// and missing usage figures are -1.
pub fn volume_info(
    name: String,
    driver: String,
    mountpoint: String,
    created_at: Option<String>,
    labels: Vec<(String, String)>,
    usage: Option<VolumeUsage>,
) -> (v: VolumeInfo)
    ensures
        v.name == name,
        v.driver == driver,
        v.mountpoint == mountpoint,
        v.created_at@ == or_empty(created_at),
        v.labels == labels,
        v.size == match usage {
            Some(u) => u.size,
            None => -1i64,
        },
        v.usage_count == match usage {
            Some(u) => u.ref_count,
            None => -1i64,
        },
{
    let created = match created_at {
        Some(c) => c,
        None => String::new(),
    };
    let (size, count): (i64, i64) = match usage {
        Some(u) => (u.size, u.ref_count),
        None => (-1, -1),
    };
    VolumeInfo {
        name: name,
        driver: driver,
        mountpoint: mountpoint,
        created_at: created,
        labels: labels,
        size: size,
        usage_count: count,
    }
}

/// A network as shown to the user.
pub struct NetworkInfo {
    /// The first twelve characters of the network's id.
    pub id: String,
    pub name: String,
    pub driver: String,
    pub scope: String,
}

fn text_or_empty(o: Option<String>) -> (s: String)
    ensures
        s@ == or_empty(o),
{
    match o {
        Some(s) => s,
        None => String::new(),
    }
}

/// A listed network as shown to the user; missing texts are empty.
pub fn network_info(id: Option<String>, name: Option<String>, driver: Option<String>, scope: Option<String>) -> (n: NetworkInfo)
    ensures
        n.id@ == prefix(or_empty(id), 12),
        n.name@ == or_empty(name),
        n.driver@ == or_empty(driver),
        n.scope@ == or_empty(scope),
{
    let full = text_or_empty(id);
    NetworkInfo {
        id: prefix_string(full.as_str(), 12),
        name: text_or_empty(name),
        driver: text_or_empty(driver),
        scope: text_or_empty(scope),
    }
}

/// The report of a network prune.
pub fn prune_networks_message(deleted: usize) -> (m: String)
    ensures
        m@ == "Deleted "@ + decimal(deleted as nat) + " unused networks"@,
{
    let mut v: Vec<char> = Vec::new();
    push_str(&mut v, "Deleted ");
    push_decimal(&mut v, deleted as u64);
    push_str(&mut v, " unused networks");
    string_of(&v)
}

/// The daemon's figures as it reports them.
pub struct DaemonInfo {
    pub containers: Option<i64>,
    pub containers_running: Option<i64>,
    pub containers_paused: Option<i64>,
    pub containers_stopped: Option<i64>,
    pub images: Option<i64>,
    pub operating_system: Option<String>,
    pub kernel_version: Option<String>,
    pub driver: Option<String>,
    pub logging_driver: Option<String>,
    pub architecture: Option<String>,
    pub ncpu: Option<i64>,
    pub mem_total: Option<i64>,
}

/// The daemon's figures as shown to the user.
pub struct SystemInfo {
    pub containers: usize,
    pub containers_running: usize,
    pub containers_paused: usize,
    pub containers_stopped: usize,
    pub images: usize,
    pub version: String,
    pub operating_system: String,
    pub kernel_version: String,
    pub storage_driver: String,
    pub logging_driver: String,
    pub architecture: String,
    pub ncpu: i64,
    pub mem_total: i64,
}

/// A count as a machine-sized number: 0 when missing, and converted as
/// `as usize` converts (a negative count wraps around).
pub open spec fn count_of(c: Option<i64>) -> usize {
    match c {
        Some(x) => x as usize,
        None => 0,
    }
}

fn count(c: Option<i64>) -> (r: usize)
    ensures
        r == count_of(c),
{
    match c {
        Some(x) => x as usize,
        None => 0,
    }
}

/// The daemon's figures and version as shown to the user: missing counts
/// are 0, missing texts are empty.
pub fn system_info(info: DaemonInfo, version: Option<String>) -> (s: SystemInfo)
    ensures
        s.containers == count_of(info.containers),
        s.containers_running == count_of(info.containers_running),
        s.containers_paused == count_of(info.containers_paused),
        s.containers_stopped == count_of(info.containers_stopped),
        s.images == count_of(info.images),
        s.version@ == or_empty(version),
        s.operating_system@ == or_empty(info.operating_system),
        s.kernel_version@ == or_empty(info.kernel_version),
        s.storage_driver@ == or_empty(info.driver),
        s.logging_driver@ == or_empty(info.logging_driver),
        s.architecture@ == or_empty(info.architecture),
        s.ncpu == match info.ncpu {
            Some(n) => n,
            None => 0,
        },
        s.mem_total == match info.mem_total {
            Some(m) => m,
            None => 0,
        },
{
    let ncpu: i64 = match info.ncpu {
        Some(n) => n,
        None => 0,
    };
    let mem_total: i64 = match info.mem_total {
        Some(m) => m,
        None => 0,
    };
    SystemInfo {
        containers: count(info.containers),
        containers_running: count(info.containers_running),
        containers_paused: count(info.containers_paused),
        containers_stopped: count(info.containers_stopped),
        images: count(info.images),
        version: text_or_empty(version),
        operating_system: text_or_empty(info.operating_system),
        kernel_version: text_or_empty(info.kernel_version),
        storage_driver: text_or_empty(info.driver),
        logging_driver: text_or_empty(info.logging_driver),
        architecture: text_or_empty(info.architecture),
        ncpu: ncpu,
        mem_total: mem_total,
    }
}

} // verus!
