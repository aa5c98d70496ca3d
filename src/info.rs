use vstd::prelude::*;

use crate::parse::{parse_osr_key, release_value};
use crate::text::chars_of;
use crate::units::{kb_text, minf_get_gb, minf_get_kb, stat_kb, stat_text, used_mem, used_text};
use crate::uptime::{get_uptime, uptime_seconds_of, uptime_text};

verus! {

/// Fetched system information.
#[derive(Debug)]
pub struct SystemInfo {
    pub distro_name: String,
    pub distro_id: String,
    pub distro_build_id: String,
    pub username: String,
    pub hostname: String,
    pub shell: String,
    pub kernel: String,
    pub uptime_seconds: u32,
    pub uptime_minutes: u32,
    pub uptime_hours: u32,
    pub uptime_days: u32,
    pub uptime_formatted: String,
    pub total_mem: String,
    pub cached_mem: String,
    pub available_mem: String,
    pub used_mem: String,
}

/// What a `SystemInfo` holds, as mathematical values.
pub struct SystemInfoView {
    pub distro_name: Seq<char>,
    pub distro_id: Seq<char>,
    pub distro_build_id: Seq<char>,
    pub username: Seq<char>,
    pub hostname: Seq<char>,
    pub shell: Seq<char>,
    pub kernel: Seq<char>,
    pub uptime_seconds: nat,
    pub uptime_minutes: nat,
    pub uptime_hours: nat,
    pub uptime_days: nat,
    pub uptime_formatted: Seq<char>,
    pub total_mem: Seq<char>,
    pub cached_mem: Seq<char>,
    pub available_mem: Seq<char>,
    pub used_mem: Seq<char>,
}

impl View for SystemInfo {
    type V = SystemInfoView;

    open spec fn view(&self) -> SystemInfoView {
        SystemInfoView {
            distro_name: self.distro_name@,
            distro_id: self.distro_id@,
            distro_build_id: self.distro_build_id@,
            username: self.username@,
            hostname: self.hostname@,
            shell: self.shell@,
            kernel: self.kernel@,
            uptime_seconds: self.uptime_seconds as nat,
            uptime_minutes: self.uptime_minutes as nat,
            uptime_hours: self.uptime_hours as nat,
            uptime_days: self.uptime_days as nat,
            uptime_formatted: self.uptime_formatted@,
            total_mem: self.total_mem@,
            cached_mem: self.cached_mem@,
            available_mem: self.available_mem@,
            used_mem: self.used_mem@,
        }
    }
}

/// The index just after the last `/` in `t[..i]`, or zero.
pub open spec fn segment_start(t: Seq<char>, i: int) -> int
    decreases i,
{
    if i <= 0 || i > t.len() {
        0
    } else if t[i - 1] == '/' {
        i
    } else {
        segment_start(t, i - 1)
    }
}

/// The last `/`-separated segment of a path.
pub open spec fn last_segment(t: Seq<char>) -> Seq<char> {
    t.subrange(segment_start(t, t.len() as int), t.len() as int)
}

/// The name of a shell from the path of its executable: the part after the
/// last `/` ("/usr/bin/zsh" gives "zsh").
pub fn shell_name(path: &str) -> (r: String)
    ensures
        r@ == last_segment(path@),
{
    let t = chars_of(path);
    let n = t.len();
    let mut i = n;
    while i > 0 && t[i - 1] != '/'
        invariant
            i <= n,
            n == t@.len(),
            segment_start(t@, n as int) == segment_start(t@, i as int),
        decreases i,
    {
        i = i - 1;
    }
    path.substring_char(i, n).to_owned()
}

/// The information gathered from the release metadata, the memory
/// statistics and the uptime counter (as text), the three identities and the
/// shell's path; none where a release key or a memory amount is missing or
/// more memory is available than there is in total.
pub open spec fn gather_spec(
    os_release: Seq<char>,
    meminfo: Seq<char>,
    uptime: Seq<char>,
    username: Seq<char>,
    hostname: Seq<char>,
    kernel: Seq<char>,
    shell_path: Seq<char>,
) -> Option<SystemInfoView> {
    let name = release_value(os_release, "NAME"@);
    let id = release_value(os_release, "ID"@);
    let build = release_value(os_release, "BUILD_ID"@);
    let total = stat_kb(meminfo, "MemTotal"@);
    let cached = stat_kb(meminfo, "Cached"@);
    let available = stat_kb(meminfo, "MemAvailable"@);
    if name is Some && id is Some && build is Some && total is Some && cached is Some
        && available is Some && available->0 <= total->0 {
        let s = uptime_seconds_of(uptime);
        Some(
            SystemInfoView {
                distro_name: name->0,
                distro_id: id->0,
                distro_build_id: build->0,
                username,
                hostname,
                shell: last_segment(shell_path),
                kernel,
                uptime_seconds: s,
                uptime_minutes: s % 3600 / 60,
                uptime_hours: s / 3600,
                uptime_days: s / 86400,
                uptime_formatted: uptime_text(s),
                total_mem: stat_text(meminfo, "MemTotal"@)->0,
                cached_mem: stat_text(meminfo, "Cached"@)->0,
                available_mem: stat_text(meminfo, "MemAvailable"@)->0,
                used_mem: used_text(total->0, available->0)->0,
            },
        )
    } else {
        None
    }
}

/// `r` is what gathering gives from these sources.
pub open spec fn gathered(
    os_release: Seq<char>,
    meminfo: Seq<char>,
    uptime: Seq<char>,
    username: Seq<char>,
    hostname: Seq<char>,
    kernel: Seq<char>,
    shell_path: Seq<char>,
    r: Option<SystemInfo>,
) -> bool {
    let g = gather_spec(os_release, meminfo, uptime, username, hostname, kernel, shell_path);
    &&& r is Some <==> g is Some
    &&& r is Some ==> r->0@ == g->0
}

/// Assembles the system information from the contents of the release
/// metadata, the memory statistics and the uptime counter, the login name,
/// host name and kernel release, and the path of the shell. Every field is
/// filled, or the result is `None`.
pub fn assemble_system_info(
    os_release: &str,
    meminfo: &str,
    uptime: &str,
    username: String,
    hostname: String,
    kernel: String,
    shell_path: &str,
) -> (r: Option<SystemInfo>)
    ensures
        gathered(os_release@, meminfo@, uptime@, username@, hostname@, kernel@, shell_path@, r),
{
    let distro_name = parse_osr_key(os_release, "NAME")?;
    let distro_id = parse_osr_key(os_release, "ID")?;
    let distro_build_id = parse_osr_key(os_release, "BUILD_ID")?;
    let shell = shell_name(shell_path);
    let total_mem = minf_get_gb(meminfo, "MemTotal")?;
    let cached_mem = minf_get_gb(meminfo, "Cached")?;
    let available_mem = minf_get_gb(meminfo, "MemAvailable")?;
    let total_kb = minf_get_kb(meminfo, "MemTotal")?;
    let available_kb = minf_get_kb(meminfo, "MemAvailable")?;
    let used_mem = used_mem(total_kb, available_kb)?;
    let up = get_uptime(uptime);
    Some(
        SystemInfo {
            distro_name,
            distro_id,
            distro_build_id,
            username,
            hostname,
            shell,
            kernel,
            uptime_seconds: up.seconds,
            uptime_minutes: up.minutes,
            uptime_hours: up.hours,
            uptime_days: up.days,
            uptime_formatted: up.formatted,
            total_mem,
            cached_mem,
            available_mem,
            used_mem,
        },
    )
}

/// Gathering twice from unchanged sources gives the same result: both fail,
/// or both give equal information.
pub proof fn lemma_gather_deterministic(
    os_release: Seq<char>,
    meminfo: Seq<char>,
    uptime: Seq<char>,
    username: Seq<char>,
    hostname: Seq<char>,
    kernel: Seq<char>,
    shell_path: Seq<char>,
    first: Option<SystemInfo>,
    second: Option<SystemInfo>,
)
    requires
        gathered(os_release, meminfo, uptime, username, hostname, kernel, shell_path, first),
        gathered(os_release, meminfo, uptime, username, hostname, kernel, shell_path, second),
    ensures
        first is Some <==> second is Some,
        first is Some ==> first->0@ == second->0@,
{
}

/// Gathered memory in use is the text of the total less the available amount,
/// which is never negative; where every other field is present, gathering
/// succeeds exactly when no more memory is available than there is in total.
pub proof fn lemma_gathered_used_memory(
    os_release: Seq<char>,
    meminfo: Seq<char>,
    uptime: Seq<char>,
    username: Seq<char>,
    hostname: Seq<char>,
    kernel: Seq<char>,
    shell_path: Seq<char>,
)
    ensures
        ({
            let g = gather_spec(os_release, meminfo, uptime, username, hostname, kernel, shell_path);
            let total = stat_kb(meminfo, "MemTotal"@);
            let available = stat_kb(meminfo, "MemAvailable"@);
            &&& g is Some ==> total is Some && available is Some && total->0 - available->0 >= 0
                && available->0 >= 0 && kb_text(total->0 - available->0) == Some(g->0.used_mem)
            &&& (release_value(os_release, "NAME"@) is Some && release_value(os_release, "ID"@) is Some
                && release_value(os_release, "BUILD_ID"@) is Some && stat_kb(meminfo, "Cached"@) is Some
                && total is Some && available is Some) ==> (g is Some <==> available->0 <= total->0)
        }),
{
}

} // verus!
