//! Decisions taken when a guest is launched: parsing directory mappings
//! given on the command line, choosing and adjusting the configuration,
//! planning the WASI context, choosing the entry point and the exit code.

use vstd::prelude::*;
use crate::config::{SandboxConfig, PathMapping, lists_text};
use crate::sandbox_fs::{filtered_env, passes_whitelist};
use crate::text::{prefix_until, suffix_from, has_prefix, same_text};
use vstd::string::StrSliceExecFns;

verus! {

/// Index `k` holds the first `':'` of `s`.
pub open spec fn is_first_colon(s: Seq<char>, k: int) -> bool {
    &&& 0 <= k < s.len()
    &&& s[k] == ':'
    &&& forall|j: int| 0 <= j < k ==> s[j] != ':'
}

/// The (guest, host) parts of a `guest:host` mapping: the text before the
/// first `':'` and the text after it; `None` when `s` holds no `':'`.
pub open spec fn dir_mapping_parts(s: Seq<char>) -> Option<(Seq<char>, Seq<char>)> {
    if exists|k: int| is_first_colon(s, k) {
        let k = choose|k: int| is_first_colon(s, k);
        Some((s.take(k), s.skip(k + 1)))
    } else {
        None
    }
}

/// The message given for a directory mapping without a `':'`.
pub open spec fn dir_mapping_format_message() -> Seq<char> {
    "Directory mapping must be in format 'guest:host'"@
}

/// Two first colons of one text are the same index.
proof fn lemma_first_colon_unique(s: Seq<char>, k1: int, k2: int)
    requires
        is_first_colon(s, k1),
        is_first_colon(s, k2),
    ensures
        k1 == k2,
{
    if k1 < k2 {
        assert(s[k1] != ':');
    } else if k2 < k1 {
        assert(s[k2] != ':');
    }
}

/// Parse a directory mapping in `guest:host` form, splitting at the first
/// `':'`.
pub fn parse_dir_mapping(s: &str) -> (r: Result<(String, String), String>)
    ensures
        match r {
            Ok((guest, host)) => dir_mapping_parts(s@) == Some((guest@, host@)),
            Err(e) => dir_mapping_parts(s@) is None && e@ == dir_mapping_format_message(),
        },
{
    let n = s.unicode_len();
    let mut k: usize = 0;
    while k < n && s.get_char(k) != ':'
        invariant
            n == s@.len(),
            k <= n,
            forall|j: int| 0 <= j < k ==> s@[j] != ':',
        decreases n - k,
    {
        k = k + 1;
    }
    if k == n {
        proof {
            assert forall|c: int| !is_first_colon(s@, c) by {
                if is_first_colon(s@, c) {
                    assert(s@[c] != ':');
                }
            }
            reveal_strlit("Directory mapping must be in format 'guest:host'");
        }
        return Err("Directory mapping must be in format 'guest:host'".to_owned());
    }
    let guest = prefix_until(s, k);
    let host = suffix_from(s, k + 1);
    proof {
        assert(is_first_colon(s@, k as int));
        let c = choose|c: int| is_first_colon(s@, c);
        lemma_first_colon_unique(s@, c, k as int);
    }
    Ok((guest, host))
}

/// Law: a guest part without `':'` and any host part, joined by `':'`,
/// parse back to the same two parts.
pub proof fn law_dir_mapping_round_trip(guest: Seq<char>, host: Seq<char>)
    requires
        !guest.contains(':'),
    ensures
        dir_mapping_parts(guest + seq![':'] + host) == Some((guest, host)),
{
    let s = guest + seq![':'] + host;
    let k = guest.len() as int;
    assert forall|j: int| 0 <= j < k implies s[j] != ':' by {
        assert(guest[j] == s[j]);
    }
    assert(is_first_colon(s, k));
    let c = choose|c: int| is_first_colon(s, c);
    lemma_first_colon_unique(s, c, k);
    assert(s.take(k) =~= guest);
    assert(s.skip(k + 1) =~= host);
}

/// Law: a filtered network admits a port exactly when the port list is
/// absent or equal to some entry of it at any position, and a host exactly
/// when the host list is absent or names it.
pub proof fn law_filtered_network_admits(
    hosts: Option<Vec<String>>,
    ports: Option<Vec<u16>>,
    h: Seq<char>,
    port: u16,
)
    ensures
        network_admits(NetworkAccess::Filtered { hosts, ports }, h, port) <==> (match hosts {
            None => true,
            Some(hs) => exists|i: int| 0 <= i < hs@.len() && hs@[i]@ == h,
        } && match ports {
            None => true,
            Some(ps) => exists|i: int| 0 <= i < ps@.len() && ps@[i] == port,
        }),
{
}

/// Where the configuration of a run comes from.
#[derive(Debug, Clone, Copy, PartialEq, Eq)]
pub enum ConfigSource {
    /// The permissive development configuration.
    Permissive,
    /// A JSON configuration file.
    File,
    /// The default configuration.
    Default,
}

/// Permissive mode wins over a configuration file, which wins over the
/// default configuration.
pub fn select_config_source(permissive: bool, has_config_file: bool) -> (r: ConfigSource)
    ensures
        r == (if permissive {
            ConfigSource::Permissive
        } else if has_config_file {
            ConfigSource::File
        } else {
            ConfigSource::Default
        }),
{
    if permissive {
        ConfigSource::Permissive
    } else if has_config_file {
        ConfigSource::File
    } else {
        ConfigSource::Default
    }
}

/// Apply command-line overrides: each `(guest, host)` directory becomes a
/// writable allowed mapping after the configured ones, and `network` opens
/// the network to every host and port.
pub fn apply_cli_overrides(config: &mut SandboxConfig, dirs: &Vec<(String, String)>, network: bool)
    requires
        old(config).allowed_paths@.len() + dirs@.len() <= usize::MAX,
    ensures
        final(config).allowed_paths@.len() == old(config).allowed_paths@.len() + dirs@.len(),
        forall|i: int|
            0 <= i < old(config).allowed_paths@.len() ==> #[trigger] final(config).allowed_paths@[i]
                == old(config).allowed_paths@[i],
        forall|i: int|
            0 <= i < dirs@.len() ==> #[trigger] final(config).allowed_paths@[old(
                config,
            ).allowed_paths@.len() + i] == (PathMapping {
                guest: dirs@[i].0,
                host: dirs@[i].1,
                read_only: false,
            }),
        final(config).denied_paths == old(config).denied_paths,
        final(config).env == old(config).env,
        final(config).env_whitelist == old(config).env_whitelist,
        final(config).max_memory_bytes == old(config).max_memory_bytes,
        final(config).max_exec_time_ms == old(config).max_exec_time_ms,
        final(config).max_file_size == old(config).max_file_size,
        final(config).max_total_size == old(config).max_total_size,
        final(config).max_open_files == old(config).max_open_files,
        network ==> final(config).allow_network && final(config).allowed_hosts is None
            && final(config).allowed_ports is None,
        !network ==> final(config).allow_network == old(config).allow_network
            && final(config).allowed_hosts == old(config).allowed_hosts
            && final(config).allowed_ports == old(config).allowed_ports,
{
    let ghost start = config.allowed_paths@;
    let mut i: usize = 0;
    while i < dirs.len()
        invariant
            i <= dirs@.len(),
            start.len() + dirs@.len() <= usize::MAX,
            config.allowed_paths@.len() == start.len() + i,
            forall|k: int| 0 <= k < start.len() ==> #[trigger] config.allowed_paths@[k] == start[k],
            forall|k: int|
                0 <= k < i ==> #[trigger] config.allowed_paths@[start.len() + k] == (PathMapping {
                    guest: dirs@[k].0,
                    host: dirs@[k].1,
                    read_only: false,
                }),
            config.denied_paths == old(config).denied_paths,
            config.env == old(config).env,
            config.env_whitelist == old(config).env_whitelist,
            config.max_memory_bytes == old(config).max_memory_bytes,
            config.max_exec_time_ms == old(config).max_exec_time_ms,
            config.max_file_size == old(config).max_file_size,
            config.max_total_size == old(config).max_total_size,
            config.max_open_files == old(config).max_open_files,
            config.allow_network == old(config).allow_network,
            config.allowed_hosts == old(config).allowed_hosts,
            config.allowed_ports == old(config).allowed_ports,
            start == old(config).allowed_paths@,
        decreases dirs.len() - i,
    {
        let (guest, host) = &dirs[i];
        config.allowed_paths.push(PathMapping { guest: guest.clone(), host: host.clone(), read_only: false });
        i = i + 1;
    }
    if network {
        config.allow_network = true;
        config.allowed_hosts = None;
        config.allowed_ports = None;
    }
}

/// A directory opened for the guest before it starts.
#[derive(Debug, Clone)]
pub struct PreopenDir {
    /// The directory on the host.
    pub host: String,
    /// The path under which the guest sees it.
    pub guest: String,
    /// Whether the guest gets read permissions only (else all permissions).
    pub read_only: bool,
}

/// Which network peers the guest may use.
#[derive(Debug, Clone)]
pub enum NetworkAccess {
    /// No network access at all.
    Denied,
    /// Every address the host can reach.
    All,
    /// Only peers whose host is listed (`None` = any host) on a listed port
    /// (`None` = any port).
    Filtered { hosts: Option<Vec<String>>, ports: Option<Vec<u16>> },
}

/// Whether `access` lets the guest use host `h` on port `port`.
pub open spec fn network_admits(access: NetworkAccess, h: Seq<char>, port: u16) -> bool {
    match access {
        NetworkAccess::Denied => false,
        NetworkAccess::All => true,
        NetworkAccess::Filtered { hosts, ports } => {
            &&& (hosts matches Some(hs) ==> lists_text(hs@, h))
            &&& (ports matches Some(ps) ==> ps@.contains(port))
        },
    }
}

impl NetworkAccess {
    /// Whether the guest may use host `host` on port `port`; the host is
    /// compared as text, so a socket peer is named by its address in text
    /// form.
    pub fn admits(&self, host: &str, port: u16) -> (r: bool)
        ensures
            r == network_admits(*self, host@, port),
            *self is Denied ==> !r,
            *self is All ==> r,
            *self is Filtered ==> (r <==> ((self->hosts matches Some(hs) ==> lists_text(hs@, host@)) && (
            self->ports matches Some(ps) ==> exists|i: int| 0 <= i < ps@.len() && ps@[i] == port))),
    {
        match self {
            NetworkAccess::Denied => false,
            NetworkAccess::All => true,
            NetworkAccess::Filtered { hosts, ports } => {
                let host_ok = match hosts {
                    None => true,
                    Some(hs) => text_listed(hs, host),
                };
                let port_ok = match ports {
                    None => true,
                    Some(ps) => port_listed(ps, port),
                };
                host_ok && port_ok
            },
        }
    }
}

/// Whether `items` holds a string equal to `h`.
fn text_listed(items: &Vec<String>, h: &str) -> (r: bool)
    ensures
        r == lists_text(items@, h@),
{
    let mut i: usize = 0;
    while i < items.len()
        invariant
            i <= items@.len(),
            forall|k: int| 0 <= k < i ==> (#[trigger] items@[k])@ != h@,
        decreases items.len() - i,
    {
        if same_text(items[i].as_str(), h) {
            assert((items@[i as int])@ == h@);
            return true;
        }
        i = i + 1;
    }
    false
}

/// Whether `ports` holds `port`.
fn port_listed(ports: &Vec<u16>, port: u16) -> (r: bool)
    ensures
        r == ports@.contains(port),
{
    let mut i: usize = 0;
    while i < ports.len()
        invariant
            i <= ports@.len(),
            forall|k: int| 0 <= k < i ==> ports@[k] != port,
        decreases ports.len() - i,
    {
        if ports[i] == port {
            assert(ports@[i as int] == port);
            return true;
        }
        i = i + 1;
    }
    false
}

/// A copy of a list of strings.
fn copy_texts(items: &Vec<String>) -> (r: Vec<String>)
    ensures
        r@ == items@,
{
    let mut out: Vec<String> = Vec::new();
    let mut i: usize = 0;
    while i < items.len()
        invariant
            i <= items@.len(),
            out@ == items@.take(i as int),
        decreases items.len() - i,
    {
        out.push(items[i].clone());
        assert(items@.take(i + 1) =~= items@.take(i as int).push(items@[i as int]));
        i = i + 1;
    }
    assert(items@.take(items@.len() as int) =~= items@);
    out
}

/// A copy of a list of ports.
fn copy_ports(ports: &Vec<u16>) -> (r: Vec<u16>)
    ensures
        r@ == ports@,
{
    let mut out: Vec<u16> = Vec::new();
    let mut i: usize = 0;
    while i < ports.len()
        invariant
            i <= ports@.len(),
            out@ == ports@.take(i as int),
        decreases ports.len() - i,
    {
        out.push(ports[i]);
        assert(ports@.take(i + 1) =~= ports@.take(i as int).push(ports@[i as int]));
        i = i + 1;
    }
    assert(ports@.take(ports@.len() as int) =~= ports@);
    out
}

/// The network access that `config` grants.
pub fn network_access(config: &SandboxConfig) -> (r: NetworkAccess)
    ensures
        (r is Denied) <==> !config.allow_network,
        (r is All) <==> config.allow_network && config.allowed_hosts is None
            && config.allowed_ports is None,
        forall|h: Seq<char>, port: u16|
            #[trigger] network_admits(r, h, port) == (config.allows_host(h) && config.allows_port(port)),
{
    if !config.allow_network {
        return NetworkAccess::Denied;
    }
    if config.allowed_hosts.is_none() && config.allowed_ports.is_none() {
        return NetworkAccess::All;
    }
    let hosts = match &config.allowed_hosts {
        None => None,
        Some(hs) => Some(copy_texts(hs)),
    };
    let ports = match &config.allowed_ports {
        None => None,
        Some(ps) => Some(copy_ports(ps)),
    };
    NetworkAccess::Filtered { hosts, ports }
}

/// What the WASI context of a run is built from.
#[derive(Debug, Clone)]
pub struct WasiPlan {
    /// Environment variables set for the guest.
    pub env: Vec<(String, String)>,
    /// Arguments passed to the guest.
    pub args: Vec<String>,
    /// Directories opened for the guest, in mapping order.
    pub preopens: Vec<PreopenDir>,
    /// The network peers the guest may use.
    pub network: NetworkAccess,
}

/// A denied path lies inside the guest path `g`, or `g` lies inside a
/// denied path: some path under `g` is denied.
pub open spec fn overlaps_denied(denied: Seq<String>, g: Seq<char>) -> bool {
    exists|i: int|
        0 <= i < denied.len() && ((#[trigger] denied[i])@.is_prefix_of(g) || g.is_prefix_of(denied[i]@))
}

/// The preopened directory of mapping `m`.
pub open spec fn preopen_of(m: PathMapping) -> PreopenDir {
    PreopenDir { host: m.host, guest: m.guest, read_only: m.read_only }
}

/// Mapping `m` is preopened: its host directory exists (`exists`) and no
/// path under its guest path is denied.
pub open spec fn preopened(m: PathMapping, exists: bool, denied: Seq<String>) -> bool {
    exists && !overlaps_denied(denied, m.guest@)
}

/// The preopened directories for `mappings`, in order: those whose host
/// directory exists (`exists[i]` for `mappings[i]`) and under whose guest
/// path nothing is denied.
pub open spec fn preopens_for(mappings: Seq<PathMapping>, exists: Seq<bool>, denied: Seq<String>) -> Seq<
    PreopenDir,
>
    decreases mappings.len(),
{
    if mappings.len() == 0 {
        Seq::empty()
    } else {
        let rest = preopens_for(mappings.drop_last(), exists.drop_last(), denied);
        if preopened(mappings.last(), exists.last(), denied) {
            rest.push(preopen_of(mappings.last()))
        } else {
            rest
        }
    }
}

/// Whether some path under the guest path `guest` is denied by `config`.
fn overlaps_denied_path(config: &SandboxConfig, guest: &str) -> (r: bool)
    ensures
        r == overlaps_denied(config.denied_paths@, guest@),
{
    let mut i: usize = 0;
    while i < config.denied_paths.len()
        invariant
            i <= config.denied_paths@.len(),
            forall|k: int|
                0 <= k < i ==> !((#[trigger] config.denied_paths@[k])@.is_prefix_of(guest@)
                    || guest@.is_prefix_of(config.denied_paths@[k]@)),
        decreases config.denied_paths.len() - i,
    {
        let d = config.denied_paths[i].as_str();
        if has_prefix(guest, d) || has_prefix(d, guest) {
            assert(config.denied_paths@[i as int]@ == d@);
            return true;
        }
        i = i + 1;
    }
    false
}

/// Plan the WASI context of a run: the environment that the whitelist lets
/// through, the guest's arguments, a preopened directory for each allowed
/// mapping whose host directory exists (`host_exists[i]` tells it for
/// mapping `i`) and under whose guest path nothing is denied, and the
/// network access the configuration grants.
pub fn plan_wasi_ctx(config: &SandboxConfig, args: Vec<String>, host_exists: &Vec<bool>) -> (r: WasiPlan)
    requires
        host_exists@.len() == config.allowed_paths@.len(),
    ensures
        r.env@ == config.env@.filter(passes_whitelist(config.env_whitelist)),
        r.args@ == args@,
        r.preopens@ == preopens_for(config.allowed_paths@, host_exists@, config.denied_paths@),
        (r.network is Denied) <==> !config.allow_network,
        (r.network is All) <==> config.allow_network && config.allowed_hosts is None
            && config.allowed_ports is None,
        forall|h: Seq<char>, port: u16|
            #[trigger] network_admits(r.network, h, port) == (config.allows_host(h)
                && config.allows_port(port)),
{
    let env = filtered_env(config);
    let mut preopens: Vec<PreopenDir> = Vec::new();
    let mut j: usize = 0;
    while j < config.allowed_paths.len()
        invariant
            host_exists@.len() == config.allowed_paths@.len(),
            j <= config.allowed_paths@.len(),
            preopens@ == preopens_for(
                config.allowed_paths@.take(j as int),
                host_exists@.take(j as int),
                config.denied_paths@,
            ),
        decreases config.allowed_paths.len() - j,
    {
        let m = &config.allowed_paths[j];
        assert(config.allowed_paths@.take(j + 1).drop_last() =~= config.allowed_paths@.take(j as int));
        assert(host_exists@.take(j + 1).drop_last() =~= host_exists@.take(j as int));
        if host_exists[j] && !overlaps_denied_path(config, m.guest.as_str()) {
            preopens.push(PreopenDir { host: m.host.clone(), guest: m.guest.clone(), read_only: m.read_only });
        }
        j = j + 1;
    }
    assert(config.allowed_paths@.take(config.allowed_paths@.len() as int) =~= config.allowed_paths@);
    assert(host_exists@.take(host_exists@.len() as int) =~= host_exists@);
    WasiPlan { env, args, preopens, network: network_access(config) }
}

/// Every planned preopen comes from a mapping under whose guest path
/// nothing is denied.
proof fn lemma_preopens_avoid_denied(
    mappings: Seq<PathMapping>,
    exists: Seq<bool>,
    denied: Seq<String>,
    i: int,
)
    requires
        0 <= i < preopens_for(mappings, exists, denied).len(),
    ensures
        !overlaps_denied(denied, preopens_for(mappings, exists, denied)[i].guest@),
    decreases mappings.len(),
{
    if mappings.len() > 0 {
        let rest = preopens_for(mappings.drop_last(), exists.drop_last(), denied);
        if i < rest.len() {
            lemma_preopens_avoid_denied(mappings.drop_last(), exists.drop_last(), denied, i);
        }
    }
}

/// Two prefixes of one text: the shorter is a prefix of the longer.
proof fn lemma_prefixes_nest(a: Seq<char>, b: Seq<char>, p: Seq<char>)
    requires
        a.is_prefix_of(p),
        b.is_prefix_of(p),
    ensures
        a.is_prefix_of(b) || b.is_prefix_of(a),
{
    if a.len() <= b.len() {
        assert(a =~= b.subrange(0, a.len() as int)) by {
            assert forall|k: int| 0 <= k < a.len() implies a[k] == b[k] by {
                assert(a[k] == p[k]);
                assert(b[k] == p[k]);
            }
        }
    } else {
        assert(b =~= a.subrange(0, b.len() as int)) by {
            assert forall|k: int| 0 <= k < b.len() implies a[k] == b[k] by {
                assert(a[k] == p[k]);
                assert(b[k] == p[k]);
            }
        }
    }
}

/// Law: no guest path that a preopened directory reaches is denied (denied
/// paths take precedence over allowed mappings in what the guest is given).
pub proof fn law_preopens_reach_no_denied_path(
    config: SandboxConfig,
    host_exists: Seq<bool>,
    i: int,
    p: Seq<char>,
)
    requires
        0 <= i < preopens_for(config.allowed_paths@, host_exists, config.denied_paths@).len(),
        preopens_for(config.allowed_paths@, host_exists, config.denied_paths@)[i].guest@.is_prefix_of(p),
    ensures
        !config.denies(p),
{
    let g = preopens_for(config.allowed_paths@, host_exists, config.denied_paths@)[i].guest@;
    lemma_preopens_avoid_denied(config.allowed_paths@, host_exists, config.denied_paths@, i);
    if config.denies(p) {
        let k = choose|k: int|
            0 <= k < config.denied_paths@.len() && (#[trigger] config.denied_paths@[k])@.is_prefix_of(p);
        lemma_prefixes_nest(config.denied_paths@[k]@, g, p);
        assert(overlaps_denied(config.denied_paths@, g));
    }
}

/// The first value a guest's run function returned, as far as the exit
/// code depends on it.
#[derive(Debug, Clone, Copy, PartialEq, Eq)]
pub enum RunValue {
    /// A signed 32-bit result.
    S32(i32),
    /// An unsigned 32-bit result.
    U32(u32),
    /// Any other kind of value.
    Other,
}

/// The exit code of a run: a 32-bit result as a signed code (an unsigned
/// one reinterpreted in two's complement), and 0 when there is no such
/// result.
pub fn exit_code(first: Option<RunValue>) -> (r: i32)
    ensures
        r == match first {
            Some(RunValue::S32(c)) => c as int,
            Some(RunValue::U32(c)) => if c <= i32::MAX { c as int } else { c - 0x1_0000_0000 },
            _ => 0int,
        },
{
    match first {
        Some(RunValue::S32(c)) => c,
        Some(RunValue::U32(c)) => {
            let r = c as i32;
            assert(r == (if c <= 0x7fff_ffffu32 { c as int } else { c - 0x1_0000_0000 })) by (bit_vector)
                requires
                    r == c as i32,
            ;
            r
        },
        _ => 0,
    }
}

/// The functions a guest may export to be started by.
#[derive(Debug, Clone, Copy, PartialEq, Eq)]
pub enum EntryPoint {
    /// `wasi:cli/run` of WASI 0.2.0.
    CliRun020,
    /// `wasi:cli/run` of WASI 0.2.9.
    CliRun029,
    /// The command-module `_start` function.
    Start,
}

/// The export name of an entry point.
pub fn entry_point_export(e: EntryPoint) -> (r: &'static str)
    ensures
        r@ == match e {
            EntryPoint::CliRun020 => "wasi:cli/run@0.2.0#run"@,
            EntryPoint::CliRun029 => "wasi:cli/run@0.2.9#run"@,
            EntryPoint::Start => "_start"@,
        },
{
    match e {
        EntryPoint::CliRun020 => "wasi:cli/run@0.2.0#run",
        EntryPoint::CliRun029 => "wasi:cli/run@0.2.9#run",
        EntryPoint::Start => "_start",
    }
}

/// The entry point to call, given which ones the guest exports: `run` of
/// WASI 0.2.0 first, then of 0.2.9, then `_start`; `None` when it exports
/// none of them.
pub fn select_entry_point(has_run_020: bool, has_run_029: bool, has_start: bool) -> (r: Option<EntryPoint>)
    ensures
        r == (if has_run_020 {
            Some(EntryPoint::CliRun020)
        } else if has_run_029 {
            Some(EntryPoint::CliRun029)
        } else if has_start {
            Some(EntryPoint::Start)
        } else {
            None
        }),
{
    if has_run_020 {
        Some(EntryPoint::CliRun020)
    } else if has_run_029 {
        Some(EntryPoint::CliRun029)
    } else if has_start {
        Some(EntryPoint::Start)
    } else {
        None
    }
}

} // verus!
