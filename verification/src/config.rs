//! Sandbox configuration: which guest paths are reachable and where they
//! live on the host, which network peers may be contacted, which environment
//! reaches the guest, and the resource limits.

use vstd::prelude::*;
use crate::text::{has_prefix, same_text, suffix_from, trim_slashes, join_relative, join_path, trim_leading_slashes};
use vstd::string::StrSliceExecFns;

verus! {

/// Path mapping from guest to host.
#[derive(Debug, Clone)]
pub struct PathMapping {
    /// Guest path (virtual path seen by the WASM module).
    pub guest: String,
    /// Host path (real path on the host system).
    pub host: String,
    /// Whether the path is read-only.
    pub read_only: bool,
}

/// Sandbox configuration.
#[derive(Debug, Clone)]
pub struct SandboxConfig {
    /// Allowed paths for file system access.
    pub allowed_paths: Vec<PathMapping>,
    /// Denied paths (take precedence over `allowed_paths`).
    pub denied_paths: Vec<String>,
    /// Whether network access is allowed at all.
    pub allow_network: bool,
    /// Allowed network hosts (`None` = all, empty = none).
    pub allowed_hosts: Option<Vec<String>>,
    /// Allowed network ports (`None` = all, empty = none).
    pub allowed_ports: Option<Vec<u16>>,
    /// Environment variables to pass to the guest.
    pub env: Vec<(String, String)>,
    /// Environment variable whitelist (`None` = all).
    pub env_whitelist: Option<Vec<String>>,
    /// Maximum memory in bytes (`None` = unlimited).
    pub max_memory_bytes: Option<usize>,
    /// Maximum execution time in milliseconds (`None` = unlimited).
    pub max_exec_time_ms: Option<u64>,
    /// Maximum size of a single write in bytes.
    pub max_file_size: Option<usize>,
    /// Maximum total size of all writes.
    pub max_total_size: Option<usize>,
    /// Maximum number of open file handles.
    pub max_open_files: Option<usize>,
}

/// Whether mapping `m` covers guest path `p` (its guest path is a prefix of `p`).
pub open spec fn covers(m: PathMapping, p: Seq<char>) -> bool {
    m.guest@.is_prefix_of(p)
}

/// The host path that mapping `m` gives to guest path `p`: the rest of `p`
/// after the mapping's guest prefix, without leading slashes, joined to the
/// mapping's host path.
pub open spec fn host_path_for(m: PathMapping, p: Seq<char>) -> Seq<char> {
    join_path(m.host@, trim_leading_slashes(p.skip(m.guest@.len() as int)))
}

/// Whether `items` holds a string equal to `h`.
pub open spec fn lists_text(items: Seq<String>, h: Seq<char>) -> bool {
    exists|i: int| 0 <= i < items.len() && (#[trigger] items[i])@ == h
}

impl SandboxConfig {
    /// Some denied path is a prefix of `p`.
    pub open spec fn denies(&self, p: Seq<char>) -> bool {
        exists|i: int|
            0 <= i < self.denied_paths@.len() && (#[trigger] self.denied_paths@[i])@.is_prefix_of(p)
    }

    /// Some allowed mapping covers `p`.
    pub open spec fn grants(&self, p: Seq<char>) -> bool {
        exists|j: int| 0 <= j < self.allowed_paths@.len() && covers(#[trigger] self.allowed_paths@[j], p)
    }

    /// The guest path `p` is reachable: no denied path covers it, and some
    /// allowed mapping does.
    pub open spec fn allows_path(&self, p: Seq<char>) -> bool {
        !self.denies(p) && self.grants(p)
    }

    /// Mapping `j` is the first allowed mapping that covers `p`.
    pub open spec fn is_first_cover(&self, p: Seq<char>, j: int) -> bool {
        &&& 0 <= j < self.allowed_paths@.len()
        &&& covers(self.allowed_paths@[j], p)
        &&& forall|k: int| 0 <= k < j ==> !covers(#[trigger] self.allowed_paths@[k], p)
    }

    /// The host path of guest path `p`, taken from the first allowed mapping
    /// that covers it, or `None` when no mapping covers it.
    pub open spec fn mapped_path(&self, p: Seq<char>) -> Option<Seq<char>> {
        if exists|j: int| self.is_first_cover(p, j) {
            let j = choose|j: int| self.is_first_cover(p, j);
            Some(host_path_for(self.allowed_paths@[j], p))
        } else {
            None
        }
    }

    /// The network host `h` may be contacted.
    pub open spec fn allows_host(&self, h: Seq<char>) -> bool {
        self.allow_network && match self.allowed_hosts {
            None => true,
            Some(hosts) => lists_text(hosts@, h),
        }
    }

    /// The network port `port` may be used.
    pub open spec fn allows_port(&self, port: u16) -> bool {
        self.allow_network && match self.allowed_ports {
            None => true,
            Some(ports) => ports@.contains(port),
        }
    }
}

/// Mapping `j` being the first cover of `p` fixes what `mapped_path` gives.
pub proof fn lemma_first_cover_determines(c: SandboxConfig, p: Seq<char>, j: int)
    requires
        c.is_first_cover(p, j),
    ensures
        c.mapped_path(p) == Some(host_path_for(c.allowed_paths@[j], p)),
{
    let k = choose|k: int| c.is_first_cover(p, k);
    assert(c.is_first_cover(p, k));
    if k < j {
        assert(!covers(c.allowed_paths@[k], p));
    } else if j < k {
        assert(!covers(c.allowed_paths@[j], p));
    }
    assert(k == j);
}

/// If mapping `j` covers `p`, some mapping is the first to cover it.
pub proof fn lemma_first_cover_exists(c: SandboxConfig, p: Seq<char>, j: int)
    requires
        0 <= j < c.allowed_paths@.len(),
        covers(c.allowed_paths@[j], p),
    ensures
        exists|f: int| c.is_first_cover(p, f),
    decreases j,
{
    if exists|k: int| 0 <= k < j && covers(#[trigger] c.allowed_paths@[k], p) {
        let k = choose|k: int| 0 <= k < j && covers(#[trigger] c.allowed_paths@[k], p);
        lemma_first_cover_exists(c, p, k);
    } else {
        assert(c.is_first_cover(p, j));
    }
}

impl SandboxConfig {
    /// Check if a guest path is allowed: denied paths are checked first and
    /// win; otherwise some allowed mapping must cover the path.
    pub fn is_path_allowed(&self, guest_path: &str) -> (r: bool)
        ensures
            r == self.allows_path(guest_path@),
            forall|i: int|
                0 <= i < self.denied_paths@.len() && (#[trigger] self.denied_paths@[i])@.is_prefix_of(
                    guest_path@,
                ) ==> !r,
            r ==> exists|j: int|
                0 <= j < self.allowed_paths@.len() && (#[trigger] self.allowed_paths@[j]).guest@.is_prefix_of(
                    guest_path@,
                ),
    {
        let mut i: usize = 0;
        while i < self.denied_paths.len()
            invariant
                i <= self.denied_paths@.len(),
                forall|k: int| 0 <= k < i ==> !(#[trigger] self.denied_paths@[k])@.is_prefix_of(guest_path@),
            decreases self.denied_paths.len() - i,
        {
            if has_prefix(guest_path, self.denied_paths[i].as_str()) {
                return false;
            }
            i = i + 1;
        }
        let mut j: usize = 0;
        while j < self.allowed_paths.len()
            invariant
                !self.denies(guest_path@),
                j <= self.allowed_paths@.len(),
                forall|k: int| 0 <= k < j ==> !covers(#[trigger] self.allowed_paths@[k], guest_path@),
            decreases self.allowed_paths.len() - j,
        {
            if has_prefix(guest_path, self.allowed_paths[j].guest.as_str()) {
                return true;
            }
            j = j + 1;
        }
        false
    }

    /// Map a guest path to a host path through the first allowed mapping
    /// that covers it.
    pub fn map_path(&self, guest_path: &str) -> (r: Option<String>)
        ensures
            match r {
                None => self.mapped_path(guest_path@) is None,
                Some(h) => self.mapped_path(guest_path@) == Some(h@),
            },
            r is None <==> !self.grants(guest_path@),
    {
        let mut j: usize = 0;
        while j < self.allowed_paths.len()
            invariant
                j <= self.allowed_paths@.len(),
                forall|k: int| 0 <= k < j ==> !covers(#[trigger] self.allowed_paths@[k], guest_path@),
            decreases self.allowed_paths.len() - j,
        {
            let mapping = &self.allowed_paths[j];
            if has_prefix(guest_path, mapping.guest.as_str()) {
                let glen = mapping.guest.as_str().unicode_len();
                let relative = suffix_from(guest_path, glen);
                let relative = trim_slashes(relative.as_str());
                let host = join_relative(&mapping.host, relative.as_str());
                proof {
                    assert(self.is_first_cover(guest_path@, j as int));
                    lemma_first_cover_determines(*self, guest_path@, j as int);
                }
                return Some(host);
            }
            j = j + 1;
        }
        None
    }

    /// Check if a host is allowed for network access.
    pub fn is_host_allowed(&self, host: &str) -> (r: bool)
        ensures
            r == self.allows_host(host@),
    {
        if !self.allow_network {
            return false;
        }
        match &self.allowed_hosts {
            None => true,
            Some(hosts) => {
                let mut i: usize = 0;
                while i < hosts.len()
                    invariant
                        self.allow_network,
                        self.allowed_hosts == Some(*hosts),
                        i <= hosts@.len(),
                        forall|k: int| 0 <= k < i ==> (#[trigger] hosts@[k])@ != host@,
                    decreases hosts.len() - i,
                {
                    if same_text(hosts[i].as_str(), host) {
                        assert((hosts@[i as int])@ == host@);
                        return true;
                    }
                    i = i + 1;
                }
                false
            },
        }
    }

    /// Check if a port is allowed for network access.
    pub fn is_port_allowed(&self, port: u16) -> (r: bool)
        ensures
            r == self.allows_port(port),
            !self.allow_network ==> !r,
            self.allow_network && self.allowed_ports is None ==> r,
            self.allow_network ==> (self.allowed_ports matches Some(ps) ==> (r <==> exists|i: int|
                0 <= i < ps@.len() && ps@[i] == port)),
    {
        if !self.allow_network {
            return false;
        }
        match &self.allowed_ports {
            None => true,
            Some(ports) => {
                let mut i: usize = 0;
                while i < ports.len()
                    invariant
                        self.allow_network,
                        self.allowed_ports == Some(*ports),
                        i <= ports@.len(),
                        forall|k: int| 0 <= k < i ==> ports@[k] != port,
                    decreases ports.len() - i,
                {
                    if ports[i] == port {
                        assert(ports@[i as int] == port);
                        return true;
                    }
                    i = i + 1;
                }
                false
            },
        }
    }
}

/// The default configuration: `/sandbox` mapped writable to `/tmp/sandbox`,
/// the system directories denied, no network, no environment, and moderate
/// resource limits.
pub open spec fn is_default_config(c: SandboxConfig) -> bool {
    &&& c.allowed_paths@.len() == 1
    &&& c.allowed_paths@[0].guest@ == "/sandbox"@
    &&& c.allowed_paths@[0].host@ == "/tmp/sandbox"@
    &&& !c.allowed_paths@[0].read_only
    &&& c.denied_paths@.len() == 4
    &&& c.denied_paths@[0]@ == "/etc"@
    &&& c.denied_paths@[1]@ == "/bin"@
    &&& c.denied_paths@[2]@ == "/usr"@
    &&& c.denied_paths@[3]@ == "/var"@
    &&& !c.allow_network
    &&& c.allowed_hosts matches Some(h) && h@.len() == 0
    &&& c.allowed_ports matches Some(p) && p@.len() == 0
    &&& c.env@.len() == 0
    &&& c.env_whitelist is None
    &&& c.max_memory_bytes == Some(268_435_456usize)
    &&& c.max_exec_time_ms == Some(60_000u64)
    &&& c.max_file_size == Some(10_485_760usize)
    &&& c.max_total_size == Some(104_857_600usize)
    &&& c.max_open_files == Some(64usize)
}

/// The permissive configuration: the whole guest file system mapped
/// writable to the host root, nothing denied, any network peer, the given
/// environment passed through unfiltered, and no resource limits.
pub open spec fn is_permissive_config(c: SandboxConfig, env: Seq<(String, String)>) -> bool {
    &&& c.allowed_paths@.len() == 1
    &&& c.allowed_paths@[0].guest@ == "/"@
    &&& c.allowed_paths@[0].host@ == "/"@
    &&& !c.allowed_paths@[0].read_only
    &&& c.denied_paths@.len() == 0
    &&& c.allow_network
    &&& c.allowed_hosts is None
    &&& c.allowed_ports is None
    &&& c.env@ == env
    &&& c.env_whitelist is None
    &&& c.max_memory_bytes is None
    &&& c.max_exec_time_ms is None
    &&& c.max_file_size is None
    &&& c.max_total_size is None
    &&& c.max_open_files is None
}

/// The restrictive configuration: no allowed paths and `/` denied, no
/// network, an empty environment whitelist, and tight resource limits.
pub open spec fn is_restrictive_config(c: SandboxConfig) -> bool {
    &&& c.allowed_paths@.len() == 0
    &&& c.denied_paths@.len() == 1
    &&& c.denied_paths@[0]@ == "/"@
    &&& !c.allow_network
    &&& c.allowed_hosts matches Some(h) && h@.len() == 0
    &&& c.allowed_ports matches Some(p) && p@.len() == 0
    &&& c.env@.len() == 0
    &&& c.env_whitelist matches Some(w) && w@.len() == 0
    &&& c.max_memory_bytes == Some(16_777_216usize)
    &&& c.max_exec_time_ms == Some(5_000u64)
    &&& c.max_file_size == Some(1_048_576usize)
    &&& c.max_total_size == Some(10_485_760usize)
    &&& c.max_open_files == Some(8usize)
}

impl Default for SandboxConfig {
    fn default() -> (r: Self)
        ensures
            is_default_config(r),
    {
        let mut allowed_paths: Vec<PathMapping> = Vec::new();
        allowed_paths.push(
            PathMapping { guest: "/sandbox".to_owned(), host: "/tmp/sandbox".to_owned(), read_only: false },
        );
        let mut denied_paths: Vec<String> = Vec::new();
        denied_paths.push("/etc".to_owned());
        denied_paths.push("/bin".to_owned());
        denied_paths.push("/usr".to_owned());
        denied_paths.push("/var".to_owned());
        SandboxConfig {
            allowed_paths,
            denied_paths,
            allow_network: false,
            allowed_hosts: Some(Vec::new()),
            allowed_ports: Some(Vec::new()),
            env: Vec::new(),
            env_whitelist: None,
            max_memory_bytes: Some(256 * 1024 * 1024),
            max_exec_time_ms: Some(60_000),
            max_file_size: Some(10 * 1024 * 1024),
            max_total_size: Some(100 * 1024 * 1024),
            max_open_files: Some(64),
        }
    }
}

impl SandboxConfig {
    /// Create a permissive configuration for development; `env` is the
    /// environment handed to the guest unfiltered (the host process's own,
    /// when launched from the command line).
    pub fn permissive(env: Vec<(String, String)>) -> (r: Self)
        ensures
            is_permissive_config(r, env@),
    {
        let mut allowed_paths: Vec<PathMapping> = Vec::new();
        allowed_paths.push(PathMapping { guest: "/".to_owned(), host: "/".to_owned(), read_only: false });
        SandboxConfig {
            allowed_paths,
            denied_paths: Vec::new(),
            allow_network: true,
            allowed_hosts: None,
            allowed_ports: None,
            env,
            env_whitelist: None,
            max_memory_bytes: None,
            max_exec_time_ms: None,
            max_file_size: None,
            max_total_size: None,
            max_open_files: None,
        }
    }

    /// Create a restrictive configuration for untrusted code.
    pub fn restrictive() -> (r: Self)
        ensures
            is_restrictive_config(r),
    {
        let mut denied_paths: Vec<String> = Vec::new();
        denied_paths.push("/".to_owned());
        SandboxConfig {
            allowed_paths: Vec::new(),
            denied_paths,
            allow_network: false,
            allowed_hosts: Some(Vec::new()),
            allowed_ports: Some(Vec::new()),
            env: Vec::new(),
            env_whitelist: Some(Vec::new()),
            max_memory_bytes: Some(16 * 1024 * 1024),
            max_exec_time_ms: Some(5_000),
            max_file_size: Some(1024 * 1024),
            max_total_size: Some(10 * 1024 * 1024),
            max_open_files: Some(8),
        }
    }
}

/// Law: a denied path is never allowed, whatever the allowed mappings say
/// (denied paths take precedence).
pub proof fn law_denied_path_wins(c: SandboxConfig, p: Seq<char>)
    requires
        c.denies(p),
    ensures
        !c.allows_path(p),
{
}

/// Law: every allowed guest path has a host path, so the mapping step of a
/// permitted file access never fails.
pub proof fn law_allowed_path_is_mapped(c: SandboxConfig, p: Seq<char>)
    requires
        c.allows_path(p),
    ensures
        c.mapped_path(p) is Some,
{
    let j = choose|j: int| 0 <= j < c.allowed_paths@.len() && covers(#[trigger] c.allowed_paths@[j], p);
    lemma_first_cover_exists(c, p, j);
}

/// Law: with the network off no host and no port is allowed; with it on,
/// an absent host (port) list allows every host (port) and an empty list
/// allows none.
pub proof fn law_network_lists(c: SandboxConfig, h: Seq<char>, port: u16)
    ensures
        !c.allow_network ==> !c.allows_host(h) && !c.allows_port(port),
        c.allow_network && c.allowed_hosts is None ==> c.allows_host(h),
        c.allow_network && c.allowed_ports is None ==> c.allows_port(port),
        (c.allowed_hosts matches Some(hs) && hs@.len() == 0) ==> !c.allows_host(h),
        (c.allowed_ports matches Some(ps) && ps@.len() == 0) ==> !c.allows_port(port),
{
}

/// Law: the restrictive configuration allows no guest path, no host and no
/// port.
pub proof fn law_restrictive_allows_nothing(c: SandboxConfig, p: Seq<char>, h: Seq<char>, port: u16)
    requires
        is_restrictive_config(c),
    ensures
        !c.allows_path(p),
        !c.allows_host(h),
        !c.allows_port(port),
{
}

/// Law: the permissive configuration allows every absolute guest path, maps
/// a path that starts with a single `'/'` to the same host path, and allows
/// every host and port.
pub proof fn law_permissive_allows_everything(
    c: SandboxConfig,
    env: Seq<(String, String)>,
    p: Seq<char>,
    h: Seq<char>,
    port: u16,
)
    requires
        is_permissive_config(c, env),
        p.len() > 0,
        p[0] == '/',
    ensures
        c.allows_path(p),
        (p.len() == 1 || p[1] != '/') ==> c.mapped_path(p) == Some(p),
        c.allows_host(h),
        c.allows_port(port),
{
    reveal_strlit("/");
    assert(c.allowed_paths@[0].guest@ =~= p.subrange(0, 1));
    assert(covers(c.allowed_paths@[0], p));
    assert(c.is_first_cover(p, 0));
    lemma_first_cover_determines(c, p, 0);
    if p.len() == 1 || p[1] != '/' {
        let rest = p.skip(1);
        assert(trim_leading_slashes(rest) == rest);
        assert(c.allowed_paths@[0].host@.last() == '/');
        assert(join_path(c.allowed_paths@[0].host@, rest) =~= p);
    }
}

/// Law: a guest path under any denied path, at any position of the denied
/// list, is not allowed.
pub proof fn law_listed_denied_path_refused(c: SandboxConfig, p: Seq<char>, i: int)
    requires
        0 <= i < c.denied_paths@.len(),
        c.denied_paths@[i]@.is_prefix_of(p),
    ensures
        !c.allows_path(p),
{
    assert(c.denies(p));
}

/// Law: a guest path is allowed exactly when no denied path is a prefix of
/// it and the guest path of some allowed mapping is.
pub proof fn law_allowed_path_by_prefixes(c: SandboxConfig, p: Seq<char>)
    ensures
        c.allows_path(p) <==> (forall|i: int|
            0 <= i < c.denied_paths@.len() ==> !(#[trigger] c.denied_paths@[i])@.is_prefix_of(p))
            && (exists|j: int|
            0 <= j < c.allowed_paths@.len() && (#[trigger] c.allowed_paths@[j]).guest@.is_prefix_of(p)),
{
}

/// Law: with the network on and a port list given, a port is allowed
/// exactly when it is equal to some entry of the list, at any position.
pub proof fn law_port_allowed_iff_listed(c: SandboxConfig, ports: Vec<u16>, port: u16)
    requires
        c.allow_network,
        c.allowed_ports == Some(ports),
    ensures
        c.allows_port(port) <==> exists|i: int| 0 <= i < ports@.len() && ports@[i] == port,
{
}

/// Law: with the network on and a host list given, a host is allowed
/// exactly when it is equal to some entry of the list.
pub proof fn law_host_allowed_iff_listed(c: SandboxConfig, hosts: Vec<String>, h: Seq<char>)
    requires
        c.allow_network,
        c.allowed_hosts == Some(hosts),
    ensures
        c.allows_host(h) <==> exists|i: int| 0 <= i < hosts@.len() && hosts@[i]@ == h,
{
}

} // verus!
