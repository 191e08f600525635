//! Sandbox state: file access decisions, open-handle and write accounting,
//! network checks and the environment handed to the guest.

use vstd::prelude::*;
use crate::config::{SandboxConfig, covers, lists_text};
use crate::text::{decimal, decimal_text};
use vstd::string::StringExecFns;

verus! {

/// Why the sandbox refused an operation.
#[derive(Debug, Clone)]
pub enum SandboxError {
    /// The guest path is denied or not covered by any allowed mapping.
    AccessDenied { path: String },
    /// The guest path has no host path.
    CannotMapPath { path: String },
    /// A write was asked for on a path under a read-only mapping.
    WriteDenied { path: String },
    /// The open-handle limit is reached.
    TooManyOpenFiles { max: usize },
    /// A single write is larger than the per-file limit.
    FileSizeExceeded { bytes: usize, max: usize },
    /// The write would take the total written past its limit.
    TotalSizeExceeded,
    /// Network access is off.
    NetworkDenied,
    /// The network host is not in the allowed list.
    HostNotAllowed { host: String },
    /// The network port is not in the allowed list.
    PortNotAllowed { port: u16 },
}

/// The text that describes refusal `e`.
pub open spec fn error_message(e: SandboxError) -> Seq<char> {
    match e {
        SandboxError::AccessDenied { path } => "Access denied: path not in allowed list: "@ + path@,
        SandboxError::CannotMapPath { path } => "Cannot map path: "@ + path@,
        SandboxError::WriteDenied { path } => "Write denied: path is read-only: "@ + path@,
        SandboxError::TooManyOpenFiles { max } => "Too many open files (max: "@ + decimal_text(max as nat)
            + ")"@,
        SandboxError::FileSizeExceeded { bytes, max } => "File size exceeds limit: "@ + decimal_text(
            bytes as nat,
        ) + " > "@ + decimal_text(max as nat),
        SandboxError::TotalSizeExceeded => "Total write size exceeds limit"@,
        SandboxError::NetworkDenied => "Network access denied"@,
        SandboxError::HostNotAllowed { host } => "Host not allowed: "@ + host@,
        SandboxError::PortNotAllowed { port } => "Port not allowed: "@ + decimal_text(port as nat),
    }
}

impl SandboxError {
    /// The message that describes this refusal.
    pub fn message(&self) -> (r: String)
        ensures
            r@ == error_message(*self),
    {
        match self {
            SandboxError::AccessDenied { path } => {
                let mut m = "Access denied: path not in allowed list: ".to_owned();
                m.append(path.as_str());
                m
            },
            SandboxError::CannotMapPath { path } => {
                let mut m = "Cannot map path: ".to_owned();
                m.append(path.as_str());
                m
            },
            SandboxError::WriteDenied { path } => {
                let mut m = "Write denied: path is read-only: ".to_owned();
                m.append(path.as_str());
                m
            },
            SandboxError::TooManyOpenFiles { max } => {
                let mut m = "Too many open files (max: ".to_owned();
                let n = decimal(*max as u64);
                m.append(n.as_str());
                m.append(")");
                m
            },
            SandboxError::FileSizeExceeded { bytes, max } => {
                let mut m = "File size exceeds limit: ".to_owned();
                let b = decimal(*bytes as u64);
                m.append(b.as_str());
                m.append(" > ");
                let n = decimal(*max as u64);
                m.append(n.as_str());
                m
            },
            SandboxError::TotalSizeExceeded => "Total write size exceeds limit".to_owned(),
            SandboxError::NetworkDenied => "Network access denied".to_owned(),
            SandboxError::HostNotAllowed { host } => {
                let mut m = "Host not allowed: ".to_owned();
                m.append(host.as_str());
                m
            },
            SandboxError::PortNotAllowed { port } => {
                let mut m = "Port not allowed: ".to_owned();
                let n = decimal(*port as u64);
                m.append(n.as_str());
                m
            },
        }
    }
}

/// Some read-only allowed mapping covers guest path `p`.
pub open spec fn read_only_covers(c: SandboxConfig, p: Seq<char>) -> bool {
    exists|j: int|
        0 <= j < c.allowed_paths@.len() && covers(#[trigger] c.allowed_paths@[j], p)
            && c.allowed_paths@[j].read_only
}

/// The open-handle count after an open is asked for with limit `max` and
/// `count` handles open: `None` when the open is refused.
pub open spec fn open_outcome(max: Option<usize>, count: nat) -> Option<nat> {
    match max {
        Some(m) => if count >= m { None } else { Some(count + 1) },
        None => Some(count + 1),
    }
}

/// The open-handle count after a close with `count` handles open.
pub open spec fn close_outcome(count: nat) -> nat {
    if count > 0 { (count - 1) as nat } else { 0 }
}

/// A write of `bytes` is larger than the per-file limit.
pub open spec fn write_too_large(max_file: Option<usize>, bytes: nat) -> bool {
    max_file matches Some(m) && bytes > m
}

/// A write of `bytes` after `total` bytes would pass the total limit.
pub open spec fn write_over_total(max_total: Option<usize>, total: nat, bytes: nat) -> bool {
    max_total matches Some(m) && total + bytes > m
}

/// Whether an environment variable named `key` reaches the guest under the
/// whitelist `w` (`None` lets every variable through).
pub open spec fn key_passes(w: Option<Vec<String>>, key: Seq<char>) -> bool {
    match w {
        None => true,
        Some(keys) => lists_text(keys@, key),
    }
}

/// The environment entries that the whitelist `w` lets through.
pub open spec fn passes_whitelist(w: Option<Vec<String>>) -> spec_fn((String, String)) -> bool {
    |kv: (String, String)| key_passes(w, kv.0@)
}

/// Sandbox state tracking.
#[derive(Debug)]
pub struct SandboxState {
    config: SandboxConfig,
    open_files: usize,
    total_written: usize,
}

impl SandboxState {
    /// The counts never pass the limits that the configuration sets.
    #[verifier::type_invariant]
    spec fn counts_within_limits(self) -> bool {
        &&& (self.config.max_open_files matches Some(m) ==> self.open_files <= m)
        &&& (self.config.max_total_size matches Some(m) ==> self.total_written <= m)
    }

    /// The configuration the state enforces.
    pub closed spec fn cfg(&self) -> SandboxConfig {
        self.config
    }

    /// The number of file handles currently counted as open.
    pub closed spec fn open_count(&self) -> usize {
        self.open_files
    }

    /// The number of bytes written so far.
    pub closed spec fn written(&self) -> usize {
        self.total_written
    }

    /// The open-handle count is within the open-file limit and the written
    /// total within the total limit, where those limits are set. Every state
    /// that `new` and the operations produce is so.
    pub open spec fn within_limits(&self) -> bool {
        &&& (self.cfg().max_open_files matches Some(m) ==> self.open_count() <= m)
        &&& (self.cfg().max_total_size matches Some(m) ==> self.written() <= m)
    }

    /// A fresh state: nothing open, nothing written.
    pub fn new(config: SandboxConfig) -> (r: Self)
        ensures
            r.cfg() == config,
            r.open_count() == 0,
            r.written() == 0,
            r.within_limits(),
    {
        SandboxState { config, open_files: 0, total_written: 0 }
    }

    /// Check if a file operation is allowed, and give the host path of the
    /// guest path when it is.
    pub fn check_file_access(&self, guest_path: &str, write: bool) -> (r: Result<String, SandboxError>)
        ensures
            forall|j: int|
                0 <= j < self.cfg().allowed_paths@.len() && (#[trigger] self.cfg().allowed_paths@[j]).guest@.is_prefix_of(
                    guest_path@,
                ) && self.cfg().allowed_paths@[j].read_only && write && self.cfg().allows_path(guest_path@)
                    ==> (r matches Err(SandboxError::WriteDenied { .. })),
            forall|i: int|
                0 <= i < self.cfg().denied_paths@.len() && (#[trigger] self.cfg().denied_paths@[i])@.is_prefix_of(
                    guest_path@,
                ) ==> (r matches Err(SandboxError::AccessDenied { .. })),
            r is Ok && write ==> forall|j: int|
                0 <= j < self.cfg().allowed_paths@.len() && (#[trigger] self.cfg().allowed_paths@[j]).guest@.is_prefix_of(
                    guest_path@,
                ) ==> !self.cfg().allowed_paths@[j].read_only,
            r is Ok <==> self.cfg().allows_path(guest_path@) && !(write && read_only_covers(
                self.cfg(),
                guest_path@,
            )),
            r matches Ok(h) ==> self.cfg().mapped_path(guest_path@) == Some(h@),
            (r matches Err(SandboxError::AccessDenied { .. })) <==> !self.cfg().allows_path(guest_path@),
            (r matches Err(SandboxError::WriteDenied { .. })) <==> self.cfg().allows_path(guest_path@)
                && write && read_only_covers(self.cfg(), guest_path@),
            r matches Err(SandboxError::AccessDenied { path }) ==> path@ == guest_path@,
            r matches Err(SandboxError::WriteDenied { path }) ==> path@ == guest_path@,
            r is Err ==> (r matches Err(SandboxError::AccessDenied { .. })) || (r matches Err(
                SandboxError::WriteDenied { .. },
            )),
    {
        if !self.config.is_path_allowed(guest_path) {
            return Err(SandboxError::AccessDenied { path: guest_path.to_owned() });
        }
        let host_path = match self.config.map_path(guest_path) {
            Some(h) => h,
            None => {
                return Err(SandboxError::CannotMapPath { path: guest_path.to_owned() });
            },
        };
        if write {
            let mut j: usize = 0;
            while j < self.config.allowed_paths.len()
                invariant
                    write,
                    self.config.allows_path(guest_path@),
                    j <= self.config.allowed_paths@.len(),
                    forall|k: int|
                        0 <= k < j ==> !(covers(#[trigger] self.config.allowed_paths@[k], guest_path@)
                            && self.config.allowed_paths@[k].read_only),
                decreases self.config.allowed_paths.len() - j,
            {
                let mapping = &self.config.allowed_paths[j];
                if crate::text::has_prefix(guest_path, mapping.guest.as_str()) && mapping.read_only {
                    assert(covers(self.config.allowed_paths@[j as int], guest_path@));
                    return Err(SandboxError::WriteDenied { path: guest_path.to_owned() });
                }
                j = j + 1;
            }
        }
        Ok(host_path)
    }

    /// Count a file open, refusing it when the open-handle limit is reached.
    pub fn track_open(&mut self) -> (r: Result<(), SandboxError>)
        requires
            old(self).cfg().max_open_files is Some || old(self).open_count() < usize::MAX,
        ensures
            final(self).cfg() == old(self).cfg(),
            final(self).written() == old(self).written(),
            r is Ok <==> open_outcome(old(self).cfg().max_open_files, old(self).open_count() as nat) is Some,
            match open_outcome(old(self).cfg().max_open_files, old(self).open_count() as nat) {
                Some(n) => final(self).open_count() == n,
                None => final(self).open_count() == old(self).open_count() && (r matches Err(
                    SandboxError::TooManyOpenFiles { max },
                ) && old(self).cfg().max_open_files == Some(max)),
            },
            final(self).within_limits(),
    {
        proof {
            use_type_invariant(&*self);
        }
        if let Some(max) = self.config.max_open_files {
            if self.open_files >= max {
                return Err(SandboxError::TooManyOpenFiles { max });
            }
        }
        self.open_files = self.open_files + 1;
        proof {
            use_type_invariant(&*self);
        }
        Ok(())
    }

    /// Count a file close; the count never goes below zero.
    pub fn track_close(&mut self)
        ensures
            final(self).cfg() == old(self).cfg(),
            final(self).written() == old(self).written(),
            final(self).open_count() == close_outcome(old(self).open_count() as nat),
            final(self).within_limits(),
    {
        proof {
            use_type_invariant(&*self);
        }
        if self.open_files > 0 {
            self.open_files = self.open_files - 1;
        }
        proof {
            use_type_invariant(&*self);
        }
    }

    /// Count bytes written, refusing a write that is larger than the
    /// per-file limit or that would pass the total limit.
    pub fn track_write(&mut self, bytes: usize) -> (r: Result<(), SandboxError>)
        requires
            write_too_large(old(self).cfg().max_file_size, bytes as nat) || old(self).written()
                + bytes <= usize::MAX,
        ensures
            final(self).cfg() == old(self).cfg(),
            final(self).open_count() == old(self).open_count(),
            (r matches Err(SandboxError::FileSizeExceeded { .. })) <==> write_too_large(
                old(self).cfg().max_file_size,
                bytes as nat,
            ),
            r matches Err(SandboxError::FileSizeExceeded { bytes: b, max }) ==> b == bytes
                && old(self).cfg().max_file_size == Some(max),
            (r matches Err(SandboxError::TotalSizeExceeded)) <==> !write_too_large(
                old(self).cfg().max_file_size,
                bytes as nat,
            ) && write_over_total(old(self).cfg().max_total_size, old(self).written() as nat, bytes as nat),
            r is Ok <==> !write_too_large(old(self).cfg().max_file_size, bytes as nat)
                && !write_over_total(old(self).cfg().max_total_size, old(self).written() as nat, bytes as nat),
            r is Ok ==> final(self).written() == old(self).written() + bytes,
            r is Err ==> final(self).written() == old(self).written(),
            bytes == 0 ==> r is Ok && final(self).written() == old(self).written(),
            old(self).cfg().max_total_size is None && (old(self).cfg().max_file_size is None
                || bytes <= old(self).cfg().max_file_size->0) ==> r is Ok && final(self).written()
                == old(self).written() + bytes,
            old(self).cfg().max_total_size matches Some(m) ==> (r is Ok ==> old(self).written() + bytes
                <= m),
            final(self).within_limits(),
    {
        proof {
            use_type_invariant(&*self);
        }
        if let Some(max) = self.config.max_file_size {
            if bytes > max {
                return Err(SandboxError::FileSizeExceeded { bytes, max });
            }
        }
        if let Some(max) = self.config.max_total_size {
            if self.total_written + bytes > max {
                return Err(SandboxError::TotalSizeExceeded);
            }
        }
        self.total_written = self.total_written + bytes;
        proof {
            use_type_invariant(&*self);
        }
        Ok(())
    }

    /// Check network access to `host` on `port`.
    pub fn check_network(&self, host: &str, port: u16) -> (r: Result<(), SandboxError>)
        ensures
            r is Ok <==> self.cfg().allows_host(host@) && self.cfg().allows_port(port),
            (r matches Err(SandboxError::NetworkDenied)) <==> !self.cfg().allow_network,
            (r matches Err(SandboxError::HostNotAllowed { .. })) <==> self.cfg().allow_network
                && !self.cfg().allows_host(host@),
            (r matches Err(SandboxError::PortNotAllowed { .. })) <==> self.cfg().allows_host(host@)
                && !self.cfg().allows_port(port),
            r matches Err(SandboxError::HostNotAllowed { host: h }) ==> h@ == host@,
            r matches Err(SandboxError::PortNotAllowed { port: p }) ==> p == port,
            r is Err ==> (r matches Err(SandboxError::NetworkDenied)) || (r matches Err(
                SandboxError::HostNotAllowed { .. },
            )) || (r matches Err(SandboxError::PortNotAllowed { .. })),
    {
        if !self.config.allow_network {
            return Err(SandboxError::NetworkDenied);
        }
        if !self.config.is_host_allowed(host) {
            return Err(SandboxError::HostNotAllowed { host: host.to_owned() });
        }
        if !self.config.is_port_allowed(port) {
            return Err(SandboxError::PortNotAllowed { port });
        }
        Ok(())
    }

    /// The environment variables that reach the guest: all of them without
    /// a whitelist, else those whose name the whitelist holds, in order.
    pub fn get_filtered_env(&self) -> (r: Vec<(String, String)>)
        ensures
            r@ == self.cfg().env@.filter(passes_whitelist(self.cfg().env_whitelist)),
            forall|i: int| 0 <= i < r@.len() ==> self.cfg().env@.contains(#[trigger] r@[i]),
            self.cfg().env_whitelist is None ==> r@ == self.cfg().env@,
            self.cfg().env_whitelist is Some ==> forall|i: int|
                0 <= i < r@.len() ==> lists_text((self.cfg().env_whitelist->0)@, (#[trigger] r@[i]).0@),
            self.cfg().env_whitelist matches Some(keys) ==> forall|i: int|
                0 <= i < self.cfg().env@.len() && (exists|j: int| 0 <= j < keys@.len() && keys@[j]@ == (#[trigger] self.cfg().env@[i]).0@)
                    ==> r@.contains(self.cfg().env@[i]),
    {
        filtered_env(&self.config)
    }

    /// Get the sandbox configuration.
    pub fn config(&self) -> (r: &SandboxConfig)
        ensures
            *r == self.cfg(),
            self.within_limits(),
    {
        proof {
            use_type_invariant(self);
        }
        &self.config
    }
}

/// Whether the environment variable named `key` passes the whitelist `w`.
fn env_key_passes(w: &Option<Vec<String>>, key: &String) -> (r: bool)
    ensures
        r == key_passes(*w, key@),
{
    match w {
        None => true,
        Some(keys) => {
            let mut j: usize = 0;
            while j < keys.len()
                invariant
                    *w == Some(*keys),
                    j <= keys@.len(),
                    forall|k: int| 0 <= k < j ==> (#[trigger] keys@[k])@ != key@,
                decreases keys.len() - j,
            {
                if keys[j] == *key {
                    assert((keys@[j as int])@ == key@);
                    return true;
                }
                j = j + 1;
            }
            false
        },
    }
}

/// The environment of `config` that its whitelist lets through, in order.
pub fn filtered_env(config: &SandboxConfig) -> (r: Vec<(String, String)>)
    ensures
        r@ == config.env@.filter(passes_whitelist(config.env_whitelist)),
        forall|i: int| 0 <= i < r@.len() ==> config.env@.contains(#[trigger] r@[i]),
        config.env_whitelist is None ==> r@ == config.env@,
        config.env_whitelist is Some ==> forall|i: int|
            0 <= i < r@.len() ==> lists_text((config.env_whitelist->0)@, (#[trigger] r@[i]).0@),
        config.env_whitelist matches Some(keys) ==> forall|i: int|
            0 <= i < config.env@.len() && (exists|j: int| 0 <= j < keys@.len() && keys@[j]@ == (#[trigger] config.env@[i]).0@)
                ==> r@.contains(config.env@[i]),
{
    let ghost pred = passes_whitelist(config.env_whitelist);
    let mut out: Vec<(String, String)> = Vec::new();
    let mut i: usize = 0;
    while i < config.env.len()
        invariant
            pred == passes_whitelist(config.env_whitelist),
            i <= config.env@.len(),
            out@ == config.env@.take(i as int).filter(pred),
        decreases config.env.len() - i,
    {
        reveal(Seq::filter);
        let entry = &config.env[i];
        assert(config.env@.take(i + 1).drop_last() =~= config.env@.take(i as int));
        if env_key_passes(&config.env_whitelist, &entry.0) {
            out.push((entry.0.clone(), entry.1.clone()));
        }
        i = i + 1;
    }
    assert(config.env@.take(config.env@.len() as int) =~= config.env@);
    proof {
        lemma_filtered_env_facts(config.env@, config.env_whitelist);
    }
    out
}

/// What filtering an environment by a whitelist keeps, in terms of the
/// entries and the listed names.
proof fn lemma_filtered_env_facts(env: Seq<(String, String)>, w: Option<Vec<String>>)
    ensures
        forall|i: int|
            0 <= i < env.filter(passes_whitelist(w)).len() ==> env.contains(
                #[trigger] env.filter(passes_whitelist(w))[i],
            ),
        w is None ==> env.filter(passes_whitelist(w)) == env,
        w matches Some(keys) ==> forall|i: int|
            0 <= i < env.filter(passes_whitelist(w)).len() ==> exists|j: int|
                0 <= j < keys@.len() && keys@[j]@ == (#[trigger] env.filter(passes_whitelist(w))[i]).0@,
        w matches Some(keys) ==> forall|i: int|
            0 <= i < env.len() && (exists|j: int| 0 <= j < keys@.len() && keys@[j]@ == (#[trigger] env[i]).0@)
                ==> env.filter(passes_whitelist(w)).contains(env[i]),
{
    let f = env.filter(passes_whitelist(w));
    assert forall|i: int| 0 <= i < f.len() implies env.contains(#[trigger] f[i]) && key_passes(w, f[i].0@) by {
        law_filtered_env(env, w, i);
    }
    law_filtered_env(env, w, 0);
    if w is Some {
        assert forall|i: int|
            0 <= i < env.len() && (exists|j: int| 0 <= j < w->0@.len() && w->0@[j]@ == (#[trigger] env[i]).0@)
            implies f.contains(env[i]) by {
            assert(passes_whitelist(w)(env[i]));
            env.lemma_filter_contains(passes_whitelist(w), i);
        }
    }
}

/// The (guest, host) pairs of the allowed mappings, in order, for setting up
/// the guest's directories.
pub fn create_dir_mappings(config: &SandboxConfig) -> (r: Vec<(String, String)>)
    ensures
        r@.len() == config.allowed_paths@.len(),
        forall|i: int|
            0 <= i < r@.len() ==> (#[trigger] r@[i]) == (config.allowed_paths@[i].guest, config.allowed_paths@[i].host),
{
    let mut out: Vec<(String, String)> = Vec::new();
    let mut i: usize = 0;
    while i < config.allowed_paths.len()
        invariant
            i <= config.allowed_paths@.len(),
            out@.len() == i,
            forall|k: int|
                0 <= k < i ==> (#[trigger] out@[k]) == (config.allowed_paths@[k].guest, config.allowed_paths@[k].host),
        decreases config.allowed_paths.len() - i,
    {
        let m = &config.allowed_paths[i];
        out.push((m.guest.clone(), m.host.clone()));
        i = i + 1;
    }
    out
}

/// Law: closing after an accepted open gives back the count from before the
/// open.
pub proof fn law_close_undoes_open(max: Option<usize>, count: nat)
    requires
        open_outcome(max, count) is Some,
    ensures
        close_outcome(open_outcome(max, count)->0) == count,
{
}

/// Law: an open-handle count within the limit stays within it across opens
/// and closes.
pub proof fn law_open_count_within_limit(max: usize, count: nat)
    requires
        count <= max,
    ensures
        open_outcome(Some(max), count) matches Some(n) ==> n <= max,
        close_outcome(count) <= max,
{
}

/// Law: an accepted write never takes the total written past the total
/// limit, and never exceeds the per-file limit.
pub proof fn law_accepted_write_within_limits(
    max_file: Option<usize>,
    max_total: Option<usize>,
    total: nat,
    bytes: nat,
)
    requires
        !write_too_large(max_file, bytes),
        !write_over_total(max_total, total, bytes),
    ensures
        max_total matches Some(m) ==> total + bytes <= m,
        max_file matches Some(m) ==> bytes <= m,
{
}

/// Law: without a whitelist the guest gets the whole environment; with one,
/// every variable it gets is in the environment and named by the whitelist.
pub proof fn law_filtered_env(env: Seq<(String, String)>, w: Option<Vec<String>>, i: int)
    ensures
        w is None ==> env.filter(passes_whitelist(w)) == env,
        0 <= i < env.filter(passes_whitelist(w)).len() ==> env.contains(
            env.filter(passes_whitelist(w))[i],
        ) && key_passes(w, env.filter(passes_whitelist(w))[i].0@),
    decreases env.len(),
{
    reveal(Seq::filter);
    if w is None {
        lemma_filter_all(env, passes_whitelist(w));
    }
    if 0 <= i < env.filter(passes_whitelist(w)).len() {
        env.lemma_filter_pred(passes_whitelist(w), i);
        lemma_filter_from_source(env, passes_whitelist(w), i);
    }
}

/// Every element that a filter keeps comes from the filtered sequence.
proof fn lemma_filter_from_source(s: Seq<(String, String)>, pred: spec_fn((String, String)) -> bool, i: int)
    requires
        0 <= i < s.filter(pred).len(),
    ensures
        s.contains(s.filter(pred)[i]),
    decreases s.len(),
{
    reveal(Seq::filter);
    let rest = s.drop_last().filter(pred);
    if i < rest.len() {
        lemma_filter_from_source(s.drop_last(), pred, i);
        let k = choose|k: int| 0 <= k < s.drop_last().len() && s.drop_last()[k] == rest[i];
        assert(s[k] == s.filter(pred)[i]);
    } else {
        assert(s[s.len() - 1] == s.filter(pred)[i]);
    }
}

/// Law: an empty whitelist lets no environment variable through.
pub proof fn law_empty_whitelist_passes_nothing(env: Seq<(String, String)>, w: Vec<String>)
    requires
        w@.len() == 0,
    ensures
        env.filter(passes_whitelist(Some(w))).len() == 0,
    decreases env.len(),
{
    reveal(Seq::filter);
    if env.len() > 0 {
        law_empty_whitelist_passes_nothing(env.drop_last(), w);
    }
}

/// Filtering by a predicate that holds everywhere keeps the sequence.
proof fn lemma_filter_all(s: Seq<(String, String)>, pred: spec_fn((String, String)) -> bool)
    requires
        forall|x: (String, String)| #[trigger] pred(x),
    ensures
        s.filter(pred) == s,
    decreases s.len(),
{
    reveal(Seq::filter);
    if s.len() > 0 {
        lemma_filter_all(s.drop_last(), pred);
        assert(s.drop_last().push(s.last()) =~= s);
    }
}

/// Law: a write under any read-only mapping that covers the guest path, at
/// any position of the mapping list, is a read-only write.
pub proof fn law_read_only_mapping_refuses_writes(c: SandboxConfig, p: Seq<char>, j: int)
    requires
        0 <= j < c.allowed_paths@.len(),
        c.allowed_paths@[j].guest@.is_prefix_of(p),
        c.allowed_paths@[j].read_only,
    ensures
        read_only_covers(c, p),
{
    assert(covers(c.allowed_paths@[j], p));
}

/// Law: a whitelist lets a variable through exactly when it lists the
/// variable's whole name (no prefix matching).
pub proof fn law_whitelist_matches_whole_names(keys: Vec<String>, key: Seq<char>)
    ensures
        key_passes(Some(keys), key) <==> exists|i: int| 0 <= i < keys@.len() && keys@[i]@ == key,
{
}

/// Law: without a total limit, a write that meets the per-file limit (or
/// has none) is accepted.
pub proof fn law_no_total_limit_accepts(max_file: Option<usize>, total: nat, bytes: nat)
    requires
        max_file matches Some(m) ==> bytes <= m,
    ensures
        !write_too_large(max_file, bytes),
        !write_over_total(None, total, bytes),
{
}

/// Law: with a total limit, a write is over the total exactly when the
/// total so far plus the write passes the limit.
pub proof fn law_total_limit(m: usize, total: nat, bytes: nat)
    ensures
        write_over_total(Some(m), total, bytes) <==> total + bytes > m,
{
}

} // verus!
