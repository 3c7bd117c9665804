//! Immutable authority and resource policy for one sandbox lifecycle: the
//! pieces a policy is made of, and the rules by which a descendant may only
//! narrow what its parent granted.

use vstd::prelude::*;
use vstd::utf8::encode_utf8;
use vstd::seq_lib::lemma_concat_associative;
use std::time::Duration;
use crate::duration::{duration_nanos, nanos_of, subsec_nanos_of, whole_secs_of};
use crate::sandbox::path::{
    char_runs, part_before, parts_before, parts_of, parts_start_with, path_before, path_parts,
    path_starts_with, run_before, same_path, strict_total, lemma_parts_order_strict_total,
};
use crate::sandbox::digest::{sha256, sha256_of};
use crate::sandbox::guardrail::{
    be_bytes, command_policy_framing, frame_u64, rule_count, RuleView, SandboxCommandPolicy, MAX_SANDBOX_GUARDRAIL_LAYERS,
    MAX_SANDBOX_GUARDRAIL_RULES,
};
use crate::sandbox::manifest::{access_byte, access_code, provenance_byte, provenance_code, push_all};
use crate::text::{chars_of, is_control, is_control_char, same_text};

verus! {

/// Maximum filesystem rules in one effective policy.
pub const MAX_SANDBOX_FILESYSTEM_RULES: usize = 128;

/// Maximum bytes retained for one policy path.
pub const MAX_SANDBOX_PATH_BYTES: usize = 4096;

/// Maximum exact network endpoints in one policy.
pub const MAX_SANDBOX_NETWORK_ENDPOINTS: usize = 64;

/// Maximum bytes in one DNS name.
pub const MAX_SANDBOX_HOST_BYTES: usize = 253;

/// Whether the host must provide kernel confinement.
#[derive(Debug, Clone, Copy, PartialEq, Eq, Structural)]
pub enum SandboxMode {
    /// Refuse before materialization or spawn unless every requested hard
    /// feature has an enforcing backend.
    Required,
    /// Prefer confinement, but permit an explicitly user-selected and clearly
    /// reported compatibility backend when enforcement is unavailable.
    Degraded,
    /// Explicitly use the non-confining compatibility backend.
    Off,
}

/// How much confinement a mode demands: off, degraded, required.
pub open spec fn mode_strength(mode: SandboxMode) -> int {
    match mode {
        SandboxMode::Off => 0,
        SandboxMode::Degraded => 1,
        SandboxMode::Required => 2,
    }
}

impl SandboxMode {
    /// Whether `candidate` preserves or strengthens `self`.
    pub fn permits(self, candidate: Self) -> (permitted: bool)
        ensures
            permitted == (mode_strength(candidate) >= mode_strength(self)),
    {
        candidate.strength() >= self.strength()
    }

    fn strength(self) -> (strength: u8)
        ensures
            strength == mode_strength(self),
    {
        match self {
            Self::Off => 0,
            Self::Degraded => 1,
            Self::Required => 2,
        }
    }
}

/// A mode permits itself, and what a permitted mode permits the first one
/// permits too.
pub proof fn lemma_mode_narrowing_is_a_preorder(a: SandboxMode, b: SandboxMode, c: SandboxMode)
    ensures
        mode_strength(a) >= mode_strength(a),
        mode_strength(b) >= mode_strength(a) && mode_strength(c) >= mode_strength(b)
            ==> mode_strength(c) >= mode_strength(a),
{
}

/// Access granted to one exact filesystem subtree.
#[derive(Debug, Clone, Copy, PartialEq, Eq, Structural)]
pub enum SandboxFilesystemAccess {
    /// The path must not be visible.
    Unreadable,
    /// Readable, but no mutation is allowed.
    ReadOnly,
    /// Readable and writable.
    ReadWrite,
    /// Readable but immutable even beneath a writable ancestor.
    Protected,
}

/// Why a filesystem rule is present.
#[derive(Debug, Clone, Copy, PartialEq, Eq, Structural)]
pub enum SandboxFilesystemProvenance {
    /// A root explicitly granted to the workspace.
    Workspace,
    /// A minimum host-owned runtime path.
    Runtime,
    /// A protected host or repository metadata carve-out.
    ProtectedMetadata,
    /// A caller-requested narrowing.
    Descendant,
    /// An explicit manifest mount request.
    Manifest,
}

/// How many bytes `s` takes in UTF-8.
pub open spec fn path_bytes(s: Seq<char>) -> int {
    encode_utf8(s).len() as int
}

/// Whether a policy path is usable: absolute, non-empty, at most
/// [`MAX_SANDBOX_PATH_BYTES`] bytes, and with no part that climbs (`..`).
pub open spec fn valid_absolute_path(s: Seq<char>) -> bool {
    &&& s.len() > 0
    &&& s[0] == '/'
    &&& path_bytes(s) <= MAX_SANDBOX_PATH_BYTES
    &&& forall|i: int| 0 <= i < path_parts(s).len() ==> #[trigger] path_parts(s)[i] != seq!['.', '.']
}

/// Whether one of `parts` climbs to a parent.
pub(crate) fn climbs(parts: &Vec<Vec<char>>) -> (climbs: bool)
    ensures
        climbs == exists|i: int| 0 <= i < parts@.len() && #[trigger] char_runs(parts@)[i] == seq!['.', '.'],
{
    let mut i: usize = 0;
    while i < parts.len()
        invariant
            i <= parts@.len(),
            forall|j: int| 0 <= j < i ==> #[trigger] char_runs(parts@)[j] != seq!['.', '.'],
        decreases parts@.len() - i,
    {
        let part = &parts[i];
        if part.len() == 2 && part[0] == '.' && part[1] == '.' {
            assert(char_runs(parts@)[i as int] =~= seq!['.', '.']);
            return true;
        }
        assert(char_runs(parts@)[i as int] != seq!['.', '.']) by {
            if char_runs(parts@)[i as int] =~= seq!['.', '.'] {
                assert(part@.len() == 2 && part@[0] == '.' && part@[1] == '.');
            }
        }
        i = i + 1;
    }
    false
}

fn validate_absolute_path(path: &str) -> (checked: Result<(), SandboxPolicyError>)
    ensures
        checked is Ok <==> valid_absolute_path(path@),
        checked matches Err(e) ==> e == SandboxPolicyError::InvalidPath,
{
    let chars = chars_of(path);
    if chars.len() == 0 || chars[0] != '/' || path.as_bytes().len() > MAX_SANDBOX_PATH_BYTES {
        return Err(SandboxPolicyError::InvalidPath);
    }
    let parts = parts_of(path);
    if climbs(&parts) {
        return Err(SandboxPolicyError::InvalidPath);
    }
    Ok(())
}

/// One absolute, bounded filesystem rule.
#[derive(Clone, PartialEq, Eq)]
pub struct SandboxFilesystemRule {
    path: String,
    access: SandboxFilesystemAccess,
    provenance: SandboxFilesystemProvenance,
}

impl View for SandboxFilesystemRule {
    type V = (Seq<char>, SandboxFilesystemAccess, SandboxFilesystemProvenance);

    closed spec fn view(&self) -> (Seq<char>, SandboxFilesystemAccess, SandboxFilesystemProvenance) {
        (self.path@, self.access, self.provenance)
    }
}

impl SandboxFilesystemRule {
    /// Validates one already-resolved policy path.
    pub fn new(
        path: &str,
        access: SandboxFilesystemAccess,
        provenance: SandboxFilesystemProvenance,
    ) -> (rule: Result<Self, SandboxPolicyError>)
        ensures
            rule is Ok <==> valid_absolute_path(path@),
            rule matches Ok(r) ==> r@ == (path@, access, provenance),
            rule matches Err(e) ==> e == SandboxPolicyError::InvalidPath,
    {
        match validate_absolute_path(path) {
            Err(e) => Err(e),
            Ok(()) => Ok(Self { path: path.to_owned(), access, provenance }),
        }
    }

    /// The normalized absolute path.
    pub fn path(&self) -> (path: &str)
        ensures
            path@ == self@.0,
    {
        self.path.as_str()
    }

    /// Access at and beneath this path.
    pub fn access(&self) -> (access: SandboxFilesystemAccess)
        ensures
            access == self@.1,
    {
        self.access
    }

    /// Authority source retained without a raw configuration document.
    pub fn provenance(&self) -> (provenance: SandboxFilesystemProvenance)
        ensures
            provenance == self@.2,
    {
        self.provenance
    }
}

/// Whether `host` names an endpoint: non-empty, at most
/// [`MAX_SANDBOX_HOST_BYTES`] bytes, and free of control characters.
pub open spec fn valid_host(host: Seq<char>) -> bool {
    &&& host.len() > 0
    &&& encode_utf8(host).len() <= MAX_SANDBOX_HOST_BYTES
    &&& forall|i: int| 0 <= i < host.len() ==> !is_control_char(#[trigger] host[i])
}

/// One exact outbound endpoint.
#[derive(Debug, Clone, PartialEq, Eq, PartialOrd, Ord)]
pub struct SandboxNetworkEndpoint {
    host: String,
    port: u16,
}

impl View for SandboxNetworkEndpoint {
    type V = (Seq<char>, u16);

    closed spec fn view(&self) -> (Seq<char>, u16) {
        (self.host@, self.port)
    }
}

/// One endpoint before another: by host, character by character, then by
/// port.
pub open spec fn endpoint_before(a: (Seq<char>, u16), b: (Seq<char>, u16)) -> bool {
    part_before(a.0, b.0) || (a.0 == b.0 && a.1 < b.1)
}

impl SandboxNetworkEndpoint {
    /// Validates a bounded DNS name or literal address and non-zero port.
    pub fn new(host: &str, port: u16) -> (endpoint: Result<Self, SandboxPolicyError>)
        ensures
            endpoint is Ok <==> (valid_host(host@) && port != 0),
            endpoint matches Ok(e) ==> e@ == (host@, port),
            endpoint matches Err(e) ==> e == SandboxPolicyError::InvalidEndpoint,
    {
        if host.is_empty() || host.as_bytes().len() > MAX_SANDBOX_HOST_BYTES || port == 0 {
            return Err(SandboxPolicyError::InvalidEndpoint);
        }
        let mut control = false;
        for c in it: host.chars()
            invariant
                it.seq() == host@,
                control == exists|j: int| 0 <= j < it.index() && is_control_char(#[trigger] host@[j]),
        {
            if is_control(c) {
                control = true;
            }
        }
        if control {
            return Err(SandboxPolicyError::InvalidEndpoint);
        }
        Ok(Self { host: host.to_owned(), port })
    }

    /// Requested host spelling.
    pub fn host(&self) -> (host: &str)
        ensures
            host@ == self@.0,
    {
        self.host.as_str()
    }

    /// Requested TCP port.
    pub fn port(&self) -> (port: u16)
        ensures
            port == self@.1,
    {
        self.port
    }

    fn copy(&self) -> (copied: Self)
        ensures
            copied@ == self@,
    {
        Self { host: self.host.clone(), port: self.port }
    }

    fn same(&self, other: &Self) -> (same: bool)
        ensures
            same == (self@ == other@),
    {
        self.port == other.port && same_text(self.host.as_str(), other.host.as_str())
    }

    fn before(&self, other: &Self) -> (before: bool)
        ensures
            before == endpoint_before(self@, other@),
    {
        let mine = chars_of(self.host.as_str());
        let theirs = chars_of(other.host.as_str());
        if run_before(&mine, &theirs) {
            true
        } else {
            self.port < other.port && same_text(self.host.as_str(), other.host.as_str())
        }
    }
}

/// The contents of a sequence of endpoints.
pub open spec fn endpoint_views(endpoints: Seq<SandboxNetworkEndpoint>) -> Seq<(Seq<char>, u16)> {
    Seq::new(endpoints.len(), |i: int| endpoints[i]@)
}

/// Each endpoint strictly before the next.
pub open spec fn strictly_ascending(endpoints: Seq<(Seq<char>, u16)>) -> bool {
    forall|i: int, j: int|
        0 <= i < j < endpoints.len() ==> endpoint_before(#[trigger] endpoints[i], #[trigger] endpoints[j])
}

/// Immutable outbound-network request.
#[derive(Debug, Clone, PartialEq, Eq)]
pub enum SandboxNetworkPolicy {
    /// No host network namespace, inherited socket, loopback, Unix socket, DNS,
    /// metadata address, or forwarding authority.
    Closed,
    /// Exact proxy-enforced host/port endpoints.
    Exact {
        /// Canonically sorted permitted endpoints.
        endpoints: Vec<SandboxNetworkEndpoint>,
        /// Whether DNS resolution through the enforcing mechanism is allowed.
        dns: bool,
        /// Whether bounded inbound/outbound port forwarding is requested.
        forwarding: bool,
    },
}

/// The content of a network policy.
pub enum NetworkPolicyView {
    Closed,
    Exact { endpoints: Seq<(Seq<char>, u16)>, dns: bool, forwarding: bool },
}

impl View for SandboxNetworkPolicy {
    type V = NetworkPolicyView;

    open spec fn view(&self) -> NetworkPolicyView {
        match self {
            SandboxNetworkPolicy::Closed => NetworkPolicyView::Closed,
            SandboxNetworkPolicy::Exact { endpoints, dns, forwarding } => NetworkPolicyView::Exact {
                endpoints: endpoint_views(endpoints@),
                dns: *dns,
                forwarding: *forwarding,
            },
        }
    }
}

/// Whether `candidate` reaches nothing `parent` does not: closed reaches
/// nothing; an exact request needs an exact parent that allows its DNS, its
/// forwarding and each of its endpoints.
pub open spec fn network_no_wider(candidate: NetworkPolicyView, parent: NetworkPolicyView) -> bool {
    match candidate {
        NetworkPolicyView::Closed => true,
        NetworkPolicyView::Exact { endpoints, dns, forwarding } => match parent {
            NetworkPolicyView::Closed => false,
            NetworkPolicyView::Exact {
                endpoints: granted,
                dns: granted_dns,
                forwarding: granted_forwarding,
            } => (!dns || granted_dns) && (!forwarding || granted_forwarding) && all_granted(
                endpoints,
                granted,
            ),
        },
    }
}

/// Whether every one of `endpoints` is among `granted`.
pub open spec fn all_granted(endpoints: Seq<(Seq<char>, u16)>, granted: Seq<(Seq<char>, u16)>) -> bool {
    forall|i: int| 0 <= i < endpoints.len() ==> granted.contains(#[trigger] endpoints[i])
}

impl SandboxNetworkPolicy {
    /// Validates, sorts, and deduplicates an exact network request; refused
    /// where no endpoint, or more than [`MAX_SANDBOX_NETWORK_ENDPOINTS`]
    /// distinct ones, remain.
    pub fn exact(endpoints: Vec<SandboxNetworkEndpoint>, dns: bool, forwarding: bool) -> (policy:
        Result<Self, SandboxPolicyError>)
        ensures
            ({
                let given = endpoint_views(endpoints@).to_set();
                &&& policy is Ok <==> (0 < given.len() <= MAX_SANDBOX_NETWORK_ENDPOINTS)
                &&& policy matches Err(e) ==> e == SandboxPolicyError::InvalidEndpointCount
                &&& policy matches Ok(p) ==> (p@ matches NetworkPolicyView::Exact {
                    endpoints: kept,
                    dns: d,
                    forwarding: f,
                } && d == dns && f == forwarding && kept.to_set() == given && strictly_ascending(
                    kept,
                ) && kept.len() == given.len())
            }),
    {
        let mut kept: Vec<SandboxNetworkEndpoint> = Vec::new();
        let mut i: usize = 0;
        proof {
            lemma_endpoint_order_total();
        }
        while i < endpoints.len()
            invariant
                i <= endpoints@.len(),
                forall|x: (Seq<char>, u16)|
                    endpoint_views(kept@).contains(x) <==> #[trigger] endpoint_views(
                        endpoints@.take(i as int),
                    ).contains(x),
                strictly_ascending(endpoint_views(kept@)),
            decreases endpoints@.len() - i,
        {
            let candidate = &endpoints[i];
            let mut at: usize = 0;
            while at < kept.len() && kept[at].before(candidate)
                invariant
                    at <= kept@.len(),
                    forall|k: int|
                        0 <= k < at ==> endpoint_before(#[trigger] endpoint_views(kept@)[k], candidate@),
                decreases kept@.len() - at,
            {
                at = at + 1;
            }
            let ghost before_views = endpoint_views(kept@);
            let ghost taken = endpoint_views(endpoints@.take(i as int));
            proof {
                assert(endpoints@.take(i as int + 1) =~= endpoints@.take(i as int).push(endpoints@[i as int]));
                assert(endpoint_views(endpoints@.take(i as int + 1)) =~= taken.push(candidate@));
            }
            proof {
                assert forall|x: (Seq<char>, u16)| before_views.contains(x) <==> taken.contains(x) by {
                }
            }
            let duplicate = at < kept.len() && kept[at].same(candidate);
            if duplicate {
                proof {
                    assert(before_views[at as int] == candidate@);
                    assert forall|x: (Seq<char>, u16)|
                        before_views.contains(x) <==> #[trigger] taken.push(candidate@).contains(x) by {
                        if x == candidate@ {
                            assert(before_views.contains(x));
                            assert(taken.push(candidate@)[taken.len() as int] == x);
                        }
                        if taken.contains(x) {
                            let k = choose|k: int| 0 <= k < taken.len() && taken[k] == x;
                            assert(taken.push(candidate@)[k] == x);
                        }
                        if taken.push(candidate@).contains(x) {
                            let k = choose|k: int| 0 <= k < taken.len() + 1 && taken.push(candidate@)[k] == x;
                            if k < taken.len() {
                                assert(taken[k] == x);
                            }
                        }
                    }
                }
            } else {
                kept.insert(at, candidate.copy());
                proof {
                    assert(endpoint_views(kept@) =~= before_views.insert(at as int, candidate@));
                    if (at as int) < before_views.len() {
                        assert(before_views[at as int] != candidate@);
                        assert(!endpoint_before(before_views[at as int], candidate@));
                    }
                    lemma_insert_ascending(before_views, at as int, candidate@);
                    let now = before_views.insert(at as int, candidate@);
                    assert forall|x: (Seq<char>, u16)|
                        now.contains(x) <==> #[trigger] taken.push(candidate@).contains(x) by {
                        if now.contains(x) {
                            let k = choose|k: int| 0 <= k < now.len() && now[k] == x;
                            if k < at {
                                assert(before_views[k] == x);
                            } else if k > at {
                                assert(before_views[k - 1] == x);
                            }
                        }
                        if taken.push(candidate@).contains(x) {
                            let k = choose|k: int| 0 <= k < taken.len() + 1 && taken.push(candidate@)[k] == x;
                            if k < taken.len() {
                                assert(taken[k] == x);
                                assert(before_views.contains(x));
                                let m = choose|m: int| 0 <= m < before_views.len() && before_views[m] == x;
                                if m < at {
                                    assert(now[m] == x);
                                } else {
                                    assert(now[m + 1] == x);
                                }
                            } else {
                                assert(now[at as int] == x);
                            }
                        }
                        if taken.contains(x) {
                            let k = choose|k: int| 0 <= k < taken.len() && taken[k] == x;
                            assert(taken.push(candidate@)[k] == x);
                        }
                        if x == candidate@ {
                            assert(taken.push(candidate@)[taken.len() as int] == x);
                        }
                    }
                }
            }
            i = i + 1;
        }
        proof {
            assert(endpoints@.take(endpoints@.len() as int) =~= endpoints@);
            lemma_ascending_no_duplicates(endpoint_views(kept@));
            endpoint_views(kept@).unique_seq_to_set();
            assert(endpoint_views(kept@).to_set() =~= endpoint_views(endpoints@).to_set());
        }
        if kept.len() == 0 || kept.len() > MAX_SANDBOX_NETWORK_ENDPOINTS {
            return Err(SandboxPolicyError::InvalidEndpointCount);
        }
        Ok(Self::Exact { endpoints: kept, dns, forwarding })
    }

    /// Whether this request reaches nothing `parent` does not.
    pub fn is_no_wider_than(&self, parent: &Self) -> (narrower: bool)
        ensures
            narrower == network_no_wider(self@, parent@),
    {
        match (self, parent) {
            (Self::Closed, _) => true,
            (Self::Exact { .. }, Self::Closed) => false,
            (
                Self::Exact { endpoints, dns, forwarding },
                Self::Exact { endpoints: granted, dns: granted_dns, forwarding: granted_forwarding },
            ) => {
                if (*dns && !*granted_dns) || (*forwarding && !*granted_forwarding) {
                    return false;
                }
                let mut i: usize = 0;
                while i < endpoints.len()
                    invariant
                        self@ == (NetworkPolicyView::Exact { endpoints: endpoint_views(endpoints@), dns: *dns, forwarding: *forwarding }),
                        parent@ == (NetworkPolicyView::Exact { endpoints: endpoint_views(granted@), dns: *granted_dns, forwarding: *granted_forwarding }),
                        !*dns || *granted_dns,
                        !*forwarding || *granted_forwarding,
                        i <= endpoints@.len(),
                        forall|k: int| 0 <= k < i ==> endpoint_views(granted@).contains(#[trigger] endpoint_views(endpoints@)[k]),
                    decreases endpoints@.len() - i,
                {
                    let mut j: usize = 0;
                    let mut found = false;
                    while j < granted.len() && !found
                        invariant
                            self@ == (NetworkPolicyView::Exact { endpoints: endpoint_views(endpoints@), dns: *dns, forwarding: *forwarding }),
                            parent@ == (NetworkPolicyView::Exact { endpoints: endpoint_views(granted@), dns: *granted_dns, forwarding: *granted_forwarding }),
                            i < endpoints@.len(),
                            forall|k: int| 0 <= k < i ==> endpoint_views(granted@).contains(#[trigger] endpoint_views(endpoints@)[k]),
                            j <= granted@.len(),
                            found ==> endpoint_views(granted@).contains(endpoint_views(endpoints@)[i as int]),
                            !found ==> forall|k: int| 0 <= k < j ==> #[trigger] endpoint_views(granted@)[k] != endpoint_views(endpoints@)[i as int],
                        decreases granted@.len() - j + (if found { 0int } else { 1int }),
                    {
                        if granted[j].same(&endpoints[i]) {
                            found = true;
                            assert(endpoint_views(granted@)[j as int] == endpoint_views(endpoints@)[i as int]);
                        } else {
                            j = j + 1;
                        }
                    }
                    if !found {
                        proof {
                            let missing = endpoint_views(endpoints@)[i as int];
                            assert(!endpoint_views(granted@).contains(missing));
                        }
                        return false;
                    }
                    i = i + 1;
                }
                true
            },
        }
    }
}

proof fn lemma_endpoint_order_total()
    ensures
        forall|a: (Seq<char>, u16), b: (Seq<char>, u16)|
            a != b ==> #[trigger] endpoint_before(a, b) || #[trigger] endpoint_before(b, a),
        forall|a: (Seq<char>, u16), b: (Seq<char>, u16), c: (Seq<char>, u16)|
            #[trigger] endpoint_before(a, b) && #[trigger] endpoint_before(b, c) ==> endpoint_before(a, c),
        forall|a: (Seq<char>, u16)| !#[trigger] endpoint_before(a, a),
{
    crate::sandbox::path::lemma_part_order_strict_total();
    let parts = |x: Seq<char>, y: Seq<char>| part_before(x, y);
    assert(strict_total(parts));
    assert forall|a: (Seq<char>, u16), b: (Seq<char>, u16)|
        a != b implies #[trigger] endpoint_before(a, b) || #[trigger] endpoint_before(b, a) by {
        if a.0 != b.0 {
            assert(parts(a.0, b.0) || parts(b.0, a.0));
        }
    }
    assert forall|a: (Seq<char>, u16), b: (Seq<char>, u16), c: (Seq<char>, u16)|
        #[trigger] endpoint_before(a, b) && #[trigger] endpoint_before(b, c) implies endpoint_before(a, c) by {
        if part_before(a.0, b.0) && part_before(b.0, c.0) {
            assert(parts(a.0, b.0) && parts(b.0, c.0));
        }
    }
    assert forall|a: (Seq<char>, u16)| !#[trigger] endpoint_before(a, a) by {
        assert(!parts(a.0, a.0));
    }
}

proof fn lemma_insert_ascending(views: Seq<(Seq<char>, u16)>, at: int, c: (Seq<char>, u16))
    requires
        0 <= at <= views.len(),
        strictly_ascending(views),
        forall|k: int| 0 <= k < at ==> endpoint_before(#[trigger] views[k], c),
        at < views.len() ==> !endpoint_before(views[at], c) && views[at] != c,
    ensures
        strictly_ascending(views.insert(at, c)),
{
    lemma_endpoint_order_total();
    let w = views.insert(at, c);
    if at < views.len() {
        assert(endpoint_before(c, views[at]));
    }
    assert forall|i: int, j: int| 0 <= i < j < w.len() implies endpoint_before(
        #[trigger] w[i],
        #[trigger] w[j],
    ) by {
        if j < at {
            assert(w[i] == views[i] && w[j] == views[j]);
        } else if j == at {
            assert(w[i] == views[i] && w[j] == c);
        } else if i == at {
            assert(w[i] == c && w[j] == views[j - 1]);
            if j - 1 > at {
                assert(endpoint_before(views[at], views[j - 1]));
            }
        } else if i < at {
            assert(w[i] == views[i] && w[j] == views[j - 1]);
        } else {
            assert(w[i] == views[i - 1] && w[j] == views[j - 1]);
        }
    }
}

proof fn lemma_ascending_no_duplicates(views: Seq<(Seq<char>, u16)>)
    requires
        strictly_ascending(views),
    ensures
        views.no_duplicates(),
{
    lemma_endpoint_order_total();
    assert forall|i: int, j: int| 0 <= i < views.len() && 0 <= j < views.len() && i != j implies views[i]
        != views[j] by {
        if i < j {
            assert(endpoint_before(views[i], views[j]));
        } else {
            assert(endpoint_before(views[j], views[i]));
        }
    }
}

/// A candidate ceiling is no larger than its parent's: absent only where the
/// parent's is absent too.
pub open spec fn ceiling_no_larger(candidate: Option<int>, parent: Option<int>) -> bool {
    match (candidate, parent) {
        (Some(c), Some(p)) => c <= p,
        (Some(_), None) => true,
        (None, None) => true,
        (None, Some(_)) => false,
    }
}

/// A count ceiling as an integer.
pub open spec fn count_ceiling(limit: Option<u64>) -> Option<int> {
    match limit {
        Some(v) => Some(v as int),
        None => None,
    }
}

/// A time ceiling as the whole nanoseconds it spans.
pub open spec fn time_ceiling(limit: Option<Duration>) -> Option<int> {
    match limit {
        Some(d) => Some(duration_nanos(d) as int),
        None => None,
    }
}

/// A set ceiling is greater than zero.
pub open spec fn ceiling_positive(limit: Option<int>) -> bool {
    limit matches Some(v) ==> v > 0
}

/// Optional resource ceilings for one command/session.
#[derive(Debug, Clone, Copy, Default, PartialEq, Eq)]
pub struct SandboxResourceLimits {
    /// CPU seconds.
    pub cpu_seconds: Option<u64>,
    /// Memory bytes.
    pub memory_bytes: Option<u64>,
    /// Ephemeral-storage bytes.
    pub disk_bytes: Option<u64>,
    /// Processes/PIDs.
    pub processes: Option<u64>,
    /// Open files.
    pub open_files: Option<u64>,
    /// Outbound bytes.
    pub outbound_bytes: Option<u64>,
    /// Captured output bytes.
    pub output_bytes: Option<u64>,
    /// Concurrent commands within this service.
    pub concurrent_commands: Option<u64>,
    /// Command wall time.
    pub command_time: Option<Duration>,
    /// Session wall time.
    pub session_time: Option<Duration>,
    /// Backend cost in caller-defined micros.
    pub cost_micros: Option<u64>,
}

/// The eleven ceilings of a limit set, counts first and the two times after,
/// in the order the fields are declared.
pub open spec fn ceilings(limits: SandboxResourceLimits) -> Seq<Option<int>> {
    seq![
        count_ceiling(limits.cpu_seconds),
        count_ceiling(limits.memory_bytes),
        count_ceiling(limits.disk_bytes),
        count_ceiling(limits.processes),
        count_ceiling(limits.open_files),
        count_ceiling(limits.outbound_bytes),
        count_ceiling(limits.output_bytes),
        count_ceiling(limits.concurrent_commands),
        time_ceiling(limits.command_time),
        time_ceiling(limits.session_time),
        count_ceiling(limits.cost_micros),
    ]
}

/// Whether every ceiling of `candidate` is no larger than `parent`'s.
pub open spec fn limits_no_wider(candidate: SandboxResourceLimits, parent: SandboxResourceLimits) -> bool {
    forall|i: int| 0 <= i < 11 ==> ceiling_no_larger(#[trigger] ceilings(candidate)[i], ceilings(parent)[i])
}

/// Whether every ceiling that is set is greater than zero.
pub open spec fn limits_valid(limits: SandboxResourceLimits) -> bool {
    forall|i: int| 0 <= i < 11 ==> ceiling_positive(#[trigger] ceilings(limits)[i])
}

fn count_no_larger(candidate: Option<u64>, parent: Option<u64>) -> (ok: bool)
    ensures
        ok == ceiling_no_larger(count_ceiling(candidate), count_ceiling(parent)),
{
    match (candidate, parent) {
        (Some(c), Some(p)) => c <= p,
        (Some(_), None) => true,
        (None, None) => true,
        (None, Some(_)) => false,
    }
}

fn time_no_larger(candidate: Option<Duration>, parent: Option<Duration>) -> (ok: bool)
    ensures
        ok == ceiling_no_larger(time_ceiling(candidate), time_ceiling(parent)),
{
    match (candidate, parent) {
        (Some(c), Some(p)) => nanos_of(&c) <= nanos_of(&p),
        (Some(_), None) => true,
        (None, None) => true,
        (None, Some(_)) => false,
    }
}

fn count_positive(limit: Option<u64>) -> (ok: bool)
    ensures
        ok == ceiling_positive(count_ceiling(limit)),
{
    match limit {
        Some(v) => v > 0,
        None => true,
    }
}

fn time_positive(limit: Option<Duration>) -> (ok: bool)
    ensures
        ok == ceiling_positive(time_ceiling(limit)),
{
    match limit {
        Some(d) => nanos_of(&d) > 0,
        None => true,
    }
}

impl SandboxResourceLimits {
    /// Whether every ceiling here is no larger than the parent's, and none
    /// the parent sets has disappeared.
    pub fn is_no_wider_than(self, parent: Self) -> (narrower: bool)
        ensures
            narrower == limits_no_wider(self, parent),
    {
        let narrower = count_no_larger(self.cpu_seconds, parent.cpu_seconds) && count_no_larger(
            self.memory_bytes,
            parent.memory_bytes,
        ) && count_no_larger(self.disk_bytes, parent.disk_bytes) && count_no_larger(
            self.processes,
            parent.processes,
        ) && count_no_larger(self.open_files, parent.open_files) && count_no_larger(
            self.outbound_bytes,
            parent.outbound_bytes,
        ) && count_no_larger(self.output_bytes, parent.output_bytes) && count_no_larger(
            self.concurrent_commands,
            parent.concurrent_commands,
        ) && time_no_larger(self.command_time, parent.command_time) && time_no_larger(
            self.session_time,
            parent.session_time,
        ) && count_no_larger(self.cost_micros, parent.cost_micros);
        proof {
            let (c, p) = (ceilings(self), ceilings(parent));
            if !narrower {
                assert(!ceiling_no_larger(c[0], p[0]) || !ceiling_no_larger(c[1], p[1])
                    || !ceiling_no_larger(c[2], p[2]) || !ceiling_no_larger(c[3], p[3])
                    || !ceiling_no_larger(c[4], p[4]) || !ceiling_no_larger(c[5], p[5])
                    || !ceiling_no_larger(c[6], p[6]) || !ceiling_no_larger(c[7], p[7])
                    || !ceiling_no_larger(c[8], p[8]) || !ceiling_no_larger(c[9], p[9])
                    || !ceiling_no_larger(c[10], p[10]));
            }
        }
        narrower
    }

    /// Whether every ceiling that is set is greater than zero: a ceiling of
    /// zero has no useful meaning and often means unlimited to a kernel API.
    pub fn valid(self) -> (valid: bool)
        ensures
            valid == limits_valid(self),
    {
        let valid = count_positive(self.cpu_seconds) && count_positive(self.memory_bytes)
            && count_positive(self.disk_bytes) && count_positive(self.processes) && count_positive(
            self.open_files,
        ) && count_positive(self.outbound_bytes) && count_positive(self.output_bytes)
            && count_positive(self.concurrent_commands) && count_positive(self.cost_micros)
            && time_positive(self.command_time) && time_positive(self.session_time);
        proof {
            let c = ceilings(self);
            if !valid {
                assert(!ceiling_positive(c[0]) || !ceiling_positive(c[1]) || !ceiling_positive(c[2])
                    || !ceiling_positive(c[3]) || !ceiling_positive(c[4]) || !ceiling_positive(c[5])
                    || !ceiling_positive(c[6]) || !ceiling_positive(c[7]) || !ceiling_positive(c[8])
                    || !ceiling_positive(c[9]) || !ceiling_positive(c[10]));
            }
        }
        valid
    }
}

/// Narrowing resource ceilings is a preorder: a limit set is no wider than
/// itself, and what is no wider than a narrower set is no wider than the
/// first.
pub proof fn lemma_limits_narrowing_is_a_preorder(
    a: SandboxResourceLimits,
    b: SandboxResourceLimits,
    c: SandboxResourceLimits,
)
    ensures
        limits_no_wider(a, a),
        limits_no_wider(c, b) && limits_no_wider(b, a) ==> limits_no_wider(c, a),
{
    assert forall|i: int| 0 <= i < 11 implies ceiling_no_larger(#[trigger] ceilings(a)[i], ceilings(a)[i]) by {
    }
    if limits_no_wider(c, b) && limits_no_wider(b, a) {
        assert forall|i: int| 0 <= i < 11 implies ceiling_no_larger(#[trigger] ceilings(c)[i], ceilings(a)[i]) by {
            assert(ceiling_no_larger(ceilings(c)[i], ceilings(b)[i]));
            assert(ceiling_no_larger(ceilings(b)[i], ceilings(a)[i]));
        }
    }
}

/// A ceiling the parent sets cannot disappear in a descendant.
pub proof fn lemma_a_parent_ceiling_cannot_disappear(
    candidate: SandboxResourceLimits,
    parent: SandboxResourceLimits,
    i: int,
)
    requires
        0 <= i < 11,
        ceilings(parent)[i] is Some,
        ceilings(candidate)[i] is None,
    ensures
        !limits_no_wider(candidate, parent),
{
}

/// Narrowing network reach is a preorder, and closed is narrower than every
/// request.
pub proof fn lemma_network_narrowing_is_a_preorder(
    a: NetworkPolicyView,
    b: NetworkPolicyView,
    c: NetworkPolicyView,
)
    ensures
        network_no_wider(a, a),
        network_no_wider(NetworkPolicyView::Closed, a),
        network_no_wider(c, b) && network_no_wider(b, a) ==> network_no_wider(c, a),
{
    if let NetworkPolicyView::Exact { endpoints, .. } = a {
        assert forall|i: int| 0 <= i < endpoints.len() implies endpoints.contains(#[trigger] endpoints[i]) by {
        }
    }
    if network_no_wider(c, b) && network_no_wider(b, a) {
        if let (
            NetworkPolicyView::Exact { endpoints: ce, .. },
            NetworkPolicyView::Exact { endpoints: be, .. },
            NetworkPolicyView::Exact { endpoints: ae, .. },
        ) = (c, b, a) {
            assert forall|i: int| 0 <= i < ce.len() implies ae.contains(#[trigger] ce[i]) by {
                assert(be.contains(ce[i]));
                let k = choose|k: int| 0 <= k < be.len() && be[k] == ce[i];
                assert(ae.contains(be[k]));
            }
        }
    }
}

/// How far an access reaches: nothing, reading, or reading and writing.
pub open spec fn access_authority(access: SandboxFilesystemAccess) -> int {
    match access {
        SandboxFilesystemAccess::Unreadable => 0,
        SandboxFilesystemAccess::ReadOnly => 1,
        SandboxFilesystemAccess::Protected => 1,
        SandboxFilesystemAccess::ReadWrite => 2,
    }
}

impl SandboxFilesystemAccess {
    fn authority(self) -> (authority: u8)
        ensures
            authority == access_authority(self),
    {
        match self {
            SandboxFilesystemAccess::Unreadable => 0,
            SandboxFilesystemAccess::ReadOnly => 1,
            SandboxFilesystemAccess::Protected => 1,
            SandboxFilesystemAccess::ReadWrite => 2,
        }
    }
}

/// Whether `access` asks for nothing beyond `granted`: no more authority,
/// and no plain read-only view of what is granted as protected.
pub open spec fn access_within(access: SandboxFilesystemAccess, granted: SandboxFilesystemAccess) -> bool {
    access_authority(access) <= access_authority(granted) && !(access
        == SandboxFilesystemAccess::ReadOnly && granted == SandboxFilesystemAccess::Protected)
}

fn within(access: SandboxFilesystemAccess, granted: SandboxFilesystemAccess) -> (ok: bool)
    ensures
        ok == access_within(access, granted),
{
    access.authority() <= granted.authority() && !(access == SandboxFilesystemAccess::ReadOnly
        && granted == SandboxFilesystemAccess::Protected)
}

/// A filesystem rule's content: its path, access and provenance.
pub type FilesystemRuleView = (Seq<char>, SandboxFilesystemAccess, SandboxFilesystemProvenance);

/// The contents of a sequence of rules.
pub open spec fn filesystem_views(rules: Seq<SandboxFilesystemRule>) -> Seq<FilesystemRuleView> {
    Seq::new(rules.len(), |i: int| rules[i]@)
}

/// Whether `rule` applies at `path`: the rule's path is `path` or one of its
/// ancestors, part by part.
pub open spec fn covers(rule: FilesystemRuleView, path: Seq<char>) -> bool {
    parts_start_with(path_parts(path), path_parts(rule.0))
}

/// Whether rule `i` decides `path` among the first `n` rules: it applies
/// there, and every other of them that applies is shallower, or as deep and
/// earlier (the last of the deepest wins).
pub open spec fn decides_among(rules: Seq<FilesystemRuleView>, path: Seq<char>, i: int, n: int) -> bool {
    &&& 0 <= i < n
    &&& covers(rules[i], path)
    &&& forall|j: int|
        0 <= j < n && #[trigger] covers(rules[j], path) ==> path_parts(rules[j].0).len()
            < path_parts(rules[i].0).len() || (path_parts(rules[j].0).len() == path_parts(
            rules[i].0,
        ).len() && j <= i)
}

/// Whether rule `i` is the one that decides `path`.
pub open spec fn decides(rules: Seq<FilesystemRuleView>, path: Seq<char>, i: int) -> bool {
    decides_among(rules, path, i, rules.len() as int)
}

/// The access the deciding rule grants at `path`, if any rule applies.
pub open spec fn granted_access(rules: Seq<FilesystemRuleView>, path: Seq<char>) -> Option<
    SandboxFilesystemAccess,
> {
    if exists|i: int| decides(rules, path, i) {
        Some(rules[choose|i: int| decides(rules, path, i)].1)
    } else {
        None
    }
}

/// At most one rule decides a path.
proof fn lemma_one_rule_decides(rules: Seq<FilesystemRuleView>, path: Seq<char>, i: int, k: int)
    requires
        decides(rules, path, i),
        decides(rules, path, k),
    ensures
        i == k,
{
}

/// Whether the rules let `path` be read.
pub open spec fn readable(rules: Seq<FilesystemRuleView>, path: Seq<char>) -> bool {
    granted_access(rules, path) matches Some(a) && a != SandboxFilesystemAccess::Unreadable
}

/// The rule deciding `path`, by index.
fn deciding_rule(rules: &Vec<SandboxFilesystemRule>, path: &str) -> (found: Option<usize>)
    ensures
        found matches Some(i) ==> decides(filesystem_views(rules@), path@, i as int),
        found is None ==> !exists|i: int| decides(filesystem_views(rules@), path@, i),
{
    let ghost views = filesystem_views(rules@);
    let target = parts_of(path);
    let mut best: Option<usize> = None;
    let mut best_len: usize = 0;
    let mut i: usize = 0;
    while i < rules.len()
        invariant
            views == filesystem_views(rules@),
            char_runs(target@) == path_parts(path@),
            i <= rules@.len(),
            best matches Some(b) ==> decides_among(views, path@, b as int, i as int) && best_len
                == path_parts(views[b as int].0).len(),
            best is None ==> forall|j: int| 0 <= j < i ==> !covers(#[trigger] views[j], path@),
        decreases rules@.len() - i,
    {
        let parts = parts_of(rules[i].path());
        assert(views[i as int] == rules@[i as int]@);
        if path_starts_with(&target, &parts) {
            match best {
                None => {
                    best = Some(i);
                    best_len = parts.len();
                },
                Some(_) => {
                    if parts.len() >= best_len {
                        best = Some(i);
                        best_len = parts.len();
                    }
                },
            }
        }
        i = i + 1;
    }
    proof {
        if best is None {
            assert forall|k: int| !decides(views, path@, k) by {
                if 0 <= k < views.len() {
                    assert(!covers(views[k], path@));
                }
            }
        }
    }
    best
}

/// `rules` with `x` put after every rule whose path does not come after its
/// own, so rules for one path keep the order they arrived in.
pub open spec fn insert_by_path(sorted: Seq<FilesystemRuleView>, x: FilesystemRuleView) -> Seq<
    FilesystemRuleView,
>
    decreases sorted.len(),
{
    if sorted.len() == 0 {
        seq![x]
    } else if parts_before(path_parts(x.0), path_parts(sorted.last().0)) {
        insert_by_path(sorted.drop_last(), x).push(sorted.last())
    } else {
        sorted.push(x)
    }
}

/// `rules` in stable order of their paths, part by part.
pub open spec fn sort_by_path(rules: Seq<FilesystemRuleView>) -> Seq<FilesystemRuleView>
    decreases rules.len(),
{
    if rules.len() == 0 {
        Seq::empty()
    } else {
        insert_by_path(sort_by_path(rules.drop_last()), rules.last())
    }
}

/// Two rules say the same: one path, part by part, one access, one provenance.
pub open spec fn same_rule(a: FilesystemRuleView, b: FilesystemRuleView) -> bool {
    path_parts(a.0) == path_parts(b.0) && a.1 == b.1 && a.2 == b.2
}

/// `rules` without each rule that repeats the one just before it.
pub open spec fn dedup_rules(rules: Seq<FilesystemRuleView>) -> Seq<FilesystemRuleView>
    decreases rules.len(),
{
    if rules.len() == 0 {
        Seq::empty()
    } else if rules.len() >= 2 && same_rule(rules[rules.len() - 2], rules.last()) {
        dedup_rules(rules.drop_last())
    } else {
        dedup_rules(rules.drop_last()).push(rules.last())
    }
}

/// The canonical form a policy keeps its rules in: sorted by path, then
/// without adjacent repeats.
pub open spec fn canonical_rules(rules: Seq<FilesystemRuleView>) -> Seq<FilesystemRuleView> {
    dedup_rules(sort_by_path(rules))
}

/// Whether each rule's path comes after none of the later ones'.
pub open spec fn path_sorted(s: Seq<FilesystemRuleView>) -> bool {
    forall|i: int, j: int|
        0 <= i < j < s.len() ==> !parts_before(path_parts(#[trigger] s[j].0), path_parts(#[trigger] s[i].0))
}

proof fn lemma_path_order(a: Seq<Seq<char>>, b: Seq<Seq<char>>, c: Seq<Seq<char>>)
    ensures
        !parts_before(a, a),
        parts_before(a, b) && parts_before(b, c) ==> parts_before(a, c),
        a != b ==> parts_before(a, b) || parts_before(b, a),
{
    lemma_parts_order_strict_total();
    let less = |x: Seq<Seq<char>>, y: Seq<Seq<char>>| parts_before(x, y);
    assert(less(a, a) == parts_before(a, a));
    assert(less(a, b) == parts_before(a, b));
    assert(less(b, a) == parts_before(b, a));
    assert(less(b, c) == parts_before(b, c));
    assert(less(a, c) == parts_before(a, c));
}

proof fn lemma_drop_last_sorted(s: Seq<FilesystemRuleView>)
    requires
        path_sorted(s),
        s.len() > 0,
    ensures
        path_sorted(s.drop_last()),
        forall|k: int| 0 <= k < s.len() - 1 ==> !parts_before(path_parts(s.last().0), path_parts(#[trigger] s[k].0)),
{
    let rest = s.drop_last();
    assert forall|i: int, j: int| 0 <= i < j < rest.len() implies !parts_before(
        path_parts(#[trigger] rest[j].0),
        path_parts(#[trigger] rest[i].0),
    ) by {
        assert(rest[i] == s[i] && rest[j] == s[j]);
    }
    assert forall|k: int| 0 <= k < s.len() - 1 implies !parts_before(
        path_parts(s.last().0),
        path_parts(#[trigger] s[k].0),
    ) by {
        assert(s.last() == s[s.len() - 1]);
    }
}

proof fn lemma_insert_keeps_sorted(s: Seq<FilesystemRuleView>, x: FilesystemRuleView)
    requires
        path_sorted(s),
    ensures
        path_sorted(insert_by_path(s, x)),
        forall|y: FilesystemRuleView| #[trigger] insert_by_path(s, x).contains(y) <==> (s.contains(y) || y == x),
    decreases s.len(),
{
    if s.len() == 0 {
        assert(insert_by_path(s, x) =~= seq![x]);
        assert forall|y: FilesystemRuleView| insert_by_path(s, x).contains(y) <==> (s.contains(y) || y
            == x) by {
            if y == x {
                assert(insert_by_path(s, x)[0] == y);
            }
        }
    } else {
        let last = s.last();
        let rest = s.drop_last();
        lemma_drop_last_sorted(s);
        if parts_before(path_parts(x.0), path_parts(last.0)) {
            lemma_insert_keeps_sorted(rest, x);
            let r = insert_by_path(rest, x);
            lemma_path_order(path_parts(x.0), path_parts(last.0), path_parts(x.0));
            assert forall|k: int| 0 <= k < r.len() implies !parts_before(
                path_parts(last.0),
                path_parts(#[trigger] r[k].0),
            ) by {
                assert(r.contains(r[k]));
                if r[k] != x {
                    assert(rest.contains(r[k]));
                    let m = choose|m: int| 0 <= m < rest.len() && rest[m] == r[k];
                    assert(s[m] == rest[m]);
                }
            }
            let res = r.push(last);
            assert(res == insert_by_path(s, x));
            assert forall|i: int, j: int| 0 <= i < j < res.len() implies !parts_before(
                path_parts(#[trigger] res[j].0),
                path_parts(#[trigger] res[i].0),
            ) by {
                assert(res[i] == r[i]);
                if j < r.len() {
                    assert(res[j] == r[j]);
                } else {
                    assert(res[j] == last);
                }
            }
            assert forall|y: FilesystemRuleView| res.contains(y) <==> (s.contains(y) || y == x) by {
                if res.contains(y) {
                    let k = choose|k: int| 0 <= k < res.len() && res[k] == y;
                    if k < r.len() {
                        assert(r[k] == y);
                        assert(r.contains(y));
                        if y != x {
                            assert(rest.contains(y));
                            let m = choose|m: int| 0 <= m < rest.len() && rest[m] == y;
                            assert(s[m] == y);
                        }
                    } else {
                        assert(s[s.len() - 1] == y);
                    }
                }
                if s.contains(y) {
                    let k = choose|k: int| 0 <= k < s.len() && s[k] == y;
                    if k < rest.len() {
                        assert(rest[k] == y);
                        assert(rest.contains(y));
                        assert(r.contains(y));
                        let m = choose|m: int| 0 <= m < r.len() && r[m] == y;
                        assert(res[m] == y);
                    } else {
                        assert(res[r.len() as int] == y);
                    }
                }
                if y == x {
                    assert(r.contains(x));
                    let m = choose|m: int| 0 <= m < r.len() && r[m] == x;
                    assert(res[m] == x);
                }
            }
        } else {
            let res = s.push(x);
            assert(res == insert_by_path(s, x));
            assert forall|i: int| 0 <= i < s.len() implies !parts_before(
                path_parts(x.0),
                path_parts(#[trigger] s[i].0),
            ) by {
                lemma_path_order(path_parts(x.0), path_parts(s[i].0), path_parts(last.0));
                lemma_path_order(path_parts(s[i].0), path_parts(last.0), path_parts(x.0));
                if i < s.len() - 1 {
                    assert(!parts_before(path_parts(last.0), path_parts(s[i].0)));
                } else {
                    assert(s[i] == last);
                }
            }
            assert forall|i: int, j: int| 0 <= i < j < res.len() implies !parts_before(
                path_parts(#[trigger] res[j].0),
                path_parts(#[trigger] res[i].0),
            ) by {
                assert(res[i] == s[i]);
                if j < s.len() {
                    assert(res[j] == s[j]);
                } else {
                    assert(res[j] == x);
                }
            }
            assert forall|y: FilesystemRuleView| res.contains(y) <==> (s.contains(y) || y == x) by {
                if res.contains(y) {
                    let k = choose|k: int| 0 <= k < res.len() && res[k] == y;
                    if k < s.len() {
                        assert(s[k] == y);
                    }
                }
                if s.contains(y) {
                    let k = choose|k: int| 0 <= k < s.len() && s[k] == y;
                    assert(res[k] == y);
                }
                if y == x {
                    assert(res[s.len() as int] == x);
                }
            }
        }
    }
}

proof fn lemma_sort_by_path_sorts(rules: Seq<FilesystemRuleView>)
    ensures
        path_sorted(sort_by_path(rules)),
        forall|y: FilesystemRuleView| #[trigger] sort_by_path(rules).contains(y) <==> rules.contains(y),
    decreases rules.len(),
{
    if rules.len() > 0 {
        let rest = rules.drop_last();
        lemma_sort_by_path_sorts(rest);
        lemma_insert_keeps_sorted(sort_by_path(rest), rules.last());
        assert forall|y: FilesystemRuleView| sort_by_path(rules).contains(y) <==> rules.contains(y) by {
            if rules.contains(y) {
                let k = choose|k: int| 0 <= k < rules.len() && rules[k] == y;
                if k < rest.len() {
                    assert(rest[k] == y);
                    assert(rest.contains(y));
                }
            }
            if rest.contains(y) {
                let k = choose|k: int| 0 <= k < rest.len() && rest[k] == y;
                assert(rules[k] == y);
            }
            if y == rules.last() {
                assert(rules[rules.len() - 1] == y);
            }
        }
    }
}

proof fn lemma_dedup_keeps_canonical(s: Seq<FilesystemRuleView>)
    requires
        path_sorted(s),
    ensures
        ({
            let d = dedup_rules(s);
            &&& path_sorted(d)
            &&& forall|i: int| 0 <= i < d.len() - 1 ==> !same_rule(#[trigger] d[i], d[i + 1])
            &&& forall|y: FilesystemRuleView| d.contains(y) ==> s.contains(y)
            &&& forall|x: FilesystemRuleView|
                s.contains(x) ==> exists|k: int| 0 <= k < d.len() && same_rule(#[trigger] d[k], x)
            &&& s.len() > 0 ==> d.len() > 0 && same_rule(d.last(), s.last())
        }),
    decreases s.len(),
{
    if s.len() > 0 {
        let rest = s.drop_last();
        let last = s.last();
        lemma_drop_last_sorted(s);
        lemma_dedup_keeps_canonical(rest);
        let dr = dedup_rules(rest);
        let d = dedup_rules(s);
        if s.len() >= 2 && same_rule(s[s.len() - 2], last) {
            assert(d == dr);
            assert(rest.last() == s[s.len() - 2]);
            assert forall|y: FilesystemRuleView| d.contains(y) implies s.contains(y) by {
                let k = choose|m: int| 0 <= m < rest.len() && rest[m] == y;
                assert(s[k] == y);
            }
            assert forall|x: FilesystemRuleView| s.contains(x) implies exists|k: int|
                0 <= k < d.len() && same_rule(#[trigger] d[k], x) by {
                let m = choose|m: int| 0 <= m < s.len() && s[m] == x;
                if m < rest.len() {
                    assert(rest[m] == x);
                    assert(rest.contains(x));
                } else {
                    assert(same_rule(d[d.len() - 1], x));
                }
            }
        } else {
            assert(d == dr.push(last));
            assert forall|k: int| 0 <= k < dr.len() implies !parts_before(
                path_parts(last.0),
                path_parts(#[trigger] dr[k].0),
            ) by {
                assert(dr.contains(dr[k]));
                assert(rest.contains(dr[k]));
                let m = choose|m: int| 0 <= m < rest.len() && rest[m] == dr[k];
                assert(s[m] == rest[m]);
            }
            assert forall|i: int, j: int| 0 <= i < j < d.len() implies !parts_before(
                path_parts(#[trigger] d[j].0),
                path_parts(#[trigger] d[i].0),
            ) by {
                assert(d[i] == dr[i]);
                if j < dr.len() {
                    assert(d[j] == dr[j]);
                } else {
                    assert(d[j] == last);
                }
            }
            assert forall|i: int| 0 <= i < d.len() - 1 implies !same_rule(#[trigger] d[i], d[i + 1]) by {
                assert(d[i] == dr[i]);
                if i + 1 < dr.len() {
                    assert(d[i + 1] == dr[i + 1]);
                } else {
                    assert(d[i + 1] == last);
                    assert(rest.last() == s[s.len() - 2]);
                    assert(dr.last() == dr[i]);
                }
            }
            assert forall|y: FilesystemRuleView| d.contains(y) implies s.contains(y) by {
                let k = choose|k: int| 0 <= k < d.len() && d[k] == y;
                if k < dr.len() {
                    assert(dr[k] == y);
                    assert(dr.contains(y));
                    let m = choose|m: int| 0 <= m < rest.len() && rest[m] == y;
                    assert(s[m] == y);
                } else {
                    assert(s[s.len() - 1] == y);
                }
            }
            assert forall|x: FilesystemRuleView| s.contains(x) implies exists|k: int|
                0 <= k < d.len() && same_rule(#[trigger] d[k], x) by {
                let m = choose|m: int| 0 <= m < s.len() && s[m] == x;
                if m < rest.len() {
                    assert(rest[m] == x);
                    assert(rest.contains(x));
                    let k = choose|k: int| 0 <= k < dr.len() && same_rule(#[trigger] dr[k], x);
                    assert(d[k] == dr[k]);
                } else {
                    assert(d[dr.len() as int] == x);
                }
            }
            assert(d.last() == last);
        }
    }
}

/// The rules a policy keeps are in canonical form: ascending by path, part
/// by part; no rule repeating the one just before it; each of them given;
/// and each given rule kept, or said again by one kept.
pub proof fn lemma_policy_rules_are_canonical(rules: Seq<FilesystemRuleView>)
    ensures
        ({
            let kept = canonical_rules(rules);
            &&& path_sorted(kept)
            &&& forall|i: int| 0 <= i < kept.len() - 1 ==> !same_rule(#[trigger] kept[i], kept[i + 1])
            &&& forall|i: int| 0 <= i < kept.len() ==> rules.contains(#[trigger] kept[i])
            &&& forall|x: FilesystemRuleView|
                #[trigger] rules.contains(x) ==> exists|k: int| 0 <= k < kept.len() && same_rule(#[trigger] kept[k], x)
        }),
{
    lemma_sort_by_path_sorts(rules);
    lemma_dedup_keeps_canonical(sort_by_path(rules));
    let kept = canonical_rules(rules);
    assert forall|i: int| 0 <= i < kept.len() implies rules.contains(#[trigger] kept[i]) by {
        assert(kept.contains(kept[i]));
    }
    assert forall|x: FilesystemRuleView| #[trigger] rules.contains(x) implies exists|k: int|
        0 <= k < kept.len() && same_rule(#[trigger] kept[k], x) by {
        assert(sort_by_path(rules).contains(x));
    }
}

/// Whether two rules give one path different accesses.
pub open spec fn conflicting(rules: Seq<FilesystemRuleView>) -> bool {
    exists|i: int, j: int|
        0 <= i < rules.len() && 0 <= j < rules.len() && path_parts(#[trigger] rules[i].0) == path_parts(
            #[trigger] rules[j].0,
        ) && rules[i].1 != rules[j].1
}

proof fn lemma_insert_by_path_at(s: Seq<FilesystemRuleView>, x: FilesystemRuleView, at: int)
    requires
        0 <= at <= s.len(),
        forall|k: int| at <= k < s.len() ==> parts_before(path_parts(x.0), path_parts(#[trigger] s[k].0)),
        at == 0 || !parts_before(path_parts(x.0), path_parts(s[at - 1].0)),
    ensures
        insert_by_path(s, x) == s.insert(at, x),
    decreases s.len(),
{
    if s.len() == 0 {
        assert(s.insert(at, x) =~= seq![x]);
    } else if at == s.len() {
        assert(s.insert(at, x) =~= s.push(x));
    } else {
        assert(parts_before(path_parts(x.0), path_parts(s[s.len() - 1].0)));
        let rest = s.drop_last();
        assert forall|k: int| at <= k < rest.len() implies parts_before(
            path_parts(x.0),
            path_parts(#[trigger] rest[k].0),
        ) by {
            assert(rest[k] == s[k]);
        }
        lemma_insert_by_path_at(rest, x, at);
        assert(rest.insert(at, x).push(s.last()) =~= s.insert(at, x));
    }
}

impl SandboxFilesystemRule {
    fn copy(&self) -> (copied: Self)
        ensures
            copied@ == self@,
    {
        Self { path: self.path.clone(), access: self.access, provenance: self.provenance }
    }
}

fn copy_rules(rules: &Vec<SandboxFilesystemRule>) -> (copied: Vec<SandboxFilesystemRule>)
    ensures
        filesystem_views(copied@) == filesystem_views(rules@),
{
    let mut copied: Vec<SandboxFilesystemRule> = Vec::new();
    let mut i: usize = 0;
    while i < rules.len()
        invariant
            i <= rules@.len(),
            copied@.len() == i,
            forall|j: int| 0 <= j < i ==> #[trigger] copied@[j]@ == rules@[j]@,
        decreases rules@.len() - i,
    {
        copied.push(rules[i].copy());
        i = i + 1;
    }
    assert(filesystem_views(copied@) =~= filesystem_views(rules@));
    copied
}

impl SandboxNetworkPolicy {
    fn copy(&self) -> (copied: Self)
        ensures
            copied@ == self@,
    {
        match self {
            SandboxNetworkPolicy::Closed => SandboxNetworkPolicy::Closed,
            SandboxNetworkPolicy::Exact { endpoints, dns, forwarding } => {
                let mut kept: Vec<SandboxNetworkEndpoint> = Vec::new();
                let mut i: usize = 0;
                while i < endpoints.len()
                    invariant
                        i <= endpoints@.len(),
                        kept@.len() == i,
                        forall|j: int| 0 <= j < i ==> #[trigger] kept@[j]@ == endpoints@[j]@,
                    decreases endpoints@.len() - i,
                {
                    kept.push(endpoints[i].copy());
                    i = i + 1;
                }
                assert(endpoint_views(kept@) =~= endpoint_views(endpoints@));
                SandboxNetworkPolicy::Exact { endpoints: kept, dns: *dns, forwarding: *forwarding }
            },
        }
    }
}

impl SandboxPolicy {
    pub(crate) fn copy(&self) -> (copied: Self)
        ensures
            copied@ == self@,
    {
        Self {
            mode: self.mode,
            filesystem: copy_rules(&self.filesystem),
            working_directory: self.working_directory.clone(),
            network: self.network.copy(),
            limits: self.limits,
            commands: self.commands.copy(),
            persistent: self.persistent,
            snapshots: self.snapshots,
        }
    }
}

fn insert_rule(sorted: &mut Vec<SandboxFilesystemRule>, rule: SandboxFilesystemRule)
    ensures
        filesystem_views(final(sorted)@) == insert_by_path(filesystem_views(old(sorted)@), rule@),
{
    let ghost s = filesystem_views(sorted@);
    let parts = parts_of(rule.path());
    let mut at: usize = sorted.len();
    loop
        invariant
            s == filesystem_views(sorted@),
            at <= s.len(),
            char_runs(parts@) == path_parts(rule@.0),
            forall|k: int| at <= k < s.len() ==> parts_before(path_parts(rule@.0), path_parts(#[trigger] s[k].0)),
        ensures
            at <= s.len(),
            forall|k: int| at <= k < s.len() ==> parts_before(path_parts(rule@.0), path_parts(#[trigger] s[k].0)),
            at == 0 || !parts_before(path_parts(rule@.0), path_parts(s[at - 1].0)),
        decreases at,
    {
        if at == 0 {
            break;
        }
        let other = parts_of(sorted[at - 1].path());
        assert(s[at - 1] == sorted@[at - 1]@);
        if !path_before(&parts, &other) {
            break;
        }
        at = at - 1;
    }
    proof {
        lemma_insert_by_path_at(s, rule@, at as int);
    }
    let ghost before = sorted@;
    let ghost r = rule;
    sorted.insert(at, rule);
    assert(filesystem_views(sorted@) =~= s.insert(at as int, r@)) by {
        assert(sorted@ == before.insert(at as int, r));
    }
}

fn sorted_rules(rules: &Vec<SandboxFilesystemRule>) -> (sorted: Vec<SandboxFilesystemRule>)
    ensures
        filesystem_views(sorted@) == sort_by_path(filesystem_views(rules@)),
{
    let ghost views = filesystem_views(rules@);
    let mut sorted: Vec<SandboxFilesystemRule> = Vec::new();
    let mut i: usize = 0;
    assert(filesystem_views(sorted@) =~= sort_by_path(views.take(0)));
    while i < rules.len()
        invariant
            views == filesystem_views(rules@),
            i <= rules@.len(),
            filesystem_views(sorted@) == sort_by_path(views.take(i as int)),
        decreases rules@.len() - i,
    {
        let rule = rules[i].copy();
        assert(views.take(i as int + 1).drop_last() =~= views.take(i as int));
        assert(views.take(i as int + 1).last() == rules@[i as int]@);
        insert_rule(&mut sorted, rule);
        i = i + 1;
    }
    assert(views.take(views.len() as int) =~= views);
    sorted
}

fn same_rule_as(a: &SandboxFilesystemRule, b: &SandboxFilesystemRule) -> (same: bool)
    ensures
        same == same_rule(a@, b@),
{
    a.access == b.access && a.provenance == b.provenance && same_path(
        &parts_of(a.path()),
        &parts_of(b.path()),
    )
}

fn deduplicated(sorted: &Vec<SandboxFilesystemRule>) -> (kept: Vec<SandboxFilesystemRule>)
    ensures
        filesystem_views(kept@) == dedup_rules(filesystem_views(sorted@)),
{
    let ghost views = filesystem_views(sorted@);
    let mut kept: Vec<SandboxFilesystemRule> = Vec::new();
    let mut i: usize = 0;
    assert(filesystem_views(kept@) =~= dedup_rules(views.take(0)));
    while i < sorted.len()
        invariant
            views == filesystem_views(sorted@),
            i <= sorted@.len(),
            filesystem_views(kept@) == dedup_rules(views.take(i as int)),
        decreases sorted@.len() - i,
    {
        let ghost prefix = views.take(i as int + 1);
        assert(prefix.drop_last() =~= views.take(i as int));
        assert(prefix.last() == sorted@[i as int]@);
        if i > 0 && same_rule_as(&sorted[i - 1], &sorted[i]) {
            assert(prefix[prefix.len() - 2] == sorted@[i - 1]@);
        } else {
            proof {
                if i > 0 {
                    assert(prefix[prefix.len() - 2] == sorted@[i - 1]@);
                }
            }
            let ghost before = filesystem_views(kept@);
            kept.push(sorted[i].copy());
            assert(filesystem_views(kept@) =~= before.push(sorted@[i as int]@));
        }
        i = i + 1;
    }
    assert(views.take(views.len() as int) =~= views);
    kept
}

fn has_conflict(rules: &Vec<SandboxFilesystemRule>) -> (found: bool)
    ensures
        found == conflicting(filesystem_views(rules@)),
{
    let ghost views = filesystem_views(rules@);
    let mut i: usize = 0;
    while i < rules.len()
        invariant
            views == filesystem_views(rules@),
            i <= rules@.len(),
            forall|a: int, b: int|
                0 <= a < i && 0 <= b < views.len() && path_parts(#[trigger] views[a].0) == path_parts(
                    #[trigger] views[b].0,
                ) ==> views[a].1 == views[b].1,
        decreases rules@.len() - i,
    {
        let here = parts_of(rules[i].path());
        assert(views[i as int] == rules@[i as int]@);
        let mut j: usize = 0;
        while j < rules.len()
            invariant
                views == filesystem_views(rules@),
                i < rules@.len(),
                views[i as int] == rules@[i as int]@,
                char_runs(here@) == path_parts(views[i as int].0),
                j <= rules@.len(),
                forall|a: int, b: int|
                    0 <= a < i && 0 <= b < views.len() && path_parts(#[trigger] views[a].0) == path_parts(
                        #[trigger] views[b].0,
                    ) ==> views[a].1 == views[b].1,
                forall|b: int|
                    0 <= b < j && path_parts(views[i as int].0) == path_parts(#[trigger] views[b].0)
                        ==> views[i as int].1 == views[b].1,
            decreases rules@.len() - j,
        {
            assert(views[j as int] == rules@[j as int]@);
            if rules[i].access != rules[j].access && same_path(&here, &parts_of(rules[j].path())) {
                assert(path_parts(views[i as int].0) == path_parts(views[j as int].0));
                return true;
            }
            j = j + 1;
        }
        i = i + 1;
    }
    false
}

/// A policy's content.
pub struct PolicyView {
    pub mode: SandboxMode,
    pub filesystem: Seq<FilesystemRuleView>,
    pub working_directory: Seq<char>,
    pub network: NetworkPolicyView,
    pub limits: SandboxResourceLimits,
    pub commands: Seq<Seq<RuleView>>,
    pub persistent: bool,
    pub snapshots: bool,
}

/// Why [`SandboxPolicy::new`] refuses these parts, the first reason in the
/// order it checks them, or `None` where it accepts them.
pub open spec fn policy_refusal(
    rules: Seq<FilesystemRuleView>,
    working_directory: Seq<char>,
    limits: SandboxResourceLimits,
) -> Option<SandboxPolicyError> {
    if !(0 < rules.len() <= MAX_SANDBOX_FILESYSTEM_RULES) {
        Some(SandboxPolicyError::InvalidFilesystemRuleCount)
    } else if conflicting(rules) {
        Some(SandboxPolicyError::ConflictingFilesystemRule)
    } else if !valid_absolute_path(working_directory) {
        Some(SandboxPolicyError::InvalidPath)
    } else if !readable(canonical_rules(rules), working_directory) {
        Some(SandboxPolicyError::WorkingDirectoryOutsidePolicy)
    } else if !limits_valid(limits) {
        Some(SandboxPolicyError::InvalidResourceLimit)
    } else {
        None
    }
}

/// Whether the parent's rules grant at least `rule`'s access at its path.
pub open spec fn rule_allowed(parent: Seq<FilesystemRuleView>, rule: FilesystemRuleView) -> bool {
    granted_access(parent, rule.0) matches Some(granted) && access_within(rule.1, granted)
}

/// Whether every candidate rule is granted by the parent's rules.
pub open spec fn filesystem_no_wider(candidate: Seq<FilesystemRuleView>, parent: Seq<FilesystemRuleView>) -> bool {
    forall|i: int| 0 <= i < candidate.len() ==> rule_allowed(parent, #[trigger] candidate[i])
}

/// Why [`SandboxPolicy::restrict`] refuses a candidate under `parent`, the
/// first reason in the order it checks them, or `None` where it accepts it.
pub open spec fn restriction_refusal(parent: PolicyView, candidate: PolicyView) -> Option<SandboxPolicyError> {
    if !(mode_strength(candidate.mode) >= mode_strength(parent.mode)) {
        Some(SandboxPolicyError::WeakerMode)
    } else if !filesystem_no_wider(candidate.filesystem, parent.filesystem) {
        Some(SandboxPolicyError::FilesystemWidening)
    } else if !network_no_wider(candidate.network, parent.network) {
        Some(SandboxPolicyError::NetworkWidening)
    } else if !limits_no_wider(candidate.limits, parent.limits) {
        Some(SandboxPolicyError::ResourceWidening)
    } else if parent.commands.len() + candidate.commands.len() > MAX_SANDBOX_GUARDRAIL_LAYERS
        || rule_count(parent.commands) + rule_count(candidate.commands) > MAX_SANDBOX_GUARDRAIL_RULES {
        Some(SandboxPolicyError::InvalidCommandPolicy)
    } else if (candidate.persistent && !parent.persistent) || (candidate.snapshots && !parent.snapshots) {
        Some(SandboxPolicyError::SessionWidening)
    } else {
        None
    }
}

/// Whether a policy grants `access` throughout `path`: the path is usable,
/// the rule deciding it grants the access, and no rule beneath it grants
/// less authority.
pub open spec fn permits(rules: Seq<FilesystemRuleView>, path: Seq<char>, access: SandboxFilesystemAccess) -> bool {
    &&& valid_absolute_path(path)
    &&& granted_access(rules, path) matches Some(granted) && access_within(access, granted)
    &&& forall|i: int|
        0 <= i < rules.len() && parts_start_with(path_parts(#[trigger] rules[i].0), path_parts(path))
            ==> access_authority(access) <= access_authority(rules[i].1)
}

/// One fully resolved immutable policy.
#[derive(Clone, PartialEq, Eq)]
pub struct SandboxPolicy {
    mode: SandboxMode,
    filesystem: Vec<SandboxFilesystemRule>,
    working_directory: String,
    network: SandboxNetworkPolicy,
    limits: SandboxResourceLimits,
    commands: SandboxCommandPolicy,
    persistent: bool,
    snapshots: bool,
}

impl View for SandboxPolicy {
    type V = PolicyView;

    closed spec fn view(&self) -> PolicyView {
        PolicyView {
            mode: self.mode,
            filesystem: filesystem_views(self.filesystem@),
            working_directory: self.working_directory@,
            network: self.network@,
            limits: self.limits,
            commands: self.commands@,
            persistent: self.persistent,
            snapshots: self.snapshots,
        }
    }
}

/// The access the deciding rule of `rules` grants at `path`, if any.
fn granted_at(rules: &Vec<SandboxFilesystemRule>, path: &str) -> (granted: Option<SandboxFilesystemAccess>)
    ensures
        granted == granted_access(filesystem_views(rules@), path@),
{
    let ghost views = filesystem_views(rules@);
    match deciding_rule(rules, path) {
        Some(i) => {
            proof {
                let k = choose|k: int| decides(views, path@, k);
                lemma_one_rule_decides(views, path@, i as int, k);
                assert(views[i as int] == rules@[i as int]@);
            }
            Some(rules[i].access)
        },
        None => None,
    }
}

impl SandboxPolicy {
    /// Validates an effective policy assembled by the host: the rules are
    /// kept sorted by path and without adjacent repeats; invalid paths,
    /// conflicting rules, a working directory the rules do not let be read,
    /// a rule count outside `1..=`[`MAX_SANDBOX_FILESYSTEM_RULES`], or a zero
    /// resource ceiling are refused.
    pub fn new(
        mode: SandboxMode,
        filesystem: Vec<SandboxFilesystemRule>,
        working_directory: &str,
        network: SandboxNetworkPolicy,
        limits: SandboxResourceLimits,
    ) -> (policy: Result<Self, SandboxPolicyError>)
        ensures
            (match policy_refusal(filesystem_views(filesystem@), working_directory@, limits) {
                Some(refusal) => policy matches Err(e) && e == refusal,
                None => policy matches Ok(p) && p@ == PolicyView {
                    mode,
                    filesystem: canonical_rules(filesystem_views(filesystem@)),
                    working_directory: working_directory@,
                    network: network@,
                    limits,
                    commands: Seq::empty(),
                    persistent: false,
                    snapshots: false,
                },
            }),
    {
        if filesystem.len() == 0 || filesystem.len() > MAX_SANDBOX_FILESYSTEM_RULES {
            return Err(SandboxPolicyError::InvalidFilesystemRuleCount);
        }
        if has_conflict(&filesystem) {
            return Err(SandboxPolicyError::ConflictingFilesystemRule);
        }
        let sorted = sorted_rules(&filesystem);
        let kept = deduplicated(&sorted);
        if validate_absolute_path(working_directory).is_err() {
            return Err(SandboxPolicyError::InvalidPath);
        }
        match granted_at(&kept, working_directory) {
            Some(access) => {
                if access == SandboxFilesystemAccess::Unreadable {
                    return Err(SandboxPolicyError::WorkingDirectoryOutsidePolicy);
                }
            },
            None => {
                return Err(SandboxPolicyError::WorkingDirectoryOutsidePolicy);
            },
        }
        if !limits.valid() {
            return Err(SandboxPolicyError::InvalidResourceLimit);
        }
        let commands = SandboxCommandPolicy::allow_all();
        let policy = Self {
            mode,
            filesystem: kept,
            working_directory: working_directory.to_owned(),
            network,
            limits,
            commands,
            persistent: false,
            snapshots: false,
        };
        assert(policy@.commands =~= Seq::<Seq<RuleView>>::empty());
        Ok(policy)
    }

    /// Refuses a descendant policy that widens any parent authority or
    /// ceiling: a weaker mode, a new or wider filesystem grant, broader
    /// network reach, a relaxed resource ceiling, too many command filters
    /// together, or new persistence authority. An accepted descendant keeps
    /// its own parts, its command filters stacked beneath the parent's.
    pub fn restrict(parent: &Self, candidate: Self) -> (policy: Result<Self, SandboxPolicyError>)
        ensures
            (match restriction_refusal(parent@, candidate@) {
                Some(refusal) => policy matches Err(e) && e == refusal,
                None => policy matches Ok(p) && p@ == PolicyView {
                    commands: parent@.commands + candidate@.commands,
                    ..candidate@
                },
            }),
    {
        if !parent.mode.permits(candidate.mode) {
            return Err(SandboxPolicyError::WeakerMode);
        }
        let ghost parent_rules = filesystem_views(parent.filesystem@);
        let ghost candidate_rules = filesystem_views(candidate.filesystem@);
        let mut i: usize = 0;
        while i < candidate.filesystem.len()
            invariant
                mode_strength(candidate.mode) >= mode_strength(parent.mode),
                parent_rules == filesystem_views(parent.filesystem@),
                candidate_rules == filesystem_views(candidate.filesystem@),
                i <= candidate.filesystem@.len(),
                forall|k: int| 0 <= k < i ==> rule_allowed(parent_rules, #[trigger] candidate_rules[k]),
            decreases candidate.filesystem@.len() - i,
        {
            let rule = &candidate.filesystem[i];
            assert(candidate_rules[i as int] == rule@);
            let allowed = match granted_at(&parent.filesystem, rule.path()) {
                Some(granted) => within(rule.access, granted),
                None => false,
            };
            if !allowed {
                assert(!rule_allowed(parent_rules, candidate_rules[i as int]));
                return Err(SandboxPolicyError::FilesystemWidening);
            }
            i = i + 1;
        }
        if !candidate.network.is_no_wider_than(&parent.network) {
            return Err(SandboxPolicyError::NetworkWidening);
        }
        if !candidate.limits.is_no_wider_than(parent.limits) {
            return Err(SandboxPolicyError::ResourceWidening);
        }
        let commands = match SandboxCommandPolicy::intersect(&parent.commands, &candidate.commands) {
            Ok(commands) => commands,
            Err(_) => {
                return Err(SandboxPolicyError::InvalidCommandPolicy);
            },
        };
        if (candidate.persistent && !parent.persistent) || (candidate.snapshots && !parent.snapshots) {
            return Err(SandboxPolicyError::SessionWidening);
        }
        let mut candidate = candidate;
        candidate.commands = commands;
        Ok(candidate)
    }

    /// A copy with command-scoped limits, every other part kept; a zero
    /// ceiling is refused.
    pub fn with_limits(self, limits: SandboxResourceLimits) -> (policy: Result<Self, SandboxPolicyError>)
        ensures
            !limits_valid(limits) ==> (policy matches Err(e) && e == SandboxPolicyError::InvalidResourceLimit),
            limits_valid(limits) ==> (policy matches Ok(p) && p@ == PolicyView { limits, ..self@ }),
    {
        if !limits.valid() {
            return Err(SandboxPolicyError::InvalidResourceLimit);
        }
        let mut policy = self;
        policy.limits = limits;
        Ok(policy)
    }

    /// A copy with one already-bounded top-level command filter stack.
    pub fn with_command_policy(self, commands: SandboxCommandPolicy) -> (policy: Self)
        ensures
            policy@ == (PolicyView { commands: commands@, ..self@ }),
    {
        let mut policy = self;
        policy.commands = commands;
        policy
    }

    /// A copy under a host-authorized top-level mode.
    pub fn with_mode(self, mode: SandboxMode) -> (policy: Self)
        ensures
            policy@ == (PolicyView { mode, ..self@ }),
    {
        let mut policy = self;
        policy.mode = mode;
        policy
    }

    /// Required, degraded or off.
    pub fn mode(&self) -> (mode: SandboxMode)
        ensures
            mode == self@.mode,
    {
        self.mode
    }

    /// The canonical ordered filesystem rules.
    pub fn filesystem(&self) -> (rules: &[SandboxFilesystemRule])
        ensures
            filesystem_views(rules@) == self@.filesystem,
    {
        self.filesystem.as_slice()
    }

    /// The working directory inside the granted view.
    pub fn working_directory(&self) -> (path: &str)
        ensures
            path@ == self@.working_directory,
    {
        self.working_directory.as_str()
    }

    /// The immutable network policy.
    pub fn network(&self) -> (network: &SandboxNetworkPolicy)
        ensures
            network@ == self@.network,
    {
        &self.network
    }

    /// The resource ceilings.
    pub fn limits(&self) -> (limits: SandboxResourceLimits)
        ensures
            limits == self@.limits,
    {
        self.limits
    }

    /// The defense-in-depth command allow/deny filters.
    pub fn commands(&self) -> (commands: &SandboxCommandPolicy)
        ensures
            commands@ == self@.commands,
    {
        &self.commands
    }

    /// Whether durable session state was explicitly granted.
    pub fn persistent(&self) -> (persistent: bool)
        ensures
            persistent == self@.persistent,
    {
        self.persistent
    }

    /// Whether snapshots were explicitly granted.
    pub fn snapshots(&self) -> (snapshots: bool)
        ensures
            snapshots == self@.snapshots,
    {
        self.snapshots
    }

    /// Whether this policy grants `access` throughout `path`. Manifest mounts
    /// and descendant requests use this to show that an alias neither brings
    /// in a new host source nor makes one more writable than its parent
    /// authority.
    pub fn permits_path(&self, path: &str, access: SandboxFilesystemAccess) -> (permitted: bool)
        ensures
            permitted == permits(self@.filesystem, path@, access),
    {
        let ghost rules = self@.filesystem;
        if validate_absolute_path(path).is_err() {
            return false;
        }
        match granted_at(&self.filesystem, path) {
            Some(granted) => {
                if !within(access, granted) {
                    return false;
                }
            },
            None => {
                return false;
            },
        }
        let target = parts_of(path);
        let mut i: usize = 0;
        while i < self.filesystem.len()
            invariant
                rules == filesystem_views(self.filesystem@),
                char_runs(target@) == path_parts(path@),
                i <= self.filesystem@.len(),
                forall|k: int|
                    0 <= k < i && parts_start_with(path_parts(#[trigger] rules[k].0), path_parts(path@))
                        ==> access_authority(access) <= access_authority(rules[k].1),
            decreases self.filesystem@.len() - i,
        {
            let rule = &self.filesystem[i];
            assert(rules[i as int] == rule@);
            if path_starts_with(&parts_of(rule.path()), &target) && access.authority()
                > rule.access.authority() {
                return false;
            }
            i = i + 1;
        }
        true
    }
}

/// The domain a policy digest is separated by: `crucible-sandbox-policy-v1`
/// and a NUL.
pub open spec fn policy_domain() -> Seq<u8> {
    seq![
        99u8, 114, 117, 99, 105, 98, 108, 101, 45, 115, 97, 110, 100, 98, 111, 120, 45, 112, 111,
        108, 105, 99, 121, 45, 118, 49, 0,
    ]
}

/// The number a mode is written as in a digest: its place in declaration
/// order.
pub open spec fn mode_code(mode: SandboxMode) -> u8 {
    match mode {
        SandboxMode::Required => 0,
        SandboxMode::Degraded => 1,
        SandboxMode::Off => 2,
    }
}

/// The byte a flag is written as: one for set, zero otherwise.
pub open spec fn flag_byte(flag: bool) -> u8 {
    if flag {
        1
    } else {
        0
    }
}

/// The two big-endian bytes of `value`.
pub open spec fn be_u16_bytes(value: u16) -> Seq<u8> {
    seq![(value / 256) as u8, (value % 256) as u8]
}

/// The four big-endian bytes of `value`.
pub open spec fn be_u32_bytes(value: u32) -> Seq<u8> {
    seq![
        (value / 16777216) as u8,
        (value / 65536 % 256) as u8,
        (value / 256 % 256) as u8,
        (value % 256) as u8,
    ]
}

/// Each rule as its path, a NUL, its access and its provenance.
pub open spec fn filesystem_framing(rules: Seq<FilesystemRuleView>) -> Seq<u8>
    decreases rules.len(),
{
    if rules.len() == 0 {
        Seq::empty()
    } else {
        filesystem_framing(rules.drop_last()) + encode_utf8(rules.last().0) + seq![
            0u8,
            access_code(rules.last().1),
            provenance_code(rules.last().2),
        ]
    }
}

/// Each endpoint as its host, a NUL and its port.
pub open spec fn endpoints_framing(endpoints: Seq<(Seq<char>, u16)>) -> Seq<u8>
    decreases endpoints.len(),
{
    if endpoints.len() == 0 {
        Seq::empty()
    } else {
        endpoints_framing(endpoints.drop_last()) + encode_utf8(endpoints.last().0) + seq![0u8]
            + be_u16_bytes(endpoints.last().1)
    }
}

/// A closed network as a NUL and `closed`; an exact one as a NUL, `exact`,
/// its endpoints, and its DNS and forwarding flags.
pub open spec fn network_framing(network: NetworkPolicyView) -> Seq<u8> {
    match network {
        NetworkPolicyView::Closed => seq![0u8, 99, 108, 111, 115, 101, 100],
        NetworkPolicyView::Exact { endpoints, dns, forwarding } => seq![0u8, 101, 120, 97, 99, 116]
            + endpoints_framing(endpoints) + seq![flag_byte(dns), flag_byte(forwarding)],
    }
}

/// A count ceiling as eight bytes, zero where it is not set.
pub open spec fn count_framing(limit: Option<u64>) -> Seq<u8> {
    match limit {
        Some(value) => be_bytes(value),
        None => be_bytes(0),
    }
}

/// A time ceiling as its whole seconds and the nanoseconds past them, zero
/// where it is not set.
pub open spec fn time_framing(limit: Option<Duration>) -> Seq<u8> {
    match limit {
        Some(d) => be_bytes((duration_nanos(d) / 1_000_000_000) as u64) + be_u32_bytes(
            (duration_nanos(d) % 1_000_000_000) as u32,
        ),
        None => be_bytes(0) + be_u32_bytes(0),
    }
}

/// The nine count ceilings, then the command and session times.
pub open spec fn limits_framing(limits: SandboxResourceLimits) -> Seq<u8> {
    count_framing(limits.cpu_seconds) + count_framing(limits.memory_bytes) + count_framing(
        limits.disk_bytes,
    ) + count_framing(limits.processes) + count_framing(limits.open_files) + count_framing(
        limits.outbound_bytes,
    ) + count_framing(limits.output_bytes) + count_framing(limits.concurrent_commands)
        + count_framing(limits.cost_micros) + time_framing(limits.command_time) + time_framing(
        limits.session_time,
    )
}

/// The bytes a policy digest is taken over: the domain, the mode, the rules,
/// the working directory, the network, the limits, the command policy's own
/// digest, and the persistence and snapshot flags.
pub open spec fn policy_framing(policy: PolicyView) -> Seq<u8> {
    policy_domain() + seq![mode_code(policy.mode)] + filesystem_framing(policy.filesystem)
        + encode_utf8(policy.working_directory) + network_framing(policy.network) + limits_framing(
        policy.limits,
    ) + sha256_of(command_policy_framing(policy.commands)) + seq![
        flag_byte(policy.persistent),
        flag_byte(policy.snapshots),
    ]
}

fn mode_byte(mode: SandboxMode) -> (code: u8)
    ensures
        code == mode_code(mode),
{
    match mode {
        SandboxMode::Required => 0,
        SandboxMode::Degraded => 1,
        SandboxMode::Off => 2,
    }
}

fn flag(value: bool) -> (byte: u8)
    ensures
        byte == flag_byte(value),
{
    if value {
        1
    } else {
        0
    }
}

fn frame_u16(out: &mut Vec<u8>, value: u16)
    ensures
        final(out)@ == old(out)@ + be_u16_bytes(value),
{
    out.push((value / 256) as u8);
    out.push((value % 256) as u8);
    assert(out@ =~= old(out)@ + be_u16_bytes(value));
}

fn frame_u32(out: &mut Vec<u8>, value: u32)
    ensures
        final(out)@ == old(out)@ + be_u32_bytes(value),
{
    out.push((value / 16777216) as u8);
    out.push((value / 65536 % 256) as u8);
    out.push((value / 256 % 256) as u8);
    out.push((value % 256) as u8);
    assert(out@ =~= old(out)@ + be_u32_bytes(value));
}

fn frame_count(out: &mut Vec<u8>, limit: Option<u64>)
    ensures
        final(out)@ == old(out)@ + count_framing(limit),
{
    match limit {
        Some(value) => frame_u64(out, value),
        None => frame_u64(out, 0),
    }
}

fn frame_time(out: &mut Vec<u8>, limit: Option<Duration>)
    ensures
        final(out)@ == old(out)@ + time_framing(limit),
{
    let ghost start = out@;
    match limit {
        Some(d) => {
            frame_u64(out, whole_secs_of(&d));
            frame_u32(out, subsec_nanos_of(&d));
        },
        None => {
            frame_u64(out, 0);
            frame_u32(out, 0);
        },
    }
    assert(out@ =~= start + time_framing(limit));
}

fn frame_limits(out: &mut Vec<u8>, limits: SandboxResourceLimits)
    ensures
        final(out)@ == old(out)@ + limits_framing(limits),
{
    let ghost start = out@;
    let ghost l = limits;
    frame_count(out, limits.cpu_seconds);
    let ghost mut p = count_framing(l.cpu_seconds);
    frame_count(out, limits.memory_bytes);
    proof {
        lemma_concat_associative(start, p, count_framing(l.memory_bytes));
        p = p + count_framing(l.memory_bytes);
    }
    frame_count(out, limits.disk_bytes);
    proof {
        lemma_concat_associative(start, p, count_framing(l.disk_bytes));
        p = p + count_framing(l.disk_bytes);
    }
    frame_count(out, limits.processes);
    proof {
        lemma_concat_associative(start, p, count_framing(l.processes));
        p = p + count_framing(l.processes);
    }
    frame_count(out, limits.open_files);
    proof {
        lemma_concat_associative(start, p, count_framing(l.open_files));
        p = p + count_framing(l.open_files);
    }
    frame_count(out, limits.outbound_bytes);
    proof {
        lemma_concat_associative(start, p, count_framing(l.outbound_bytes));
        p = p + count_framing(l.outbound_bytes);
    }
    frame_count(out, limits.output_bytes);
    proof {
        lemma_concat_associative(start, p, count_framing(l.output_bytes));
        p = p + count_framing(l.output_bytes);
    }
    frame_count(out, limits.concurrent_commands);
    proof {
        lemma_concat_associative(start, p, count_framing(l.concurrent_commands));
        p = p + count_framing(l.concurrent_commands);
    }
    frame_count(out, limits.cost_micros);
    proof {
        lemma_concat_associative(start, p, count_framing(l.cost_micros));
        p = p + count_framing(l.cost_micros);
    }
    frame_time(out, limits.command_time);
    proof {
        lemma_concat_associative(start, p, time_framing(l.command_time));
        p = p + time_framing(l.command_time);
    }
    frame_time(out, limits.session_time);
    proof {
        lemma_concat_associative(start, p, time_framing(l.session_time));
        p = p + time_framing(l.session_time);
    }
    assert(p == limits_framing(l));
}

fn frame_network(out: &mut Vec<u8>, network: &SandboxNetworkPolicy)
    ensures
        final(out)@ == old(out)@ + network_framing(network@),
{
    let ghost start = out@;
    match network {
        SandboxNetworkPolicy::Closed => {
            let tag: Vec<u8> = vec![0u8, 99, 108, 111, 115, 101, 100];
            push_all(out, tag.as_slice());
            assert(out@ =~= start + network_framing(network@));
        },
        SandboxNetworkPolicy::Exact { endpoints, dns, forwarding } => {
            let tag: Vec<u8> = vec![0u8, 101, 120, 97, 99, 116];
            push_all(out, tag.as_slice());
            let ghost views = endpoint_views(endpoints@);
            let ghost middle = out@;
            let mut i: usize = 0;
            assert(views.take(0) =~= Seq::<(Seq<char>, u16)>::empty());
            while i < endpoints.len()
                invariant
                    views == endpoint_views(endpoints@),
                    i <= endpoints@.len(),
                    out@ == middle + endpoints_framing(views.take(i as int)),
                decreases endpoints@.len() - i,
            {
                let endpoint = &endpoints[i];
                assert(views.take(i as int + 1).drop_last() =~= views.take(i as int));
                assert(views.take(i as int + 1).last() == endpoint@);
                push_all(out, endpoint.host().as_bytes());
                out.push(0u8);
                frame_u16(out, endpoint.port());
                assert(out@ =~= middle + endpoints_framing(views.take(i as int + 1)));
                i = i + 1;
            }
            assert(views.take(views.len() as int) =~= views);
            out.push(flag(*dns));
            out.push(flag(*forwarding));
            assert(out@ =~= start + network_framing(network@));
        },
    }
}

impl SandboxPolicy {
    /// The domain-separated identity of this policy, for bounded inspection
    /// and checkpoints: paths and endpoint names enter only through it.
    pub fn digest(&self) -> (digest: [u8; 32])
        ensures
            digest@ == sha256_of(policy_framing(self@)),
    {
        let mut bytes: Vec<u8> = vec![
            99u8, 114, 117, 99, 105, 98, 108, 101, 45, 115, 97, 110, 100, 98, 111, 120, 45, 112,
            111, 108, 105, 99, 121, 45, 118, 49, 0,
        ];
        assert(bytes@ =~= policy_domain());
        bytes.push(mode_byte(self.mode));
        let ghost rules = self@.filesystem;
        let ghost start = bytes@;
        let mut i: usize = 0;
        assert(rules.take(0) =~= Seq::<FilesystemRuleView>::empty());
        while i < self.filesystem.len()
            invariant
                rules == filesystem_views(self.filesystem@),
                i <= self.filesystem@.len(),
                bytes@ == start + filesystem_framing(rules.take(i as int)),
            decreases self.filesystem@.len() - i,
        {
            let rule = &self.filesystem[i];
            assert(rules.take(i as int + 1).drop_last() =~= rules.take(i as int));
            assert(rules.take(i as int + 1).last() == rule@);
            push_all(&mut bytes, rule.path().as_bytes());
            bytes.push(0u8);
            bytes.push(access_byte(rule.access));
            bytes.push(provenance_byte(rule.provenance));
            assert(bytes@ =~= start + filesystem_framing(rules.take(i as int + 1)));
            i = i + 1;
        }
        assert(rules.take(rules.len() as int) =~= rules);
        push_all(&mut bytes, self.working_directory.as_str().as_bytes());
        frame_network(&mut bytes, &self.network);
        frame_limits(&mut bytes, self.limits);
        let commands = self.commands.digest();
        push_all(&mut bytes, commands.as_slice());
        bytes.push(flag(self.persistent));
        bytes.push(flag(self.snapshots));
        assert(bytes@ =~= policy_framing(self@));
        sha256(bytes.as_slice())
    }
}

/// Why an immutable policy was refused.
#[derive(Debug, Clone, Copy, PartialEq, Eq, Structural)]
pub enum SandboxPolicyError {
    /// Paths are bounded, absolute, and normalized before entering a policy.
    InvalidPath,
    /// Every policy has a bounded non-empty filesystem rule set.
    InvalidFilesystemRuleCount,
    /// One path cannot carry two different effective modes at the same depth.
    ConflictingFilesystemRule,
    /// The working directory must be visible through the policy itself.
    WorkingDirectoryOutsidePolicy,
    /// Network endpoints are bounded and structurally valid.
    InvalidEndpoint,
    /// An exact request is non-empty and bounded.
    InvalidEndpointCount,
    /// A ceiling of zero has no useful meaning and often means unlimited to a kernel API.
    InvalidResourceLimit,
    /// Descendants cannot opt out of a parent's confinement requirement.
    WeakerMode,
    /// Descendants cannot add or widen filesystem reach.
    FilesystemWidening,
    /// Descendants cannot broaden network reach.
    NetworkWidening,
    /// Descendants cannot relax resource ceilings.
    ResourceWidening,
    /// Descendants cannot add persistence or snapshot authority.
    SessionWidening,
    /// The bounded parent/descendant command-filter intersection overflowed.
    InvalidCommandPolicy,
}

/// The sentence a policy refusal reads as.
pub open spec fn policy_error_text(error: SandboxPolicyError) -> Seq<char> {
    match error {
        SandboxPolicyError::InvalidPath =>
            "sandbox policy path must be normalized, absolute, and at most 4096 bytes"@,
        SandboxPolicyError::InvalidFilesystemRuleCount =>
            "sandbox filesystem policy must contain 1..=128 rules"@,
        SandboxPolicyError::ConflictingFilesystemRule =>
            "sandbox filesystem policy contains conflicting rules for one path"@,
        SandboxPolicyError::WorkingDirectoryOutsidePolicy =>
            "sandbox working directory is outside the readable policy"@,
        SandboxPolicyError::InvalidEndpoint => "sandbox network endpoint is invalid"@,
        SandboxPolicyError::InvalidEndpointCount =>
            "sandbox network policy must contain 1..=64 endpoints"@,
        SandboxPolicyError::InvalidResourceLimit =>
            "sandbox resource ceilings must be greater than zero"@,
        SandboxPolicyError::WeakerMode => "sandbox descendant requested a weaker confinement mode"@,
        SandboxPolicyError::FilesystemWidening =>
            "sandbox descendant requested wider filesystem authority"@,
        SandboxPolicyError::NetworkWidening => "sandbox descendant requested wider network authority"@,
        SandboxPolicyError::ResourceWidening =>
            "sandbox descendant requested wider resource authority"@,
        SandboxPolicyError::SessionWidening => "sandbox descendant requested wider session authority"@,
        SandboxPolicyError::InvalidCommandPolicy =>
            "sandbox command policy intersection exceeds its bound"@,
    }
}

impl SandboxPolicyError {
    /// The diagnostic sentence.
    pub fn message(&self) -> (text: &'static str)
        ensures
            text@ == policy_error_text(*self),
    {
        match self {
            Self::InvalidPath => "sandbox policy path must be normalized, absolute, and at most 4096 bytes",
            Self::InvalidFilesystemRuleCount => "sandbox filesystem policy must contain 1..=128 rules",
            Self::ConflictingFilesystemRule => "sandbox filesystem policy contains conflicting rules for one path",
            Self::WorkingDirectoryOutsidePolicy => "sandbox working directory is outside the readable policy",
            Self::InvalidEndpoint => "sandbox network endpoint is invalid",
            Self::InvalidEndpointCount => "sandbox network policy must contain 1..=64 endpoints",
            Self::InvalidResourceLimit => "sandbox resource ceilings must be greater than zero",
            Self::WeakerMode => "sandbox descendant requested a weaker confinement mode",
            Self::FilesystemWidening => "sandbox descendant requested wider filesystem authority",
            Self::NetworkWidening => "sandbox descendant requested wider network authority",
            Self::ResourceWidening => "sandbox descendant requested wider resource authority",
            Self::SessionWidening => "sandbox descendant requested wider session authority",
            Self::InvalidCommandPolicy => "sandbox command policy intersection exceeds its bound",
        }
    }
}


/// A restricted policy reaches nothing on the network its parent does not: a
/// candidate network that is no wider than the parent's is closed, or is exact
/// under an exact parent that grants its DNS, its forwarding and each of its
/// endpoints; so a restriction that asks for forwarding (or DNS) its parent
/// withholds is refused.
pub proof fn lemma_network_restriction_grants_nothing_new(parent: PolicyView, candidate: PolicyView)
    ensures
        network_no_wider(candidate.network, parent.network) ==> match candidate.network {
            NetworkPolicyView::Closed => true,
            NetworkPolicyView::Exact { endpoints, dns, forwarding } => match parent.network {
                NetworkPolicyView::Closed => false,
                NetworkPolicyView::Exact {
                    endpoints: granted,
                    dns: granted_dns,
                    forwarding: granted_forwarding,
                } => (dns ==> granted_dns) && (forwarding ==> granted_forwarding) && forall|i: int|
                    0 <= i < endpoints.len() ==> granted.contains(#[trigger] endpoints[i]),
            },
        },
        restriction_refusal(parent, candidate) is None ==> network_no_wider(
            candidate.network,
            parent.network,
        ),
        (candidate.network matches NetworkPolicyView::Exact { forwarding, .. } && forwarding)
            && !(parent.network matches NetworkPolicyView::Exact { forwarding, .. } && forwarding)
            ==> restriction_refusal(parent, candidate) is Some,
        (candidate.network matches NetworkPolicyView::Exact { dns, .. } && dns)
            && !(parent.network matches NetworkPolicyView::Exact { dns, .. } && dns)
            ==> restriction_refusal(parent, candidate) is Some,
{
}

} // verus!
