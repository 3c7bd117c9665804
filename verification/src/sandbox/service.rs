//! The command a sandbox is asked to run: its program and arguments, the
//! explicit environment it sees, and the failures a sandbox reports.
//!
//! Programs, arguments and environment values are held as text.

use vstd::prelude::*;
use vstd::utf8::encode_utf8;
use vstd::seq_lib::lemma_concat_associative;
use std::time::Duration;
use crate::sandbox::audit::{SandboxAuditError, SandboxFailureKind};
use crate::sandbox::capability::{
    feature_slot, SandboxBackendIdentity, SandboxBackendIdentityView, SandboxCapabilities,
    SandboxCapability, SandboxFeature, MAX_SANDBOX_BACKEND_WORD_BYTES, lemma_capabilities_hold_every_feature,
    same_digest,
};
use crate::sandbox::digest::{sha256, sha256_of};
use crate::sandbox::guardrail::command_policy_framing;
use crate::sandbox::manifest::{push_all, ManifestView, SandboxManifest};
use crate::sandbox::guardrail::SandboxCommandStage;
use crate::sandbox::path::{
    ascending_by,
    lemma_ascending_order_is_unique,
    lemma_insert_ascending_by,
    lemma_part_order_strict_total,
    part_before,
    parts_of,
    path_parts,
    run_before,
    strict_order,
    strict_total,
};
use crate::sandbox::policy::{
    climbs, filesystem_views, policy_framing, restriction_refusal, FilesystemRuleView,
    NetworkPolicyView, PolicyView, SandboxPolicyError, SandboxFilesystemAccess, SandboxFilesystemProvenance, SandboxMode, SandboxNetworkPolicy,
    SandboxPolicy, SandboxResourceLimits, MAX_SANDBOX_NETWORK_ENDPOINTS,
};
use crate::text::{chars_of, is_control, is_control_char, same_text};

verus! {

/// Maximum environment entries given to one command.
pub const MAX_SANDBOX_ENVIRONMENT_ENTRIES: usize = 128;

/// Maximum bytes retained in one environment name.
pub const MAX_SANDBOX_ENVIRONMENT_NAME_BYTES: usize = 128;

/// Maximum aggregate bytes in explicit environment values.
pub const MAX_SANDBOX_ENVIRONMENT_BYTES: usize = 131072;

/// Maximum bytes in one opaque host credential reference.
pub const MAX_SANDBOX_CREDENTIAL_HANDLE_BYTES: usize = 256;

/// Maximum command arguments passed through one launch.
pub const MAX_SANDBOX_COMMAND_ARGUMENTS: usize = 512;

/// Maximum aggregate encoded bytes in a command program and arguments.
pub const MAX_SANDBOX_COMMAND_BYTES: usize = 131072;

/// How many bytes `s` takes in UTF-8.
pub open spec fn text_bytes(s: Seq<char>) -> int {
    encode_utf8(s).len() as int
}

/// Authority that resolved an opaque credential handle.
#[derive(Debug, Clone, Copy, PartialEq, Eq, Structural)]
pub enum SandboxCredentialProvenance {
    /// Direct user configuration or an interactive user grant.
    User,
    /// A host account/credential store selected by the user.
    Account,
}

/// The characters a credential reference is spelled with.
pub open spec fn credential_char(c: char) -> bool {
    ('a' <= c && c <= 'z') || ('A' <= c && c <= 'Z') || ('0' <= c && c <= '9') || c == '.' || c
        == '_' || c == '-' || c == ':' || c == '/'
}

/// Whether `identity` is a usable credential reference: one to
/// [`MAX_SANDBOX_CREDENTIAL_HANDLE_BYTES`] bytes of [`credential_char`]s.
pub open spec fn valid_credential_identity(identity: Seq<char>) -> bool {
    &&& identity.len() > 0
    &&& text_bytes(identity) <= MAX_SANDBOX_CREDENTIAL_HANDLE_BYTES
    &&& forall|i: int| 0 <= i < identity.len() ==> credential_char(#[trigger] identity[i])
}

/// Opaque reference to a host-owned credential.
#[derive(Clone, PartialEq, Eq)]
pub struct SandboxCredentialHandle {
    identity: String,
    provenance: SandboxCredentialProvenance,
}

impl View for SandboxCredentialHandle {
    type V = (Seq<char>, SandboxCredentialProvenance);

    closed spec fn view(&self) -> (Seq<char>, SandboxCredentialProvenance) {
        (self.identity@, self.provenance)
    }
}

impl SandboxCredentialHandle {
    /// Validates one bounded symbolic host credential reference.
    pub fn new(identity: &str, provenance: SandboxCredentialProvenance) -> (handle: Result<
        Self,
        SandboxError,
    >)
        ensures
            handle is Ok <==> valid_credential_identity(identity@),
            handle matches Ok(h) ==> h@ == (identity@, provenance),
            handle matches Err(e) ==> e is InvalidEnvironment,
    {
        if identity.is_empty() || identity.as_bytes().len() > MAX_SANDBOX_CREDENTIAL_HANDLE_BYTES {
            return Err(SandboxError::InvalidEnvironment);
        }
        let mut symbolic = true;
        for c in it: identity.chars()
            invariant
                it.seq() == identity@,
                symbolic == forall|j: int| 0 <= j < it.index() ==> credential_char(#[trigger] identity@[j]),
        {
            let ok = ('a' <= c && c <= 'z') || ('A' <= c && c <= 'Z') || ('0' <= c && c <= '9') || c
                == '.' || c == '_' || c == '-' || c == ':' || c == '/';
            if !ok {
                symbolic = false;
            }
        }
        if !symbolic {
            return Err(SandboxError::InvalidEnvironment);
        }
        Ok(Self { identity: identity.to_owned(), provenance })
    }

    /// Authority that resolved this reference.
    pub fn provenance(&self) -> (provenance: SandboxCredentialProvenance)
        ensures
            provenance == self@.1,
    {
        self.provenance
    }

    fn copy(&self) -> (copied: Self)
        ensures
            copied@ == self@,
    {
        Self { identity: self.identity.clone(), provenance: self.provenance }
    }
}

/// Whether one variable may be projected: a non-empty name of at most
/// [`MAX_SANDBOX_ENVIRONMENT_NAME_BYTES`] bytes without `=` or control
/// characters, and a value without NUL.
pub open spec fn valid_variable(name: Seq<char>, value: Seq<char>) -> bool {
    &&& name.len() > 0
    &&& text_bytes(name) <= MAX_SANDBOX_ENVIRONMENT_NAME_BYTES
    &&& !name.contains('=')
    &&& forall|i: int| 0 <= i < name.len() ==> !is_control_char(#[trigger] name[i])
    &&& !value.contains('\0')
}

fn contains_char(chars: &Vec<char>, wanted: char) -> (found: bool)
    ensures
        found == chars@.contains(wanted),
{
    let mut i: usize = 0;
    while i < chars.len()
        invariant
            i <= chars@.len(),
            forall|j: int| 0 <= j < i ==> chars@[j] != wanted,
        decreases chars@.len() - i,
    {
        if chars[i] == wanted {
            assert(chars@[i as int] == wanted);
            return true;
        }
        i = i + 1;
    }
    false
}

fn validate_variable(name: &str, value: &str) -> (valid: bool)
    ensures
        valid == valid_variable(name@, value@),
{
    if name.is_empty() || name.as_bytes().len() > MAX_SANDBOX_ENVIRONMENT_NAME_BYTES {
        return false;
    }
    let name_chars = chars_of(name);
    if contains_char(&name_chars, '=') {
        return false;
    }
    let mut control = false;
    for c in it: name.chars()
        invariant
            it.seq() == name@,
            control == exists|j: int| 0 <= j < it.index() && is_control_char(#[trigger] name@[j]),
    {
        if is_control(c) {
            control = true;
        }
    }
    if control {
        return false;
    }
    let value_chars = chars_of(value);
    !contains_char(&value_chars, '\0')
}

/// One host-resolved credential value projected under an environment name.
#[derive(Clone, PartialEq, Eq)]
pub struct SandboxCredentialProjection {
    handle: SandboxCredentialHandle,
    name: String,
    value: String,
}

impl View for SandboxCredentialProjection {
    type V = VariableView;

    closed spec fn view(&self) -> VariableView {
        VariableView { name: self.name@, value: self.value@, credential: Some(self.handle@) }
    }
}

impl SandboxCredentialProjection {
    /// Binds one resolved value to its opaque handle and destination name,
    /// under the rules a literal variable follows.
    pub fn new(handle: SandboxCredentialHandle, name: &str, value: &str) -> (projection: Result<
        Self,
        SandboxError,
    >)
        ensures
            projection is Ok <==> valid_variable(name@, value@),
            projection matches Ok(p) ==> p@ == (VariableView {
                name: name@,
                value: value@,
                credential: Some(handle@),
            }),
            projection matches Err(e) ==> e is InvalidEnvironment,
    {
        if !validate_variable(name, value) {
            return Err(SandboxError::InvalidEnvironment);
        }
        Ok(Self { handle, name: name.to_owned(), value: value.to_owned() })
    }
}

/// One projected variable: its name, its value, and the credential it came
/// from where it came from one.
pub struct VariableView {
    pub name: Seq<char>,
    pub value: Seq<char>,
    pub credential: Option<(Seq<char>, SandboxCredentialProvenance)>,
}

#[derive(Clone, PartialEq, Eq)]
struct SandboxEnvironmentEntry {
    name: String,
    value: String,
    credential: Option<SandboxCredentialHandle>,
}

impl View for SandboxEnvironmentEntry {
    type V = VariableView;

    closed spec fn view(&self) -> VariableView {
        VariableView {
            name: self.name@,
            value: self.value@,
            credential: match self.credential {
                Some(h) => Some(h@),
                None => None,
            },
        }
    }
}

/// The credential references of the variables that carry one, in order.
pub open spec fn credential_handles(vs: Seq<VariableView>) -> Seq<(Seq<char>, SandboxCredentialProvenance)>
    decreases vs.len(),
{
    if vs.len() == 0 {
        Seq::empty()
    } else {
        credential_handles(vs.drop_last()) + match vs.last().credential {
            Some(h) => seq![h],
            None => Seq::empty(),
        }
    }
}

/// The bytes one variable keeps alive: its name, its value, and its
/// credential reference.
pub open spec fn variable_bytes(v: VariableView) -> int {
    text_bytes(v.name) + text_bytes(v.value) + match v.credential {
        Some(h) => text_bytes(h.0),
        None => 0,
    }
}

/// What the variables keep alive together.
pub open spec fn variables_bytes(vs: Seq<VariableView>) -> int
    decreases vs.len(),
{
    if vs.len() == 0 {
        0
    } else {
        variables_bytes(vs.drop_last()) + variable_bytes(vs.last())
    }
}

/// Names ascending character by character.
pub open spec fn name_before(a: VariableView, b: VariableView) -> bool {
    part_before(a.name, b.name)
}

/// Whether a set of variables can be projected: few enough, each valid, no
/// name twice, and small enough together.
pub open spec fn projectable(vs: Seq<VariableView>) -> bool {
    &&& vs.len() <= MAX_SANDBOX_ENVIRONMENT_ENTRIES
    &&& forall|i: int| 0 <= i < vs.len() ==> valid_variable(#[trigger] vs[i].name, vs[i].value)
    &&& forall|i: int, j: int| 0 <= i < j < vs.len() ==> #[trigger] vs[i].name != #[trigger] vs[j].name
    &&& variables_bytes(vs) <= MAX_SANDBOX_ENVIRONMENT_BYTES
}

/// The literal variables, then the credential projections, as one sequence.
pub open spec fn requested_variables(
    literal: Seq<(&str, &str)>,
    credentials: Seq<SandboxCredentialProjection>,
) -> Seq<VariableView> {
    Seq::new(
        literal.len(),
        |i: int| VariableView { name: literal[i].0@, value: literal[i].1@, credential: None },
    ) + Seq::new(credentials.len(), |i: int| credentials[i]@)
}

/// Minimal explicit command environment, in name order.
#[derive(Clone, PartialEq, Eq)]
pub struct SandboxEnvironment {
    entries: Vec<SandboxEnvironmentEntry>,
}

/// The contents of a sequence of entries.
spec fn entry_views(entries: Seq<SandboxEnvironmentEntry>) -> Seq<VariableView> {
    Seq::new(entries.len(), |i: int| entries[i]@)
}

impl View for SandboxEnvironment {
    type V = Seq<VariableView>;

    closed spec fn view(&self) -> Seq<VariableView> {
        entry_views(self.entries@)
    }
}

impl SandboxEnvironment {
    /// Validates and orders explicit variables. The host environment is never
    /// consulted here.
    pub fn new(entries: &[(&str, &str)]) -> (environment: Result<Self, SandboxError>)
        ensures
            ({
                let requested = requested_variables(entries@, Seq::empty());
                &&& environment is Ok <==> projectable(requested)
                &&& environment matches Err(e) ==> e is InvalidEnvironment
                &&& environment matches Ok(env) ==> ascending_by(
                    env@,
                    |a: VariableView, b: VariableView| name_before(a, b),
                ) && forall|x: VariableView| env@.contains(x) <==> #[trigger] requested.contains(x)
            }),
    {
        Self::with_credentials(entries, Vec::new())
    }

    /// Combines literal values with explicit host-resolved credentials, under
    /// one set of name, count, uniqueness, NUL and aggregate-byte bounds.
    pub fn with_credentials(
        entries: &[(&str, &str)],
        credentials: Vec<SandboxCredentialProjection>,
    ) -> (environment: Result<Self, SandboxError>)
        ensures
            ({
                let requested = requested_variables(entries@, credentials@);
                &&& environment is Ok <==> projectable(requested)
                &&& environment matches Err(e) ==> e is InvalidEnvironment
                &&& environment matches Ok(env) ==> ascending_by(
                    env@,
                    |a: VariableView, b: VariableView| name_before(a, b),
                ) && forall|x: VariableView| env@.contains(x) <==> #[trigger] requested.contains(x)
            }),
    {
        let ghost requested = requested_variables(entries@, credentials@);
        let mut all: Vec<SandboxEnvironmentEntry> = Vec::new();
        let mut i: usize = 0;
        while i < entries.len()
            invariant
                i <= entries@.len(),
                entry_views(all@) == requested.take(i as int),
                requested == requested_variables(entries@, credentials@),
            decreases entries@.len() - i,
        {
            let (name, value) = entries[i];
            let ghost before = entry_views(all@);
            all.push(SandboxEnvironmentEntry { name: name.to_owned(), value: value.to_owned(), credential: None });
            assert(entry_views(all@) =~= before.push(requested[i as int]));
            assert(requested.take(i as int + 1) =~= requested.take(i as int).push(requested[i as int]));
            i = i + 1;
        }
        let mut k: usize = 0;
        let literal = entries.len();
        while k < credentials.len()
            invariant
                literal == entries@.len(),
                k <= credentials@.len(),
                entry_views(all@) == requested.take(literal + k),
                requested == requested_variables(entries@, credentials@),
                requested.len() == literal + credentials@.len(),
            decreases credentials@.len() - k,
        {
            let projection = &credentials[k];
            let ghost before = entry_views(all@);
            all.push(
                SandboxEnvironmentEntry {
                    name: projection.name.clone(),
                    value: projection.value.clone(),
                    credential: Some(projection.handle.copy()),
                },
            );
            assert(requested[literal + k] == credentials@[k as int]@);
            assert(entry_views(all@) =~= before.push(requested[literal + k]));
            assert(requested.take(literal + k + 1) =~= requested.take(literal + k as int).push(requested[literal + k]));
            k = k + 1;
        }
        assert(requested.take(requested.len() as int) =~= requested);
        assert(all@.len() == requested.len());
        if all.len() > MAX_SANDBOX_ENVIRONMENT_ENTRIES {
            assert(!projectable(requested));
            return Err(SandboxError::InvalidEnvironment);
        }

        let mut bytes: usize = 0;
        let mut v: usize = 0;
        while v < all.len()
            invariant
                entry_views(all@) == requested,
                requested == requested_variables(entries@, credentials@),
                requested.len() <= MAX_SANDBOX_ENVIRONMENT_ENTRIES,
                v <= all@.len(),
                forall|j: int| 0 <= j < v ==> valid_variable(#[trigger] requested[j].name, requested[j].value),
                bytes == variables_bytes(requested.take(v as int)),
                bytes <= MAX_SANDBOX_ENVIRONMENT_BYTES,
            decreases all@.len() - v,
        {
            let entry = &all[v];
            if !validate_variable(entry.name.as_str(), entry.value.as_str()) {
                assert(requested[v as int] == entry@);
                assert(!valid_variable(requested[v as int].name, requested[v as int].value));
                return Err(SandboxError::InvalidEnvironment);
            }
            let held = match &entry.credential {
                Some(handle) => handle.identity.as_str().as_bytes().len(),
                None => 0,
            };
            let name_len = entry.name.as_str().as_bytes().len();
            let value_len = entry.value.as_str().as_bytes().len();
            assert(requested.take(v as int + 1).drop_last() =~= requested.take(v as int));
            assert(requested.take(v as int + 1).last() == requested[v as int]);
            assert(requested[v as int] == entry@);
            assert(variable_bytes(entry@) == name_len + value_len + held);
            assert(variables_bytes(requested.take(v as int + 1)) == bytes + name_len + value_len + held);
            if name_len > MAX_SANDBOX_ENVIRONMENT_BYTES || value_len > MAX_SANDBOX_ENVIRONMENT_BYTES
                || held > MAX_SANDBOX_ENVIRONMENT_BYTES || bytes + name_len + value_len + held
                > MAX_SANDBOX_ENVIRONMENT_BYTES {
                proof {
                    lemma_variables_bytes_grow(requested, v as int + 1);
                }
                return Err(SandboxError::InvalidEnvironment);
            }
            bytes = bytes + name_len + value_len + held;
            v = v + 1;
        }
        assert(requested.take(requested.len() as int) =~= requested);

        let mut b: usize = 0;
        while b < all.len()
            invariant
                entry_views(all@) == requested,
                requested == requested_variables(entries@, credentials@),
                requested.len() <= MAX_SANDBOX_ENVIRONMENT_ENTRIES,
                forall|j: int| 0 <= j < requested.len() ==> valid_variable(#[trigger] requested[j].name, requested[j].value),
                variables_bytes(requested) <= MAX_SANDBOX_ENVIRONMENT_BYTES,
                b <= all@.len(),
                forall|x: int, y: int| 0 <= x < y < b ==> #[trigger] requested[x].name != #[trigger] requested[y].name,
            decreases all@.len() - b,
        {
            let mut a: usize = 0;
            while a < b
                invariant
                    entry_views(all@) == requested,
                    requested == requested_variables(entries@, credentials@),
                    a <= b < all@.len(),
                    forall|x: int, y: int| 0 <= x < y < b ==> #[trigger] requested[x].name != #[trigger] requested[y].name,
                    forall|x: int| 0 <= x < a ==> #[trigger] requested[x].name != requested[b as int].name,
                decreases b - a,
            {
                if same_text(all[a].name.as_str(), all[b].name.as_str()) {
                    assert(requested[a as int].name == requested[b as int].name);
                    return Err(SandboxError::InvalidEnvironment);
                }
                a = a + 1;
            }
            b = b + 1;
        }
        assert(projectable(requested));

        let ghost order = |x: VariableView, y: VariableView| name_before(x, y);
        proof {
            lemma_part_order_strict_total();
            assert(strict_order(order)) by {
                let parts = |x: Seq<char>, y: Seq<char>| part_before(x, y);
                assert(strict_total(parts));
                assert forall|x: VariableView| !#[trigger] order(x, x) by {
                    assert(!parts(x.name, x.name));
                }
                assert forall|x: VariableView, y: VariableView, z: VariableView|
                    #[trigger] order(x, y) && #[trigger] order(y, z) implies order(x, z) by {
                    assert(parts(x.name, y.name) && parts(y.name, z.name));
                }
            }
        }
        let mut sorted: Vec<SandboxEnvironmentEntry> = Vec::new();
        let mut taken: usize = 0;
        let mut remaining = all;
        while remaining.len() > 0
            invariant
                requested == requested_variables(entries@, credentials@),
                strict_order(order),
                order == (|x: VariableView, y: VariableView| name_before(x, y)),
                strict_total(|x: Seq<char>, y: Seq<char>| part_before(x, y)),
                forall|x: int, y: int| 0 <= x < y < requested.len() ==> #[trigger] requested[x].name != #[trigger] requested[y].name,
                requested.len() <= MAX_SANDBOX_ENVIRONMENT_ENTRIES,
                taken + remaining@.len() == requested.len(),
                entry_views(remaining@) == requested.skip(taken as int),
                ascending_by(entry_views(sorted@), order),
                sorted@.len() == taken,
                forall|x: VariableView| entry_views(sorted@).contains(x) <==> #[trigger] requested.take(taken as int).contains(x),
            decreases remaining@.len(),
        {
            let ghost before_remaining = remaining@;
            let entry = remaining.remove(0);
            let ghost before_sorted = entry_views(sorted@);
            proof {
                assert(entry_views(before_remaining)[0] == entry@);
                assert(entry@ == requested[taken as int]);
                assert(entry_views(remaining@) =~= requested.skip(taken as int + 1)) by {
                    assert(remaining@ =~= before_remaining.remove(0));
                    assert forall|m: int| 0 <= m < remaining@.len() implies entry_views(remaining@)[m] == requested.skip(taken as int + 1)[m] by {
                        assert(remaining@[m] == before_remaining[m + 1]);
                        assert(entry_views(before_remaining)[m + 1] == requested.skip(taken as int)[m + 1]);
                    }
                }
            }
            let entry_name = chars_of(entry.name.as_str());
            let mut at: usize = 0;
            while at < sorted.len() && run_before(&chars_of(sorted[at].name.as_str()), &entry_name)
                invariant
                    at <= sorted@.len(),
                    entry_name@ == entry@.name,
                    forall|m: int| 0 <= m < at ==> name_before(#[trigger] entry_views(sorted@)[m], entry@),
                decreases sorted@.len() - at,
            {
                assert(entry_views(sorted@)[at as int] == sorted@[at as int]@);
                at = at + 1;
            }
            proof {
                if (at as int) < sorted@.len() {
                    let other = sorted@[at as int]@;
                    assert(entry_views(sorted@)[at as int] == other);
                    assert(before_sorted.contains(other));
                    assert(requested.take(taken as int).contains(other));
                    let m = choose|m: int| 0 <= m < taken && requested.take(taken as int)[m] == other;
                    assert(requested[m] == other);
                    assert(requested[m].name != requested[taken as int].name);
                    assert(!name_before(other, entry@));
                    let p = |x: Seq<char>, y: Seq<char>| part_before(x, y);
                    assert(p(entry@.name, other.name) || p(other.name, entry@.name));
                    assert(order(entry@, before_sorted[at as int]));
                }
                assert forall|m: int| 0 <= m < at implies order(#[trigger] before_sorted[m], entry@) by {
                    assert(name_before(before_sorted[m], entry@));
                }
                lemma_insert_ascending_by(before_sorted, at as int, entry@, order);
            }
            sorted.insert(at, entry);
            proof {
                let now = entry_views(sorted@);
                let was = requested.take(taken as int);
                assert(now =~= before_sorted.insert(at as int, requested[taken as int]));
                assert(requested.take(taken as int + 1) =~= was.push(requested[taken as int]));
                assert forall|x: VariableView| now.contains(x) <==> #[trigger] was.push(requested[taken as int]).contains(x) by {
                    if now.contains(x) {
                        let k = choose|k: int| 0 <= k < now.len() && now[k] == x;
                        if k != at {
                            let q = if k < at { k } else { k - 1 };
                            assert(before_sorted[q] == x);
                            assert(before_sorted.contains(x));
                            assert(was.contains(x));
                            let r = choose|r: int| 0 <= r < was.len() && was[r] == x;
                            assert(was.push(requested[taken as int])[r] == x);
                        } else {
                            assert(was.push(requested[taken as int])[was.len() as int] == x);
                        }
                    }
                    if was.push(requested[taken as int]).contains(x) {
                        let k = choose|k: int| 0 <= k < was.len() + 1 && was.push(requested[taken as int])[k] == x;
                        if k < was.len() {
                            assert(was[k] == x);
                            assert(was.contains(x));
                            assert(before_sorted.contains(x));
                            let q = choose|q: int| 0 <= q < before_sorted.len() && before_sorted[q] == x;
                            if q < at {
                                assert(now[q] == x);
                            } else {
                                assert(now[q + 1] == x);
                            }
                        } else {
                            assert(now[at as int] == x);
                        }
                    }
                }
            }
            taken = taken + 1;
        }
        proof {
            assert(requested.take(requested.len() as int) =~= requested);
        }
        Ok(Self { entries: sorted })
    }

    /// An empty environment.
    pub fn empty() -> (environment: Self)
        ensures
            environment@.len() == 0,
    {
        let environment = Self { entries: Vec::new() };
        assert(environment@ =~= Seq::<VariableView>::empty());
        environment
    }

    /// Explicit variables, in name order.
    pub fn iter(&self) -> (variables: Vec<(&str, &str)>)
        ensures
            variables@.len() == self@.len(),
            forall|i: int|
                0 <= i < variables@.len() ==> #[trigger] variables@[i].0@ == self@[i].name
                    && variables@[i].1@ == self@[i].value,
    {
        let mut variables: Vec<(&str, &str)> = Vec::new();
        let mut i: usize = 0;
        while i < self.entries.len()
            invariant
                i <= self.entries@.len(),
                variables@.len() == i,
                forall|j: int|
                    0 <= j < i ==> #[trigger] variables@[j].0@ == self@[j].name && variables@[j].1@
                        == self@[j].value,
            decreases self.entries@.len() - i,
        {
            let entry = &self.entries[i];
            variables.push((entry.name.as_str(), entry.value.as_str()));
            i = i + 1;
        }
        variables
    }

    /// Opaque credential handles present in this projection, in name order.
    pub fn credentials(&self) -> (handles: Vec<&SandboxCredentialHandle>)
        ensures
            Seq::new(handles@.len(), |i: int| handles@[i]@) == credential_handles(self@),
    {
        let mut handles: Vec<&SandboxCredentialHandle> = Vec::new();
        let mut i: usize = 0;
        while i < self.entries.len()
            invariant
                i <= self.entries@.len(),
                Seq::new(handles@.len(), |k: int| handles@[k]@) == credential_handles(self@.take(i as int)),
            decreases self.entries@.len() - i,
        {
            let ghost before = Seq::new(handles@.len(), |k: int| handles@[k]@);
            assert(self@.take(i as int + 1).drop_last() =~= self@.take(i as int));
            assert(self@.take(i as int + 1).last() == self.entries@[i as int]@);
            if let Some(handle) = &self.entries[i].credential {
                handles.push(handle);
                assert(Seq::new(handles@.len(), |k: int| handles@[k]@) =~= before + seq![handle@]);
            } else {
                assert(before + Seq::empty() =~= before);
            }
            i = i + 1;
        }
        assert(self@.take(self@.len() as int) =~= self@);
        handles
    }

    /// Whether no variable is projected.
    pub fn is_empty(&self) -> (empty: bool)
        ensures
            empty == (self@.len() == 0),
    {
        self.entries.len() == 0
    }
}

impl Default for SandboxEnvironment {
    fn default() -> (environment: Self)
        ensures
            environment@.len() == 0,
    {
        Self::empty()
    }
}

proof fn lemma_variables_bytes_grow(vs: Seq<VariableView>, n: int)
    requires
        0 <= n <= vs.len(),
    ensures
        variables_bytes(vs.take(n)) <= variables_bytes(vs),
    decreases vs.len() - n,
{
    if n < vs.len() {
        lemma_variables_bytes_grow(vs, n + 1);
        assert(vs.take(n + 1).drop_last() =~= vs.take(n));
        if n + 1 == vs.len() {
            assert(vs.take(n + 1) =~= vs);
        }
    } else {
        assert(vs.take(n) =~= vs);
    }
}

/// One environment is the only one with its variables: two projections of
/// the same variables, given in any order, are the same sequence.
pub proof fn lemma_environment_order_is_canonical(a: Seq<VariableView>, b: Seq<VariableView>)
    requires
        ascending_by(a, |x: VariableView, y: VariableView| name_before(x, y)),
        ascending_by(b, |x: VariableView, y: VariableView| name_before(x, y)),
        forall|x: VariableView| a.contains(x) <==> #[trigger] b.contains(x),
    ensures
        a == b,
{
    lemma_part_order_strict_total();
    let order = |x: VariableView, y: VariableView| name_before(x, y);
    let parts = |x: Seq<char>, y: Seq<char>| part_before(x, y);
    assert(strict_order(order)) by {
        assert forall|x: VariableView| !#[trigger] order(x, x) by {
            assert(!parts(x.name, x.name));
        }
        assert forall|x: VariableView, y: VariableView, z: VariableView|
            #[trigger] order(x, y) && #[trigger] order(y, z) implies order(x, z) by {
            assert(parts(x.name, y.name) && parts(y.name, z.name));
        }
    }
    lemma_ascending_order_is_unique(a, b, order);
}

/// Why sandbox preparation, launch, or lifecycle failed.
#[derive(Debug)]
pub enum SandboxError {
    /// A capability-claimed audit fact could not be retained.
    Audit(SandboxAuditError),
    /// A required hard feature is unavailable.
    Unsupported {
        /// Exact unsupported feature.
        feature: SandboxFeature,
    },
    /// No suitable backend was found or its probe failed.
    BackendUnavailable {
        /// Bounded redacted diagnostic.
        reason: String,
    },
    /// Program/argument shape crossed the command boundary.
    InvalidCommand,
    /// Environment projection crossed its structural or byte bound.
    InvalidEnvironment,
    /// A backend attempted an inaccurate or unbounded inspection report.
    InvalidInspection,
    /// A command guardrail refused the transformed invocation.
    Guardrail,
    /// The bounded concurrent-session/command reservation is exhausted.
    Concurrency,
    /// Manifest staging did not commit.
    Materialization {
        /// Redacted stage description.
        problem: String,
        /// Operating-system cause where applicable.
        source: Option<std::io::Error>,
    },
    /// The enforcing command could not start.
    Spawn(std::io::Error),
    /// A running process could not be controlled or reaped.
    Lifecycle(std::io::Error),
}

/// The stable redacted category of a sandbox failure.
pub open spec fn failure_category(error: SandboxError) -> SandboxFailureKind {
    match error {
        SandboxError::Unsupported { .. } => SandboxFailureKind::Unsupported,
        SandboxError::BackendUnavailable { .. } => SandboxFailureKind::BackendUnavailable,
        SandboxError::InvalidCommand => SandboxFailureKind::InvalidInput,
        SandboxError::InvalidEnvironment => SandboxFailureKind::InvalidInput,
        SandboxError::InvalidInspection => SandboxFailureKind::InvalidInput,
        SandboxError::Guardrail => SandboxFailureKind::Guardrail,
        SandboxError::Concurrency => SandboxFailureKind::Concurrency,
        SandboxError::Materialization { .. } => SandboxFailureKind::Materialization,
        SandboxError::Spawn(_) => SandboxFailureKind::Spawn,
        SandboxError::Lifecycle(_) => SandboxFailureKind::Lifecycle,
        SandboxError::Audit(_) => SandboxFailureKind::Audit,
    }
}

impl SandboxError {
    /// Stable redacted category suitable for audit and diagnostics.
    pub fn failure_kind(&self) -> (kind: SandboxFailureKind)
        ensures
            kind == failure_category(*self),
    {
        match self {
            Self::Unsupported { .. } => SandboxFailureKind::Unsupported,
            Self::BackendUnavailable { .. } => SandboxFailureKind::BackendUnavailable,
            Self::InvalidCommand => SandboxFailureKind::InvalidInput,
            Self::InvalidEnvironment => SandboxFailureKind::InvalidInput,
            Self::InvalidInspection => SandboxFailureKind::InvalidInput,
            Self::Guardrail => SandboxFailureKind::Guardrail,
            Self::Concurrency => SandboxFailureKind::Concurrency,
            Self::Materialization { .. } => SandboxFailureKind::Materialization,
            Self::Spawn(_) => SandboxFailureKind::Spawn,
            Self::Lifecycle(_) => SandboxFailureKind::Lifecycle,
            Self::Audit(_) => SandboxFailureKind::Audit,
        }
    }
}

/// Which durable effect owns the call's sole provider-projectable result.
#[derive(Debug, Clone, Copy, PartialEq, Eq, Structural)]
pub enum SandboxInvocationMode {
    /// The terminal sandbox outcome owns the call result.
    Foreground,
    /// An application owner is reserved before release; a normal terminal
    /// result remains valid unless the caller explicitly detaches.
    Detachable,
    /// Acceptance after owned release is the sole call result.
    Background,
}

/// The content of a [`SandboxRequest`].
pub struct SandboxRequestView {
    pub requested_policy: PolicyView,
    pub policy: PolicyView,
    pub manifest: ManifestView,
    pub invocation: SandboxInvocationMode,
}

/// One call's request for a sandbox: the policy it asked for, the effective
/// policy after any parent ceiling, its workspace manifest and how its result
/// is delivered.
pub struct SandboxRequest {
    requested_policy: SandboxPolicy,
    policy: SandboxPolicy,
    manifest: SandboxManifest,
    invocation: SandboxInvocationMode,
}

impl View for SandboxRequest {
    type V = SandboxRequestView;

    closed spec fn view(&self) -> SandboxRequestView {
        SandboxRequestView {
            requested_policy: self.requested_policy@,
            policy: self.policy@,
            manifest: self.manifest@,
            invocation: self.invocation,
        }
    }
}

impl SandboxRequest {
    /// Creates a request for foreground delivery whose effective policy is the
    /// requested one. This performs no backend or filesystem side effect.
    pub fn new(policy: SandboxPolicy, manifest: SandboxManifest) -> (request: Self)
        ensures
            request@ == (SandboxRequestView {
                requested_policy: policy@,
                policy: policy@,
                manifest: manifest@,
                invocation: SandboxInvocationMode::Foreground,
            }),
    {
        Self {
            requested_policy: policy.copy(),
            policy,
            manifest,
            invocation: SandboxInvocationMode::Foreground,
        }
    }

    /// Selects foreground terminal delivery or application-owned background
    /// acceptance. This changes no filesystem, process, or policy authority.
    pub fn with_invocation_mode(self, mode: SandboxInvocationMode) -> (request: Self)
        ensures
            request@ == (SandboxRequestView { invocation: mode, ..self@ }),
    {
        Self { invocation: mode, ..self }
    }

    /// Applies a parent ceiling to the requested policy and keeps both the
    /// requested and the effective policy: refused, with the reason
    /// [`SandboxPolicy::restrict`] gives, where the request widens any parent
    /// authority or ceiling.
    pub fn restricted_to(self, parent: &SandboxPolicy) -> (request: Result<Self, SandboxPolicyError>)
        ensures
            match restriction_refusal(parent@, self@.requested_policy) {
                Some(refusal) => request matches Err(e) && e == refusal,
                None => request matches Ok(r) && r@ == (SandboxRequestView {
                    policy: PolicyView {
                        commands: parent@.commands + self@.requested_policy.commands,
                        ..self@.requested_policy
                    },
                    ..self@
                }),
            },
    {
        match SandboxPolicy::restrict(parent, self.requested_policy.copy()) {
            Ok(policy) => Ok(Self { policy, ..self }),
            Err(e) => Err(e),
        }
    }

    /// The policy the call asked for.
    pub fn requested_policy(&self) -> (policy: &SandboxPolicy)
        ensures
            policy@ == self@.requested_policy,
    {
        &self.requested_policy
    }

    /// The effective policy after any parent ceiling.
    pub fn policy(&self) -> (policy: &SandboxPolicy)
        ensures
            policy@ == self@.policy,
    {
        &self.policy
    }

    /// The workspace manifest.
    pub fn manifest(&self) -> (manifest: &SandboxManifest)
        ensures
            manifest@ == self@.manifest,
    {
        &self.manifest
    }

    /// How the call's result is delivered.
    pub fn invocation_mode(&self) -> (mode: SandboxInvocationMode)
        ensures
            mode == self@.invocation,
    {
        self.invocation
    }
}

impl Default for SandboxInvocationMode {
    fn default() -> (mode: Self)
        ensures
            mode == SandboxInvocationMode::Foreground,
    {
        Self::Foreground
    }
}

/// Redacted network shape from the immutable effective plan.
#[derive(Debug, Clone, Copy, PartialEq, Eq, Structural)]
pub enum SandboxNetworkInspection {
    /// No network reach.
    Closed,
    /// Exact endpoint policy; endpoint spellings remain behind a digest.
    Exact {
        /// Number of canonical endpoints.
        endpoints: usize,
        /// Whether DNS was requested through the enforcing mechanism.
        dns: bool,
        /// Whether bounded forwarding was requested.
        forwarding: bool,
    },
}

impl SandboxNetworkInspection {
    /// Stable network-state spelling.
    pub fn as_str(self) -> (spelling: &'static str)
        ensures
            spelling@ == (if self is Closed {
                "closed"@
            } else {
                "exact"@
            }),
    {
        match self {
            Self::Closed => "closed",
            Self::Exact { .. } => "exact",
        }
    }

    /// Number of exact endpoint grants.
    pub fn endpoints(self) -> (endpoints: usize)
        ensures
            endpoints == (match self {
                Self::Closed => 0,
                Self::Exact { endpoints, .. } => endpoints,
            }),
    {
        match self {
            Self::Closed => 0,
            Self::Exact { endpoints, .. } => endpoints,
        }
    }

    /// Whether DNS was requested.
    pub fn dns(self) -> (dns: bool)
        ensures
            dns == (self matches Self::Exact { dns, .. } && dns),
    {
        match self {
            Self::Closed => false,
            Self::Exact { dns, .. } => dns,
        }
    }

    /// Whether forwarding was requested.
    pub fn forwarding(self) -> (forwarding: bool)
        ensures
            forwarding == (self matches Self::Exact { forwarding, .. } && forwarding),
    {
        match self {
            Self::Closed => false,
            Self::Exact { forwarding, .. } => forwarding,
        }
    }
}

/// Bounded per-command/session accounting without raw paths or command text.
#[derive(Debug, Clone, Copy, Default, PartialEq, Eq)]
pub struct SandboxUsage {
    /// Wall time measured by the host supervisor.
    pub wall_time: Duration,
    /// CPU time where the backend can report it.
    pub cpu_time: Option<Duration>,
    /// Peak memory bytes where known.
    pub peak_memory_bytes: Option<u64>,
    /// Ephemeral-storage bytes where known.
    pub disk_bytes: Option<u64>,
    /// Outbound bytes where networking is supported.
    pub outbound_bytes: Option<u64>,
    /// Raw captured output bytes before retention elision.
    pub output_bytes: u64,
    /// Backend cost in caller-defined micros where applicable.
    pub cost_micros: Option<u64>,
}

/// A requirement: a feature and the least capability it needs.
pub type CapabilityRequirement = (SandboxFeature, SandboxCapability);

/// `feature` enforced where `present`, nothing otherwise.
pub open spec fn enforced_if(present: bool, feature: SandboxFeature) -> Seq<CapabilityRequirement> {
    if present {
        seq![(feature, SandboxCapability::Enforced)]
    } else {
        Seq::empty()
    }
}

/// The network feature a policy's reach stands on.
pub open spec fn network_feature(network: NetworkPolicyView) -> SandboxFeature {
    match network {
        NetworkPolicyView::Closed => SandboxFeature::NetworkDeny,
        NetworkPolicyView::Exact { .. } => SandboxFeature::NetworkAllowlist,
    }
}

/// The kernel boundary a required mode needs enforced; under a weaker mode,
/// only an exact network grant, which compatibility can never pretend broad
/// reach is.
pub open spec fn boundary_requirements(policy: PolicyView) -> Seq<CapabilityRequirement> {
    if policy.mode == SandboxMode::Required {
        seq![
            (SandboxFeature::Filesystem, SandboxCapability::Enforced),
            (SandboxFeature::DescriptorIsolation, SandboxCapability::Enforced),
            (SandboxFeature::ProcessIsolation, SandboxCapability::Enforced),
            (SandboxFeature::KernelSurface, SandboxCapability::Enforced),
            (SandboxFeature::PrivilegeIsolation, SandboxCapability::Enforced),
            (network_feature(policy.network), SandboxCapability::Enforced),
        ]
    } else {
        enforced_if(policy.network is Exact, SandboxFeature::NetworkAllowlist)
    }
}

/// One enforced limit feature for each ceiling that is set.
pub open spec fn limit_requirements(limits: SandboxResourceLimits) -> Seq<CapabilityRequirement> {
    enforced_if(limits.cpu_seconds is Some, SandboxFeature::CpuLimit) + enforced_if(
        limits.memory_bytes is Some,
        SandboxFeature::MemoryLimit,
    ) + enforced_if(limits.disk_bytes is Some, SandboxFeature::DiskLimit) + enforced_if(
        limits.processes is Some,
        SandboxFeature::ProcessLimit,
    ) + enforced_if(limits.open_files is Some, SandboxFeature::OpenFileLimit) + enforced_if(
        limits.command_time is Some,
        SandboxFeature::CommandTimeLimit,
    ) + enforced_if(limits.session_time is Some, SandboxFeature::SessionTimeLimit) + enforced_if(
        limits.outbound_bytes is Some,
        SandboxFeature::OutboundByteLimit,
    ) + enforced_if(limits.output_bytes is Some, SandboxFeature::OutputLimit) + enforced_if(
        limits.concurrent_commands is Some,
        SandboxFeature::ConcurrencyLimit,
    ) + enforced_if(limits.cost_micros is Some, SandboxFeature::CostLimit)
}

/// What a backend must claim to run under `policy` with a manifest that is
/// `empty` or not: the boundary, materialization where there is something
/// to materialize, each set ceiling, persistence and snapshots where
/// granted, auditing enforced, and usage at least observed.
pub open spec fn requirements(policy: PolicyView, empty: bool) -> Seq<CapabilityRequirement> {
    boundary_requirements(policy) + enforced_if(!empty, SandboxFeature::Materialization)
        + limit_requirements(policy.limits) + enforced_if(policy.persistent, SandboxFeature::Persistence)
        + enforced_if(policy.snapshots, SandboxFeature::Snapshot) + seq![
        (SandboxFeature::Audit, SandboxCapability::Enforced),
        (SandboxFeature::Usage, SandboxCapability::Observed),
    ]
}

fn require_if(out: &mut Vec<CapabilityRequirement>, present: bool, feature: SandboxFeature)
    ensures
        final(out)@ == old(out)@ + enforced_if(present, feature),
{
    if present {
        out.push((feature, SandboxCapability::Enforced));
        assert(out@ =~= old(out)@ + enforced_if(present, feature));
    } else {
        assert(out@ =~= old(out)@ + enforced_if(present, feature));
    }
}

fn require_limits(out: &mut Vec<CapabilityRequirement>, limits: SandboxResourceLimits)
    ensures
        final(out)@ == old(out)@ + limit_requirements(limits),
{
    let ghost start = out@;
    let ghost l = limits;
    require_if(out, limits.cpu_seconds.is_some(), SandboxFeature::CpuLimit);
    let ghost mut p = enforced_if(l.cpu_seconds is Some, SandboxFeature::CpuLimit);
    require_if(out, limits.memory_bytes.is_some(), SandboxFeature::MemoryLimit);
    proof {
        lemma_concat_associative(start, p, enforced_if(l.memory_bytes is Some, SandboxFeature::MemoryLimit));
        p = p + enforced_if(l.memory_bytes is Some, SandboxFeature::MemoryLimit);
    }
    require_if(out, limits.disk_bytes.is_some(), SandboxFeature::DiskLimit);
    proof {
        lemma_concat_associative(start, p, enforced_if(l.disk_bytes is Some, SandboxFeature::DiskLimit));
        p = p + enforced_if(l.disk_bytes is Some, SandboxFeature::DiskLimit);
    }
    require_if(out, limits.processes.is_some(), SandboxFeature::ProcessLimit);
    proof {
        lemma_concat_associative(start, p, enforced_if(l.processes is Some, SandboxFeature::ProcessLimit));
        p = p + enforced_if(l.processes is Some, SandboxFeature::ProcessLimit);
    }
    require_if(out, limits.open_files.is_some(), SandboxFeature::OpenFileLimit);
    proof {
        lemma_concat_associative(start, p, enforced_if(l.open_files is Some, SandboxFeature::OpenFileLimit));
        p = p + enforced_if(l.open_files is Some, SandboxFeature::OpenFileLimit);
    }
    require_if(out, limits.command_time.is_some(), SandboxFeature::CommandTimeLimit);
    proof {
        lemma_concat_associative(start, p, enforced_if(l.command_time is Some, SandboxFeature::CommandTimeLimit));
        p = p + enforced_if(l.command_time is Some, SandboxFeature::CommandTimeLimit);
    }
    require_if(out, limits.session_time.is_some(), SandboxFeature::SessionTimeLimit);
    proof {
        lemma_concat_associative(start, p, enforced_if(l.session_time is Some, SandboxFeature::SessionTimeLimit));
        p = p + enforced_if(l.session_time is Some, SandboxFeature::SessionTimeLimit);
    }
    require_if(out, limits.outbound_bytes.is_some(), SandboxFeature::OutboundByteLimit);
    proof {
        lemma_concat_associative(start, p, enforced_if(l.outbound_bytes is Some, SandboxFeature::OutboundByteLimit));
        p = p + enforced_if(l.outbound_bytes is Some, SandboxFeature::OutboundByteLimit);
    }
    require_if(out, limits.output_bytes.is_some(), SandboxFeature::OutputLimit);
    proof {
        lemma_concat_associative(start, p, enforced_if(l.output_bytes is Some, SandboxFeature::OutputLimit));
        p = p + enforced_if(l.output_bytes is Some, SandboxFeature::OutputLimit);
    }
    require_if(out, limits.concurrent_commands.is_some(), SandboxFeature::ConcurrencyLimit);
    proof {
        lemma_concat_associative(start, p, enforced_if(l.concurrent_commands is Some, SandboxFeature::ConcurrencyLimit));
        p = p + enforced_if(l.concurrent_commands is Some, SandboxFeature::ConcurrencyLimit);
    }
    require_if(out, limits.cost_micros.is_some(), SandboxFeature::CostLimit);
    proof {
        lemma_concat_associative(start, p, enforced_if(l.cost_micros is Some, SandboxFeature::CostLimit));
        p = p + enforced_if(l.cost_micros is Some, SandboxFeature::CostLimit);
    }
    assert(p == limit_requirements(l));
}

/// What a backend must claim, feature by feature, to run a command under
/// `policy` with `manifest` materialized: see [`requirements`].
pub fn capability_requirements(policy: &SandboxPolicy, manifest: &SandboxManifest) -> (needed: Vec<
    CapabilityRequirement,
>)
    ensures
        needed@ == requirements(policy@, manifest@.entries.len() == 0),
{
    let mut needed: Vec<CapabilityRequirement> = Vec::new();
    let network = match policy.network() {
        SandboxNetworkPolicy::Closed => SandboxFeature::NetworkDeny,
        SandboxNetworkPolicy::Exact { .. } => SandboxFeature::NetworkAllowlist,
    };
    if policy.mode() == SandboxMode::Required {
        needed.push((SandboxFeature::Filesystem, SandboxCapability::Enforced));
        needed.push((SandboxFeature::DescriptorIsolation, SandboxCapability::Enforced));
        needed.push((SandboxFeature::ProcessIsolation, SandboxCapability::Enforced));
        needed.push((SandboxFeature::KernelSurface, SandboxCapability::Enforced));
        needed.push((SandboxFeature::PrivilegeIsolation, SandboxCapability::Enforced));
        needed.push((network, SandboxCapability::Enforced));
    } else {
        require_if(&mut needed, network == SandboxFeature::NetworkAllowlist, SandboxFeature::NetworkAllowlist);
    }
    assert(needed@ =~= boundary_requirements(policy@));
    require_if(&mut needed, !manifest.is_empty(), SandboxFeature::Materialization);
    require_limits(&mut needed, policy.limits());
    require_if(&mut needed, policy.persistent(), SandboxFeature::Persistence);
    require_if(&mut needed, policy.snapshots(), SandboxFeature::Snapshot);
    let ghost before = needed@;
    needed.push((SandboxFeature::Audit, SandboxCapability::Enforced));
    needed.push((SandboxFeature::Usage, SandboxCapability::Observed));
    assert(needed@ =~= before + seq![
        (SandboxFeature::Audit, SandboxCapability::Enforced),
        (SandboxFeature::Usage, SandboxCapability::Observed),
    ]);
    needed
}

/// How strong a claim is: unsupported, then observed, then enforced.
pub open spec fn claim_strength(claim: SandboxCapability) -> int {
    match claim {
        SandboxCapability::Unsupported => 0,
        SandboxCapability::Observed => 1,
        SandboxCapability::Enforced => 2,
    }
}

fn strength(claim: SandboxCapability) -> (rank: u8)
    ensures
        rank == claim_strength(claim),
{
    match claim {
        SandboxCapability::Unsupported => 0,
        SandboxCapability::Observed => 1,
        SandboxCapability::Enforced => 2,
    }
}

/// The first requirement that `claims` falls short of, by its feature.
pub open spec fn first_shortfall(needed: Seq<CapabilityRequirement>, claims: Seq<SandboxCapability>) -> Option<
    SandboxFeature,
>
    decreases needed.len(),
{
    if needed.len() == 0 {
        None
    } else if claim_strength(claims[feature_slot(needed[0].0)]) < claim_strength(needed[0].1) {
        Some(needed[0].0)
    } else {
        first_shortfall(needed.drop_first(), claims)
    }
}

/// Checks a backend's claims against what a command needs. A command whose
/// result is not the sandbox's own outcome (detachable or background) needs a
/// key to deliver its result under; without one the request is refused as
/// invalid. Otherwise every requirement of [`requirements`] must be claimed at
/// least as strongly as it asks, in every mode: compatibility modes relax only
/// the baseline boundary, never an explicit limit or session feature. The
/// first requirement that falls short is named.
pub fn negotiate(
    policy: &SandboxPolicy,
    manifest: &SandboxManifest,
    invocation: SandboxInvocationMode,
    result_keyed: bool,
    capabilities: &SandboxCapabilities,
) -> (negotiated: Result<(), SandboxError>)
    ensures
        invocation != SandboxInvocationMode::Foreground && !result_keyed ==> (negotiated matches Err(e)
            && e is InvalidInspection),
        !(invocation != SandboxInvocationMode::Foreground && !result_keyed) ==> match first_shortfall(
            requirements(policy@, manifest@.entries.len() == 0),
            capabilities@,
        ) {
            Some(feature) => negotiated matches Err(e) && e == (SandboxError::Unsupported { feature }),
            None => negotiated is Ok,
        },
{
    if invocation != SandboxInvocationMode::Foreground && !result_keyed {
        return Err(SandboxError::InvalidInspection);
    }
    let needed = capability_requirements(policy, manifest);
    let ghost all = needed@;
    let mut i: usize = 0;
    assert(all.skip(0) =~= all);
    while i < needed.len()
        invariant
            all == needed@,
            all == requirements(policy@, manifest@.entries.len() == 0),
            !(invocation != SandboxInvocationMode::Foreground && !result_keyed),
            i <= all.len(),
            first_shortfall(all, capabilities@) == first_shortfall(all.skip(i as int), capabilities@),
        decreases all.len() - i,
    {
        let (feature, minimum) = needed[i];
        assert(all.skip(i as int)[0] == all[i as int]);
        assert(all.skip(i as int).drop_first() =~= all.skip(i as int + 1));
        if strength(capabilities.claim(feature)) < strength(minimum) {
            return Err(SandboxError::Unsupported { feature });
        }
        i = i + 1;
    }
    assert(all.skip(all.len() as int) =~= Seq::<CapabilityRequirement>::empty());
    Ok(())
}

/// The domain an inspection path identity is separated by:
/// `crucible-sandbox-inspection-path-v1` and a NUL.
pub open spec fn inspection_path_domain() -> Seq<u8> {
    seq![
        99u8, 114, 117, 99, 105, 98, 108, 101, 45, 115, 97, 110, 100, 98, 111, 120, 45, 105, 110,
        115, 112, 101, 99, 116, 105, 111, 110, 45, 112, 97, 116, 104, 45, 118, 49, 0,
    ]
}

/// The label a root's identity is taken under: `root`.
pub open spec fn root_label() -> Seq<u8> {
    seq![114u8, 111, 111, 116]
}

/// The label the working directory's identity is taken under:
/// `working-directory`.
pub open spec fn working_directory_label() -> Seq<u8> {
    seq![119u8, 111, 114, 107, 105, 110, 103, 45, 100, 105, 114, 101, 99, 116, 111, 114, 121]
}

/// The identity a path is reported under instead of its spelling: the
/// digest of the domain, the label, a NUL and the path.
pub open spec fn path_identity_of(label: Seq<u8>, path: Seq<char>) -> Seq<u8> {
    sha256_of(inspection_path_domain() + label + seq![0u8] + encode_utf8(path))
}

fn path_identity(label: &[u8], path: &str) -> (identity: [u8; 32])
    ensures
        identity@ == path_identity_of(label@, path@),
{
    let mut bytes: Vec<u8> = vec![
        99u8, 114, 117, 99, 105, 98, 108, 101, 45, 115, 97, 110, 100, 98, 111, 120, 45, 105, 110,
        115, 112, 101, 99, 116, 105, 111, 110, 45, 112, 97, 116, 104, 45, 118, 49, 0,
    ];
    assert(bytes@ =~= inspection_path_domain());
    push_all(&mut bytes, label);
    bytes.push(0u8);
    push_all(&mut bytes, path.as_bytes());
    assert(bytes@ =~= inspection_path_domain() + label@ + seq![0u8] + encode_utf8(path@));
    sha256(bytes.as_slice())
}

/// One redacted effective filesystem reach in an inspection report.
#[derive(Clone, PartialEq, Eq)]
pub struct SandboxRootInspection {
    identity: [u8; 32],
    access: SandboxFilesystemAccess,
    provenance: SandboxFilesystemProvenance,
}

/// The content of a reported reach.
pub struct RootInspectionView {
    pub identity: Seq<u8>,
    pub access: SandboxFilesystemAccess,
    pub provenance: SandboxFilesystemProvenance,
}

impl View for SandboxRootInspection {
    type V = RootInspectionView;

    closed spec fn view(&self) -> RootInspectionView {
        RootInspectionView { identity: self.identity@, access: self.access, provenance: self.provenance }
    }
}

impl SandboxRootInspection {
    /// Domain-separated identity of the canonical path, never the path itself.
    pub fn identity(&self) -> (identity: [u8; 32])
        ensures
            identity@ == self@.identity,
    {
        self.identity
    }

    /// Effective access granted at this reach.
    pub fn access(&self) -> (access: SandboxFilesystemAccess)
        ensures
            access == self@.access,
    {
        self.access
    }

    /// Authority source for the reach.
    pub fn provenance(&self) -> (provenance: SandboxFilesystemProvenance)
        ensures
            provenance == self@.provenance,
    {
        self.provenance
    }
}

/// How a rule is reported: by its path's identity, its access and provenance.
pub open spec fn root_inspection(rule: FilesystemRuleView) -> RootInspectionView {
    RootInspectionView {
        identity: path_identity_of(root_label(), rule.0),
        access: rule.1,
        provenance: rule.2,
    }
}

/// The redacted shape of a network policy: its endpoints counted, never named.
pub open spec fn network_inspection(network: NetworkPolicyView) -> SandboxNetworkInspection {
    match network {
        NetworkPolicyView::Closed => SandboxNetworkInspection::Closed,
        NetworkPolicyView::Exact { endpoints, dns, forwarding } => SandboxNetworkInspection::Exact {
            endpoints: endpoints.len() as usize,
            dns,
            forwarding,
        },
    }
}

/// Bounded redacted summary of an effective policy and manifest.
#[derive(Clone, PartialEq, Eq)]
pub struct SandboxPlanInspection {
    mode: SandboxMode,
    roots: Vec<SandboxRootInspection>,
    working_directory: [u8; 32],
    network: SandboxNetworkInspection,
    limits: SandboxResourceLimits,
    command_policy: [u8; 32],
    persistent: bool,
    snapshots: bool,
    manifest_entries: usize,
}

/// The content of a plan summary.
pub struct PlanInspectionView {
    pub mode: SandboxMode,
    pub roots: Seq<RootInspectionView>,
    pub working_directory: Seq<u8>,
    pub network: SandboxNetworkInspection,
    pub limits: SandboxResourceLimits,
    pub command_policy: Seq<u8>,
    pub persistent: bool,
    pub snapshots: bool,
    pub manifest_entries: nat,
}

impl View for SandboxPlanInspection {
    type V = PlanInspectionView;

    closed spec fn view(&self) -> PlanInspectionView {
        PlanInspectionView {
            mode: self.mode,
            roots: self.roots@.map_values(|root: SandboxRootInspection| root@),
            working_directory: self.working_directory@,
            network: self.network,
            limits: self.limits,
            command_policy: self.command_policy@,
            persistent: self.persistent,
            snapshots: self.snapshots,
            manifest_entries: self.manifest_entries as nat,
        }
    }
}

/// How a policy and manifest are summarized: paths only by identity, the
/// command filters only by digest, the manifest only by its entry count.
pub open spec fn plan_inspection(policy: PolicyView, manifest: ManifestView) -> PlanInspectionView {
    PlanInspectionView {
        mode: policy.mode,
        roots: policy.filesystem.map_values(|rule: FilesystemRuleView| root_inspection(rule)),
        working_directory: path_identity_of(working_directory_label(), policy.working_directory),
        network: network_inspection(policy.network),
        limits: policy.limits,
        command_policy: sha256_of(command_policy_framing(policy.commands)),
        persistent: policy.persistent,
        snapshots: policy.snapshots,
        manifest_entries: manifest.entries.len(),
    }
}

impl SandboxPlanInspection {
    fn new(policy: &SandboxPolicy, manifest: &SandboxManifest) -> (plan: Self)
        ensures
            plan@ == plan_inspection(policy@, manifest@),
    {
        let rules = policy.filesystem();
        let mut roots: Vec<SandboxRootInspection> = Vec::new();
        let mut i: usize = 0;
        while i < rules.len()
            invariant
                filesystem_views(rules@) == policy@.filesystem,
                i <= rules@.len(),
                roots@.len() == i,
                forall|k: int| 0 <= k < i ==> (#[trigger] roots@[k])@ == root_inspection(policy@.filesystem[k]),
            decreases rules@.len() - i,
        {
            let rule = &rules[i];
            assert(policy@.filesystem[i as int] == rule@);
            let label: [u8; 4] = [114u8, 111, 111, 116];
            assert(label@ =~= root_label());
            roots.push(
                SandboxRootInspection {
                    identity: path_identity(&label, rule.path()),
                    access: rule.access(),
                    provenance: rule.provenance(),
                },
            );
            i = i + 1;
        }
        let network = match policy.network() {
            SandboxNetworkPolicy::Closed => SandboxNetworkInspection::Closed,
            SandboxNetworkPolicy::Exact { endpoints, dns, forwarding } => SandboxNetworkInspection::Exact {
                endpoints: endpoints.len(),
                dns: *dns,
                forwarding: *forwarding,
            },
        };
        let label: [u8; 17] = [
            119u8, 111, 114, 107, 105, 110, 103, 45, 100, 105, 114, 101, 99, 116, 111, 114, 121,
        ];
        assert(label@ =~= working_directory_label());
        let plan = Self {
            mode: policy.mode(),
            roots,
            working_directory: path_identity(&label, policy.working_directory()),
            network,
            limits: policy.limits(),
            command_policy: policy.commands().digest(),
            persistent: policy.persistent(),
            snapshots: policy.snapshots(),
            manifest_entries: manifest.entries().len(),
        };
        assert(plan@.roots =~= plan_inspection(policy@, manifest@).roots);
        plan
    }

    /// Required, degraded or off.
    pub fn mode(&self) -> (mode: SandboxMode)
        ensures
            mode == self@.mode,
    {
        self.mode
    }

    /// Canonical reaches, represented only by domain-separated identities.
    pub fn roots(&self) -> (roots: &[SandboxRootInspection])
        ensures
            roots@.map_values(|root: SandboxRootInspection| root@) == self@.roots,
    {
        self.roots.as_slice()
    }

    /// Domain-separated identity of the effective working directory.
    pub fn working_directory(&self) -> (identity: [u8; 32])
        ensures
            identity@ == self@.working_directory,
    {
        self.working_directory
    }

    /// Effective redacted network shape.
    pub fn network(&self) -> (network: SandboxNetworkInspection)
        ensures
            network == self@.network,
    {
        self.network
    }

    /// Effective ceilings.
    pub fn limits(&self) -> (limits: SandboxResourceLimits)
        ensures
            limits == self@.limits,
    {
        self.limits
    }

    /// Domain-separated command-filter identity.
    pub fn command_policy(&self) -> (digest: [u8; 32])
        ensures
            digest@ == self@.command_policy,
    {
        self.command_policy
    }

    /// Whether persistent session state was requested.
    pub fn persistent(&self) -> (persistent: bool)
        ensures
            persistent == self@.persistent,
    {
        self.persistent
    }

    /// Whether snapshots were requested.
    pub fn snapshots(&self) -> (snapshots: bool)
        ensures
            snapshots == self@.snapshots,
    {
        self.snapshots
    }

    /// Bounded manifest entry count.
    pub fn manifest_entries(&self) -> (entries: usize)
        ensures
            entries == self@.manifest_entries,
    {
        self.manifest_entries
    }
}

/// The kernel boundary a confined report must show enforced: the filesystem,
/// the network feature its policy stands on, descriptor, process, kernel
/// surface and privilege isolation.
pub open spec fn essential_features(network: NetworkPolicyView) -> Seq<SandboxFeature> {
    seq![
        SandboxFeature::Filesystem,
        network_feature(network),
        SandboxFeature::DescriptorIsolation,
        SandboxFeature::ProcessIsolation,
        SandboxFeature::KernelSurface,
        SandboxFeature::PrivilegeIsolation,
    ]
}

/// Whether every essential feature is claimed as enforced.
pub open spec fn boundary_enforced(claims: Seq<SandboxCapability>, network: NetworkPolicyView) -> bool {
    forall|i: int|
        0 <= i < 6 ==> claims[feature_slot(#[trigger] essential_features(network)[i])]
            == SandboxCapability::Enforced
}

/// Whether a report may be built: a degradation reason, where given, is one
/// to [`MAX_SANDBOX_BACKEND_WORD_BYTES`] bytes; a report is confined exactly
/// when it gives no degradation reason; and a confined report has its whole
/// kernel boundary enforced.
pub open spec fn inspection_admissible(
    claims: Seq<SandboxCapability>,
    network: NetworkPolicyView,
    confined: bool,
    degradation: Option<Seq<char>>,
) -> bool {
    &&& degradation matches Some(text) ==> 0 < encode_utf8(text).len() <= MAX_SANDBOX_BACKEND_WORD_BYTES
    &&& confined != (degradation is Some)
    &&& confined ==> boundary_enforced(claims, network)
}

/// Redacted immutable inspection snapshot.
#[derive(Clone, PartialEq, Eq)]
pub struct SandboxInspection {
    backend: SandboxBackendIdentity,
    capabilities: SandboxCapabilities,
    requested_plan: SandboxPlanInspection,
    plan: SandboxPlanInspection,
    requested_policy_digest: [u8; 32],
    policy_digest: [u8; 32],
    manifest_digest: [u8; 32],
    confined: bool,
    degradation: Option<String>,
    cleanup: SandboxCleanup,
}

/// The content of an inspection report.
pub struct InspectionView {
    pub backend: SandboxBackendIdentityView,
    pub capabilities: Seq<SandboxCapability>,
    pub requested_plan: PlanInspectionView,
    pub plan: PlanInspectionView,
    pub requested_policy_digest: Seq<u8>,
    pub policy_digest: Seq<u8>,
    pub manifest_digest: Seq<u8>,
    pub confined: bool,
    pub degradation: Option<Seq<char>>,
    pub cleanup: SandboxCleanup,
}

impl View for SandboxInspection {
    type V = InspectionView;

    closed spec fn view(&self) -> InspectionView {
        InspectionView {
            backend: self.backend@,
            capabilities: self.capabilities@,
            requested_plan: self.requested_plan@,
            plan: self.plan@,
            requested_policy_digest: self.requested_policy_digest@,
            policy_digest: self.policy_digest@,
            manifest_digest: self.manifest_digest@,
            confined: self.confined,
            degradation: match self.degradation {
                Some(text) => Some(text@),
                None => None,
            },
            cleanup: self.cleanup,
        }
    }
}

/// The text of an optional degradation reason.
pub open spec fn optional_text(text: Option<String>) -> Option<Seq<char>> {
    match text {
        Some(t) => Some(t@),
        None => None,
    }
}

fn essential_enforced(capabilities: &SandboxCapabilities, network: &SandboxNetworkPolicy) -> (enforced: bool)
    ensures
        enforced == boundary_enforced(capabilities@, network@),
{
    let reach = match network {
        SandboxNetworkPolicy::Closed => SandboxFeature::NetworkDeny,
        SandboxNetworkPolicy::Exact { .. } => SandboxFeature::NetworkAllowlist,
    };
    let essential = [
        SandboxFeature::Filesystem,
        reach,
        SandboxFeature::DescriptorIsolation,
        SandboxFeature::ProcessIsolation,
        SandboxFeature::KernelSurface,
        SandboxFeature::PrivilegeIsolation,
    ];
    assert(essential@ =~= essential_features(network@));
    let mut i: usize = 0;
    while i < 6
        invariant
            essential@ == essential_features(network@),
            i <= 6,
            forall|k: int|
                0 <= k < i ==> capabilities@[feature_slot(#[trigger] essential_features(network@)[k])]
                    == SandboxCapability::Enforced,
        decreases 6 - i,
    {
        if !capabilities.claim(essential[i]).is_enforced() {
            return false;
        }
        i = i + 1;
    }
    true
}

impl SandboxInspection {
    /// Builds a bounded report where requested and effective policy are one.
    pub fn new(
        backend: SandboxBackendIdentity,
        capabilities: SandboxCapabilities,
        policy: &SandboxPolicy,
        manifest: &SandboxManifest,
        confined: bool,
        degradation: Option<String>,
        cleanup: SandboxCleanup,
    ) -> (report: Result<Self, SandboxError>)
        ensures
            report is Ok <==> inspection_admissible(capabilities@, policy@.network, confined, optional_text(degradation)),
            report matches Err(e) ==> e is InvalidInspection,
            report matches Ok(r) ==> r@ == (InspectionView {
                backend: backend@,
                capabilities: capabilities@,
                requested_plan: plan_inspection(policy@, manifest@),
                plan: plan_inspection(policy@, manifest@),
                requested_policy_digest: sha256_of(policy_framing(policy@)),
                policy_digest: sha256_of(policy_framing(policy@)),
                manifest_digest: manifest@.digest,
                confined,
                degradation: optional_text(degradation),
                cleanup,
            }),
    {
        Self::build(backend, capabilities, policy, policy, manifest, confined, degradation, cleanup)
    }

    /// Builds a bounded report of a request: the plan as requested, before a
    /// parent's restrictions, beside the effective one. A report may call
    /// itself confined only where no degradation reason is given and the
    /// whole kernel boundary is claimed as enforced; a compatibility report
    /// must give a bounded reason.
    /// A confined report for one request, its cleanup still pending: refused
    /// unless every essential kernel boundary is claimed as enforced.
    pub fn confined_for_request(
        backend: SandboxBackendIdentity,
        capabilities: SandboxCapabilities,
        request: &SandboxRequest,
    ) -> (report: Result<Self, SandboxError>)
        ensures
            report is Ok <==> inspection_admissible(capabilities@, request@.policy.network, true, None),
            report matches Err(e) ==> e is InvalidInspection,
            report matches Ok(r) ==> r@ == (InspectionView {
                backend: backend@,
                capabilities: capabilities@,
                requested_plan: plan_inspection(request@.requested_policy, request@.manifest),
                plan: plan_inspection(request@.policy, request@.manifest),
                requested_policy_digest: sha256_of(policy_framing(request@.requested_policy)),
                policy_digest: sha256_of(policy_framing(request@.policy)),
                manifest_digest: request@.manifest.digest,
                confined: true,
                degradation: None,
                cleanup: SandboxCleanup::Pending,
            }),
    {
        Self::build(
            backend,
            capabilities,
            request.requested_policy(),
            request.policy(),
            request.manifest(),
            true,
            None,
            SandboxCleanup::Pending,
        )
    }

    /// An explicitly unconfined compatibility report for one request, its
    /// cleanup still pending: refused unless the degradation reason is
    /// non-empty and bounded.
    pub fn unconfined_for_request(
        backend: SandboxBackendIdentity,
        capabilities: SandboxCapabilities,
        request: &SandboxRequest,
        degradation: String,
    ) -> (report: Result<Self, SandboxError>)
        ensures
            report is Ok <==> inspection_admissible(
                capabilities@,
                request@.policy.network,
                false,
                Some(degradation@),
            ),
            report matches Err(e) ==> e is InvalidInspection,
            report matches Ok(r) ==> r@ == (InspectionView {
                backend: backend@,
                capabilities: capabilities@,
                requested_plan: plan_inspection(request@.requested_policy, request@.manifest),
                plan: plan_inspection(request@.policy, request@.manifest),
                requested_policy_digest: sha256_of(policy_framing(request@.requested_policy)),
                policy_digest: sha256_of(policy_framing(request@.policy)),
                manifest_digest: request@.manifest.digest,
                confined: false,
                degradation: Some(degradation@),
                cleanup: SandboxCleanup::Pending,
            }),
    {
        Self::build(
            backend,
            capabilities,
            request.requested_policy(),
            request.policy(),
            request.manifest(),
            false,
            Some(degradation),
            SandboxCleanup::Pending,
        )
    }

    pub fn build(
        backend: SandboxBackendIdentity,
        capabilities: SandboxCapabilities,
        requested_policy: &SandboxPolicy,
        policy: &SandboxPolicy,
        manifest: &SandboxManifest,
        confined: bool,
        degradation: Option<String>,
        cleanup: SandboxCleanup,
    ) -> (report: Result<Self, SandboxError>)
        ensures
            report is Ok <==> inspection_admissible(capabilities@, policy@.network, confined, optional_text(degradation)),
            report matches Err(e) ==> e is InvalidInspection,
            report matches Ok(r) ==> r@ == (InspectionView {
                backend: backend@,
                capabilities: capabilities@,
                requested_plan: plan_inspection(requested_policy@, manifest@),
                plan: plan_inspection(policy@, manifest@),
                requested_policy_digest: sha256_of(policy_framing(requested_policy@)),
                policy_digest: sha256_of(policy_framing(policy@)),
                manifest_digest: manifest@.digest,
                confined,
                degradation: optional_text(degradation),
                cleanup,
            }),
    {
        let bounded = match &degradation {
            Some(text) => text.as_str().as_bytes().len() > 0 && text.as_str().as_bytes().len()
                <= MAX_SANDBOX_BACKEND_WORD_BYTES,
            None => true,
        };
        if !bounded || confined == degradation.is_some() {
            return Err(SandboxError::InvalidInspection);
        }
        if confined && !essential_enforced(&capabilities, policy.network()) {
            return Err(SandboxError::InvalidInspection);
        }
        Ok(
            Self {
                backend,
                capabilities,
                requested_plan: SandboxPlanInspection::new(requested_policy, manifest),
                plan: SandboxPlanInspection::new(policy, manifest),
                requested_policy_digest: requested_policy.digest(),
                policy_digest: policy.digest(),
                manifest_digest: manifest.digest(),
                confined,
                degradation,
                cleanup,
            },
        )
    }

    /// Enforcing or compatibility backend identity.
    pub fn backend(&self) -> (backend: &SandboxBackendIdentity)
        ensures
            backend@ == self@.backend,
    {
        &self.backend
    }

    /// Exact capability snapshot used for negotiation.
    pub fn capabilities(&self) -> (capabilities: &SandboxCapabilities)
        ensures
            capabilities@ == self@.capabilities,
    {
        &self.capabilities
    }

    /// The plan as requested, before a parent's restrictions.
    pub fn requested_plan(&self) -> (plan: &SandboxPlanInspection)
        ensures
            plan@ == self@.requested_plan,
    {
        &self.requested_plan
    }

    /// The effective plan.
    pub fn plan(&self) -> (plan: &SandboxPlanInspection)
        ensures
            plan@ == self@.plan,
    {
        &self.plan
    }

    /// Requested policy identity.
    pub fn requested_policy_digest(&self) -> (digest: [u8; 32])
        ensures
            digest@ == self@.requested_policy_digest,
    {
        self.requested_policy_digest
    }

    /// Effective policy identity.
    pub fn policy_digest(&self) -> (digest: [u8; 32])
        ensures
            digest@ == self@.policy_digest,
    {
        self.policy_digest
    }

    /// Materialization plan and content identity.
    pub fn manifest_digest(&self) -> (digest: [u8; 32])
        ensures
            digest@ == self@.manifest_digest,
    {
        self.manifest_digest
    }

    /// Whether this is an enforcing kernel boundary rather than compatibility.
    pub fn confined(&self) -> (confined: bool)
        ensures
            confined == self@.confined,
    {
        self.confined
    }

    /// The reason given for a user-authorized degradation.
    pub fn degradation(&self) -> (reason: Option<&str>)
        ensures
            match reason {
                Some(text) => self@.degradation == Some(text@),
                None => self@.degradation is None,
            },
    {
        match &self.degradation {
            Some(text) => Some(text.as_str()),
            None => None,
        }
    }

    /// Last known cleanup outcome.
    pub fn cleanup(&self) -> (cleanup: SandboxCleanup)
        ensures
            cleanup == self@.cleanup,
    {
        self.cleanup
    }

    /// A copy with the terminal cleanup result, every other part kept.
    pub fn cleaned(self, cleanup: SandboxCleanup) -> (report: Self)
        ensures
            report@ == (InspectionView { cleanup, ..self@ }),
    {
        let mut report = self;
        report.cleanup = cleanup;
        report
    }
}

/// A report that calls itself confined shows its whole kernel boundary
/// enforced and gives no degradation reason; one that does not gives a
/// bounded reason.
pub proof fn lemma_confined_reports_are_enforced(
    claims: Seq<SandboxCapability>,
    network: NetworkPolicyView,
    confined: bool,
    degradation: Option<Seq<char>>,
)
    requires
        inspection_admissible(claims, network, confined, degradation),
    ensures
        confined ==> degradation is None && forall|i: int|
            0 <= i < 6 ==> claims[feature_slot(#[trigger] essential_features(network)[i])]
                == SandboxCapability::Enforced,
        !confined ==> (degradation matches Some(text) && 0 < encode_utf8(text).len()
            <= MAX_SANDBOX_BACKEND_WORD_BYTES),
{
}

/// The network feature a redacted network shape stands on.
pub open spec fn inspected_network_feature(network: SandboxNetworkInspection) -> SandboxFeature {
    match network {
        SandboxNetworkInspection::Closed => SandboxFeature::NetworkDeny,
        SandboxNetworkInspection::Exact { .. } => SandboxFeature::NetworkAllowlist,
    }
}

/// The kernel boundary a confined checkpoint must show enforced.
pub open spec fn checkpoint_essentials(network: SandboxNetworkInspection) -> Seq<SandboxFeature> {
    seq![
        SandboxFeature::Filesystem,
        inspected_network_feature(network),
        SandboxFeature::DescriptorIsolation,
        SandboxFeature::ProcessIsolation,
        SandboxFeature::KernelSurface,
        SandboxFeature::PrivilegeIsolation,
    ]
}

/// Whether a checkpoint record may be restored: an exact network names one
/// to [`MAX_SANDBOX_NETWORK_ENDPOINTS`] endpoints, and a record that calls
/// itself confined claims its whole kernel boundary as enforced.
pub open spec fn checkpoint_admissible(
    claims: Seq<SandboxCapability>,
    network: SandboxNetworkInspection,
    confined: bool,
) -> bool {
    &&& !(network matches SandboxNetworkInspection::Exact { endpoints, .. } && (endpoints == 0
        || endpoints > MAX_SANDBOX_NETWORK_ENDPOINTS))
    &&& confined ==> forall|i: int|
        0 <= i < 6 ==> claims[feature_slot(#[trigger] checkpoint_essentials(network)[i])]
            == SandboxCapability::Enforced
}

/// Minimal redacted sandbox identity retained by an execution checkpoint.
#[derive(Clone, PartialEq, Eq)]
pub struct SandboxCheckpoint {
    backend: SandboxBackendIdentity,
    capabilities: SandboxCapabilities,
    mode: SandboxMode,
    network: SandboxNetworkInspection,
    policy_digest: [u8; 32],
    manifest_digest: [u8; 32],
    confined: bool,
}

/// The content of a checkpoint.
pub struct CheckpointView {
    pub backend: SandboxBackendIdentityView,
    pub capabilities: Seq<SandboxCapability>,
    pub mode: SandboxMode,
    pub network: SandboxNetworkInspection,
    pub policy_digest: Seq<u8>,
    pub manifest_digest: Seq<u8>,
    pub confined: bool,
}

impl View for SandboxCheckpoint {
    type V = CheckpointView;

    closed spec fn view(&self) -> CheckpointView {
        CheckpointView {
            backend: self.backend@,
            capabilities: self.capabilities@,
            mode: self.mode,
            network: self.network,
            policy_digest: self.policy_digest@,
            manifest_digest: self.manifest_digest@,
            confined: self.confined,
        }
    }
}

/// Whether fresh evidence `live` keeps the exact backend and plan of a
/// checkpoint, and claims every feature at least as strongly as before.
pub open spec fn checkpoint_compatible(earlier: CheckpointView, live: CheckpointView) -> bool {
    &&& earlier.backend == live.backend
    &&& earlier.mode == live.mode
    &&& earlier.network == live.network
    &&& earlier.policy_digest == live.policy_digest
    &&& earlier.manifest_digest == live.manifest_digest
    &&& earlier.confined == live.confined
    &&& forall|i: int|
        0 <= i < 26 ==> claim_strength(#[trigger] live.capabilities[i]) >= claim_strength(
            earlier.capabilities[i],
        )
}

fn checkpoint_essentials_enforced(capabilities: &SandboxCapabilities, network: SandboxNetworkInspection) -> (enforced: bool)
    ensures
        enforced == forall|i: int|
            0 <= i < 6 ==> capabilities@[feature_slot(#[trigger] checkpoint_essentials(network)[i])]
                == SandboxCapability::Enforced,
{
    let reach = match network {
        SandboxNetworkInspection::Closed => SandboxFeature::NetworkDeny,
        SandboxNetworkInspection::Exact { .. } => SandboxFeature::NetworkAllowlist,
    };
    let essential = [
        SandboxFeature::Filesystem,
        reach,
        SandboxFeature::DescriptorIsolation,
        SandboxFeature::ProcessIsolation,
        SandboxFeature::KernelSurface,
        SandboxFeature::PrivilegeIsolation,
    ];
    assert(essential@ =~= checkpoint_essentials(network));
    let mut i: usize = 0;
    while i < 6
        invariant
            essential@ == checkpoint_essentials(network),
            i <= 6,
            forall|k: int|
                0 <= k < i ==> capabilities@[feature_slot(#[trigger] checkpoint_essentials(network)[k])]
                    == SandboxCapability::Enforced,
        decreases 6 - i,
    {
        if !capabilities.claim(essential[i]).is_enforced() {
            return false;
        }
        i = i + 1;
    }
    true
}

impl SandboxCheckpoint {
    /// Captures only the bounded identity needed to revalidate on resume.
    pub fn from_inspection(inspection: &SandboxInspection) -> (checkpoint: Self)
        ensures
            checkpoint@ == (CheckpointView {
                backend: inspection@.backend,
                capabilities: inspection@.capabilities,
                mode: inspection@.plan.mode,
                network: inspection@.plan.network,
                policy_digest: inspection@.policy_digest,
                manifest_digest: inspection@.manifest_digest,
                confined: inspection@.confined,
            }),
    {
        Self {
            backend: inspection.backend.copy(),
            capabilities: inspection.capabilities.copy(),
            mode: inspection.plan.mode,
            network: inspection.plan.network,
            policy_digest: inspection.policy_digest,
            manifest_digest: inspection.manifest_digest,
            confined: inspection.confined,
        }
    }

    /// Restores one checkpoint record from protected persistence: refused
    /// where an exact network counts no endpoints or too many, or where a
    /// record calls itself confined without its whole kernel boundary.
    pub fn restore(
        backend: SandboxBackendIdentity,
        capabilities: SandboxCapabilities,
        mode: SandboxMode,
        network: SandboxNetworkInspection,
        policy_digest: [u8; 32],
        manifest_digest: [u8; 32],
        confined: bool,
    ) -> (checkpoint: Result<Self, SandboxError>)
        ensures
            checkpoint is Ok <==> checkpoint_admissible(capabilities@, network, confined),
            checkpoint matches Err(e) ==> e is InvalidInspection,
            checkpoint matches Ok(c) ==> c@ == (CheckpointView {
                backend: backend@,
                capabilities: capabilities@,
                mode,
                network,
                policy_digest: policy_digest@,
                manifest_digest: manifest_digest@,
                confined,
            }),
    {
        let endpoints = network.endpoints();
        if let SandboxNetworkInspection::Exact { .. } = network {
            if endpoints == 0 || endpoints > MAX_SANDBOX_NETWORK_ENDPOINTS {
                return Err(SandboxError::InvalidInspection);
            }
        }
        if confined && !checkpoint_essentials_enforced(&capabilities, network) {
            return Err(SandboxError::InvalidInspection);
        }
        Ok(Self { backend, capabilities, mode, network, policy_digest, manifest_digest, confined })
    }

    /// Exact backend identity used before interruption.
    pub fn backend(&self) -> (backend: &SandboxBackendIdentity)
        ensures
            backend@ == self@.backend,
    {
        &self.backend
    }

    /// Exact capability snapshot used before interruption.
    pub fn capabilities(&self) -> (capabilities: &SandboxCapabilities)
        ensures
            capabilities@ == self@.capabilities,
    {
        &self.capabilities
    }

    /// Effective mode before interruption.
    pub fn mode(&self) -> (mode: SandboxMode)
        ensures
            mode == self@.mode,
    {
        self.mode
    }

    /// Effective redacted network shape before interruption.
    pub fn network(&self) -> (network: SandboxNetworkInspection)
        ensures
            network == self@.network,
    {
        self.network
    }

    /// Effective policy identity before interruption.
    pub fn policy_digest(&self) -> (digest: [u8; 32])
        ensures
            digest@ == self@.policy_digest,
    {
        self.policy_digest
    }

    /// Materialization identity before interruption.
    pub fn manifest_digest(&self) -> (digest: [u8; 32])
        ensures
            digest@ == self@.manifest_digest,
    {
        self.manifest_digest
    }

    /// Whether the prior backend was an enforcing kernel boundary.
    pub fn confined(&self) -> (confined: bool)
        ensures
            confined == self@.confined,
    {
        self.confined
    }

    /// Whether fresh evidence preserves the exact backend and plan and every
    /// earlier capability claim.
    pub fn is_compatible_with(&self, live: &Self) -> (compatible: bool)
        ensures
            compatible == checkpoint_compatible(self@, live@),
    {
        proof {
            lemma_capabilities_hold_every_feature(self.capabilities);
            lemma_capabilities_hold_every_feature(live.capabilities);
        }
        if !self.backend.same(&live.backend) || self.mode != live.mode || self.network != live.network
            || !same_digest(&self.policy_digest, &live.policy_digest) || !same_digest(
            &self.manifest_digest,
            &live.manifest_digest,
        ) || self.confined != live.confined {
            return false;
        }
        let mut i: usize = 0;
        while i < 26
            invariant
                i <= 26,
                self@.capabilities.len() == 26,
                live@.capabilities.len() == 26,
                forall|k: int|
                    0 <= k < i ==> claim_strength(#[trigger] live@.capabilities[k]) >= claim_strength(
                        self@.capabilities[k],
                    ),
            decreases 26 - i,
        {
            if strength(live.capabilities.claim_at(i)) < strength(self.capabilities.claim_at(i)) {
                return false;
            }
            i = i + 1;
        }
        true
    }
}

/// Cleanup state retained without backend error text.
#[derive(Debug, Clone, Copy, PartialEq, Eq, Structural)]
pub enum SandboxCleanup {
    /// A session or process still owns resources.
    Pending,
    /// Every process, pipe, mount, stage, proxy, and lease is gone.
    Complete,
    /// Cleanup was attempted but could not be fully confirmed.
    Failed,
}

/// A hard command ceiling crossed while the backend owned the process.
#[derive(Debug, Clone, Copy, PartialEq, Eq, Structural)]
pub enum SandboxViolation {
    /// The command outlived its wall-clock deadline.
    CommandTime,
    /// The command produced more captured output than its shared stream budget.
    Output,
}

/// Result of one non-blocking output read.
#[derive(Debug, Clone, Copy, PartialEq, Eq, Structural)]
pub enum SandboxRead {
    /// Bytes were copied into the caller's buffer.
    Bytes(usize),
    /// Some bytes were retained and the rest were consumed past the hard
    /// aggregate stdout/stderr ceiling.
    Limited {
        /// Prefix bytes available in the caller's buffer.
        retained: usize,
        /// Raw bytes consumed but not retained.
        discarded: usize,
    },
    /// The writer is live but no bytes are ready.
    Pending,
    /// Every writer has closed this stream.
    End,
}

/// Whether a program is usable: an absolute path without NUL that does not
/// climb (`..`).
pub open spec fn valid_program(program: Seq<char>) -> bool {
    &&& program.len() > 0
    &&& program[0] == '/'
    &&& !program.contains('\0')
    &&& forall|i: int| 0 <= i < path_parts(program).len() ==> #[trigger] path_parts(program)[i] != seq!['.', '.']
}

/// The bytes of an argument vector together.
pub open spec fn arguments_bytes(arguments: Seq<Seq<char>>) -> int
    decreases arguments.len(),
{
    if arguments.len() == 0 {
        0
    } else {
        arguments_bytes(arguments.drop_last()) + text_bytes(arguments.last())
    }
}

/// The contents of a sequence of arguments.
pub open spec fn argument_views(arguments: Seq<String>) -> Seq<Seq<char>> {
    Seq::new(arguments.len(), |i: int| arguments[i]@)
}

/// Whether a program and its arguments can be launched: a valid program,
/// arguments without NUL, no more than [`MAX_SANDBOX_COMMAND_ARGUMENTS`] of
/// them and no more than [`MAX_SANDBOX_COMMAND_BYTES`] bytes in all.
pub open spec fn launchable(program: Seq<char>, arguments: Seq<Seq<char>>) -> bool {
    &&& valid_program(program)
    &&& forall|i: int| 0 <= i < arguments.len() ==> !(#[trigger] arguments[i]).contains('\0')
    &&& arguments.len() <= MAX_SANDBOX_COMMAND_ARGUMENTS
    &&& text_bytes(program) + arguments_bytes(arguments) <= MAX_SANDBOX_COMMAND_BYTES
}

proof fn lemma_arguments_bytes_grow(arguments: Seq<Seq<char>>, n: int)
    requires
        0 <= n <= arguments.len(),
    ensures
        arguments_bytes(arguments.take(n)) <= arguments_bytes(arguments),
    decreases arguments.len() - n,
{
    if n < arguments.len() {
        lemma_arguments_bytes_grow(arguments, n + 1);
        assert(arguments.take(n + 1).drop_last() =~= arguments.take(n));
        if n + 1 == arguments.len() {
            assert(arguments.take(n + 1) =~= arguments);
        }
    } else {
        assert(arguments.take(n) =~= arguments);
    }
}

fn command_image(program: &str, arguments: &Vec<String>) -> (image: Result<(String, Vec<String>), SandboxError>)
    ensures
        image is Ok <==> launchable(program@, argument_views(arguments@)),
        image matches Ok(pair) ==> pair.0@ == program@ && argument_views(pair.1@) == argument_views(arguments@),
        image matches Err(e) ==> e is InvalidCommand,
{
    let chars = chars_of(program);
    if chars.len() == 0 || chars[0] != '/' || contains_char(&chars, '\0') {
        return Err(SandboxError::InvalidCommand);
    }
    let parts = parts_of(program);
    if climbs(&parts) {
        return Err(SandboxError::InvalidCommand);
    }
    let ghost views = argument_views(arguments@);
    let mut copied: Vec<String> = Vec::new();
    let mut i: usize = 0;
    while i < arguments.len()
        invariant
            views == argument_views(arguments@),
            i <= arguments@.len(),
            argument_views(copied@) == views.take(i as int),
            forall|j: int| 0 <= j < i ==> !(#[trigger] views[j]).contains('\0'),
        decreases arguments@.len() - i,
    {
        let argument = &arguments[i];
        let argument_chars = chars_of(argument.as_str());
        if contains_char(&argument_chars, '\0') {
            assert(views[i as int] == argument@);
            return Err(SandboxError::InvalidCommand);
        }
        let ghost before = argument_views(copied@);
        copied.push(argument.clone());
        assert(argument_views(copied@) =~= before.push(views[i as int]));
        assert(views.take(i as int + 1) =~= views.take(i as int).push(views[i as int]));
        i = i + 1;
    }
    assert(views.take(views.len() as int) =~= views);
    if arguments.len() > MAX_SANDBOX_COMMAND_ARGUMENTS {
        return Err(SandboxError::InvalidCommand);
    }
    let mut bytes: usize = program.as_bytes().len();
    if bytes > MAX_SANDBOX_COMMAND_BYTES {
        proof {
            lemma_arguments_bytes_grow(views, 0);
            assert(views.take(0) =~= Seq::<Seq<char>>::empty());
        }
        return Err(SandboxError::InvalidCommand);
    }
    let mut k: usize = 0;
    while k < arguments.len()
        invariant
            views == argument_views(arguments@),
            k <= arguments@.len(),
            bytes == text_bytes(program@) + arguments_bytes(views.take(k as int)),
            bytes <= MAX_SANDBOX_COMMAND_BYTES,
        decreases arguments@.len() - k,
    {
        let size = arguments[k].as_str().as_bytes().len();
        assert(views.take(k as int + 1).drop_last() =~= views.take(k as int));
        assert(views[k as int] == arguments@[k as int]@);
        if size > MAX_SANDBOX_COMMAND_BYTES - bytes {
            proof {
                lemma_arguments_bytes_grow(views, k as int + 1);
            }
            return Err(SandboxError::InvalidCommand);
        }
        bytes = bytes + size;
        k = k + 1;
    }
    Ok((program.to_owned(), copied))
}

/// One command to start inside an already negotiated session.
#[derive(Clone, PartialEq, Eq)]
pub struct SandboxCommand {
    requested_program: String,
    requested_arguments: Vec<String>,
    program: String,
    arguments: Vec<String>,
    environment: SandboxEnvironment,
}

/// The content of a command: the image first requested, the image after
/// every trusted transformation, and its environment.
pub struct CommandView {
    pub requested_program: Seq<char>,
    pub requested_arguments: Seq<Seq<char>>,
    pub program: Seq<char>,
    pub arguments: Seq<Seq<char>>,
    pub environment: Seq<VariableView>,
}

impl View for SandboxCommand {
    type V = CommandView;

    closed spec fn view(&self) -> CommandView {
        CommandView {
            requested_program: self.requested_program@,
            requested_arguments: argument_views(self.requested_arguments@),
            program: self.program@,
            arguments: argument_views(self.arguments@),
            environment: self.environment@,
        }
    }
}

fn copy_arguments(arguments: &Vec<String>) -> (copied: Vec<String>)
    ensures
        argument_views(copied@) == argument_views(arguments@),
{
    let mut copied: Vec<String> = Vec::new();
    let mut i: usize = 0;
    while i < arguments.len()
        invariant
            i <= arguments@.len(),
            argument_views(copied@) == argument_views(arguments@).take(i as int),
        decreases arguments@.len() - i,
    {
        let ghost before = argument_views(copied@);
        copied.push(arguments[i].clone());
        assert(argument_views(copied@) =~= before.push(arguments@[i as int]@));
        assert(argument_views(arguments@).take(i as int + 1) =~= argument_views(arguments@).take(i as int).push(arguments@[i as int]@));
        i = i + 1;
    }
    assert(argument_views(arguments@).take(arguments@.len() as int) =~= argument_views(arguments@));
    copied
}

impl SandboxCommand {
    /// Validates an absolute program and bounded argument vector. The working
    /// directory comes from the immutable policy.
    pub fn new(program: &str, arguments: Vec<String>, environment: SandboxEnvironment) -> (command:
        Result<Self, SandboxError>)
        ensures
            command is Ok <==> launchable(program@, argument_views(arguments@)),
            command matches Err(e) ==> e is InvalidCommand,
            command matches Ok(c) ==> c@ == (CommandView {
                requested_program: program@,
                requested_arguments: argument_views(arguments@),
                program: program@,
                arguments: argument_views(arguments@),
                environment: environment@,
            }),
    {
        match command_image(program, &arguments) {
            Err(e) => Err(e),
            Ok((program, arguments)) => {
                let requested_program = program.clone();
                let requested_arguments = copy_arguments(&arguments);
                Ok(Self { requested_program, requested_arguments, program, arguments, environment })
            },
        }
    }

    /// Applies one trusted host transformation while retaining the requested
    /// image for the first guardrail decision.
    pub fn transformed(self, program: &str, arguments: Vec<String>) -> (command: Result<
        Self,
        SandboxError,
    >)
        ensures
            command is Ok <==> launchable(program@, argument_views(arguments@)),
            command matches Err(e) ==> e is InvalidCommand,
            command matches Ok(c) ==> c@ == (CommandView {
                program: program@,
                arguments: argument_views(arguments@),
                ..self@
            }),
    {
        match command_image(program, &arguments) {
            Err(e) => Err(e),
            Ok((program, arguments)) => {
                let mut command = self;
                command.program = program;
                command.arguments = arguments;
                Ok(command)
            },
        }
    }

    /// Absolute executable selected after trusted transformation.
    pub fn program(&self) -> (program: &str)
        ensures
            program@ == self@.program,
    {
        self.program.as_str()
    }

    /// Effective opaque argument vector.
    pub fn arguments(&self) -> (arguments: &[String])
        ensures
            argument_views(arguments@) == self@.arguments,
    {
        self.arguments.as_slice()
    }

    /// Explicit command environment.
    pub fn environment(&self) -> (environment: &SandboxEnvironment)
        ensures
            environment@ == self@.environment,
    {
        &self.environment
    }

    /// The image a guardrail judges at `stage`.
    pub(crate) fn image(&self, stage: SandboxCommandStage) -> (image: (&str, &[String]))
        ensures
            stage == SandboxCommandStage::Requested ==> image.0@ == self@.requested_program
                && argument_views(image.1@) == self@.requested_arguments,
            stage == SandboxCommandStage::Effective ==> image.0@ == self@.program && argument_views(
                image.1@,
            ) == self@.arguments,
    {
        match stage {
            SandboxCommandStage::Requested => (self.requested_program.as_str(), self.requested_arguments.as_slice()),
            SandboxCommandStage::Effective => (self.program.as_str(), self.arguments.as_slice()),
        }
    }
}

} // verus!
