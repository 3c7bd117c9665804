//! Bounded inert workspace materialization records.
//!
//! A manifest is the plan staged before untrusted code starts: inline files,
//! directories and host mounts, each at a relative destination. It is held in
//! one canonical order, destinations ascending part by part, so the same
//! entries given in any order make the same manifest and the same digest.

use vstd::prelude::*;
use vstd::utf8::encode_utf8;
use crate::sandbox::path::{
    ascending_by,
    char_runs,
    lemma_ascending_order_is_unique,
    lemma_insert_ascending_by,
    lemma_parts_order_strict_total,
    parts_before,
    parts_of,
    parts_start_with,
    path_before,
    path_parts,
    path_starts_with,
    same_path,
    strict_order,
    strict_total,
};
use crate::sandbox::policy::{
    climbs,
    MAX_SANDBOX_PATH_BYTES,
    SandboxFilesystemAccess,
    SandboxFilesystemProvenance,
};
use crate::sandbox::digest::{sha256, sha256_of};
use crate::text::chars_of;

verus! {

/// Maximum entries materialized for one sandbox.
pub const MAX_SANDBOX_MANIFEST_ENTRIES: usize = 256;

/// Maximum bytes in one inline file.
pub const MAX_SANDBOX_MANIFEST_FILE_BYTES: usize = 262144;

/// Maximum aggregate inline bytes in one manifest.
pub const MAX_SANDBOX_MANIFEST_BYTES: usize = 1048576;

/// Whether a destination is usable: a non-empty relative path of at most
/// [`MAX_SANDBOX_PATH_BYTES`] bytes, without NUL, made only of parts that
/// name something below the root (no leading `.`, no `..`).
pub open spec fn valid_destination(s: Seq<char>) -> bool {
    &&& s.len() > 0
    &&& s[0] != '/'
    &&& encode_utf8(s).len() <= MAX_SANDBOX_PATH_BYTES
    &&& !s.contains('\0')
    &&& !(s[0] == '.' && (s.len() == 1 || s[1] == '/'))
    &&& forall|i: int| 0 <= i < path_parts(s).len() ==> #[trigger] path_parts(s)[i] != seq!['.', '.']
}

/// Whether a mount source is usable: an absolute path below the host root,
/// of at most [`MAX_SANDBOX_PATH_BYTES`] bytes, without NUL or `..`.
pub open spec fn valid_source(s: Seq<char>) -> bool {
    &&& s.len() > 0
    &&& s[0] == '/'
    &&& path_parts(s).len() > 0
    &&& encode_utf8(s).len() <= MAX_SANDBOX_PATH_BYTES
    &&& !s.contains('\0')
    &&& forall|i: int| 0 <= i < path_parts(s).len() ==> #[trigger] path_parts(s)[i] != seq!['.', '.']
}

fn has_nul(chars: &Vec<char>) -> (found: bool)
    ensures
        found == chars@.contains('\0'),
{
    let mut i: usize = 0;
    while i < chars.len()
        invariant
            i <= chars@.len(),
            forall|j: int| 0 <= j < i ==> chars@[j] != '\0',
        decreases chars@.len() - i,
    {
        if chars[i] == '\0' {
            assert(chars@[i as int] == '\0');
            return true;
        }
        i = i + 1;
    }
    false
}

fn validate_destination(path: &str) -> (checked: Result<(), SandboxManifestError>)
    ensures
        checked is Ok <==> valid_destination(path@),
        checked matches Err(e) ==> e == SandboxManifestError::InvalidDestination,
{
    let chars = chars_of(path);
    if chars.len() == 0 || chars[0] == '/' || path.as_bytes().len() > MAX_SANDBOX_PATH_BYTES
        || has_nul(&chars) {
        return Err(SandboxManifestError::InvalidDestination);
    }
    if chars[0] == '.' && (chars.len() == 1 || chars[1] == '/') {
        return Err(SandboxManifestError::InvalidDestination);
    }
    let parts = parts_of(path);
    if climbs(&parts) {
        return Err(SandboxManifestError::InvalidDestination);
    }
    Ok(())
}

fn validate_source(path: &str) -> (checked: Result<(), SandboxManifestError>)
    ensures
        checked is Ok <==> valid_source(path@),
        checked matches Err(e) ==> e == SandboxManifestError::InvalidSource,
{
    let chars = chars_of(path);
    let parts = parts_of(path);
    if chars.len() == 0 || chars[0] != '/' || parts.len() == 0 || path.as_bytes().len()
        > MAX_SANDBOX_PATH_BYTES || has_nul(&chars) || climbs(&parts) {
        return Err(SandboxManifestError::InvalidSource);
    }
    Ok(())
}

/// One inert materialization request.
#[derive(Clone, PartialEq, Eq)]
pub enum SandboxManifestEntry {
    /// A regular non-executable file supplied as bounded bytes.
    File {
        /// Relative destination below the materialization root.
        destination: String,
        /// Bytes copied before untrusted code starts.
        contents: Vec<u8>,
        /// Non-sensitive authority source.
        provenance: SandboxFilesystemProvenance,
    },
    /// A directory created before files are committed.
    Directory {
        /// Relative destination below the materialization root.
        destination: String,
        /// Non-sensitive authority source.
        provenance: SandboxFilesystemProvenance,
    },
    /// An exact host source mounted at a relative sandbox destination.
    Mount {
        /// Absolute source, canonicalized again by the host at materialization.
        source: String,
        /// Relative destination below the materialization root.
        destination: String,
        /// Read-only or writable grant.
        access: SandboxFilesystemAccess,
        /// Non-sensitive authority source.
        provenance: SandboxFilesystemProvenance,
    },
}

/// The content of a manifest entry.
pub enum ManifestEntryView {
    File { destination: Seq<char>, contents: Seq<u8>, provenance: SandboxFilesystemProvenance },
    Directory { destination: Seq<char>, provenance: SandboxFilesystemProvenance },
    Mount {
        source: Seq<char>,
        destination: Seq<char>,
        access: SandboxFilesystemAccess,
        provenance: SandboxFilesystemProvenance,
    },
}

impl View for SandboxManifestEntry {
    type V = ManifestEntryView;

    open spec fn view(&self) -> ManifestEntryView {
        match self {
            SandboxManifestEntry::File { destination, contents, provenance } =>
                ManifestEntryView::File {
                destination: destination@,
                contents: contents@,
                provenance: *provenance,
            },
            SandboxManifestEntry::Directory { destination, provenance } =>
                ManifestEntryView::Directory { destination: destination@, provenance: *provenance },
            SandboxManifestEntry::Mount { source, destination, access, provenance } =>
                ManifestEntryView::Mount {
                source: source@,
                destination: destination@,
                access: *access,
                provenance: *provenance,
            },
        }
    }
}

/// Where an entry is materialized.
pub open spec fn destination_of(entry: ManifestEntryView) -> Seq<char> {
    match entry {
        ManifestEntryView::File { destination, .. } => destination,
        ManifestEntryView::Directory { destination, .. } => destination,
        ManifestEntryView::Mount { destination, .. } => destination,
    }
}

/// The inline bytes an entry carries: a file's contents, and none otherwise.
pub open spec fn inline_bytes(entry: ManifestEntryView) -> int {
    match entry {
        ManifestEntryView::File { contents, .. } => contents.len() as int,
        _ => 0,
    }
}

impl SandboxManifestEntry {
    /// Builds one bounded, non-executable inline file.
    pub fn file(destination: &str, contents: Vec<u8>, provenance: SandboxFilesystemProvenance) -> (entry:
        Result<Self, SandboxManifestError>)
        ensures
            !valid_destination(destination@) ==> entry == Err::<Self, _>(
                SandboxManifestError::InvalidDestination,
            ),
            valid_destination(destination@) && contents@.len() > MAX_SANDBOX_MANIFEST_FILE_BYTES
                ==> entry == Err::<Self, _>(SandboxManifestError::FileTooLarge),
            valid_destination(destination@) && contents@.len() <= MAX_SANDBOX_MANIFEST_FILE_BYTES
                ==> (entry matches Ok(e) && e@ == (ManifestEntryView::File {
                destination: destination@,
                contents: contents@,
                provenance,
            })),
    {
        if let Err(e) = validate_destination(destination) {
            return Err(e);
        }
        if contents.len() > MAX_SANDBOX_MANIFEST_FILE_BYTES {
            return Err(SandboxManifestError::FileTooLarge);
        }
        Ok(Self::File { destination: destination.to_owned(), contents, provenance })
    }

    /// Builds one bounded directory entry.
    pub fn directory(destination: &str, provenance: SandboxFilesystemProvenance) -> (entry: Result<
        Self,
        SandboxManifestError,
    >)
        ensures
            !valid_destination(destination@) ==> entry == Err::<Self, _>(
                SandboxManifestError::InvalidDestination,
            ),
            valid_destination(destination@) ==> (entry matches Ok(e) && e@
                == (ManifestEntryView::Directory { destination: destination@, provenance })),
    {
        if let Err(e) = validate_destination(destination) {
            return Err(e);
        }
        Ok(Self::Directory { destination: destination.to_owned(), provenance })
    }

    /// Builds one exact host mount request, read-only or writable. This is
    /// still inert: construction does not inspect or open the source.
    pub fn mount(
        source: &str,
        destination: &str,
        access: SandboxFilesystemAccess,
        provenance: SandboxFilesystemProvenance,
    ) -> (entry: Result<Self, SandboxManifestError>)
        ensures
            !valid_source(source@) ==> entry == Err::<Self, _>(SandboxManifestError::InvalidSource),
            valid_source(source@) && !valid_destination(destination@) ==> entry == Err::<Self, _>(
                SandboxManifestError::InvalidDestination,
            ),
            valid_source(source@) && valid_destination(destination@) && !(access
                == SandboxFilesystemAccess::ReadOnly || access == SandboxFilesystemAccess::ReadWrite)
                ==> entry == Err::<Self, _>(SandboxManifestError::InvalidMountAccess),
            valid_source(source@) && valid_destination(destination@) && (access
                == SandboxFilesystemAccess::ReadOnly || access == SandboxFilesystemAccess::ReadWrite)
                ==> (entry matches Ok(e) && e@ == (ManifestEntryView::Mount {
                source: source@,
                destination: destination@,
                access,
                provenance,
            })),
    {
        if let Err(e) = validate_source(source) {
            return Err(e);
        }
        if let Err(e) = validate_destination(destination) {
            return Err(e);
        }
        match access {
            SandboxFilesystemAccess::ReadOnly => {},
            SandboxFilesystemAccess::ReadWrite => {},
            _ => {
                return Err(SandboxManifestError::InvalidMountAccess);
            },
        }
        Ok(
            Self::Mount {
                source: source.to_owned(),
                destination: destination.to_owned(),
                access,
                provenance,
            },
        )
    }

    /// Relative destination below the fixed materialization root.
    pub fn destination(&self) -> (destination: &str)
        ensures
            destination@ == destination_of(self@),
    {
        match self {
            Self::File { destination, .. } => destination.as_str(),
            Self::Directory { destination, .. } => destination.as_str(),
            Self::Mount { destination, .. } => destination.as_str(),
        }
    }

    /// Inline contents where this is a file.
    pub fn contents(&self) -> (contents: Option<&[u8]>)
        ensures
            contents matches Some(c) ==> (self@ matches ManifestEntryView::File { contents: inline, .. }
                && c@ == inline),
            contents is None ==> !(self@ is File),
    {
        match self {
            Self::File { contents, .. } => Some(contents.as_slice()),
            Self::Directory { .. } => None,
            Self::Mount { .. } => None,
        }
    }

    /// Host source where this is a mount.
    pub fn source(&self) -> (source: Option<&str>)
        ensures
            source matches Some(s) ==> (self@ matches ManifestEntryView::Mount { source: from, .. }
                && s@ == from),
            source is None ==> !(self@ is Mount),
    {
        match self {
            Self::Mount { source, .. } => Some(source.as_str()),
            Self::File { .. } => None,
            Self::Directory { .. } => None,
        }
    }

    /// Requested mount access, where applicable.
    pub fn access(&self) -> (access: Option<SandboxFilesystemAccess>)
        ensures
            access matches Some(a) ==> (self@ matches ManifestEntryView::Mount { access: granted, .. }
                && a == granted),
            access is None ==> !(self@ is Mount),
    {
        match self {
            Self::Mount { access, .. } => Some(*access),
            Self::File { .. } => None,
            Self::Directory { .. } => None,
        }
    }

    /// Non-sensitive authority source.
    pub fn provenance(&self) -> (provenance: SandboxFilesystemProvenance)
        ensures
            provenance == match self@ {
                ManifestEntryView::File { provenance, .. } => provenance,
                ManifestEntryView::Directory { provenance, .. } => provenance,
                ManifestEntryView::Mount { provenance, .. } => provenance,
            },
    {
        match self {
            Self::File { provenance, .. } => *provenance,
            Self::Directory { provenance, .. } => *provenance,
            Self::Mount { provenance, .. } => *provenance,
        }
    }
}

/// The number a provenance is written as in a digest: its place in
/// declaration order.
pub open spec fn provenance_code(provenance: SandboxFilesystemProvenance) -> u8 {
    match provenance {
        SandboxFilesystemProvenance::Workspace => 0,
        SandboxFilesystemProvenance::Runtime => 1,
        SandboxFilesystemProvenance::ProtectedMetadata => 2,
        SandboxFilesystemProvenance::Descendant => 3,
        SandboxFilesystemProvenance::Manifest => 4,
    }
}

/// The number an access is written as in a digest: its place in
/// declaration order.
pub open spec fn access_code(access: SandboxFilesystemAccess) -> u8 {
    match access {
        SandboxFilesystemAccess::Unreadable => 0,
        SandboxFilesystemAccess::ReadOnly => 1,
        SandboxFilesystemAccess::ReadWrite => 2,
        SandboxFilesystemAccess::Protected => 3,
    }
}

pub(crate) fn provenance_byte(provenance: SandboxFilesystemProvenance) -> (code: u8)
    ensures
        code == provenance_code(provenance),
{
    match provenance {
        SandboxFilesystemProvenance::Workspace => 0,
        SandboxFilesystemProvenance::Runtime => 1,
        SandboxFilesystemProvenance::ProtectedMetadata => 2,
        SandboxFilesystemProvenance::Descendant => 3,
        SandboxFilesystemProvenance::Manifest => 4,
    }
}

pub(crate) fn access_byte(access: SandboxFilesystemAccess) -> (code: u8)
    ensures
        code == access_code(access),
{
    match access {
        SandboxFilesystemAccess::Unreadable => 0,
        SandboxFilesystemAccess::ReadOnly => 1,
        SandboxFilesystemAccess::ReadWrite => 2,
        SandboxFilesystemAccess::Protected => 3,
    }
}

/// The domain a manifest digest is separated by: `crucible-sandbox-manifest-v1`
/// and a NUL.
pub open spec fn manifest_domain() -> Seq<u8> {
    seq![
        99u8, 114, 117, 99, 105, 98, 108, 101, 45, 115, 97, 110, 100, 98, 111, 120, 45, 109, 97,
        110, 105, 102, 101, 115, 116, 45, 118, 49, 0,
    ]
}

/// The bytes one entry contributes to a manifest digest: its kind, its
/// destination, a file's content hash or a mount's source, access and
/// provenance, with NUL separators.
pub open spec fn entry_framing(entry: ManifestEntryView) -> Seq<u8> {
    match entry {
        ManifestEntryView::File { destination, contents, provenance } => seq![
            102u8,
            105,
            108,
            101,
            0,
        ] + encode_utf8(destination) + seq![0u8] + sha256_of(contents) + seq![
            provenance_code(provenance),
        ],
        ManifestEntryView::Directory { destination, provenance } => seq![
            100u8,
            105,
            114,
            101,
            99,
            116,
            111,
            114,
            121,
            0,
        ] + encode_utf8(destination) + seq![0u8, provenance_code(provenance)],
        ManifestEntryView::Mount { source, destination, access, provenance } => seq![
            109u8,
            111,
            117,
            110,
            116,
            0,
        ] + encode_utf8(source) + seq![0u8] + encode_utf8(destination) + seq![
            0u8,
            access_code(access),
            provenance_code(provenance),
        ],
    }
}

/// The bytes a manifest digest is taken over: the domain, then each entry's
/// framing in order.
pub open spec fn manifest_framing(entries: Seq<ManifestEntryView>) -> Seq<u8>
    decreases entries.len(),
{
    if entries.len() == 0 {
        manifest_domain()
    } else {
        manifest_framing(entries.drop_last()) + entry_framing(entries.last())
    }
}

pub(crate) fn push_all(out: &mut Vec<u8>, bytes: &[u8])
    ensures
        final(out)@ == old(out)@ + bytes@,
{
    let mut i: usize = 0;
    while i < bytes.len()
        invariant
            i <= bytes@.len(),
            out@ == old(out)@ + bytes@.take(i as int),
        decreases bytes@.len() - i,
    {
        out.push(bytes[i]);
        assert(bytes@.take(i as int + 1) =~= bytes@.take(i as int).push(bytes@[i as int]));
        i = i + 1;
    }
    assert(bytes@.take(bytes@.len() as int) =~= bytes@);
}

fn frame_entry(out: &mut Vec<u8>, entry: &SandboxManifestEntry)
    ensures
        final(out)@ == old(out)@ + entry_framing(entry@),
{
    let ghost start = out@;
    match entry {
        SandboxManifestEntry::File { destination, contents, provenance } => {
            let kind: Vec<u8> = vec![102u8, 105, 108, 101, 0];
            push_all(out, kind.as_slice());
            push_all(out, destination.as_str().as_bytes());
            out.push(0u8);
            let hash = sha256(contents.as_slice());
            push_all(out, hash.as_slice());
            out.push(provenance_byte(*provenance));
            assert(out@ =~= start + entry_framing(entry@));
        },
        SandboxManifestEntry::Directory { destination, provenance } => {
            let kind: Vec<u8> = vec![100u8, 105, 114, 101, 99, 116, 111, 114, 121, 0];
            push_all(out, kind.as_slice());
            push_all(out, destination.as_str().as_bytes());
            out.push(0u8);
            out.push(provenance_byte(*provenance));
            assert(out@ =~= start + entry_framing(entry@));
        },
        SandboxManifestEntry::Mount { source, destination, access, provenance } => {
            let kind: Vec<u8> = vec![109u8, 111, 117, 110, 116, 0];
            push_all(out, kind.as_slice());
            push_all(out, source.as_str().as_bytes());
            out.push(0u8);
            push_all(out, destination.as_str().as_bytes());
            out.push(0u8);
            out.push(access_byte(*access));
            out.push(provenance_byte(*provenance));
            assert(out@ =~= start + entry_framing(entry@));
        },
    }
}

/// The contents of a sequence of entries.
pub open spec fn entry_views(entries: Seq<SandboxManifestEntry>) -> Seq<ManifestEntryView> {
    Seq::new(entries.len(), |i: int| entries[i]@)
}

fn digest(entries: &Vec<SandboxManifestEntry>) -> (digest: [u8; 32])
    ensures
        digest@ == sha256_of(manifest_framing(entry_views(entries@))),
{
    let mut bytes: Vec<u8> = vec![
        99u8, 114, 117, 99, 105, 98, 108, 101, 45, 115, 97, 110, 100, 98, 111, 120, 45, 109, 97,
        110, 105, 102, 101, 115, 116, 45, 118, 49, 0,
    ];
    assert(bytes@ =~= manifest_domain());
    let mut i: usize = 0;
    while i < entries.len()
        invariant
            i <= entries@.len(),
            bytes@ == manifest_framing(entry_views(entries@).take(i as int)),
        decreases entries@.len() - i,
    {
        frame_entry(&mut bytes, &entries[i]);
        assert(entry_views(entries@).take(i as int + 1).drop_last() =~= entry_views(entries@).take(
            i as int,
        ));
        i = i + 1;
    }
    assert(entry_views(entries@).take(entries@.len() as int) =~= entry_views(entries@));
    sha256(bytes.as_slice())
}

/// Destinations ascending part by part.
pub open spec fn destination_before(a: ManifestEntryView, b: ManifestEntryView) -> bool {
    parts_before(path_parts(destination_of(a)), path_parts(destination_of(b)))
}

/// What the entries carry inline together, held at the top of `usize` as a
/// running saturating sum is.
pub open spec fn inline_total(entries: Seq<ManifestEntryView>) -> int
    decreases entries.len(),
{
    if entries.len() == 0 {
        0
    } else {
        let sum = inline_total(entries.drop_last()) + inline_bytes(entries.last());
        if sum > usize::MAX {
            usize::MAX as int
        } else {
            sum
        }
    }
}

/// Whether two entries name one destination.
pub open spec fn shares_destination(entries: Seq<ManifestEntryView>) -> bool {
    exists|i: int, j: int|
        0 <= i < j < entries.len() && path_parts(destination_of(#[trigger] entries[i]))
            == path_parts(destination_of(#[trigger] entries[j]))
}

/// Whether an entry other than a directory sits at a destination above
/// another entry's.
pub open spec fn hides_descendant(entries: Seq<ManifestEntryView>) -> bool {
    exists|i: int, j: int|
        0 <= i < entries.len() && 0 <= j < entries.len() && i != j && !(#[trigger] entries[i] is Directory)
            && parts_start_with(
            path_parts(destination_of(#[trigger] entries[j])),
            path_parts(destination_of(entries[i])),
        )
}

/// Why a set of entries cannot be a manifest, checked in this order: too
/// many entries, too many inline bytes, one destination twice, a
/// non-directory above another entry.
pub open spec fn manifest_refusal(entries: Seq<ManifestEntryView>) -> Option<SandboxManifestError> {
    if entries.len() > MAX_SANDBOX_MANIFEST_ENTRIES {
        Some(SandboxManifestError::TooManyEntries)
    } else if inline_total(entries) > MAX_SANDBOX_MANIFEST_BYTES {
        Some(SandboxManifestError::ManifestTooLarge)
    } else if shares_destination(entries) {
        Some(SandboxManifestError::DuplicateDestination)
    } else if hides_descendant(entries) {
        Some(SandboxManifestError::OverlappingDestination)
    } else {
        None
    }
}

/// Canonical ordered materialization plan.
#[derive(Clone, PartialEq, Eq)]
pub struct SandboxManifest {
    entries: Vec<SandboxManifestEntry>,
    digest: [u8; 32],
}

/// The content of a manifest: its entries in order, and its digest.
pub struct ManifestView {
    pub entries: Seq<ManifestEntryView>,
    pub digest: Seq<u8>,
}

impl View for SandboxManifest {
    type V = ManifestView;

    closed spec fn view(&self) -> ManifestView {
        ManifestView { entries: entry_views(self.entries@), digest: self.digest@ }
    }
}

/// The order a manifest keeps its entries in is a strict order.
pub proof fn lemma_destination_order_is_strict()
    ensures
        strict_order(|a: ManifestEntryView, b: ManifestEntryView| destination_before(a, b)),
{
    lemma_parts_order_strict_total();
    let parts = |x: Seq<Seq<char>>, y: Seq<Seq<char>>| parts_before(x, y);
    assert(strict_total(parts));
    let order = |a: ManifestEntryView, b: ManifestEntryView| destination_before(a, b);
    assert forall|a: ManifestEntryView| !#[trigger] order(a, a) by {
        assert(!parts(path_parts(destination_of(a)), path_parts(destination_of(a))));
    }
    assert forall|a: ManifestEntryView, b: ManifestEntryView, c: ManifestEntryView|
        #[trigger] order(a, b) && #[trigger] order(b, c) implies order(a, c) by {
        let (pa, pb, pc) = (
            path_parts(destination_of(a)),
            path_parts(destination_of(b)),
            path_parts(destination_of(c)),
        );
        assert(parts(pa, pb) && parts(pb, pc));
    }
}

impl SandboxManifest {
    /// An empty manifest for a command that uses only mounted workspace roots.
    pub fn empty() -> (manifest: Self)
        ensures
            manifest@.entries.len() == 0,
            manifest@.digest == sha256_of(manifest_framing(Seq::empty())),
    {
        let entries: Vec<SandboxManifestEntry> = Vec::new();
        let digest = digest(&entries);
        assert(entry_views(entries@) =~= Seq::<ManifestEntryView>::empty());
        Self { entries, digest }
    }

    /// Validates, orders, and digests inert entries without touching sources.
    pub fn new(entries: Vec<SandboxManifestEntry>) -> (manifest: Result<Self, SandboxManifestError>)
        ensures
            ({
                let given = entry_views(entries@);
                &&& manifest_refusal(given) matches Some(e) ==> manifest == Err::<Self, _>(e)
                &&& manifest_refusal(given) is None ==> (manifest matches Ok(m) && ascending_by(
                    m@.entries,
                    |a: ManifestEntryView, b: ManifestEntryView| destination_before(a, b),
                ) && m@.entries.len() == given.len() && (forall|x: ManifestEntryView|
                    m@.entries.contains(x) <==> #[trigger] given.contains(x)) && m@.digest
                    == sha256_of(manifest_framing(m@.entries)))
            }),
    {
        let ghost given = entry_views(entries@);
        if entries.len() > MAX_SANDBOX_MANIFEST_ENTRIES {
            return Err(SandboxManifestError::TooManyEntries);
        }
        let mut bytes: usize = 0;
        let mut i: usize = 0;
        while i < entries.len()
            invariant
                given == entry_views(entries@),
                i <= entries@.len(),
                bytes == inline_total(given.take(i as int)),
            decreases entries@.len() - i,
        {
            let size: usize = match &entries[i] {
                SandboxManifestEntry::File { contents, .. } => contents.len(),
                _ => 0,
            };
            assert(given.take(i as int + 1).drop_last() =~= given.take(i as int));
            bytes = bytes.saturating_add(size);
            i = i + 1;
        }
        assert(given.take(given.len() as int) =~= given);
        if bytes > MAX_SANDBOX_MANIFEST_BYTES {
            return Err(SandboxManifestError::ManifestTooLarge);
        }

        let mut parts: Vec<Vec<Vec<char>>> = Vec::new();
        let mut k: usize = 0;
        while k < entries.len()
            invariant
                given == entry_views(entries@),
                k <= entries@.len(),
                parts@.len() == k,
                forall|m: int| 0 <= m < k ==> char_runs(#[trigger] parts@[m]@) == path_parts(destination_of(given[m])),
            decreases entries@.len() - k,
        {
            parts.push(parts_of(entries[k].destination()));
            k = k + 1;
        }

        let mut j: usize = 0;
        while j < entries.len()
            invariant
                given == entry_views(entries@),
                given.len() <= MAX_SANDBOX_MANIFEST_ENTRIES,
                inline_total(given) <= MAX_SANDBOX_MANIFEST_BYTES,
                j <= entries@.len(),
                parts@.len() == entries@.len(),
                forall|m: int| 0 <= m < entries@.len() ==> char_runs(#[trigger] parts@[m]@) == path_parts(destination_of(given[m])),
                forall|a: int, b: int| 0 <= a < b < j ==> path_parts(destination_of(#[trigger] given[a])) != path_parts(destination_of(#[trigger] given[b])),
            decreases entries@.len() - j,
        {
            let mut a: usize = 0;
            while a < j
                invariant
                    given == entry_views(entries@),
                    given.len() <= MAX_SANDBOX_MANIFEST_ENTRIES,
                    inline_total(given) <= MAX_SANDBOX_MANIFEST_BYTES,
                    a <= j < entries@.len(),
                    parts@.len() == entries@.len(),
                    forall|m: int| 0 <= m < entries@.len() ==> char_runs(#[trigger] parts@[m]@) == path_parts(destination_of(given[m])),
                    forall|x: int, y: int| 0 <= x < y < j ==> path_parts(destination_of(#[trigger] given[x])) != path_parts(destination_of(#[trigger] given[y])),
                    forall|x: int| 0 <= x < a ==> path_parts(destination_of(#[trigger] given[x])) != path_parts(destination_of(given[j as int])),
                decreases j - a,
            {
                if same_path(&parts[a], &parts[j]) {
                    assert(path_parts(destination_of(given[a as int])) == path_parts(destination_of(given[j as int])));
                    assert(shares_destination(given));
                    return Err(SandboxManifestError::DuplicateDestination);
                }
                a = a + 1;
            }
            j = j + 1;
        }
        assert(!shares_destination(given));

        let mut above: usize = 0;
        while above < entries.len()
            invariant
                given == entry_views(entries@),
                given.len() <= MAX_SANDBOX_MANIFEST_ENTRIES,
                inline_total(given) <= MAX_SANDBOX_MANIFEST_BYTES,
                !shares_destination(given),
                above <= entries@.len(),
                parts@.len() == entries@.len(),
                forall|m: int| 0 <= m < entries@.len() ==> char_runs(#[trigger] parts@[m]@) == path_parts(destination_of(given[m])),
                forall|x: int, y: int|
                    0 <= x < above && 0 <= y < entries@.len() && x != y && !(#[trigger] given[x] is Directory) ==> !parts_start_with(
                        path_parts(destination_of(#[trigger] given[y])),
                        path_parts(destination_of(given[x])),
                    ),
            decreases entries@.len() - above,
        {
            let is_directory = match &entries[above] {
                SandboxManifestEntry::Directory { .. } => true,
                _ => false,
            };
            if !is_directory {
                let mut below: usize = 0;
                while below < entries.len()
                    invariant
                        given == entry_views(entries@),
                        given.len() <= MAX_SANDBOX_MANIFEST_ENTRIES,
                        inline_total(given) <= MAX_SANDBOX_MANIFEST_BYTES,
                        !shares_destination(given),
                        above < entries@.len(),
                        !(given[above as int] is Directory),
                        below <= entries@.len(),
                        parts@.len() == entries@.len(),
                        forall|m: int| 0 <= m < entries@.len() ==> char_runs(#[trigger] parts@[m]@) == path_parts(destination_of(given[m])),
                        forall|y: int| 0 <= y < below && y != above ==> !parts_start_with(
                            path_parts(destination_of(#[trigger] given[y])),
                            path_parts(destination_of(given[above as int])),
                        ),
                    decreases entries@.len() - below,
                {
                    if below != above && path_starts_with(&parts[below], &parts[above]) {
                        assert(hides_descendant(given)) by {
                            assert(parts_start_with(
                                path_parts(destination_of(given[below as int])),
                                path_parts(destination_of(given[above as int])),
                            ));
                        }
                        return Err(SandboxManifestError::OverlappingDestination);
                    }
                    below = below + 1;
                }
            }
            above = above + 1;
        }
        assert(!hides_descendant(given));

        let ghost order = |a: ManifestEntryView, b: ManifestEntryView| destination_before(a, b);
        proof {
            lemma_destination_order_is_strict();
            lemma_parts_order_strict_total();
        }
        let mut remaining = entries;
        let mut remaining_parts = parts;
        let mut sorted: Vec<SandboxManifestEntry> = Vec::new();
        let mut sorted_parts: Vec<Vec<Vec<char>>> = Vec::new();
        let mut taken: usize = 0;
        while remaining.len() > 0
            invariant
                strict_order(order),
                order == (|a: ManifestEntryView, b: ManifestEntryView| destination_before(a, b)),
                given.len() <= MAX_SANDBOX_MANIFEST_ENTRIES,
                strict_total(|a: Seq<Seq<char>>, b: Seq<Seq<char>>| parts_before(a, b)),
                !shares_destination(given),
                taken + remaining@.len() == given.len(),
                entry_views(remaining@) == given.skip(taken as int),
                remaining_parts@.len() == remaining@.len(),
                forall|m: int| 0 <= m < remaining@.len() ==> char_runs(#[trigger] remaining_parts@[m]@) == path_parts(destination_of(remaining@[m]@)),
                sorted_parts@.len() == sorted@.len(),
                forall|m: int| 0 <= m < sorted@.len() ==> char_runs(#[trigger] sorted_parts@[m]@) == path_parts(destination_of(sorted@[m]@)),
                ascending_by(entry_views(sorted@), order),
                sorted@.len() == taken,
                forall|x: ManifestEntryView| entry_views(sorted@).contains(x) <==> #[trigger] given.take(taken as int).contains(x),
            decreases remaining@.len(),
        {
            let ghost before_remaining = remaining@;
            let entry = remaining.remove(0);
            let entry_parts = remaining_parts.remove(0);
            let ghost before_sorted = entry_views(sorted@);
            proof {
                assert(entry_views(before_remaining)[0] == entry@);
                assert(entry@ == given[taken as int]);
                assert(entry_views(remaining@) =~= given.skip(taken as int + 1)) by {
                    assert(remaining@ =~= before_remaining.remove(0));
                    assert forall|m: int| 0 <= m < remaining@.len() implies entry_views(remaining@)[m] == given.skip(taken as int + 1)[m] by {
                        assert(remaining@[m] == before_remaining[m + 1]);
                        assert(entry_views(before_remaining)[m + 1] == given.skip(taken as int)[m + 1]);
                    }
                }
            }
            let mut at: usize = 0;
            while at < sorted.len() && path_before(&sorted_parts[at], &entry_parts)
                invariant
                    at <= sorted@.len(),
                    sorted_parts@.len() == sorted@.len(),
                    forall|m: int| 0 <= m < sorted@.len() ==> char_runs(#[trigger] sorted_parts@[m]@) == path_parts(destination_of(sorted@[m]@)),
                    char_runs(entry_parts@) == path_parts(destination_of(entry@)),
                    forall|m: int| 0 <= m < at ==> destination_before(#[trigger] entry_views(sorted@)[m], entry@),
                decreases sorted@.len() - at,
            {
                assert(entry_views(sorted@)[at as int] == sorted@[at as int]@);
                at = at + 1;
            }
            proof {
                if (at as int) < sorted@.len() {
                    let other = sorted@[at as int]@;
                    assert(entry_views(sorted@)[at as int] == other);
                    assert(before_sorted.contains(other));
                    assert(given.take(taken as int).contains(other));
                    let m = choose|m: int| 0 <= m < taken && given.take(taken as int)[m] == other;
                    assert(given[m] == other);
                    assert(path_parts(destination_of(given[m])) != path_parts(destination_of(given[taken as int])));
                    assert(!destination_before(other, entry@));
                    let p = |a: Seq<Seq<char>>, b: Seq<Seq<char>>| parts_before(a, b);
                    assert(p(path_parts(destination_of(entry@)), path_parts(destination_of(other))) || p(
                        path_parts(destination_of(other)),
                        path_parts(destination_of(entry@)),
                    ));
                    assert(destination_before(entry@, other));
                    assert(order(entry@, before_sorted[at as int]));
                }
                assert forall|m: int| 0 <= m < at implies order(#[trigger] before_sorted[m], entry@) by {
                    assert(destination_before(before_sorted[m], entry@));
                }
                lemma_insert_ascending_by(before_sorted, at as int, entry@, order);
            }
            sorted.insert(at, entry);
            sorted_parts.insert(at, entry_parts);
            proof {
                assert(entry_views(sorted@) =~= before_sorted.insert(at as int, given[taken as int]));
                let now = entry_views(sorted@);
                let was = given.take(taken as int);
                assert(given.take(taken as int + 1) =~= was.push(given[taken as int]));
                assert forall|x: ManifestEntryView| now.contains(x) <==> #[trigger] was.push(given[taken as int]).contains(x) by {
                    if now.contains(x) {
                        let k = choose|k: int| 0 <= k < now.len() && now[k] == x;
                        if k < at {
                            assert(before_sorted[k] == x);
                            assert(before_sorted.contains(x));
                            assert(was.contains(x));
                            let q = choose|q: int| 0 <= q < was.len() && was[q] == x;
                            assert(was.push(given[taken as int])[q] == x);
                        } else if k > at {
                            assert(before_sorted[k - 1] == x);
                            assert(before_sorted.contains(x));
                            assert(was.contains(x));
                            let q = choose|q: int| 0 <= q < was.len() && was[q] == x;
                            assert(was.push(given[taken as int])[q] == x);
                        } else {
                            assert(was.push(given[taken as int])[was.len() as int] == x);
                        }
                    }
                    if was.push(given[taken as int]).contains(x) {
                        let k = choose|k: int| 0 <= k < was.len() + 1 && was.push(given[taken as int])[k] == x;
                        if k < was.len() {
                            assert(was[k] == x);
                            assert(was.contains(x));
                            assert(before_sorted.contains(x));
                            let q = choose|q: int| 0 <= q < before_sorted.len() && before_sorted[q] == x;
                            if q < at {
                                assert(now[q] == x);
                            } else {
                                assert(now[q + 1] == x);
                            }
                        } else {
                            assert(now[at as int] == x);
                        }
                    }
                }
            }
            taken = taken + 1;
        }
        proof {
            assert(given.take(given.len() as int) =~= given);
        }
        let digest = digest(&sorted);
        Ok(Self { entries: sorted, digest })
    }

    /// Ordered entries.
    pub fn entries(&self) -> (entries: &[SandboxManifestEntry])
        ensures
            entry_views(entries@) == self@.entries,
    {
        self.entries.as_slice()
    }

    /// Domain-separated digest over kinds, destinations, bytes, sources,
    /// modes, and provenance.
    pub fn digest(&self) -> (digest: [u8; 32])
        ensures
            digest@ == self@.digest,
    {
        self.digest
    }

    /// Whether materialization has no entries.
    pub fn is_empty(&self) -> (empty: bool)
        ensures
            empty == (self@.entries.len() == 0),
    {
        self.entries.len() == 0
    }
}

impl Default for SandboxManifest {
    fn default() -> (manifest: Self)
        ensures
            manifest@.entries.len() == 0,
            manifest@.digest == sha256_of(manifest_framing(Seq::empty())),
    {
        Self::empty()
    }
}

/// A manifest does not depend on the order its entries were given in: two
/// sets of entries with the same members that both make manifests make the
/// same one, with the same digest.
pub proof fn lemma_manifest_is_canonical(
    first: Seq<ManifestEntryView>,
    second: Seq<ManifestEntryView>,
    a: ManifestView,
    b: ManifestView,
)
    requires
        forall|x: ManifestEntryView| first.contains(x) <==> #[trigger] second.contains(x),
        ascending_by(a.entries, |p: ManifestEntryView, q: ManifestEntryView| destination_before(p, q)),
        ascending_by(b.entries, |p: ManifestEntryView, q: ManifestEntryView| destination_before(p, q)),
        forall|x: ManifestEntryView| a.entries.contains(x) <==> #[trigger] first.contains(x),
        forall|x: ManifestEntryView| b.entries.contains(x) <==> #[trigger] second.contains(x),
        a.digest == sha256_of(manifest_framing(a.entries)),
        b.digest == sha256_of(manifest_framing(b.entries)),
    ensures
        a.entries == b.entries,
        a.digest == b.digest,
{
    lemma_destination_order_is_strict();
    assert forall|x: ManifestEntryView| a.entries.contains(x) <==> #[trigger] b.entries.contains(x) by {
        if a.entries.contains(x) {
            assert(first.contains(x));
            assert(second.contains(x));
        }
        if b.entries.contains(x) {
            assert(second.contains(x));
            assert(first.contains(x));
        }
    }
    lemma_ascending_order_is_unique(
        a.entries,
        b.entries,
        |p: ManifestEntryView, q: ManifestEntryView| destination_before(p, q),
    );
}

/// Why an inert manifest was rejected.
#[derive(Debug, Clone, Copy, PartialEq, Eq, Structural)]
pub enum SandboxManifestError {
    /// Destinations are bounded relative paths made only of normal components.
    InvalidDestination,
    /// Sources are bounded normalized absolute paths other than host root.
    InvalidSource,
    /// Inline files are individually bounded.
    FileTooLarge,
    /// The aggregate manifest is bounded.
    ManifestTooLarge,
    /// Entry count is bounded.
    TooManyEntries,
    /// One destination has one owner.
    DuplicateDestination,
    /// Only a directory entry may own a destination above another entry.
    OverlappingDestination,
    /// Protected/unreadable are policy carve-outs, not mount grants.
    InvalidMountAccess,
}

/// The sentence a manifest refusal reads as.
pub open spec fn manifest_error_text(error: SandboxManifestError) -> Seq<char> {
    match error {
        SandboxManifestError::InvalidDestination =>
            "sandbox manifest destination must be a bounded relative path without traversal"@,
        SandboxManifestError::InvalidSource =>
            "sandbox manifest source must be a bounded normalized absolute path below host root"@,
        SandboxManifestError::FileTooLarge => "sandbox manifest file exceeds 262144 bytes"@,
        SandboxManifestError::ManifestTooLarge => "sandbox manifest exceeds 1048576 inline bytes"@,
        SandboxManifestError::TooManyEntries => "sandbox manifest exceeds 256 entries"@,
        SandboxManifestError::DuplicateDestination =>
            "sandbox manifest contains a duplicate destination"@,
        SandboxManifestError::OverlappingDestination =>
            "sandbox manifest contains an overlapping non-directory destination"@,
        SandboxManifestError::InvalidMountAccess =>
            "sandbox manifest mounts must be read-only or read-write"@,
    }
}

impl SandboxManifestError {
    /// The diagnostic sentence.
    pub fn message(&self) -> (text: &'static str)
        ensures
            text@ == manifest_error_text(*self),
    {
        match self {
            Self::InvalidDestination => "sandbox manifest destination must be a bounded relative path without traversal",
            Self::InvalidSource => "sandbox manifest source must be a bounded normalized absolute path below host root",
            Self::FileTooLarge => "sandbox manifest file exceeds 262144 bytes",
            Self::ManifestTooLarge => "sandbox manifest exceeds 1048576 inline bytes",
            Self::TooManyEntries => "sandbox manifest exceeds 256 entries",
            Self::DuplicateDestination => "sandbox manifest contains a duplicate destination",
            Self::OverlappingDestination => "sandbox manifest contains an overlapping non-directory destination",
            Self::InvalidMountAccess => "sandbox manifest mounts must be read-only or read-write",
        }
    }
}

} // verus!
