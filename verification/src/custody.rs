//! Taking artifacts into custody: from a manifest's bytes, step by step, to a session.
//!
//! The steps are types, so that none can be skipped. A [`LoadRequest`] says what is expected. A
//! [`VerifiedManifest`] holds bytes with the expected digest. A [`CustodyPlan`] holds a manifest
//! that was admitted whole, and takes the artifacts in, one after the other, as they are read.
//! A plan with nothing left to read becomes a session.

use crate::cursor::Binding;
use crate::digest::{digest_verdict, hex_text, sha256, sha256_hex, validate_digest};
use crate::error::{invalid, outcome, BoundedReadError, Refusal};
use crate::files::{artifact_verdict, read_bounded_file, read_verified_artifact};
use crate::laws::taking_in_keeps_a_plan_valid;
use crate::limits::{MAX_ARTIFACTS, MAX_ARTIFACT_BYTES_TOTAL, MAX_MANIFEST_BYTES};
use crate::manifest::{entry_verdict, validate_entry_shape, EntryView, Manifest, ManifestEntry};
use crate::session::{fresh_admission, is_verified, BoundedReadSession, SessionView};
use crate::text::same_text;
use rand::RngCore;
use vstd::hash_map::StringHashMap;
use vstd::hash_set::StringHashSet;
use vstd::prelude::*;

verus! {

/// What is expected of a manifest: its digest, and whom it is for.
#[derive(Debug)]
pub struct LoadRequest {
    manifest_sha256: String,
    request_id: String,
    project_id: String,
    revision: String,
}

/// Bytes within the limit on a manifest that have the expected digest.
#[derive(Debug)]
pub struct VerifiedManifest {
    request: LoadRequest,
    bytes: Vec<u8>,
}

/// An admitted manifest, part of whose artifacts have been read and verified.
pub struct CustodyPlan {
    request: LoadRequest,
    pending: Vec<ManifestEntry>,
    loaded: StringHashMap<ManifestEntry>,
}

/// What a [`LoadRequest`] expects.
pub struct RequestView {
    pub manifest_sha256: Seq<char>,
    pub request_id: Seq<char>,
    pub project_id: Seq<char>,
    pub revision: Seq<char>,
}

/// What a [`VerifiedManifest`] holds.
pub struct VerifiedView {
    pub request: RequestView,
    pub bytes: Seq<u8>,
}

/// What a [`CustodyPlan`] holds.
#[verifier::ext_equal]
pub struct PlanView {
    pub request: RequestView,
    pub pending: Seq<EntryView>,
    pub loaded: Map<Seq<char>, EntryView>,
}

/// What a [`Manifest`] says.
pub struct ManifestView {
    pub schema: Seq<char>,
    pub request_id: Seq<char>,
    pub project_id: Seq<char>,
    pub revision: Seq<char>,
    pub entries: Seq<EntryView>,
}

impl View for LoadRequest {
    type V = RequestView;

    closed spec fn view(&self) -> RequestView {
        RequestView {
            manifest_sha256: self.manifest_sha256@,
            request_id: self.request_id@,
            project_id: self.project_id@,
            revision: self.revision@,
        }
    }
}

impl View for VerifiedManifest {
    type V = VerifiedView;

    closed spec fn view(&self) -> VerifiedView {
        VerifiedView { request: self.request@, bytes: self.bytes@ }
    }
}

/// What a sequence of entries says.
pub open spec fn entry_views(entries: Seq<ManifestEntry>) -> Seq<EntryView> {
    entries.map_values(|entry: ManifestEntry| entry@)
}

impl View for Manifest {
    type V = ManifestView;

    open spec fn view(&self) -> ManifestView {
        ManifestView {
            schema: self.schema@,
            request_id: self.request_id@,
            project_id: self.project_id@,
            revision: self.revision@,
            entries: entry_views(self.entries@),
        }
    }
}

impl View for CustodyPlan {
    type V = PlanView;

    closed spec fn view(&self) -> PlanView {
        PlanView {
            request: self.request@,
            pending: entry_views(self.pending@),
            loaded: self.loaded@.map_values(|entry: ManifestEntry| entry@),
        }
    }
}

/// How many bytes the first entries declare.
pub open spec fn total_size(entries: Seq<EntryView>, count: nat) -> nat
    decreases count,
{
    if count == 0 {
        0
    } else {
        total_size(entries, (count - 1) as nat) + entries[count - 1].size
    }
}

/// Whether two entries have an id or a path in common.
pub open spec fn clash(first: EntryView, second: EntryView) -> bool {
    first.path == second.path || first.artifact_id == second.artifact_id
}

/// Whether an entry clashes with one before it.
pub open spec fn repeats(entries: Seq<EntryView>, at: int) -> bool {
    exists|earlier: int| 0 <= earlier < at && #[trigger] clash(entries[earlier], entries[at])
}

/// What is wrong with an entry among those before it, if anything is.
pub open spec fn entry_at_verdict(entries: Seq<EntryView>, at: nat) -> Result<(), Refusal> {
    if entry_verdict(entries[at as int]) is Err {
        entry_verdict(entries[at as int])
    } else if total_size(entries, at + 1) > MAX_ARTIFACT_BYTES_TOTAL {
        Err(Refusal::InvalidCustody("aggregate artifact size exceeds limit"@))
    } else if repeats(entries, at as int) {
        Err(Refusal::InvalidCustody("duplicate artifact id or path"@))
    } else {
        Ok(())
    }
}

/// What is wrong with the first of the first entries with which something is wrong.
pub open spec fn entries_verdict(entries: Seq<EntryView>, count: nat) -> Result<(), Refusal>
    decreases count,
{
    if count == 0 {
        Ok(())
    } else if entries_verdict(entries, (count - 1) as nat) is Err {
        entries_verdict(entries, (count - 1) as nat)
    } else {
        entry_at_verdict(entries, (count - 1) as nat)
    }
}

/// Whether a manifest is of the known schema and for the expected request, project and revision.
pub open spec fn is_bound(request: RequestView, manifest: ManifestView) -> bool {
    &&& manifest.schema == "bounded-read-v1"@
    &&& manifest.request_id == request.request_id
    &&& manifest.project_id == request.project_id
    &&& manifest.revision == request.revision
}

/// What the check of a manifest finds.
pub open spec fn manifest_verdict(
    request: RequestView,
    manifest: ManifestView,
    has_parent: bool,
) -> Result<(), Refusal> {
    if !is_bound(request, manifest) {
        Err(Refusal::InvalidCustody("manifest binding mismatch"@))
    } else if !has_parent {
        Err(Refusal::InvalidCustody("manifest has no parent"@))
    } else if manifest.entries.len() > MAX_ARTIFACTS {
        Err(Refusal::InvalidCustody("too many artifacts"@))
    } else {
        entries_verdict(manifest.entries, manifest.entries.len())
    }
}

/// Whether entries are in order as a whole: each is well formed, together they are within the
/// limit, and no two have an id or a path in common.
pub open spec fn entries_in_order(entries: Seq<EntryView>) -> bool {
    &&& forall|i: int| 0 <= i < entries.len() ==> entry_verdict(#[trigger] entries[i]) is Ok
    &&& total_size(entries, entries.len()) <= MAX_ARTIFACT_BYTES_TOTAL
    &&& forall|i: int, j: int|
        0 <= i < j < entries.len() ==> !(#[trigger] clash(entries[i], entries[j]))
}

/// What the check of what is expected of a manifest finds: its digest must have the form of one, and
/// its path must be absolute.
pub open spec fn expectation_verdict(digest: Seq<char>, path_is_absolute: bool) -> Result<
    (),
    Refusal,
> {
    if digest_verdict(digest) is Err {
        digest_verdict(digest)
    } else if !path_is_absolute {
        Err(Refusal::InvalidCustody("manifest path is not absolute"@))
    } else {
        Ok(())
    }
}

/// What the check of a manifest's bytes finds: they must be within the limit on a manifest, and have
/// the expected digest.
pub open spec fn manifest_bytes_verdict(request: RequestView, bytes: Seq<u8>) -> Result<
    (),
    Refusal,
> {
    if bytes.len() > MAX_MANIFEST_BYTES {
        Err(Refusal::InvalidCustody("bounded file exceeds limit"@))
    } else if hex_text(sha256(bytes)) != request.manifest_sha256 {
        Err(Refusal::InvalidCustody("manifest digest mismatch"@))
    } else {
        Ok(())
    }
}

/// The plan that an admitted manifest begins with: all of it is still to be read.
pub open spec fn first_plan(request: RequestView, manifest: ManifestView) -> PlanView {
    PlanView { request, pending: manifest.entries, loaded: Map::empty() }
}

impl VerifiedView {
    /// What holds of verified bytes: they are within the limit on a manifest, and they have the
    /// digest that was expected.
    pub open spec fn valid(self) -> bool {
        &&& self.bytes.len() <= MAX_MANIFEST_BYTES
        &&& hex_text(sha256(self.bytes)) == self.request.manifest_sha256
    }
}

impl PlanView {
    /// What holds of a plan at all times: what is still to be read is well formed, nothing is
    /// declared twice, and what has been read is what was declared.
    pub open spec fn valid(self) -> bool {
        &&& forall|i: int|
            0 <= i < self.pending.len() ==> entry_verdict(#[trigger] self.pending[i]) is Ok
                && !self.loaded.contains_key(self.pending[i].artifact_id)
        &&& forall|i: int, j: int|
            0 <= i < j < self.pending.len() ==> !(#[trigger] clash(self.pending[i], self.pending[j]))
        &&& forall|id: Seq<char>| #[trigger]
            self.loaded.contains_key(id) ==> {
                &&& self.loaded[id].artifact_id == id
                &&& entry_verdict(self.loaded[id]) is Ok
                &&& is_verified(self.loaded[id])
            }
    }

    /// What binds the tokens of a session that the plan opens.
    pub open spec fn binding(self, nonce: Seq<u8>) -> Binding {
        Binding {
            nonce,
            manifest_sha256: self.request.manifest_sha256,
            request_id: self.request.request_id,
            project_id: self.request.project_id,
            revision: self.request.revision,
        }
    }

    /// The session that the plan opens, with its tokens bound to a nonce.
    pub open spec fn opened(self, started_at: nat, nonce: Seq<u8>) -> SessionView {
        SessionView {
            binding: self.binding(nonce),
            entries: self.loaded,
            started_at,
            admission: fresh_admission(),
        }
    }

    /// The plan once the next artifact has been taken in.
    pub open spec fn with_next(self, bytes: Seq<u8>) -> PlanView {
        let entry = self.pending[0];
        PlanView {
            pending: self.pending.drop_first(),
            loaded: self.loaded.insert(
                entry.artifact_id,
                EntryView { content: bytes, ..entry },
            ),
            ..self
        }
    }
}

impl VerifiedManifest {
    /// What holds of verified bytes at all times.
    pub open spec fn wf(&self) -> bool {
        self@.valid()
    }

    /// The bytes of the manifest.
    pub fn bytes(&self) -> (bytes: &[u8])
        ensures
            bytes@ == self@.bytes,
    {
        self.bytes.as_slice()
    }

    /// Admits the manifest that the bytes encode, before any of its artifacts is opened.
    pub fn admit_manifest(self, manifest: Manifest, has_parent: bool) -> (result: Result<
        CustodyPlan,
        BoundedReadError,
    >)
        ensures
            match manifest_verdict(self@.request, manifest@, has_parent) {
                Ok(_) => result matches Ok(plan) && plan.wf() && plan@ == first_plan(
                    self@.request,
                    manifest@,
                ),
                Err(refusal) => result matches Err(error) && error@ == refusal,
            },
    {
        let request: LoadRequest = self.request;
        if !same_text(manifest.schema.as_str(), "bounded-read-v1") || !same_text(
            manifest.request_id.as_str(),
            request.request_id.as_str(),
        ) || !same_text(manifest.project_id.as_str(), request.project_id.as_str()) || !same_text(
            manifest.revision.as_str(),
            request.revision.as_str(),
        ) {
            return Err(invalid("manifest binding mismatch"));
        }
        if !has_parent {
            return Err(invalid("manifest has no parent"));
        }
        if manifest.entries.len() > MAX_ARTIFACTS {
            return Err(invalid("too many artifacts"));
        }
        check_entries(&manifest.entries)?;
        let ghost entries = manifest@.entries;
        let plan = CustodyPlan {
            request,
            pending: manifest.entries,
            loaded: StringHashMap::new(),
        };
        proof {
            assert(plan@ =~= PlanView {
                request: self@.request,
                pending: entries,
                loaded: Map::empty(),
            });
            no_fault_means_in_order(entries);
        }
        Ok(plan)
    }
}

impl CustodyPlan {
    /// What holds of a plan at all times.
    pub open spec fn wf(&self) -> bool {
        self@.valid()
    }

    /// The entry of the artifact that is to be read next.
    pub fn next_entry(&self) -> (next: Option<&ManifestEntry>)
        ensures
            match next {
                Some(entry) => self@.pending.len() > 0 && entry@ == self@.pending[0],
                None => self@.pending.len() == 0,
            },
    {
        if self.pending.len() == 0 {
            None
        } else {
            Some(&self.pending[0])
        }
    }

    /// Takes in the bytes that were read of the next artifact, if they are what its entry declares.
    pub fn accept(&mut self, bytes: Vec<u8>) -> (result: Result<(), BoundedReadError>)
        requires
            old(self).wf(),
            old(self)@.pending.len() > 0,
        ensures
            final(self).wf(),
            outcome(result) == artifact_verdict(
                old(self)@.pending[0].size,
                old(self)@.pending[0].sha256,
                bytes@,
            ),
            final(self)@ == if result is Ok {
                old(self)@.with_next(bytes@)
            } else {
                old(self)@
            },
    {
        assert(self@.pending[0] == self.pending@[0]@);
        let content: Vec<u8> = read_verified_artifact(&self.pending[0], bytes)?;
        let mut entry: ManifestEntry = self.pending.remove(0);
        entry.content = content;
        let id: String = entry.artifact_id.clone();
        self.loaded.insert(id, entry);
        proof {
            assert(self@ =~= old(self)@.with_next(bytes@));
            taking_in_keeps_a_plan_valid(old(self)@, bytes@);
        }
        Ok(())
    }

    /// The session over the artifacts, once all of them have been taken in. Its tokens are bound
    /// to a nonce that is drawn at random.
    pub fn open(self, started_at: u128) -> (session: BoundedReadSession)
        requires
            self.wf(),
            self@.pending.len() == 0,
        ensures
            session.wf(),
            session@ == self@.opened(started_at as nat, session@.binding.nonce),
            session@.entries == self@.loaded,
            session@.started_at == started_at,
            session@.admission == fresh_admission(),
            session@.binding.nonce.len() == 32,
            session@.binding == self@.binding(session@.binding.nonce),
    {
        let nonce: [u8; 32] = fresh_nonce();
        self.open_with_nonce(started_at, nonce)
    }

    /// The session over the artifacts, once all of them have been taken in, with its tokens bound
    /// to a given nonce.
    pub fn open_with_nonce(self, started_at: u128, nonce: [u8; 32]) -> (session: BoundedReadSession)
        requires
            self.wf(),
            self@.pending.len() == 0,
        ensures
            session.wf(),
            session@ == self@.opened(started_at as nat, nonce@),
    {
        BoundedReadSession::begin(
            self.request.manifest_sha256,
            self.request.request_id,
            self.request.project_id,
            self.request.revision,
            self.loaded,
            nonce,
            started_at,
        )
    }
}

/// `rand::RngCore::fill_bytes` on `rand::rng()`: 32 random bytes. Nothing is said of which. It
/// panics where the operating system has no random numbers to give.
#[verifier::external_body]
fn fresh_nonce() -> (nonce: [u8; 32]) {
    let mut nonce: [u8; 32] = [0; 32];
    rand::rng().fill_bytes(&mut nonce);
    nonce
}

impl LoadRequest {
    /// Says what is expected of the manifest at a path. The digest must have the form of one, and
    /// the path must be absolute.
    pub fn new(
        expected_digest: &str,
        path_is_absolute: bool,
        request_id: String,
        project_id: String,
        revision: String,
    ) -> (result: Result<LoadRequest, BoundedReadError>)
        ensures
            match expectation_verdict(expected_digest@, path_is_absolute) {
                Ok(_) => result matches Ok(request) && request@ == (RequestView {
                    manifest_sha256: expected_digest@,
                    request_id: request_id@,
                    project_id: project_id@,
                    revision: revision@,
                }),
                Err(refusal) => result matches Err(error) && error@ == refusal,
            },
    {
        validate_digest(expected_digest)?;
        if !path_is_absolute {
            return Err(invalid("manifest path is not absolute"));
        }
        Ok(
            LoadRequest {
                manifest_sha256: expected_digest.to_owned(),
                request_id,
                project_id,
                revision,
            },
        )
    }

    /// Takes the manifest's bytes, if they are within the limit on a manifest and have the expected
    /// digest.
    pub fn verify_manifest(self, bytes: Vec<u8>) -> (result: Result<
        VerifiedManifest,
        BoundedReadError,
    >)
        ensures
            match manifest_bytes_verdict(self@, bytes@) {
                Ok(_) => result matches Ok(verified) && verified.wf() && verified@ == (VerifiedView {
                    request: self@,
                    bytes: bytes@,
                }),
                Err(refusal) => result matches Err(error) && error@ == refusal,
            },
    {
        let bytes: Vec<u8> = read_bounded_file(bytes, MAX_MANIFEST_BYTES)?;
        let digest = sha256_hex(bytes.as_slice());
        if !same_text(digest.as_str(), self.manifest_sha256.as_str()) {
            return Err(invalid("manifest digest mismatch"));
        }
        Ok(VerifiedManifest { request: self, bytes })
    }
}

/// Checks the entries of a manifest, one after the other.
fn check_entries(entries: &Vec<ManifestEntry>) -> (result: Result<(), BoundedReadError>)
    ensures
        outcome(result) == entries_verdict(entry_views(entries@), entries@.len()),
{
    let ghost all = entry_views(entries@);
    let mut declared_total: u64 = 0;
    let mut paths = StringHashSet::new();
    let mut ids = StringHashSet::new();
    let mut i: usize = 0;
    while i < entries.len()
        invariant
            i <= entries@.len(),
            all == entry_views(entries@),
            declared_total == total_size(all, i as nat),
            declared_total <= MAX_ARTIFACT_BYTES_TOTAL,
            forall|path: Seq<char>| #[trigger]
                paths@.contains(path) <==> exists|j: int|
                    0 <= j < i && (#[trigger] all[j]).path == path,
            forall|id: Seq<char>| #[trigger]
                ids@.contains(id) <==> exists|j: int|
                    0 <= j < i && (#[trigger] all[j]).artifact_id == id,
            entries_verdict(all, i as nat) is Ok,
        decreases entries@.len() - i,
    {
        let entry: &ManifestEntry = &entries[i];
        assert(all[i as int] == entry@);
        i = i + 1;
        match validate_entry_shape(entry) {
            Ok(_) => {},
            Err(error) => {
                proof {
                    first_fault_is_reported(all, (i - 1) as nat);
                }
                return Err(error);
            },
        }
        declared_total = declared_total + entry.size;
        if declared_total > MAX_ARTIFACT_BYTES_TOTAL {
            proof {
                first_fault_is_reported(all, (i - 1) as nat);
            }
            return Err(invalid("aggregate artifact size exceeds limit"));
        }
        let ghost known_paths = paths@;
        let ghost known_ids = ids@;
        let new_path: bool = paths.insert(entry.path.clone());
        let new_id: bool = ids.insert(entry.artifact_id.clone());
        if !new_path || !new_id {
            proof {
                let at = i - 1;
                if !new_path {
                    let j = choose|j: int| 0 <= j < at && (#[trigger] all[j]).path == entry.path@;
                    assert(clash(all[j], all[at]));
                } else {
                    let j = choose|j: int|
                        0 <= j < at && (#[trigger] all[j]).artifact_id == entry.artifact_id@;
                    assert(clash(all[j], all[at]));
                }
                first_fault_is_reported(all, at as nat);
            }
            return Err(invalid("duplicate artifact id or path"));
        }
        proof {
            let at = i - 1;
            assert(!repeats(all, at)) by {
                if repeats(all, at) {
                    let j = choose|j: int| 0 <= j < at && #[trigger] clash(all[j], all[at]);
                    assert(known_paths.contains(all[j].path) && known_ids.contains(
                        all[j].artifact_id,
                    ));
                }
            }
            assert forall|path: Seq<char>| #[trigger]
                paths@.contains(path) <==> exists|j: int|
                    0 <= j < i && (#[trigger] all[j]).path == path by {
                if exists|j: int| 0 <= j < i && (#[trigger] all[j]).path == path {
                    let j = choose|j: int| 0 <= j < i && (#[trigger] all[j]).path == path;
                    if j < at {
                        assert(known_paths.contains(path));
                    }
                }
                if path == entry.path@ {
                    assert(all[at].path == path);
                }
            }
            assert forall|id: Seq<char>| #[trigger]
                ids@.contains(id) <==> exists|j: int|
                    0 <= j < i && (#[trigger] all[j]).artifact_id == id by {
                if exists|j: int| 0 <= j < i && (#[trigger] all[j]).artifact_id == id {
                    let j = choose|j: int| 0 <= j < i && (#[trigger] all[j]).artifact_id == id;
                    if j < at {
                        assert(known_ids.contains(id));
                    }
                }
                if id == entry.artifact_id@ {
                    assert(all[at].artifact_id == id);
                }
            }
        }
    }
    Ok(())
}

/// Entries up to some point with which nothing is wrong are each in order among those before them.
proof fn no_fault_up_to(entries: Seq<EntryView>, count: nat)
    ensures
        entries_verdict(entries, count) is Ok <==> forall|at: int|
            0 <= at < count ==> #[trigger] entry_at_verdict(entries, at as nat) is Ok,
    decreases count,
{
    if count > 0 {
        no_fault_up_to(entries, (count - 1) as nat);
        assert(entry_at_verdict(entries, ((count - 1) as int) as nat) == entry_at_verdict(
            entries,
            (count - 1) as nat,
        ));
    }
}

/// More entries declare no fewer bytes.
proof fn total_size_grows(entries: Seq<EntryView>, few: nat, many: nat)
    requires
        few <= many,
    ensures
        total_size(entries, few) <= total_size(entries, many),
    decreases many,
{
    if few < many {
        total_size_grows(entries, few, (many - 1) as nat);
    }
}

/// The entry-by-entry check finds nothing wrong with entries exactly where they are in order as a
/// whole.
pub proof fn no_fault_means_in_order(entries: Seq<EntryView>)
    ensures
        entries_verdict(entries, entries.len()) is Ok <==> entries_in_order(entries),
{
    no_fault_up_to(entries, entries.len());
    if entries_verdict(entries, entries.len()) is Ok {
        assert forall|i: int| 0 <= i < entries.len() implies entry_verdict(
            #[trigger] entries[i],
        ) is Ok by {
            assert(entry_at_verdict(entries, i as nat) is Ok);
        }
        assert forall|i: int, j: int| 0 <= i < j < entries.len() implies !(#[trigger] clash(
            entries[i],
            entries[j],
        )) by {
            assert(entry_at_verdict(entries, j as nat) is Ok);
        }
        if entries.len() > 0 {
            assert(entry_at_verdict(entries, (entries.len() - 1) as nat) is Ok);
        }
    }
    if entries_in_order(entries) {
        assert forall|at: int| 0 <= at < entries.len() implies #[trigger] entry_at_verdict(
            entries,
            at as nat,
        ) is Ok by {
            assert(entry_verdict(entries[at]) is Ok);
            total_size_grows(entries, (at + 1) as nat, entries.len());
        }
    }
}

/// What is wrong with the first faulty entry is what is found of all entries.
proof fn first_fault_is_reported(entries: Seq<EntryView>, at: nat)
    requires
        at < entries.len(),
        entries_verdict(entries, at) is Ok,
        entry_at_verdict(entries, at) is Err,
    ensures
        entries_verdict(entries, entries.len()) == entry_at_verdict(entries, at),
{
    fault_stays(entries, at, entries.len());
}

/// A fault among some entries is the fault found of any more entries.
proof fn fault_stays(entries: Seq<EntryView>, at: nat, count: nat)
    requires
        at < count,
        entries_verdict(entries, at) is Ok,
        entry_at_verdict(entries, at) is Err,
    ensures
        entries_verdict(entries, count) == entry_at_verdict(entries, at),
    decreases count,
{
    if count > at + 1 {
        fault_stays(entries, at, (count - 1) as nat);
    }
}

} // verus!
