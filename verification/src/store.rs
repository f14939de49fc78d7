//! The blob store: write-once persistence of blobs under share identifiers.
//!
//! A blob is stored under an identifier exactly once: a second create under
//! the same identifier fails with `ShareError::AlreadyExists`, which is the
//! system's only collision guard.  Reads are by identifier, any number of
//! times, incrementally if wanted; a stored blob is never mutated.  An upload
//! arriving in chunks stays in a `PendingUpload` until it is committed, so a
//! partial write never leaves a readable blob behind.
//!
//! The store here keeps the discipline over an in-memory table; persisting
//! the same bytes on a filesystem is left to the unverified edge.

use crate::errors::ShareError;
use crate::share_id::ShareId;
use vstd::prelude::*;

verus! {

/// What create does to the store's contents: nothing but an error when the
/// identifier is already bound, a binding of the blob to it otherwise.
pub open spec fn spec_create(
    m: Map<Seq<char>, Seq<u8>>,
    id: Seq<char>,
    blob: Seq<u8>,
) -> Result<Map<Seq<char>, Seq<u8>>, ShareError> {
    if m.dom().contains(id) {
        Err(ShareError::AlreadyExists)
    } else {
        Ok(m.insert(id, blob))
    }
}

/// What open returns: the blob bound to the identifier, or an error when
/// nothing is bound to it.
pub open spec fn spec_open(m: Map<Seq<char>, Seq<u8>>, id: Seq<char>) -> Result<
    Seq<u8>,
    ShareError,
> {
    if m.dom().contains(id) {
        Ok(m[id])
    } else {
        Err(ShareError::NotFound)
    }
}

/// The window of `blob` that starts at `offset` and holds at most `max_len`
/// bytes.
pub open spec fn spec_chunk(blob: Seq<u8>, offset: nat, max_len: nat) -> Seq<u8> {
    if offset >= blob.len() {
        Seq::empty()
    } else if offset + max_len <= blob.len() {
        blob.subrange(offset as int, (offset + max_len) as int)
    } else {
        blob.subrange(offset as int, blob.len() as int)
    }
}

/// The contents of an entry table, later entries shadowing earlier ones
/// (well-formed tables have no two entries under one identifier).
pub closed spec fn map_of(entries: Seq<(ShareId, Vec<u8>)>) -> Map<Seq<char>, Seq<u8>>
    decreases entries.len(),
{
    if entries.len() == 0 {
        Map::empty()
    } else {
        map_of(entries.drop_last()).insert(entries.last().0@, entries.last().1@)
    }
}

proof fn lemma_map_of_contains(entries: Seq<(ShareId, Vec<u8>)>, id: Seq<char>)
    ensures
        map_of(entries).dom().contains(id) <==> exists|i: int|
            0 <= i < entries.len() && #[trigger] entries[i].0@ == id,
    decreases entries.len(),
{
    if entries.len() > 0 {
        lemma_map_of_contains(entries.drop_last(), id);
        if entries.last().0@ != id && map_of(entries).dom().contains(id) {
            let i = choose|i: int|
                0 <= i < entries.drop_last().len() && #[trigger] entries.drop_last()[i].0@ == id;
            assert(entries[i].0@ == id);
        }
        if exists|i: int| 0 <= i < entries.len() && #[trigger] entries[i].0@ == id {
            let i = choose|i: int| 0 <= i < entries.len() && #[trigger] entries[i].0@ == id;
            if i < entries.len() - 1 {
                assert(entries.drop_last()[i].0@ == id);
            }
        }
    }
}

proof fn lemma_map_of_get(entries: Seq<(ShareId, Vec<u8>)>, i: int)
    requires
        forall|a: int, b: int|
            0 <= a < b < entries.len() ==> (#[trigger] entries[a].0@) != (#[trigger] entries[b].0@),
        0 <= i < entries.len(),
    ensures
        map_of(entries).dom().contains(entries[i].0@),
        map_of(entries)[entries[i].0@] == entries[i].1@,
    decreases entries.len(),
{
    if i + 1 < entries.len() {
        lemma_map_of_get(entries.drop_last(), i);
    }
}

/// The write-once blob store.
pub struct BlobStore {
    entries: Vec<(ShareId, Vec<u8>)>,
}

impl View for BlobStore {
    type V = Map<Seq<char>, Seq<u8>>;

    closed spec fn view(&self) -> Map<Seq<char>, Seq<u8>> {
        map_of(self.entries@)
    }
}

impl BlobStore {
    /// No two entries stand under one identifier.
    pub closed spec fn wf(&self) -> bool {
        forall|a: int, b: int|
            0 <= a < b < self.entries@.len() ==> (#[trigger] self.entries@[a].0@) != (
            #[trigger] self.entries@[b].0@)
    }

    /// An empty store.
    pub fn new() -> (s: BlobStore)
        ensures
            s.wf(),
            s@ == Map::<Seq<char>, Seq<u8>>::empty(),
    {
        BlobStore { entries: Vec::new() }
    }

    fn find_index(&self, id: &ShareId) -> (r: Option<usize>)
        ensures
            match r {
                Some(i) => i < self.entries@.len() && self.entries@[i as int].0@ == id@,
                None => forall|i: int|
                    0 <= i < self.entries@.len() ==> (#[trigger] self.entries@[i].0@) != id@,
            },
    {
        for k in 0..self.entries.len()
            invariant
                forall|i: int| 0 <= i < k ==> (#[trigger] self.entries@[i].0@) != id@,
        {
            if self.entries[k].0.same(id) {
                return Some(k);
            }
        }
        None
    }

    /// Binds a blob to an identifier exactly once: it fails with
    /// `ShareError::AlreadyExists`, changing nothing, when the identifier is
    /// already bound, whatever the contents.
    pub fn create(&mut self, id: &ShareId, blob: Vec<u8>) -> (r: Result<(), ShareError>)
        requires
            old(self).wf(),
        ensures
            final(self).wf(),
            match r {
                Ok(()) => spec_create(old(self)@, id@, blob@) == Ok::<
                    Map<Seq<char>, Seq<u8>>,
                    ShareError,
                >(final(self)@),
                Err(e) => {
                    &&& spec_create(old(self)@, id@, blob@) == Err::<
                        Map<Seq<char>, Seq<u8>>,
                        ShareError,
                    >(e)
                    &&& final(self)@ == old(self)@
                },
            },
    {
        proof {
            lemma_map_of_contains(self.entries@, id@);
        }
        if self.find_index(id).is_some() {
            return Err(ShareError::AlreadyExists);
        }
        let ghost before = self.entries@;
        self.entries.push((id.clone(), blob));
        proof {
            assert(self.entries@.drop_last() =~= before);
        }
        Ok(())
    }

    /// Looks the blob up under an identifier; exactly the identifiers under
    /// which nothing was created fail, with `ShareError::NotFound`.
    pub fn open(&self, id: &ShareId) -> (r: Result<&Vec<u8>, ShareError>)
        requires
            self.wf(),
        ensures
            match r {
                Ok(blob) => spec_open(self@, id@) == Ok::<Seq<u8>, ShareError>(blob@),
                Err(e) => spec_open(self@, id@) == Err::<Seq<u8>, ShareError>(e),
            },
    {
        proof {
            lemma_map_of_contains(self.entries@, id@);
        }
        match self.find_index(id) {
            Some(i) => {
                proof {
                    lemma_map_of_get(self.entries@, i as int);
                }
                Ok(&self.entries[i].1)
            },
            None => Err(ShareError::NotFound),
        }
    }

    /// The length of the blob under an identifier, for a reader that streams
    /// it out in chunks.
    pub fn blob_len(&self, id: &ShareId) -> (r: Result<usize, ShareError>)
        requires
            self.wf(),
        ensures
            match r {
                Ok(n) => spec_open(self@, id@) matches Ok(blob) && n == blob.len(),
                Err(e) => spec_open(self@, id@) == Err::<Seq<u8>, ShareError>(e),
            },
    {
        match self.open(id) {
            Ok(blob) => Ok(blob.len()),
            Err(e) => Err(e),
        }
    }

    /// A window of the blob under an identifier: at most `max_len` bytes
    /// starting at `offset`, empty once `offset` passes the end.  Repeated
    /// calls with a growing offset stream the blob out under bounded memory.
    pub fn read_chunk(&self, id: &ShareId, offset: usize, max_len: usize) -> (r: Result<
        Vec<u8>,
        ShareError,
    >)
        requires
            self.wf(),
        ensures
            match r {
                Ok(chunk) => spec_open(self@, id@) matches Ok(blob) && chunk@ == spec_chunk(
                    blob,
                    offset as nat,
                    max_len as nat,
                ),
                Err(e) => spec_open(self@, id@) == Err::<Seq<u8>, ShareError>(e),
            },
    {
        let blob = match self.open(id) {
            Ok(b) => b,
            Err(e) => {
                return Err(e);
            },
        };
        if offset >= blob.len() {
            return Ok(Vec::new());
        }
        let end = if max_len <= blob.len() - offset {
            offset + max_len
        } else {
            blob.len()
        };
        Ok(vstd::slice::slice_to_vec(vstd::slice::slice_subrange(blob.as_slice(), offset, end)))
    }
}

/// An upload arriving in chunks.  Until `BlobStore::commit` accepts it, the
/// store is untouched: an upload that breaks off is simply dropped and no
/// truncated blob becomes readable.
pub struct PendingUpload {
    id: ShareId,
    data: Vec<u8>,
}

impl PendingUpload {
    /// The identifier the upload is headed for.
    pub closed spec fn id_view(&self) -> Seq<char> {
        self.id@
    }

    /// The bytes received so far.
    pub closed spec fn data_view(&self) -> Seq<u8> {
        self.data@
    }

    /// Starts an empty upload towards an identifier.
    pub fn begin(id: ShareId) -> (u: PendingUpload)
        ensures
            u.id_view() == id@,
            u.data_view() == Seq::<u8>::empty(),
    {
        PendingUpload { id, data: Vec::new() }
    }

    /// Appends one chunk of the incoming byte stream.
    pub fn push_chunk(&mut self, chunk: &[u8])
        requires
            old(self).data_view().len() + chunk@.len() <= usize::MAX,
        ensures
            final(self).id_view() == old(self).id_view(),
            final(self).data_view() == old(self).data_view() + chunk@,
    {
        self.data.extend_from_slice(chunk);
    }

    /// Discards the upload; the store never sees a byte of it.
    pub fn abort(self) {
    }
}

impl BlobStore {
    /// Commits a completed upload, binding all its bytes at once under the
    /// write-once rule; nothing of an uncommitted upload is ever readable.
    pub fn commit(&mut self, upload: PendingUpload) -> (r: Result<(), ShareError>)
        requires
            old(self).wf(),
        ensures
            final(self).wf(),
            match r {
                Ok(()) => spec_create(old(self)@, upload.id_view(), upload.data_view()) == Ok::<
                    Map<Seq<char>, Seq<u8>>,
                    ShareError,
                >(final(self)@),
                Err(e) => {
                    &&& spec_create(old(self)@, upload.id_view(), upload.data_view()) == Err::<
                        Map<Seq<char>, Seq<u8>>,
                        ShareError,
                    >(e)
                    &&& final(self)@ == old(self)@
                },
            },
    {
        let PendingUpload { id, data } = upload;
        self.create(&id, data)
    }
}

/// Write-once: under an identifier not yet bound, the first create succeeds
/// and a second create under the same identifier fails with
/// `ShareError::AlreadyExists`, whatever bytes either carries.
pub proof fn lemma_store_write_once(
    m: Map<Seq<char>, Seq<u8>>,
    id: Seq<char>,
    first: Seq<u8>,
    second: Seq<u8>,
)
    requires
        !m.dom().contains(id),
    ensures
        spec_create(m, id, first) == Ok::<Map<Seq<char>, Seq<u8>>, ShareError>(m.insert(id, first)),
        spec_create(m.insert(id, first), id, second) == Err::<
            Map<Seq<char>, Seq<u8>>,
            ShareError,
        >(ShareError::AlreadyExists),
{
}

/// A create binds its identifier to exactly the bytes handed in — a later
/// open returns them unchanged — and leaves every other identifier's lookup
/// as it was: shares are independent.
pub proof fn lemma_store_create_then_open(
    m: Map<Seq<char>, Seq<u8>>,
    id: Seq<char>,
    blob: Seq<u8>,
    other: Seq<char>,
)
    requires
        !m.dom().contains(id),
    ensures
        spec_create(m, id, blob) matches Ok(m2) && spec_open(m2, id) == Ok::<
            Seq<u8>,
            ShareError,
        >(blob),
        other != id ==> spec_open(spec_create(m, id, blob)->Ok_0, other) == spec_open(m, other),
{
}

/// Not-found: opening an identifier under which nothing was created fails
/// with `ShareError::NotFound`.
pub proof fn lemma_store_not_found(m: Map<Seq<char>, Seq<u8>>, id: Seq<char>)
    requires
        !m.dom().contains(id),
    ensures
        spec_open(m, id) == Err::<Seq<u8>, ShareError>(ShareError::NotFound),
{
}

} // verus!
