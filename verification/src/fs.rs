//! The filesystem table and the four protocol operations: name
//! resolution, attribute query, directory enumeration, and the
//! planning of a bounded content read.

use vstd::prelude::*;
use crate::attr::{
    DIR_INO, REMOTE_INO_START, FileAttr, FileKind, spec_dir_attr, spec_file_attr, dir_attr,
    file_attr,
};
use crate::locator::{
    loc_ok, name_at, seq_views, url_last_segment, counter_before, is_synth,
    lemma_names_pairwise_distinct,
};
use crate::names::synth_filename;
use vstd::string::StringExecFns;

verus! {

/// The per-call error codes of the protocol.
#[derive(Clone, Copy, PartialEq, Eq, Structural, Debug)]
pub enum FsError {
    /// The requested name or identity does not exist.
    NoEnt,
    /// The request cannot be honored as given.
    Inval,
}

/// One mounted remote resource: its derived filename and its cached
/// attribute record. The random-access reader bound to the resource
/// lives with the caller, at the table index of this entry.
pub struct HttpFile {
    pub filename: String,
    pub attr: FileAttr,
}

/// The filesystem table: an ordered, immutable collection of entries,
/// addressed by identity.
pub struct HttpFS {
    pub files: Vec<HttpFile>,
}

/// The instruction for one content read: which table entry to read,
/// where to seek its reader, and how many bytes to take.
#[derive(Clone, Copy, PartialEq, Eq, Structural, Debug)]
pub struct ReadPlan {
    pub index: usize,
    pub seek_to: u64,
    pub len: u32,
}

/// One reported directory entry, with the offset at which a later call
/// resumes right after it.
#[derive(Debug)]
pub struct DirEntry {
    pub ino: u64,
    pub next_offset: u64,
    pub kind: FileKind,
    pub name: String,
}

/// The clamped length of a read: the requested length, shortened at
/// end of file, and zero at or past it.
pub open spec fn spec_read_len(total: u64, offset: u64, size: u32) -> u32 {
    if offset >= total {
        0u32
    } else if total - offset < size {
        (total - offset) as u32
    } else {
        size
    }
}

impl HttpFS {
    /// Well-formedness: identities fit, are contiguous from the base,
    /// and every attribute record has the fixed read-only file shape.
    pub open spec fn wf(self) -> bool {
        &&& self.files@.len() <= u64::MAX - REMOTE_INO_START
        &&& self.files@.len() <= usize::MAX
        &&& forall|i: int|
            0 <= i < self.files@.len() ==> (#[trigger] self.files@[i]).attr == spec_file_attr(
                (REMOTE_INO_START + i) as u64,
                self.files@[i].attr.size,
            )
    }

    /// Whether an identity addresses a live table entry.
    pub open spec fn live_ino(self, ino: u64) -> bool {
        REMOTE_INO_START <= ino < REMOTE_INO_START + self.files@.len()
    }

    /// The table index of a live identity.
    pub open spec fn index_of(self, ino: u64) -> int {
        ino - REMOTE_INO_START
    }

    /// Whether some entry carries this filename.
    pub open spec fn has_name(self, name: Seq<char>) -> bool {
        exists|i: int| 0 <= i < self.files@.len() && (#[trigger] self.files@[i]).filename@ == name
    }

    /// One past the last live identity.
    fn remote_ino_end(&self) -> (r: u64)
        requires
            self.wf(),
        ensures
            r == REMOTE_INO_START + self.files@.len(),
    {
        REMOTE_INO_START + (self.files.len() as u64)
    }

    /// The entry addressed by a live identity.
    fn get_by_ino(&self, ino: u64) -> (r: &HttpFile)
        requires
            self.wf(),
            self.live_ino(ino),
        ensures
            r == self.files@[self.index_of(ino)],
    {
        let off: u64 = ino - REMOTE_INO_START;
        proof {
            assert(off < self.files@.len());
        }
        &self.files[off as usize]
    }

    /// Builds the table from an ordered list of locators and the total
    /// size the remote reader reported for each, all or nothing: one
    /// unacceptable locator fails the whole batch. Filenames come from
    /// the last path segment where present and non-empty, else from
    /// the reserved prefix and the pass's counter; identities are
    /// assigned sequentially from the base.
    pub fn try_new(locators: &Vec<String>, sizes: &Vec<u64>) -> (r: Option<HttpFS>)
        requires
            locators@.len() == sizes@.len(),
            locators@.len() <= u64::MAX - REMOTE_INO_START,
        ensures
            match r {
                Option::Some(t) => {
                    &&& t.wf()
                    &&& t.files@.len() == locators@.len()
                    &&& forall|j: int|
                        0 <= j < locators@.len() ==> loc_ok(#[trigger] seq_views(locators@)[j])
                    &&& forall|j: int|
                        0 <= j < locators@.len() ==> (#[trigger] t.files@[j]).filename@ == name_at(
                            seq_views(locators@),
                            j,
                        )
                    &&& forall|j: int|
                        0 <= j < locators@.len() ==> (#[trigger] t.files@[j]).attr
                            == spec_file_attr((REMOTE_INO_START + j) as u64, sizes@[j])
                },
                Option::None => exists|j: int|
                    0 <= j < locators@.len() && !loc_ok(#[trigger] seq_views(locators@)[j]),
            },
    {
        let ghost lv = seq_views(locators@);
        let n = locators.len();
        let mut files: Vec<HttpFile> = Vec::new();
        let mut counter: u64 = 0;
        let mut i: usize = 0;
        while i < n
            invariant
                n == locators@.len(),
                locators@.len() == sizes@.len(),
                locators@.len() <= u64::MAX - REMOTE_INO_START,
                lv == seq_views(locators@),
                i <= n,
                counter <= i,
                counter as nat == counter_before(lv, i as int),
                files@.len() == i,
                forall|j: int| 0 <= j < i ==> loc_ok(#[trigger] lv[j]),
                forall|j: int|
                    0 <= j < i ==> (#[trigger] files@[j]).filename@ == name_at(lv, j),
                forall|j: int|
                    0 <= j < i ==> (#[trigger] files@[j]).attr == spec_file_attr(
                        (REMOTE_INO_START + j) as u64,
                        sizes@[j],
                    ),
            decreases n - i,
        {
            proof {
                assert(lv[i as int] == locators@[i as int]@);
            }
            let seg = url_last_segment(&locators[i]);
            let name: String = match seg {
                Option::None => {
                    proof {
                        assert(!loc_ok(lv[i as int]));
                    }
                    return Option::None;
                },
                Option::Some(Option::Some(s)) => {
                    if s.as_str().is_empty() {
                        let nm = synth_filename(counter);
                        counter = counter + 1;
                        nm
                    } else {
                        s
                    }
                },
                Option::Some(Option::None) => {
                    let nm = synth_filename(counter);
                    counter = counter + 1;
                    nm
                },
            };
            let a = file_attr(REMOTE_INO_START + (i as u64), sizes[i]);
            files.push(HttpFile { filename: name, attr: a });
            i = i + 1;
        }
        Option::Some(HttpFS { files })
    }

    /// Resolves a name under a parent: under the directory, the first
    /// entry carrying exactly that filename; anywhere else, or for an
    /// unknown name, "no such entry".
    pub fn lookup(&self, parent: u64, name: &String) -> (r: Result<FileAttr, FsError>)
        requires
            self.wf(),
        ensures
            (r is Ok) <==> (parent == DIR_INO && self.has_name(name@)),
            r matches Ok(a) ==> exists|i: int|
                0 <= i < self.files@.len() && (#[trigger] self.files@[i]).filename@ == name@
                    && a == self.files@[i].attr && (forall|j: int|
                    0 <= j < i ==> self.files@[j].filename@ != name@),
            r matches Err(e) ==> e == FsError::NoEnt,
    {
        if parent == DIR_INO {
            let n = self.files.len();
            let mut i: usize = 0;
            while i < n
                invariant
                    parent == DIR_INO,
                    n == self.files@.len(),
                    i <= n,
                    forall|j: int| 0 <= j < i ==> (#[trigger] self.files@[j]).filename@ != name@,
                decreases n - i,
            {
                if self.files[i].filename == *name {
                    proof {
                        assert(self.files@[i as int].filename@ == name@);
                        assert(self.has_name(name@));
                    }
                    return Result::Ok(self.files[i].attr);
                }
                i = i + 1;
            }
            proof {
                assert(!self.has_name(name@));
            }
        }
        Result::Err(FsError::NoEnt)
    }

    /// What an attribute query returns for each identity: the fixed
    /// directory record, the cached record of a live entry, or "no
    /// such entry".
    pub open spec fn spec_getattr(self, ino: u64) -> Result<FileAttr, FsError> {
        if ino == DIR_INO {
            Result::Ok(spec_dir_attr())
        } else if self.live_ino(ino) {
            Result::Ok(self.files@[self.index_of(ino)].attr)
        } else {
            Result::Err(FsError::NoEnt)
        }
    }

    /// Answers an attribute query. Read-only: the result is a function
    /// of the table and the identity alone.
    pub fn getattr(&self, ino: u64) -> (r: Result<FileAttr, FsError>)
        requires
            self.wf(),
        ensures
            r == self.spec_getattr(ino),
    {
        let remote_end = self.remote_ino_end();
        if ino == DIR_INO {
            Result::Ok(dir_attr())
        } else if REMOTE_INO_START <= ino && ino < remote_end {
            Result::Ok(self.get_by_ino(ino).attr)
        } else {
            Result::Err(FsError::NoEnt)
        }
    }

    /// What a read request resolves to for each identity: the entry's
    /// index, the absolute seek position, and the clamped length, or
    /// "no such entry" outside the live range.
    pub open spec fn spec_read_plan(self, ino: u64, offset: u64, size: u32) -> Result<
        ReadPlan,
        FsError,
    > {
        if self.live_ino(ino) {
            Result::Ok(
                ReadPlan {
                    index: self.index_of(ino) as usize,
                    seek_to: offset,
                    len: spec_read_len(self.files@[self.index_of(ino)].attr.size, offset, size),
                },
            )
        } else {
            Result::Err(FsError::NoEnt)
        }
    }

    /// Turns a read request into the bounded seek-and-read the caller
    /// performs against the entry's reader: seek to the requested
    /// offset, then take `min(size, total - offset)` bytes, zero at or
    /// past end of file.
    pub fn read_plan(&self, ino: u64, offset: u64, size: u32) -> (r: Result<ReadPlan, FsError>)
        requires
            self.wf(),
        ensures
            r == self.spec_read_plan(ino, offset, size),
    {
        let remote_end = self.remote_ino_end();
        if REMOTE_INO_START <= ino && ino < remote_end {
            let file = self.get_by_ino(ino);
            let total = file.attr.size;
            let len: u32 = if offset >= total {
                0
            } else if total - offset < size as u64 {
                (total - offset) as u32
            } else {
                size
            };
            Result::Ok(ReadPlan { index: (ino - REMOTE_INO_START) as usize, seek_to: offset, len })
        } else {
            Result::Err(FsError::NoEnt)
        }
    }

    /// The decision once the caller has seeked the entry's reader to
    /// the planned position: a failed seek turns this one read into
    /// "invalid argument"; a successful one proceeds with the planned
    /// length. The seek itself is the reader's work.
    pub fn after_seek(plan: &ReadPlan, seek_ok: bool) -> (r: Result<u32, FsError>)
        ensures
            seek_ok ==> r == Result::<u32, FsError>::Ok(plan.len),
            !seek_ok ==> r == Result::<u32, FsError>::Err(FsError::Inval),
    {
        if seek_ok {
            Result::Ok(plan.len)
        } else {
            Result::Err(FsError::Inval)
        }
    }

    /// The number of logical positions in the directory listing: the
    /// self-reference, the parent reference, then every entry.
    pub open spec fn listing_len(self) -> nat {
        2 + self.files@.len()
    }

    /// The identity reported at a listing position.
    pub open spec fn listing_ino_at(self, pos: int) -> u64 {
        if pos < 2 {
            DIR_INO
        } else {
            (REMOTE_INO_START + (pos - 2)) as u64
        }
    }

    /// The kind reported at a listing position.
    pub open spec fn listing_kind_at(self, pos: int) -> FileKind {
        if pos < 2 {
            FileKind::Directory
        } else {
            FileKind::RegularFile
        }
    }

    /// The name reported at a listing position.
    pub open spec fn listing_name_at(self, pos: int) -> Seq<char> {
        if pos == 0 {
            "."@
        } else if pos == 1 {
            ".."@
        } else {
            self.files@[pos - 2].filename@
        }
    }

    /// Enumerates the directory from a resumption offset: every
    /// listing position from the offset on, in the fixed order, each
    /// with the offset at which the next call resumes after it. Any
    /// identity other than the directory's is rejected. The same
    /// offset always yields the same entries.
    pub fn readdir(&self, ino: u64, offset: u64) -> (r: Result<Vec<DirEntry>, FsError>)
        requires
            self.wf(),
        ensures
            (r is Err) <==> ino != DIR_INO,
            r matches Err(e) ==> e == FsError::NoEnt,
            r matches Ok(v) ==> {
                let start = if offset <= self.listing_len() {
                    offset as int
                } else {
                    self.listing_len() as int
                };
                &&& v@.len() == self.listing_len() - start
                &&& forall|k: int|
                    0 <= k < v@.len() ==> {
                        &&& (#[trigger] v@[k]).ino == self.listing_ino_at(start + k)
                        &&& v@[k].kind == self.listing_kind_at(start + k)
                        &&& v@[k].name@ == self.listing_name_at(start + k)
                        &&& v@[k].next_offset == start + k + 1
                    }
            },
    {
        if ino != DIR_INO {
            return Result::Err(FsError::NoEnt);
        }
        let count = self.files.len();
        let total: u64 = 2 + (count as u64);
        let start: u64 = if offset <= total {
            offset
        } else {
            total
        };
        let mut out: Vec<DirEntry> = Vec::new();
        let mut pos: u64 = start;
        while pos < total
            invariant
                self.wf(),
                total == self.listing_len(),
                start <= pos <= total,
                start == if offset <= self.listing_len() {
                    offset as int
                } else {
                    self.listing_len() as int
                },
                out@.len() == pos - start,
                forall|k: int|
                    0 <= k < out@.len() ==> {
                        &&& (#[trigger] out@[k]).ino == self.listing_ino_at(start + k)
                        &&& out@[k].kind == self.listing_kind_at(start + k)
                        &&& out@[k].name@ == self.listing_name_at(start + k)
                        &&& out@[k].next_offset == start + k + 1
                    },
            decreases total - pos,
        {
            let e: DirEntry = if pos == 0 {
                DirEntry {
                    ino: DIR_INO,
                    next_offset: 1,
                    kind: FileKind::Directory,
                    name: String::from_str("."),
                }
            } else if pos == 1 {
                DirEntry {
                    ino: DIR_INO,
                    next_offset: 2,
                    kind: FileKind::Directory,
                    name: String::from_str(".."),
                }
            } else {
                let idx = (pos - 2) as usize;
                proof {
                    assert(self.files@[pos - 2].attr == spec_file_attr(
                        (REMOTE_INO_START + (pos - 2)) as u64,
                        self.files@[pos - 2].attr.size,
                    ));
                }
                DirEntry {
                    ino: self.files[idx].attr.ino,
                    next_offset: pos + 1,
                    kind: FileKind::RegularFile,
                    name: self.files[idx].filename.clone(),
                }
            };
            proof {
                let k = out@.len() as int;
                assert(pos == start + k);
                assert(e.ino == self.listing_ino_at(start + k));
                assert(e.kind == self.listing_kind_at(start + k));
                assert(e.name@ == self.listing_name_at(start + k));
                assert(e.next_offset == start + k + 1);
            }
            out.push(e);
            pos = pos + 1;
        }
        Result::Ok(out)
    }
}

/// The identities of a well-formed table are contiguous from the
/// base, one per entry, in table order.
pub proof fn lemma_identities_contiguous(t: HttpFS)
    requires
        t.wf(),
    ensures
        forall|i: int|
            0 <= i < t.files@.len() ==> (#[trigger] t.files@[i]).attr.ino == REMOTE_INO_START + i,
{
}

/// The record a name resolves to is the record an attribute query on
/// its identity returns: the two operations agree on every entry.
pub proof fn lemma_lookup_getattr_agree(t: HttpFS, i: int)
    requires
        t.wf(),
        0 <= i < t.files@.len(),
    ensures
        t.spec_getattr(t.files@[i].attr.ino) == Result::<FileAttr, FsError>::Ok(t.files@[i].attr),
{
    assert(t.files@[i].attr == spec_file_attr(
        (REMOTE_INO_START + i) as u64,
        t.files@[i].attr.size,
    ));
}

/// An attribute query is idempotent: any two results of the same query
/// on the same table are one and the same record.
pub proof fn lemma_getattr_idempotent(
    t: HttpFS,
    ino: u64,
    r1: Result<FileAttr, FsError>,
    r2: Result<FileAttr, FsError>,
)
    requires
        r1 == t.spec_getattr(ino),
        r2 == t.spec_getattr(ino),
    ensures
        r1 == r2,
{
}

/// Reading at or past end of file plans zero bytes and no error, for
/// every live identity.
pub proof fn lemma_read_past_end(t: HttpFS, ino: u64, offset: u64, size: u32)
    requires
        t.wf(),
        t.live_ino(ino),
        offset >= t.files@[t.index_of(ino)].attr.size,
    ensures
        t.spec_read_plan(ino, offset, size) matches Ok(p) && p.len == 0 && p.seek_to == offset,
{
}

/// A read that lies wholly before end of file plans exactly the
/// requested length, at the requested offset, against the entry's own
/// reader.
pub proof fn lemma_read_within(t: HttpFS, ino: u64, offset: u64, size: u32)
    requires
        t.wf(),
        t.live_ino(ino),
        offset + size <= t.files@[t.index_of(ino)].attr.size,
    ensures
        t.spec_read_plan(ino, offset, size) matches Ok(p) && p.len == size && p.seek_to == offset
            && p.index == t.index_of(ino),
{
}

/// Listing positions address distinct identities past the two
/// directory references, each the identity of the entry at its table
/// position; paging through offsets therefore reports every entry
/// exactly once.
pub proof fn lemma_listing_enumerates_once(t: HttpFS)
    requires
        t.wf(),
    ensures
        forall|p: int|
            2 <= p < t.listing_len() ==> #[trigger] t.listing_ino_at(p) == t.files@[p - 2].attr.ino,
        forall|p: int, q: int|
            2 <= p < q < t.listing_len() ==> t.listing_ino_at(p) != t.listing_ino_at(q),
        forall|p: int| 2 <= p < t.listing_len() ==> #[trigger] t.listing_ino_at(p) != DIR_INO,
{
}

/// The filenames of a constructed table are pairwise distinct as soon
/// as the derived segments are pairwise distinct and none of them
/// begins with the reserved prefix; collisions among the synthesized
/// names themselves can never happen.
pub proof fn lemma_table_names_distinct(t: HttpFS, locs: Seq<Seq<char>>)
    requires
        t.files@.len() == locs.len(),
        forall|j: int| 0 <= j < locs.len() ==> (#[trigger] t.files@[j]).filename@ == name_at(locs, j),
        forall|i: int, j: int|
            0 <= i < j < locs.len() && !is_synth(locs[i]) && !is_synth(locs[j]) ==> name_at(
                locs,
                i,
            ) != name_at(locs, j),
        forall|i: int|
            0 <= i < locs.len() && !is_synth(locs[i]) ==> (name_at(locs, i).len() <= 4 || name_at(
                locs,
                i,
            ).take(4) != crate::names::synth_prefix()),
    ensures
        forall|i: int, j: int|
            0 <= i < j < locs.len() ==> (#[trigger] t.files@[i]).filename@
                != (#[trigger] t.files@[j]).filename@,
{
    lemma_names_pairwise_distinct(locs);
}

} // verus!
