//! The commit view: file deltas with their patches, per-file line counts
//! and the totals over them.
use vstd::prelude::*;
use crate::time::Time;

verus! {

/// How one path changed between the parent tree and the commit tree.
#[derive(PartialEq, Eq, Structural, Clone, Copy, Debug)]
pub enum DeltaStatus {
    Added,
    Copied,
    Deleted,
    Modified,
    Renamed,
    Typechange,
    Unclassified,
}

/// One changed path. A path the diff engine does not report is empty.
#[derive(Clone, Debug)]
pub struct FileDelta {
    pub status: DeltaStatus,
    pub old_path: String,
    pub new_path: String,
    pub binary: bool,
}

/// One line of hunk content, as the diff engine numbers it.
#[derive(Clone, Debug)]
pub struct Line {
    pub old_lineno: Option<u32>,
    pub new_lineno: Option<u32>,
    pub content: Vec<u8>,
}

/// A contiguous change region of one file.
#[derive(Clone, Debug)]
pub struct Hunk {
    pub header: Vec<u8>,
    pub lines: Vec<Line>,
}

/// A delta expanded into its hunks.
#[derive(Clone, Debug)]
pub struct Patch {
    pub delta: FileDelta,
    pub hunks: Vec<Hunk>,
}

/// A delta's patch together with its added and deleted line counts.
#[derive(Clone, Debug)]
pub struct DeltaInfo {
    pub patch: Patch,
    pub add_count: u64,
    pub del_count: u64,
}

/// Who wrote a commit, and when.
#[derive(Clone, Debug)]
pub struct Signature {
    pub name: String,
    pub email: String,
    pub when: Time,
}

/// What is known of a commit before its diff is read.
#[derive(Clone, Debug)]
pub struct CommitMeta {
    pub oid: String,
    pub parentoid: Option<String>,
    pub author: Signature,
    pub summary: Option<String>,
    pub msg: Option<String>,
}

/// A commit with its deltas, in the order the diff engine yields them after
/// rename and copy detection, and the totals over their line counts.
#[derive(Clone, Debug)]
pub struct CommitInfo {
    pub oid: String,
    pub parentoid: Option<String>,
    pub author: Signature,
    pub summary: Option<String>,
    pub msg: Option<String>,
    pub deltas: Vec<DeltaInfo>,
    pub add_count: u128,
    pub del_count: u128,
    pub file_count: usize,
}

/// Why a commit view could not be assembled.
#[derive(PartialEq, Eq, Structural, Clone, Copy, Debug)]
pub enum CommitError {
    /// The commit id does not name a commit.
    CommitNotFound,
    /// The commit's tree could not be read.
    TreeResolutionFailed,
    /// No patch could be had for the delta at this index.
    PatchUnavailable { delta_index: usize },
}

/// The sum of the added line counts.
pub open spec fn sum_added(d: Seq<DeltaInfo>) -> int
    decreases d.len(),
{
    if d.len() == 0 {
        0
    } else {
        sum_added(d.drop_last()) + d.last().add_count
    }
}

/// The sum of the deleted line counts.
pub open spec fn sum_deleted(d: Seq<DeltaInfo>) -> int
    decreases d.len(),
{
    if d.len() == 0 {
        0
    } else {
        sum_deleted(d.drop_last()) + d.last().del_count
    }
}

/// The index of the first delta whose patch is missing, if any.
pub open spec fn first_missing(p: Seq<Option<DeltaInfo>>) -> Option<int> {
    if exists|i: int| 0 <= i < p.len() && p[i] is None {
        Some(choose|i: int| 0 <= i < p.len() && p[i] is None
            && forall|j: int| 0 <= j < i ==> p[j] is Some)
    } else {
        None
    }
}

impl CommitInfo {
    /// The totals and the file count agree with the deltas.
    pub open spec fn wf(&self) -> bool {
        &&& self.file_count == self.deltas@.len()
        &&& self.add_count == sum_added(self.deltas@)
        &&& self.del_count == sum_deleted(self.deltas@)
    }
}

proof fn lemma_sum_bounds(d: Seq<DeltaInfo>)
    ensures
        0 <= sum_added(d) <= d.len() * (u64::MAX as int),
        0 <= sum_deleted(d) <= d.len() * (u64::MAX as int),
    decreases d.len(),
{
    if d.len() > 0 {
        lemma_sum_bounds(d.drop_last());
        assert((d.len() - 1) * (u64::MAX as int) + (u64::MAX as int) == d.len() * (u64::MAX as int))
            by (nonlinear_arith);
    }
}

/// Assembles the commit view from its metadata and, for each delta in order,
/// its patch with line counts or `None` where no patch could be had. A
/// missing patch fails the whole view, naming the first such delta.
pub fn get_commitinfo(meta: CommitMeta, patches: Vec<Option<DeltaInfo>>) -> (r: Result<
    CommitInfo,
    CommitError,
>)
    ensures
        first_missing(patches@) is None <==> r is Ok,
        first_missing(patches@) matches Some(i) ==> r == Err::<CommitInfo, CommitError>(
            CommitError::PatchUnavailable { delta_index: i as usize },
        ),
        r matches Ok(ci) ==> {
            &&& ci.wf()
            &&& ci.deltas@.len() == patches@.len()
            &&& forall|i: int| 0 <= i < patches@.len() ==> patches@[i] == Some(ci.deltas@[i])
            &&& ci.oid == meta.oid
            &&& ci.parentoid == meta.parentoid
            &&& ci.author == meta.author
            &&& ci.summary == meta.summary
            &&& ci.msg == meta.msg
        },
{
    let mut deltas: Vec<DeltaInfo> = Vec::new();
    let mut add_count: u128 = 0;
    let mut del_count: u128 = 0;
    let ghost all = patches@;
    for p in it: patches.into_iter()
        invariant
            it.seq() == all,
            deltas@.len() == it.index(),
            forall|j: int| 0 <= j < it.index() ==> all[j] == Some(deltas@[j]),
            add_count == sum_added(deltas@),
            del_count == sum_deleted(deltas@),
    {
        let idx = deltas.len();
        match p {
            None => {
                proof {
                    let i = idx as int;
                    assert(all[i] is None);
                    let c = choose|k: int| 0 <= k < all.len() && all[k] is None
                        && forall|j: int| 0 <= j < k ==> all[j] is Some;
                    assert(0 <= i < all.len() && all[i] is None
                        && forall|j: int| 0 <= j < i ==> all[j] is Some);
                    if c < i {
                        assert(all[c] is Some);
                    }
                    if i < c {
                        assert(all[i] is Some);
                    }
                }
                return Err(CommitError::PatchUnavailable { delta_index: idx });
            },
            Some(d) => {
                proof {
                    lemma_sum_bounds(deltas@);
                    assert(idx * (u64::MAX as int) <= usize::MAX as int * (u64::MAX as int))
                        by (nonlinear_arith)
                        requires
                            idx <= usize::MAX,
                    ;
                    assert(usize::MAX as int * (u64::MAX as int) + (u64::MAX as int) <= u128::MAX)
                        by (nonlinear_arith);
                }
                add_count = add_count + d.add_count as u128;
                del_count = del_count + d.del_count as u128;
                let ghost old_deltas = deltas@;
                deltas.push(d);
                assert(deltas@.drop_last() =~= old_deltas);
            },
        }
    }
    proof {
        if exists|k: int| 0 <= k < all.len() && all[k] is None {
            let k = choose|k: int| 0 <= k < all.len() && all[k] is None;
            assert(all[k] is Some);
        }
    }
    let file_count = deltas.len();
    Ok(CommitInfo {
        oid: meta.oid,
        parentoid: meta.parentoid,
        author: meta.author,
        summary: meta.summary,
        msg: meta.msg,
        deltas,
        add_count,
        del_count,
        file_count,
    })
}

} // verus!
