//! Decisions of the two background jobs: walking a directory tree, and downloading one
//! file with retries. Listing, fetching, writing and sleeping are left to the caller,
//! which reports each outcome back.
use vstd::prelude::*;
use vstd::arithmetic::power2::{pow2, lemma_pow2_unfold, lemma2_to64};
use vstd::bits::lemma_u64_pow2_no_overflow;
use crate::app::{path_set, distinct_paths, position_of};
use crate::providers::{Node, NodeKind};

verus! {

// ─── Directory walk ───────────────────────────────────────────────────────────

/// Most directories one walk lists.
pub const MAX_DIRS: usize = 200;

/// A depth-first walk: directories still to list (the last one next), directories already
/// listed, and the files found so far.
pub struct Walk {
    pub queue: Vec<String>,
    pub visited: Vec<String>,
    pub found: Vec<Node>,
    pub finished: bool,
}

/// Queue left and directory chosen by one request for the next directory: directories
/// already listed are dropped; once `MAX_DIRS` are listed the walk stops.
pub open spec fn next_dir_spec(q: Seq<String>, v: Seq<String>) -> (Seq<String>, Option<String>)
    decreases q.len(),
{
    if q.len() == 0 {
        (q, None)
    } else if v.len() >= MAX_DIRS {
        (q.drop_last(), None)
    } else if path_set(v).contains(q.last()@) {
        next_dir_spec(q.drop_last(), v)
    } else {
        (q.drop_last(), Some(q.last()))
    }
}

pub open spec fn files_of(items: Seq<Node>) -> Seq<Node> {
    items.filter(|n: Node| n.kind == NodeKind::File)
}

pub open spec fn dir_paths_of(items: Seq<Node>) -> Seq<String> {
    items.filter(|n: Node| n.kind == NodeKind::Dir).map_values(|n: Node| n.path)
}

impl Walk {
    /// No directory is listed twice, and no more than `MAX_DIRS` are.
    pub open spec fn wf(&self) -> bool {
        &&& distinct_paths(self.visited@)
        &&& self.visited@.len() <= MAX_DIRS
    }

    /// A walk that starts at `path`.
    pub fn new(path: String) -> (w: Walk)
        ensures
            w.queue@ == seq![path],
            w.visited@.len() == 0,
            w.found@.len() == 0,
            !w.finished,
            w.wf(),
    {
        let mut queue = Vec::new();
        queue.push(path);
        Walk { queue, visited: Vec::new(), found: Vec::new(), finished: false }
    }

    /// The next directory to list, or `None` when the walk is over.
    pub fn next_dir(&mut self) -> (r: Option<String>)
        requires
            old(self).wf(),
        ensures
            final(self).wf(),
            final(self).found@ == old(self).found@,
            old(self).finished ==> r is None && *final(self) == *old(self),
            !old(self).finished ==> {
                &&& final(self).queue@ == next_dir_spec(old(self).queue@, old(self).visited@).0
                &&& r == next_dir_spec(old(self).queue@, old(self).visited@).1
                &&& match r {
                    Some(s) => final(self).visited@ == old(self).visited@.push(s) && !final(self).finished,
                    None => final(self).visited@ == old(self).visited@ && final(self).finished,
                }
            },
    {
        if self.finished {
            return None;
        }
        let ghost q0 = self.queue@;
        loop
            invariant
                self.wf(),
                !self.finished,
                self.found@ == old(self).found@,
                self.visited@ == old(self).visited@,
                next_dir_spec(q0, old(self).visited@) == next_dir_spec(self.queue@, self.visited@),
                old(self).finished == false,
                q0 == old(self).queue@,
            decreases self.queue@.len(),
        {
            if self.queue.len() == 0 {
                self.finished = true;
                return None;
            }
            let ghost qb = self.queue@;
            let dir = self.queue.pop().unwrap();
            proof {
                assert(dir == qb.last());
                assert(self.queue@ == qb.drop_last());
            }
            if self.visited.len() >= MAX_DIRS {
                self.finished = true;
                return None;
            }
            match position_of(&self.visited, &dir) {
                Some(i) => {
                    proof {
                        assert(path_set(self.visited@).contains(dir@));
                    }
                },
                None => {
                    proof {
                        assert(!path_set(self.visited@).contains(dir@));
                    }
                    let ghost before = self.visited@;
                    self.visited.push(dir.clone());
                    proof {
                        assert forall|i: int, j: int| 0 <= i < j < self.visited@.len() implies (#[trigger] self.visited@[i])@
                            != (#[trigger] self.visited@[j])@ by {
                            if j == before.len() {
                                assert(self.visited@[i] == before[i]);
                            }
                        }
                    }
                    return Some(dir);
                },
            }
        }
    }

    /// Record the listing of the directory last handed out (`None` when it could not be
    /// listed): its files are found, its subdirectories queued.
    pub fn listed(&mut self, items: Option<Vec<Node>>)
        ensures
            final(self).visited == old(self).visited,
            final(self).finished == old(self).finished,
            match items {
                Some(v) => {
                    &&& final(self).found@ == old(self).found@ + files_of(v@)
                    &&& final(self).queue@ == old(self).queue@ + dir_paths_of(v@)
                },
                None => final(self).found@ == old(self).found@ && final(self).queue@ == old(self).queue@,
            },
    {
        if let Some(v) = items {
            let ghost vs = v@;
            let mut rest = v;
            let mut i: usize = 0;
            // a vector's length fits in usize, and so does every index counted up to it
            let _count = rest.len();
            proof {
                assert(vs.subrange(0, 0).filter(|n: Node| n.kind == NodeKind::File) =~= Seq::<Node>::empty());
                assert(vs.subrange(0, 0).filter(|n: Node| n.kind == NodeKind::Dir) =~= Seq::<Node>::empty());
                assert(rest@ =~= vs.subrange(0, vs.len() as int));
            }
            while rest.len() > 0
                invariant
                    i + rest@.len() == vs.len(),
                    vs.len() <= usize::MAX,
                    rest@ == vs.subrange(i as int, vs.len() as int),
                    self.visited == old(self).visited,
                    self.finished == old(self).finished,
                    self.found@ == old(self).found@ + files_of(vs.subrange(0, i as int)),
                    self.queue@ == old(self).queue@ + dir_paths_of(vs.subrange(0, i as int)),
                decreases rest.len(),
            {
                let n = rest.remove(0);
                proof {
                    assert(vs.subrange(0, i + 1).drop_last() =~= vs.subrange(0, i as int));
                    assert(vs.subrange(0, i + 1).last() == n);
                    reveal(Seq::filter);
                }
                match n.kind {
                    NodeKind::File => {
                        self.found.push(n);
                        proof {
                            assert(self.found@ =~= old(self).found@ + files_of(vs.subrange(0, i + 1)));
                            assert(self.queue@ =~= old(self).queue@ + dir_paths_of(vs.subrange(0, i + 1)));
                        }
                    },
                    NodeKind::Dir => {
                        self.queue.push(n.path);
                        proof {
                            assert(self.found@ =~= old(self).found@ + files_of(vs.subrange(0, i + 1)));
                            assert(self.queue@ =~= old(self).queue@ + dir_paths_of(vs.subrange(0, i + 1)));
                        }
                    },
                }
                i += 1;
                proof {
                    assert(rest@ =~= vs.subrange(i as int, vs.len() as int));
                }
            }
            proof {
                assert(vs.subrange(0, i as int) =~= vs);
            }
        }
    }
}

// ─── Download with retries ────────────────────────────────────────────────────

/// What the caller does next for one download.
pub enum DlAction {
    /// The destination exists and existing files are skipped: report `DownloadSkipped`.
    ReportSkipped,
    /// Wait `delay_ms` milliseconds, then fetch the file.
    Fetch { delay_ms: u64 },
    /// Write the fetched bytes to the destination.
    Write,
    /// Report `DownloadDone`.
    ReportDone,
    /// Report `DownloadFail` with this error.
    ReportFail(String),
}

/// What the caller saw.
pub enum DlEvent {
    FetchFailed(String),
    Fetched,
    Written,
    WriteFailed(String),
}

/// One download: how many retries are allowed and which attempt is under way.
pub struct DlTask {
    pub retry_count: u8,
    pub attempt: u8,
}

/// Wait before attempt `k` (from 1): 200 ms doubled `k` times, as a 64-bit release build
/// computes `200 * (1u64 << k)` (the shift taken modulo 64, the product modulo 2^64).
pub open spec fn retry_delay(k: nat) -> u64 {
    ((200 * pow2(k % 64)) % 0x1_0000_0000_0000_0000) as u64
}

pub open spec fn task_step(t: DlTask, ev: DlEvent) -> (DlTask, DlAction) {
    match ev {
        DlEvent::Fetched => (t, DlAction::Write),
        DlEvent::Written => (t, DlAction::ReportDone),
        DlEvent::WriteFailed(e) => (t, DlAction::ReportFail(e)),
        DlEvent::FetchFailed(e) => if t.attempt < t.retry_count {
            (
                DlTask { attempt: (t.attempt + 1) as u8, ..t },
                DlAction::Fetch { delay_ms: retry_delay((t.attempt + 1) as nat) },
            )
        } else {
            (t, DlAction::ReportFail(e))
        },
    }
}

fn shl_delay(k: u8) -> (d: u64)
    ensures
        d == retry_delay(k as nat),
{
    let s: u8 = k % 64;
    let mut p: u64 = 1;
    let mut j: u8 = 0;
    proof {
        lemma2_to64();
    }
    while j < s
        invariant
            j <= s,
            s < 64,
            p == pow2(j as nat),
        decreases s - j,
    {
        proof {
            lemma_pow2_unfold((j + 1) as nat);
            lemma_u64_pow2_no_overflow((j + 1) as nat);
        }
        p = p * 2;
        j += 1;
    }
    200u64.wrapping_mul(p)
}

impl DlTask {
    /// Start a download: skipped when the destination exists and existing files are
    /// skipped, else fetched at once.
    pub fn start(skip_existing: bool, dest_exists: bool, retry_count: u8) -> (r: (DlTask, DlAction))
        ensures
            r.0 == (DlTask { retry_count, attempt: 0 }),
            if skip_existing && dest_exists {
                r.1 is ReportSkipped
            } else {
                r.1 == (DlAction::Fetch { delay_ms: 0 })
            },
    {
        let t = DlTask { retry_count, attempt: 0 };
        if skip_existing && dest_exists {
            (t, DlAction::ReportSkipped)
        } else {
            (t, DlAction::Fetch { delay_ms: 0 })
        }
    }

    /// The next action after event `ev`: a failed fetch is retried after a growing wait
    /// while retries remain; a failed write ends the download at once.
    pub fn step(&mut self, ev: DlEvent) -> (a: DlAction)
        requires
            old(self).attempt <= old(self).retry_count,
        ensures
            (*final(self), a) == task_step(*old(self), ev),
            final(self).attempt <= final(self).retry_count,
    {
        match ev {
            DlEvent::Fetched => DlAction::Write,
            DlEvent::Written => DlAction::ReportDone,
            DlEvent::WriteFailed(e) => DlAction::ReportFail(e),
            DlEvent::FetchFailed(e) => {
                if self.attempt < self.retry_count {
                    self.attempt = self.attempt + 1;
                    DlAction::Fetch { delay_ms: shl_delay(self.attempt) }
                } else {
                    DlAction::ReportFail(e)
                }
            },
        }
    }
}

} // verus!
