//! What holds of the counts of what jobs read.

use vstd::prelude::*;

use crate::fragment::rows::{reads, scanning, scans_of, upstreams_of, UpstreamRowModel};
use crate::util::ids::{lemma_occurrences_add, occurrences};
use crate::util::lists::{image, lemma_gather_push};

verus! {

/// What is counted of a job depends on its own scanning fragments alone: a fragment of another job,
/// or one that scans nothing, changes nothing of it.
pub proof fn law_jobs_are_counted_apart(
    q: Seq<UpstreamRowModel>,
    other: UpstreamRowModel,
    jobs: Map<u32, u32>,
    job_id: u32,
)
    requires
        !scans_of(job_id)(other),
    ensures
        scanning(q.push(other), job_id) == scanning(q, job_id),
        reads(q.push(other), jobs, job_id) == reads(q, jobs, job_id),
{
    reveal(Seq::filter);
    let p = q.push(other);
    assert(p.drop_last() =~= q);
    assert(p.filter(scans_of(job_id)) =~= q.filter(scans_of(job_id)));
    if scanning(p, job_id) {
        let i = choose|i: int| 0 <= i < p.len() && scans_of(job_id)(#[trigger] p[i]);
        assert(q[i] == p[i]);
    }
    if scanning(q, job_id) {
        let i = choose|i: int| 0 <= i < q.len() && scans_of(job_id)(#[trigger] q[i]);
        assert(p[i] == q[i]);
    }
}

/// A scanning fragment that is added to a job adds what it reads to what is counted, once for each
/// fragment.
pub proof fn law_each_read_is_counted(
    q: Seq<UpstreamRowModel>,
    row: UpstreamRowModel,
    jobs: Map<u32, u32>,
    x: u32,
)
    requires
        scans_of(row.job_id)(row),
    ensures
        scanning(q.push(row), row.job_id),
        occurrences(reads(q.push(row), jobs, row.job_id), x) == occurrences(
            reads(q, jobs, row.job_id),
            x,
        ) + occurrences(image(row.upstream_fragment_id, |f: u32| jobs[f]), x),
{
    reveal(Seq::filter);
    let p = q.push(row);
    let j = row.job_id;
    assert(p.drop_last() =~= q);
    assert(p[q.len() as int] == row);
    assert(p.filter(scans_of(j)) =~= q.filter(scans_of(j)).push(row));
    lemma_gather_push(q.filter(scans_of(j)), row, upstreams_of());
    let more = image(row.upstream_fragment_id, |f: u32| jobs[f]);
    assert(reads(p, jobs, j) =~= reads(q, jobs, j) + more);
    lemma_occurrences_add(reads(q, jobs, j), more, x);
}

} // verus!
