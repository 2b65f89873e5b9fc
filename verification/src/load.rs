//! How heavily a server is loaded, and which of two loads is the lighter.

use vstd::prelude::*;

verus! {

/// The load at which a server gets no more jobs, in jobs per core. It is reached
/// by a server with one core only, see `load_weight`.
pub const MAX_PER_CORE_LOAD: usize = 2;

/// Jobs per core, kept as a fraction so that no two loads are confused.
#[derive(Clone, Copy, Debug, PartialEq, Eq, Structural)]
pub struct LoadWeight {
    pub jobs: usize,
    pub cores: usize,
}

/// Whether load `a` is lighter than load `b`.
pub open spec fn lighter(a: LoadWeight, b: LoadWeight) -> bool {
    a.jobs * b.cores < b.jobs * a.cores
}

/// The load that a server has to be under to get a job.
pub open spec fn max_load() -> LoadWeight {
    LoadWeight { jobs: MAX_PER_CORE_LOAD, cores: 1 }
}

/// How many jobs a server with `core_count` cores runs at most: slightly more
/// than it has cores, to make up for network and disk latency.
pub open spec fn job_limit(core_count: usize) -> int {
    core_count + 1 + core_count / 8
}

/// The load of a server with `job_count` jobs on `core_count` cores. A server that
/// is at its limit weighs more than any server may.
pub open spec fn load_of(job_count: nat, core_count: usize) -> LoadWeight {
    if job_count >= job_limit(core_count) {
        LoadWeight { jobs: (MAX_PER_CORE_LOAD + 1) as usize, cores: 1 }
    } else {
        LoadWeight { jobs: job_count as usize, cores: core_count }
    }
}

/// The load of a server with `job_count` jobs on `core_count` cores.
pub fn load_weight(job_count: usize, core_count: usize) -> (r: LoadWeight)
    ensures
        r == load_of(job_count as nat, core_count),
{
    // The question is whether one more job can be added, hence not just "above".
    let limit: u128 = core_count as u128 + 1 + (core_count / 8) as u128;
    if job_count as u128 >= limit {
        LoadWeight { jobs: MAX_PER_CORE_LOAD + 1, cores: 1 }
    } else {
        LoadWeight { jobs: job_count, cores: core_count }
    }
}

impl LoadWeight {
    /// The load that a server has to be under to get a job.
    pub fn max() -> (r: LoadWeight)
        ensures
            r == max_load(),
    {
        LoadWeight { jobs: MAX_PER_CORE_LOAD, cores: 1 }
    }

    /// Whether this load is lighter than `other`.
    pub fn is_lighter_than(&self, other: &LoadWeight) -> (r: bool)
        ensures
            r == lighter(*self, *other),
    {
        proof {
            lemma_product_fits(self.jobs, other.cores);
            lemma_product_fits(other.jobs, self.cores);
        }
        (self.jobs as u128) * (other.cores as u128) < (other.jobs as u128) * (self.cores as u128)
    }

    /// Whether there is no load at all.
    pub fn is_zero(&self) -> (r: bool)
        ensures
            r == (self.jobs == 0),
    {
        self.jobs == 0
    }
}

/// The product of two lengths fits in twice the width.
proof fn lemma_product_fits(a: usize, b: usize)
    ensures
        0 <= a * b <= u128::MAX,
{
    assert(0 <= a * b <= 0xffff_ffff_ffff_ffffint * 0xffff_ffff_ffff_ffffint) by (nonlinear_arith)
        requires
            0 <= a <= 0xffff_ffff_ffff_ffffint,
            0 <= b <= 0xffff_ffff_ffff_ffffint,
    ;
}

/// Being lighter carries over: what is lighter than `b` is lighter than anything
/// that is no lighter than `b`.
pub proof fn law_lighter_is_transitive(a: LoadWeight, b: LoadWeight, c: LoadWeight)
    requires
        a.cores > 0,
        b.cores > 0,
        c.cores > 0,
        lighter(a, b),
        !lighter(c, b),
    ensures
        lighter(a, c),
{
    let (aj, ac, bj, bc, cj, cc) = (
        a.jobs as int,
        a.cores as int,
        b.jobs as int,
        b.cores as int,
        c.jobs as int,
        c.cores as int,
    );
    // aj*bc < bj*ac and cj*bc >= bj*cc, so aj*bc*cc < bj*ac*cc <= cj*bc*ac.
    assert(aj * cc < cj * ac) by (nonlinear_arith)
        requires
            aj * bc < bj * ac,
            cj * bc >= bj * cc,
            ac > 0,
            bc > 0,
            cc > 0,
    {
        assert((aj * bc) * cc < (bj * ac) * cc);
        assert((bj * cc) * ac <= (cj * bc) * ac);
        assert((aj * cc) * bc < (cj * ac) * bc);
    }
}

/// A server gets a job exactly while it has fewer than its limit.
pub proof fn law_a_server_takes_jobs_up_to_its_limit(job_count: nat, core_count: usize)
    requires
        core_count > 0,
        job_count <= usize::MAX,
    ensures
        lighter(load_of(job_count, core_count), max_load()) <==> job_count < job_limit(core_count),
{
}

/// With the same cores, fewer jobs are the lighter load, as long as there is room.
pub proof fn law_fewer_jobs_are_lighter(fewer: nat, more: nat, core_count: usize)
    requires
        core_count > 0,
        fewer < more,
        fewer < job_limit(core_count),
        more <= usize::MAX,
    ensures
        lighter(load_of(fewer, core_count), load_of(more, core_count)),
{
    let (a, b) = (load_of(fewer, core_count), load_of(more, core_count));
    if more < job_limit(core_count) {
        let (aj, bj, c) = (a.jobs as int, b.jobs as int, core_count as int);
        assert(aj * c < bj * c) by (nonlinear_arith)
            requires
                aj < bj,
                c > 0,
        ;
    } else {
        assert(a.jobs * b.cores == a.jobs);
    }
}

} // verus!
