use vstd::prelude::*;

use crate::gres::{digit_end, digit_end_exec};
use crate::text::{
    chars_of, find_char_from, find_from, find_seq, find_seq_from, lemma_find_from,
    lemma_find_seq_from, parse_u32, parse_u32_spec, slice_chars,
};

verus! {

/// The value parsed, or zero where parsing failed.
pub open spec fn or_zero(v: Option<u32>) -> nat {
    match v {
        Some(n) => n as nat,
        None => 0,
    }
}

/// What one entry of an index list contributes: `b - a + 1` for a range
/// `a-b` with `b >= a` (an unreadable bound counts as zero), one for a single
/// index, zero for anything else.
pub open spec fn entry_count(p: Seq<char>) -> nat {
    let d = find_from(p, '-', 0);
    if d < p.len() {
        let start = or_zero(parse_u32_spec(p.subrange(0, d)));
        let end = or_zero(parse_u32_spec(p.subrange(d + 1, p.len() as int)));
        if end >= start {
            (end - start + 1) as nat
        } else {
            0
        }
    } else if parse_u32_spec(p) is Some {
        1
    } else {
        0
    }
}

/// The sum of `entry_count` over the comma-separated entries of `s` from
/// position `i` on.
pub open spec fn entries_total(s: Seq<char>, i: int) -> nat
    decreases s.len() + 1 - i,
    via entries_total_decreases
{
    if i < 0 || i > s.len() {
        0
    } else {
        let c = find_from(s, ',', i);
        entry_count(s.subrange(i, c)) + if c < s.len() {
            entries_total(s, c + 1)
        } else {
            0
        }
    }
}

#[via_fn]
proof fn entries_total_decreases(s: Seq<char>, i: int) {
    if 0 <= i <= s.len() {
        lemma_find_from(s, ',', i);
    }
}

/// The number of device indices that an index list such as `0,2-7` names,
/// held at the largest `u32`.
pub open spec fn index_count(s: Seq<char>) -> u32 {
    if entries_total(s, 0) > u32::MAX {
        u32::MAX
    } else {
        entries_total(s, 0) as u32
    }
}

/// The position of the `n`-th colon (from zero), or the length of `s`.
pub open spec fn colon(s: Seq<char>, n: nat) -> int
    decreases n,
{
    if n == 0 {
        find_from(s, ':', 0)
    } else {
        find_from(s, ':', colon(s, (n - 1) as nat) + 1)
    }
}

/// The third colon-separated segment of `s`.
pub open spec fn third_segment(s: Seq<char>) -> Seq<char> {
    s.subrange(colon(s, 1) + 1, colon(s, 2))
}

/// The count that an index list `(IDX:<list>)` in `s` gives: the first
/// `(IDX:` and the first `)` after it delimit the list.
pub open spec fn idx_list_count(s: Seq<char>) -> Option<u32> {
    match find_seq_from(s, "(IDX:"@, 0) {
        Some(p) => {
            let q = find_from(s, ')', p + 5);
            if q < s.len() {
                Some(index_count(s.subrange(p + 5, q)))
            } else {
                None
            }
        },
        None => None,
    }
}

/// The count that the leading digits of the third segment give.
pub open spec fn segment_count(s: Seq<char>) -> Option<u32> {
    let seg = third_segment(s);
    parse_u32_spec(seg.subrange(0, digit_end(seg, 0)))
}

/// The number of GPUs that a detail string such as `gpu:a40:2(IDX:0-1)`
/// allocates, or `None` where it allocates none.
pub open spec fn gpu_count_of(s: Seq<char>) -> Option<u32> {
    if !(s.len() >= 3 && s.subrange(0, 3) == "gpu"@) || colon(s, 1) >= s.len() {
        None
    } else {
        let idx = match idx_list_count(s) {
            Some(n) => n,
            None => 0,
        };
        if idx > 0 {
            Some(idx)
        } else {
            match segment_count(s) {
                Some(n) => if n > 0 {
                    Some(n)
                } else {
                    None
                },
                None => None,
            }
        }
    }
}

/// The allocations that the detail strings `ds` of a job on `node` give, in
/// their order, as (node, GPU count).
pub open spec fn detail_allocations(ds: Seq<String>, node: Seq<char>) -> Seq<(Seq<char>, u32)>
    decreases ds.len(),
{
    if ds.len() == 0 {
        Seq::empty()
    } else {
        let rest = detail_allocations(ds.drop_last(), node);
        match gpu_count_of(ds.last()@) {
            Some(n) => rest.push((node, n)),
            None => rest,
        }
    }
}

/// The partition whose jobs count as preempted.
pub open spec fn preempted_tag() -> Seq<char> {
    "preempted"@
}

/// The allocations of the jobs of the preempted partition, in job order and
/// then in detail order.
pub open spec fn preempted_allocations(jobs: Seq<Job>) -> Seq<(Seq<char>, u32)>
    decreases jobs.len(),
{
    if jobs.len() == 0 {
        Seq::empty()
    } else {
        let rest = preempted_allocations(jobs.drop_last());
        let j = jobs.last();
        if j.partition@ == preempted_tag() {
            rest + detail_allocations(j.gres_detail@, j.nodes@)
        } else {
            rest
        }
    }
}

/// The (node, GPU count) pairs that a list of allocations holds.
pub open spec fn allocation_pairs(a: Seq<GpuAllocation>) -> Seq<(Seq<char>, u32)> {
    a.map_values(|g: GpuAllocation| (g.node@, g.gpus))
}

/// The GPU count of the first allocation on `node`, or zero where there is none.
pub open spec fn first_count_on(a: Seq<(Seq<char>, u32)>, node: Seq<char>) -> nat
    decreases a.len(),
{
    if a.len() == 0 {
        0
    } else if a[0].0 == node {
        a[0].1 as nat
    } else {
        first_count_on(a.drop_first(), node)
    }
}

/// A count of GPUs that one job holds on one node.
#[derive(Debug, Clone, PartialEq, Eq)]
pub struct GpuAllocation {
    pub node: String,
    pub gpus: u32,
}

/// A job as the scheduler reports it.
#[derive(Debug, Clone)]
pub struct Job {
    pub partition: String,
    pub nodes: String,
    pub gres_detail: Vec<String>,
}

fn entry_count_exec(p: &Vec<char>) -> (r: u64)
    ensures
        r as nat == entry_count(p@),
{
    let d = find_char_from(p, '-', 0);
    if d < p.len() {
        let start_chars = slice_chars(p, 0, d);
        let end_chars = slice_chars(p, d + 1, p.len());
        let start: u32 = match parse_u32(&start_chars) {
            Some(n) => n,
            None => 0,
        };
        let end: u32 = match parse_u32(&end_chars) {
            Some(n) => n,
            None => 0,
        };
        if end >= start {
            (end - start) as u64 + 1
        } else {
            0
        }
    } else if parse_u32(p).is_some() {
        1
    } else {
        0
    }
}

/// Counts the device indices that a list such as `0,2-7` or `0-3` names:
/// one for each single index, `b - a + 1` for each range `a-b` with
/// `b >= a`. The sum is held at the largest `u32`.
pub fn count_gpu_indices(idx_spec: &str) -> (r: u32)
    ensures
        r == index_count(idx_spec@),
{
    let v = chars_of(idx_spec);
    let ghost s = v@;
    let mut count: u32 = 0;
    let ghost mut acc: nat = 0;
    let mut pos: usize = 0;
    loop
        invariant
            s == v@,
            s == idx_spec@,
            pos <= v@.len(),
            acc + entries_total(s, pos as int) == entries_total(s, 0),
            count as nat == if acc > u32::MAX {
                u32::MAX as nat
            } else {
                acc
            },
        decreases v@.len() - pos,
    {
        let c = find_char_from(&v, ',', pos);
        proof {
            lemma_find_from(s, ',', pos as int);
        }
        let part = slice_chars(&v, pos, c);
        let n = entry_count_exec(&part);
        proof {
            assert(entries_total(s, pos as int) == entry_count(s.subrange(pos as int, c as int)) + if c
                < s.len() {
                entries_total(s, c + 1)
            } else {
                0
            });
            acc = acc + n as nat;
        }
        if count as u64 + n > u32::MAX as u64 {
            count = u32::MAX;
        } else {
            count = count + n as u32;
        }
        if c == v.len() {
            return count;
        }
        pos = c + 1;
    }
}

fn colon_exec(v: &Vec<char>, n: usize) -> (r: usize)
    requires
        n <= 2,
    ensures
        r as int == colon(v@, n as nat),
        r <= v@.len(),
{
    let mut at = find_char_from(v, ':', 0);
    proof {
        lemma_find_from(v@, ':', 0);
    }
    let mut m: usize = 0;
    while m < n
        invariant
            m <= n,
            at as int == colon(v@, m as nat),
            at <= v@.len(),
        decreases n - m,
    {
        if at < v.len() {
            proof {
                lemma_find_from(v@, ':', at + 1);
            }
            at = find_char_from(v, ':', at + 1);
        }
        m = m + 1;
    }
    at
}

/// Reads the number of GPUs that one detail string of a job allocates on
/// `node`. The string must start with `gpu` and hold at least three
/// colon-separated segments. An index list `(IDX:...)` that names at least
/// one device decides the count; otherwise the leading digits of the third
/// segment do. A count of zero gives `None`.
pub fn parse_gpu_allocation(gres_str: &str, node: &str) -> (r: Option<GpuAllocation>)
    ensures
        r is Some <==> gpu_count_of(gres_str@) is Some,
        r matches Some(a) ==> a.node@ == node@ && gpu_count_of(gres_str@) == Some(a.gpus),
{
    let v = chars_of(gres_str);
    proof {
        reveal_strlit("gpu");
        reveal_strlit("(IDX:");
    }
    if !(v.len() >= 3 && v[0] == 'g' && v[1] == 'p' && v[2] == 'u') {
        proof {
            if v@.len() >= 3 {
                assert(v@.subrange(0, 3)[0] == v@[0]);
                assert(v@.subrange(0, 3)[1] == v@[1]);
                assert(v@.subrange(0, 3)[2] == v@[2]);
            }
        }
        return None;
    }
    assert(v@.subrange(0, 3) =~= "gpu"@);
    let c1 = colon_exec(&v, 1);
    if c1 >= v.len() {
        return None;
    }
    let pat = chars_of("(IDX:");
    match find_seq(&v, &pat, 0) {
        Some(p) => {
            proof {
                lemma_find_seq_from(v@, pat@, 0);
            }
            let q = find_char_from(&v, ')', p + 5);
            proof {
                lemma_find_from(v@, ')', p + 5);
            }
            if q < v.len() {
                let gpus = count_gpu_indices(gres_str.substring_char(p + 5, q));
                if gpus > 0 {
                    return Some(GpuAllocation { node: String::from_str(node), gpus });
                }
            }
        },
        None => {},
    }
    let c2 = colon_exec(&v, 2);
    proof {
        lemma_find_from(v@, ':', c1 + 1);
    }
    let seg = slice_chars(&v, c1 + 1, c2);
    let e = digit_end_exec(&seg, 0);
    let digits = slice_chars(&seg, 0, e);
    match parse_u32(&digits) {
        Some(gpus) => {
            if gpus > 0 {
                Some(GpuAllocation { node: String::from_str(node), gpus })
            } else {
                None
            }
        },
        None => None,
    }
}

/// Collects, in order, the GPU allocations of the jobs in the `preempted`
/// partition: one for each detail string that allocates at least one GPU.
pub fn process_preempted_jobs(jobs: &[Job]) -> (r: Vec<GpuAllocation>)
    ensures
        allocation_pairs(r@) == preempted_allocations(jobs@),
{
    let tag = String::from_str("preempted");
    let mut r: Vec<GpuAllocation> = Vec::new();
    let mut i: usize = 0;
    while i < jobs.len()
        invariant
            i <= jobs@.len(),
            tag@ == preempted_tag(),
            allocation_pairs(r@) == preempted_allocations(jobs@.subrange(0, i as int)),
        decreases jobs@.len() - i,
    {
        let job = &jobs[i];
        let ghost before = r@;
        if job.partition.eq(&tag) {
            let mut k: usize = 0;
            while k < job.gres_detail.len()
                invariant
                    i < jobs@.len(),
                    job == jobs@[i as int],
                    k <= job.gres_detail@.len(),
                    allocation_pairs(r@) == allocation_pairs(before) + detail_allocations(
                        job.gres_detail@.subrange(0, k as int),
                        job.nodes@,
                    ),
                decreases job.gres_detail@.len() - k,
            {
                let ghost mid = r@;
                let found = parse_gpu_allocation(job.gres_detail[k].as_str(), job.nodes.as_str());
                proof {
                    assert(job.gres_detail@.subrange(0, k + 1).drop_last() =~= job.gres_detail@.subrange(
                        0,
                        k as int,
                    ));
                }
                match found {
                    Some(a) => {
                        r.push(a);
                        assert(allocation_pairs(r@) =~= allocation_pairs(mid).push(
                            (r@.last().node@, r@.last().gpus),
                        ));
                    },
                    None => {},
                }
                k = k + 1;
                assert(allocation_pairs(r@) =~= allocation_pairs(before) + detail_allocations(
                    job.gres_detail@.subrange(0, k as int),
                    job.nodes@,
                ));
            }
            assert(job.gres_detail@.subrange(0, job.gres_detail@.len() as int) =~= job.gres_detail@);
        }
        assert(jobs@.subrange(0, i + 1).drop_last() =~= jobs@.subrange(0, i as int));
        i = i + 1;
        assert(allocation_pairs(r@) =~= preempted_allocations(jobs@.subrange(0, i as int)));
    }
    assert(jobs@.subrange(0, jobs@.len() as int) =~= jobs@);
    r
}

/// The GPU count of the first allocation on `node`, or zero where there is none.
pub fn preempted_count_on(allocs: &[GpuAllocation], node: &str) -> (r: u32)
    ensures
        r as nat == first_count_on(allocation_pairs(allocs@), node@),
{
    let host = String::from_str(node);
    assert(allocation_pairs(allocs@).subrange(0, allocs@.len() as int) =~= allocation_pairs(allocs@));
    let mut i: usize = 0;
    while i < allocs.len()
        invariant
            i <= allocs@.len(),
            host@ == node@,
            first_count_on(allocation_pairs(allocs@), node@) == first_count_on(
                allocation_pairs(allocs@).subrange(i as int, allocs@.len() as int),
                node@,
            ),
        decreases allocs@.len() - i,
    {
        let ghost rest = allocation_pairs(allocs@).subrange(i as int, allocs@.len() as int);
        assert(rest.drop_first() =~= allocation_pairs(allocs@).subrange(i + 1, allocs@.len() as int));
        if allocs[i].node.eq(&host) {
            return allocs[i].gpus;
        }
        i = i + 1;
    }
    0
}

} // verus!
