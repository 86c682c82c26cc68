//! Allocation of ports for OpenCode instances from a fixed range.

use vstd::prelude::*;
use std::collections::HashSet;
use crate::text::{chars_of, decimal, parse_i32_in, parse_i32_spec, push_decimal, push_str, string_from_chars, trim, trim_bounds};

verus! {

broadcast use vstd::std_specs::hash::group_hash_axioms;

/// A pool of ports `start .. start + size`; allocated ports are tracked so
/// that released ones can be reused.
pub struct PortPool {
    start: u16,
    size: u16,
    allocated: HashSet<u16>,
}

/// Why a port could not be allocated.
#[derive(Debug, Clone, Copy, PartialEq, Eq, Structural)]
pub enum PortPoolError {
    /// Every port of the pool is allocated.
    Exhausted { size: u16 },
}

/// Why the process on a port could not be identified.
#[derive(Debug, Clone, PartialEq)]
pub enum OrphanError {
    /// `lsof` reported no process on the port.
    NoProcess { port: u16 },
    /// `lsof` printed something that is not a PID.
    InvalidPid { text: String },
}

/// Whether `p` belongs to the pool's range.
pub open spec fn in_range(start: u16, size: u16, p: int) -> bool {
    start <= p < start + size
}

/// `p` is the lowest port of the range that is not in `taken`.
pub open spec fn is_lowest_free(start: u16, size: u16, taken: Set<u16>, p: int) -> bool {
    &&& in_range(start, size, p)
    &&& p <= u16::MAX
    &&& !taken.contains(p as u16)
    &&& forall|q: int| start <= q < p ==> #[trigger] taken.contains(q as u16)
}

/// The lowest port of the range that is not in `taken`, if any.
pub open spec fn lowest_free(start: u16, size: u16, taken: Set<u16>) -> Option<int> {
    if exists|p: int| #[trigger] is_lowest_free(start, size, taken, p) {
        Some(choose|p: int| #[trigger] is_lowest_free(start, size, taken, p))
    } else {
        None
    }
}

/// At most one port is the lowest free one.
pub proof fn lemma_lowest_free_unique(start: u16, size: u16, taken: Set<u16>, p: int, q: int)
    requires
        is_lowest_free(start, size, taken, p),
        is_lowest_free(start, size, taken, q),
    ensures
        p == q,
{
    if p < q {
        assert(taken.contains(p as u16));
    } else if q < p {
        assert(taken.contains(q as u16));
    }
}

/// A free port of the range below the limit implies a lowest free one, at or below it.
pub proof fn lemma_lowest_free_exists(start: u16, size: u16, taken: Set<u16>, p: int)
    requires
        in_range(start, size, p),
        p <= u16::MAX,
        !taken.contains(p as u16),
    ensures
        lowest_free(start, size, taken) is Some,
        lowest_free(start, size, taken)->0 <= p,
    decreases p - start,
{
    if forall|q: int| start <= q < p ==> #[trigger] taken.contains(q as u16) {
        assert(is_lowest_free(start, size, taken, p));
        let c = choose|c: int| #[trigger] is_lowest_free(start, size, taken, c);
        lemma_lowest_free_unique(start, size, taken, p, c);
    } else {
        let q = choose|q: int| start <= q < p && !#[trigger] taken.contains(q as u16);
        lemma_lowest_free_exists(start, size, taken, q);
    }
}

impl PortPool {
    /// First port of the range.
    pub closed spec fn start_port(&self) -> u16 {
        self.start
    }

    /// Number of ports in the range.
    pub closed spec fn pool_size(&self) -> u16 {
        self.size
    }

    /// The allocated ports.
    pub closed spec fn taken(&self) -> Set<u16> {
        self.allocated@
    }

    /// Every allocated port lies in the range.
    pub closed spec fn wf(&self) -> bool {
        &&& self.allocated@.finite()
        &&& forall|p: u16| self.allocated@.contains(p) ==> in_range(self.start, self.size, p as int)
    }

    /// Allocation from this pool cannot run past port 65535 before it finds a
    /// free port (the range fits, or a free port lies below the limit).
    pub open spec fn allocation_fits(&self) -> bool {
        self.start_port() + self.pool_size() <= 65536 || exists|p: int|
            self.start_port() <= p <= u16::MAX && !#[trigger] self.taken().contains(p as u16)
    }

    /// Creates a pool of `size` ports starting at `start`, none allocated.
    pub fn new(start: u16, size: u16) -> (pool: Self)
        ensures
            pool.wf(),
            pool.start_port() == start,
            pool.pool_size() == size,
            pool.taken() == Set::<u16>::empty(),
            pool.taken().finite(),
    {
        PortPool { start, size, allocated: HashSet::new() }
    }

    /// Allocates the lowest free port of the range; fails when every port is allocated.
    pub fn allocate(&mut self) -> (r: Result<u16, PortPoolError>)
        requires
            old(self).wf(),
            old(self).allocation_fits(),
        ensures
            final(self).wf(),
            final(self).taken().finite(),
            final(self).start_port() == old(self).start_port(),
            final(self).pool_size() == old(self).pool_size(),
            match r {
                Ok(p) => lowest_free(old(self).start_port(), old(self).pool_size(), old(self).taken())
                    == Some(p as int) && final(self).taken() == old(self).taken().insert(p),
                Err(e) => lowest_free(old(self).start_port(), old(self).pool_size(), old(self).taken())
                    is None && final(self).taken() == old(self).taken() && e == (PortPoolError::Exhausted {
                    size: old(self).pool_size(),
                }),
            },
    {
        let mut offset: u16 = 0;
        while offset < self.size
            invariant
                self.wf(),
                self.allocation_fits(),
                self.start == old(self).start,
                self.size == old(self).size,
                self.allocated@ == old(self).allocated@,
                offset <= self.size,
                forall|q: int| self.start <= q < self.start + offset ==> q <= u16::MAX && #[trigger] self.allocated@.contains(q as u16),
            decreases self.size - offset,
        {
            proof {
                if self.start + offset > u16::MAX {
                    assert(self.start + self.size > 65536);
                    let w = choose|p: int| self.start <= p <= u16::MAX && !#[trigger] self.allocated@.contains(p as u16);
                    assert(self.start <= w < self.start + offset);
                    assert(false);
                }
            }
            let port: u16 = self.start + offset;
            if !self.allocated.contains(&port) {
                let ghost old_taken = self.allocated@;
                self.allocated.insert(port);
                proof {
                    assert(is_lowest_free(self.start, self.size, old_taken, port as int));
                    let c = choose|c: int| #[trigger] is_lowest_free(self.start, self.size, old_taken, c);
                    lemma_lowest_free_unique(self.start, self.size, old_taken, port as int, c);
                }
                return Ok(port);
            }
            offset += 1;
        }
        proof {
            if exists|p: int| #[trigger] is_lowest_free(self.start, self.size, self.allocated@, p) {
                let c = choose|c: int| #[trigger] is_lowest_free(self.start, self.size, self.allocated@, c);
                assert(self.allocated@.contains(c as u16));
            }
        }
        Err(PortPoolError::Exhausted { size: self.size })
    }

    /// Returns a port to the pool; releasing a port that is not allocated does nothing.
    pub fn release(&mut self, port: u16)
        requires
            old(self).wf(),
        ensures
            final(self).wf(),
            final(self).taken().finite(),
            final(self).start_port() == old(self).start_port(),
            final(self).pool_size() == old(self).pool_size(),
            final(self).taken() == old(self).taken().remove(port),
    {
        self.allocated.remove(&port);
    }

    /// Whether `port` is allocated from this pool.
    pub fn is_allocated(&self, port: u16) -> (b: bool)
        ensures
            b == self.taken().contains(port),
    {
        self.allocated.contains(&port)
    }

    /// Whether `port` is free: not allocated here, and no process listens on
    /// it. `lsof_stdout` is what `lsof -ti:PORT` printed, or `None` when the
    /// command could not run (then the port counts as free).
    pub fn is_available(&self, port: u16, lsof_stdout: Option<&[u8]>) -> (b: bool)
        ensures
            b == (!self.taken().contains(port) && match lsof_stdout {
                Some(out) => out@.len() == 0,
                None => true,
            }),
    {
        if self.allocated.contains(&port) {
            return false;
        }
        match lsof_stdout {
            Some(out) => out.len() == 0,
            None => true,
        }
    }

    /// The allocated ports of a well-formed pool are finitely many, and each
    /// lies in the range.
    pub proof fn lemma_taken_in_range(&self)
        requires
            self.wf(),
        ensures
            self.taken().finite(),
            forall|p: u16| self.taken().contains(p) ==> in_range(self.start_port(), self.pool_size(), p as int),
    {
    }

    /// Number of allocated ports.
    pub fn allocated_count(&self) -> (n: usize)
        requires
            self.wf(),
        ensures
            n == self.taken().len(),
            n <= self.pool_size(),
    {
        proof {
            law_allocated_within_size(*self);
        }
        self.allocated.len()
    }
}

/// The PID of an orphan process, from the text `lsof -ti:PORT` printed:
/// none when the output is empty, else the trimmed text parsed as an integer.
pub fn parse_orphan_pid(port: u16, lsof_output: &str) -> (r: Result<i32, OrphanError>)
    ensures
        match r {
            Ok(pid) => lsof_output@.len() > 0 && parse_i32_spec(trim(lsof_output@)) == Some(pid as int),
            Err(OrphanError::NoProcess { port: p }) => lsof_output@.len() == 0 && p == port,
            Err(OrphanError::InvalidPid { text }) => lsof_output@.len() > 0 && parse_i32_spec(
                trim(lsof_output@),
            ) is None && text@ == trim(lsof_output@),
        },
{
    let s = chars_of(lsof_output);
    if s.len() == 0 {
        return Err(OrphanError::NoProcess { port });
    }
    let (lo, hi) = trim_bounds(&s, 0, s.len());
    assert(s@.subrange(0, s@.len() as int) == s@);
    match parse_i32_in(&s, lo, hi) {
        Some(pid) => Ok(pid),
        None => {
            let t = crate::text::slice_chars(&s, lo, hi);
            Err(OrphanError::InvalidPid { text: string_from_chars(&t) })
        },
    }
}

impl PortPoolError {
    /// The message this error displays.
    pub fn to_string(&self) -> (s: String)
        ensures
            s@ == (match *self {
                PortPoolError::Exhausted { size } => "Port pool exhausted: all "@ + decimal(size as nat)
                    + " ports allocated"@,
            }),
    {
        let mut v: Vec<char> = Vec::new();
        match self {
            PortPoolError::Exhausted { size } => {
                push_str(&mut v, "Port pool exhausted: all ");
                push_decimal(&mut v, *size as u64);
                push_str(&mut v, " ports allocated");
            },
        }
        string_from_chars(&v)
    }
}

/// After a port is released, allocation hands out that port again when every
/// lower port of the range is still allocated.
pub proof fn law_release_then_allocate_reuses(start: u16, size: u16, taken: Set<u16>, port: u16)
    requires
        taken.contains(port),
        in_range(start, size, port as int),
        forall|q: int| start <= q < port ==> #[trigger] taken.contains(q as u16),
    ensures
        lowest_free(start, size, taken.remove(port)) == Some(port as int),
{
    let t = taken.remove(port);
    assert forall|q: int| start <= q < port implies #[trigger] t.contains(q as u16) by {
        assert(taken.contains(q as u16));
        assert((q as u16) != port);
    }
    assert(is_lowest_free(start, size, t, port as int));
    let c = choose|c: int| #[trigger] is_lowest_free(start, size, t, c);
    lemma_lowest_free_unique(start, size, t, port as int, c);
}

/// Allocation never hands out an allocated port, nor one outside the range;
/// it fails only when every port of the range is allocated.
pub proof fn law_allocation_is_fresh(start: u16, size: u16, taken: Set<u16>)
    ensures
        match lowest_free(start, size, taken) {
            Some(p) => in_range(start, size, p) && p <= u16::MAX && !taken.contains(p as u16),
            None => forall|p: int| in_range(start, size, p) && p <= u16::MAX ==> #[trigger] taken.contains(p as u16),
        },
{
    if lowest_free(start, size, taken) is None {
        assert forall|p: int| in_range(start, size, p) && p <= u16::MAX implies #[trigger] taken.contains(p as u16) by {
            if !taken.contains(p as u16) {
                lemma_lowest_free_exists(start, size, taken, p);
            }
        }
    }
}


/// The count of allocated ports follows the calls: a successful allocation
/// raises it by one (the port was free), releasing an allocated port lowers it
/// by one, and releasing a port that is not allocated leaves it unchanged.
pub proof fn law_allocated_count_steps(taken: Set<u16>, port: u16)
    requires
        taken.finite(),
    ensures
        !taken.contains(port) ==> taken.insert(port).len() == taken.len() + 1,
        taken.contains(port) ==> taken.remove(port).len() == taken.len() - 1,
        !taken.contains(port) ==> taken.remove(port) == taken,
{
    if !taken.contains(port) {
        assert(taken.remove(port) =~= taken);
    }
}


/// The ports `start .. start + n`.
pub open spec fn first_ports(start: u16, n: int) -> Set<u16> {
    Set::new(|p: u16| start <= p && p < start + n)
}

proof fn lemma_first_ports(start: u16, n: int)
    requires
        n >= 0,
    ensures
        first_ports(start, n).finite(),
        first_ports(start, n).len() <= n,
    decreases n,
{
    if n == 0 {
        assert(first_ports(start, n) =~= Set::<u16>::empty());
    } else {
        lemma_first_ports(start, n - 1);
        let prev = first_ports(start, n - 1);
        if start + n - 1 <= u16::MAX {
            let q = (start + n - 1) as u16;
            assert(first_ports(start, n) =~= prev.insert(q));
        } else {
            assert(first_ports(start, n) =~= prev);
        }
    }
}

/// A pool never has more ports allocated than its range holds.
pub proof fn law_allocated_within_size(pool: PortPool)
    requires
        pool.wf(),
    ensures
        pool.taken().finite(),
        pool.taken().len() <= pool.pool_size(),
{
    pool.lemma_taken_in_range();
    lemma_first_ports(pool.start_port(), pool.pool_size() as int);
    assert(pool.taken().subset_of(first_ports(pool.start_port(), pool.pool_size() as int)));
    vstd::set_lib::lemma_len_subset(pool.taken(), first_ports(pool.start_port(), pool.pool_size() as int));
}

} // verus!
