use vstd::prelude::*;

verus! {

/// Hands out entity identifiers: each call returns the current value and
/// advances it, wrapping around at the top of the `u64` range.
pub struct IdCounter {
    pub next: u64,
}

/// The identifier a counter hands out next, and the counter after it.
pub open spec fn spec_issue(c: IdCounter) -> (u64, IdCounter) {
    (c.next, IdCounter { next: if c.next == u64::MAX { 0 } else { (c.next + 1) as u64 } })
}

impl IdCounter {
    /// A counter whose first identifier is 0.
    pub fn new() -> (c: IdCounter)
        ensures
            c.next == 0,
    {
        IdCounter { next: 0 }
    }
}

/// Returns a new identifier from `counter`.
pub fn new_id(counter: &mut IdCounter) -> (id: u64)
    ensures
        (id, *final(counter)) == spec_issue(*old(counter)),
{
    let id = counter.next;
    counter.next = counter.next.wrapping_add(1);
    id
}

/// Every identifier handed out is unused: if all identifiers handed out so
/// far are below the counter and the counter has not reached the top of its
/// range, the next one is new, and all of them stay below the counter.
pub proof fn lemma_new_id_is_fresh(c: IdCounter, issued: Set<u64>)
    requires
        forall|i: u64| issued.contains(i) ==> i < c.next,
        c.next < u64::MAX,
    ensures
        !issued.contains(spec_issue(c).0),
        forall|i: u64| #[trigger] issued.insert(spec_issue(c).0).contains(i) ==> i < spec_issue(c).1.next,
{
}

/// The identifiers handed out by `n` calls of [`new_id`] on a counter `c`,
/// in order, and the counter after them.
pub open spec fn issue_run(c: IdCounter, n: nat) -> (Seq<u64>, IdCounter)
    decreases n,
{
    if n == 0 {
        (Seq::empty(), c)
    } else {
        let (id, c1) = spec_issue(c);
        let (rest, c2) = issue_run(c1, (n - 1) as nat);
        (seq![id] + rest, c2)
    }
}

/// `n` calls of [`new_id`] from a counter at `c`, with `c + n` within range,
/// hand out exactly `c, c + 1, ..., c + n - 1`, in that order (so all
/// different and increasing), and leave the counter at `c + n`.
pub proof fn lemma_ids_consecutive(c: IdCounter, n: nat)
    requires
        c.next + n <= u64::MAX,
    ensures
        issue_run(c, n).0 == Seq::new(n, |i: int| (c.next + i) as u64),
        issue_run(c, n).1.next == c.next + n,
        forall|i: int, j: int| 0 <= i < j < n ==> issue_run(c, n).0[i] < issue_run(c, n).0[j],
    decreases n,
{
    if n > 0 {
        let (id, c1) = spec_issue(c);
        lemma_ids_consecutive(c1, (n - 1) as nat);
        assert(issue_run(c, n).0 =~= Seq::new(n, |i: int| (c.next + i) as u64));
    }
}

/// One call hands out the counter's value and moves the counter on by one,
/// wrapping from the top of the range back to 0.
pub proof fn lemma_issue_step(c: IdCounter)
    ensures
        spec_issue(c).0 == c.next,
        spec_issue(c).1.next == (c.next + 1) % 0x1_0000_0000_0000_0000,
{
}

} // verus!
