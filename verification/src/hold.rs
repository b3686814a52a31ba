use vstd::prelude::*;

verus! {

/// The last body in `holds` (entries: a body and what it holds) that holds `target`.
pub open spec fn last_holder(holds: Seq<(u64, Option<u64>)>, target: u64) -> Option<u64>
    decreases holds.len(),
{
    if holds.len() == 0 {
        None
    } else if holds.last().1 == Some(target) {
        Some(holds.last().0)
    } else {
        last_holder(holds.drop_last(), target)
    }
}

/// The holder of whatever `o` names, if `o` names something.
pub open spec fn holder_of(holds: Seq<(u64, Option<u64>)>, o: Option<u64>) -> Option<u64> {
    match o {
        Some(t) => last_holder(holds, t),
        None => None,
    }
}

/// Everything held by some body, in the order of `holds`.
pub open spec fn held_ids(holds: Seq<(u64, Option<u64>)>) -> Seq<u64>
    decreases holds.len(),
{
    if holds.len() == 0 {
        Seq::empty()
    } else {
        match holds.last().1 {
            Some(h) => held_ids(holds.drop_last()).push(h),
            None => held_ids(holds.drop_last()),
        }
    }
}

/// The sequence holding the value of `o`, if any.
pub open spec fn opt_seq(o: Option<u64>) -> Seq<u64> {
    match o {
        Some(x) => seq![x],
        None => Seq::empty(),
    }
}

/// What body `id` may not grab: itself, the chain of up to three bodies
/// that hold it (its holder, that one's holder, and the next), and
/// everything that is already held.
pub open spec fn spec_exclusions(id: u64, holds: Seq<(u64, Option<u64>)>) -> Seq<u64> {
    let h1 = last_holder(holds, id);
    let h2 = holder_of(holds, h1);
    let h3 = holder_of(holds, h2);
    seq![id] + opt_seq(h1) + opt_seq(h2) + opt_seq(h3) + held_ids(holds)
}

/// The last body in `holds` that holds `target`.
pub fn find_holder(holds: &Vec<(u64, Option<u64>)>, target: u64) -> (h: Option<u64>)
    ensures
        h == last_holder(holds@, target),
{
    let mut found: Option<u64> = None;
    let mut i: usize = 0;
    while i < holds.len()
        invariant
            i <= holds.len(),
            found == last_holder(holds@.take(i as int), target),
        decreases holds.len() - i,
    {
        let (body, held) = holds[i];
        proof {
            assert(holds@.take(i + 1).drop_last() =~= holds@.take(i as int));
        }
        if held == Some(target) {
            found = Some(body);
        }
        i += 1;
    }
    assert(holds@.take(holds.len() as int) =~= holds@);
    found
}

/// Everything held by some body, in the order of `holds`.
pub fn collect_held(holds: &Vec<(u64, Option<u64>)>) -> (ids: Vec<u64>)
    ensures
        ids@ == held_ids(holds@),
{
    let mut ids: Vec<u64> = Vec::new();
    let mut i: usize = 0;
    while i < holds.len()
        invariant
            i <= holds.len(),
            ids@ == held_ids(holds@.take(i as int)),
        decreases holds.len() - i,
    {
        let (_body, held) = holds[i];
        proof {
            assert(holds@.take(i + 1).drop_last() =~= holds@.take(i as int));
        }
        if let Some(h) = held {
            ids.push(h);
        }
        i += 1;
    }
    assert(holds@.take(holds.len() as int) =~= holds@);
    ids
}

/// What body `id` may not grab, given each body and what it holds in the
/// order the bodies are visited.
pub fn grab_exclusions(id: u64, holds: &Vec<(u64, Option<u64>)>) -> (ids: Vec<u64>)
    ensures
        ids@ == spec_exclusions(id, holds@),
{
    let h1 = find_holder(holds, id);
    let h2 = match h1 {
        Some(a) => find_holder(holds, a),
        None => None,
    };
    let h3 = match h2 {
        Some(b) => find_holder(holds, b),
        None => None,
    };
    let mut ids: Vec<u64> = vec![id];
    if let Some(a) = h1 {
        ids.push(a);
    }
    if let Some(b) = h2 {
        ids.push(b);
    }
    if let Some(c) = h3 {
        ids.push(c);
    }
    let ghost prefix = ids@;
    assert(prefix =~= seq![id] + opt_seq(h1) + opt_seq(h2) + opt_seq(h3));
    let held = collect_held(holds);
    let mut i: usize = 0;
    while i < held.len()
        invariant
            i <= held.len(),
            ids@ == prefix + held@.take(i as int),
        decreases held.len() - i,
    {
        ids.push(held[i]);
        i += 1;
        assert(ids@ =~= prefix + held@.take(i as int));
    }
    assert(held@.take(held.len() as int) =~= held@);
    ids
}

/// Everything some body holds is listed in `held_ids`.
proof fn lemma_held_listed(holds: Seq<(u64, Option<u64>)>, k: int)
    requires
        0 <= k < holds.len(),
        holds[k].1 is Some,
    ensures
        held_ids(holds).contains(holds[k].1->0),
    decreases holds.len(),
{
    if k == holds.len() - 1 {
        assert(held_ids(holds).last() == holds[k].1->0);
        assert(held_ids(holds)[held_ids(holds).len() - 1] == holds[k].1->0);
    } else {
        assert(holds.drop_last()[k] == holds[k]);
        lemma_held_listed(holds.drop_last(), k);
        let h = holds[k].1->0;
        let w = choose|w: int| 0 <= w < held_ids(holds.drop_last()).len() && held_ids(holds.drop_last())[w] == h;
        match holds.last().1 {
            Some(x) => assert(held_ids(holds)[w] == h),
            None => {},
        }
    }
}

/// The holder found for a target does hold it.
proof fn lemma_holder_holds(holds: Seq<(u64, Option<u64>)>, target: u64)
    ensures
        last_holder(holds, target) matches Some(b) ==> exists|k: int| 0 <= k < holds.len() && holds[k] == (b, Some(target)),
    decreases holds.len(),
{
    if holds.len() > 0 {
        lemma_holder_holds(holds.drop_last(), target);
        if holds.last().1 == Some(target) {
            assert(holds[holds.len() - 1] == (holds.last().0, Some(target)));
        } else if last_holder(holds.drop_last(), target) is Some {
            let b = last_holder(holds.drop_last(), target)->0;
            let k = choose|k: int| 0 <= k < holds.drop_last().len() && holds.drop_last()[k] == (b, Some(target));
            assert(holds[k] == holds.drop_last()[k]);
        }
    }
}

/// A body may not grab itself, the body holding it (which does hold it),
/// nor anything already held.
pub proof fn lemma_exclusions_cover(id: u64, holds: Seq<(u64, Option<u64>)>)
    ensures
        spec_exclusions(id, holds).contains(id),
        last_holder(holds, id) matches Some(h) ==> spec_exclusions(id, holds).contains(h)
            && exists|k: int| 0 <= k < holds.len() && holds[k] == (h, Some(id)),
        forall|k: int| 0 <= k < holds.len() && (#[trigger] holds[k]).1 is Some
            ==> spec_exclusions(id, holds).contains(holds[k].1->0),
{
    let h1 = last_holder(holds, id);
    let h2 = holder_of(holds, h1);
    let h3 = holder_of(holds, h2);
    let front = seq![id] + opt_seq(h1) + opt_seq(h2) + opt_seq(h3);
    let e = spec_exclusions(id, holds);
    lemma_holder_holds(holds, id);
    assert(e == front + held_ids(holds));
    assert(e[0] == id);
    match h1 {
        Some(h) => assert(e[1] == h),
        None => {},
    }
    assert forall|k: int| 0 <= k < holds.len() && (#[trigger] holds[k]).1 is Some implies e.contains(holds[k].1->0) by {
        lemma_held_listed(holds, k);
        let h = holds[k].1->0;
        let w = choose|w: int| 0 <= w < held_ids(holds).len() && held_ids(holds)[w] == h;
        assert(e[front.len() + w] == h);
    }
}

/// The holder found for a target is the last body in visiting order that
/// holds it, and none is found exactly when no body holds it.
pub proof fn lemma_last_holder(holds: Seq<(u64, Option<u64>)>, target: u64)
    ensures
        last_holder(holds, target) is None <==> forall|k: int| 0 <= k < holds.len() ==> (#[trigger] holds[k]).1 != Some(target),
        last_holder(holds, target) matches Some(b) ==> exists|k: int| 0 <= k < holds.len() && holds[k] == (b, Some(target))
            && forall|m: int| k < m < holds.len() ==> (#[trigger] holds[m]).1 != Some(target),
    decreases holds.len(),
{
    if holds.len() > 0 {
        let p = holds.drop_last();
        lemma_last_holder(p, target);
        let n = holds.len() - 1;
        assert(holds[n] == holds.last());
        if holds.last().1 == Some(target) {
            assert(holds[n] == (holds.last().0, Some(target)));
        } else {
            assert forall|k: int| 0 <= k < p.len() implies #[trigger] p[k] == holds[k] by {}
            match last_holder(p, target) {
                Some(b) => {
                    let k = choose|k: int| 0 <= k < p.len() && p[k] == (b, Some(target))
                        && forall|m: int| k < m < p.len() ==> (#[trigger] p[m]).1 != Some(target);
                    assert(holds[k] == p[k]);
                    assert forall|m: int| k < m < holds.len() implies (#[trigger] holds[m]).1 != Some(target) by {
                        if m < n {
                            assert(holds[m] == p[m]);
                        }
                    }
                },
                None => {
                    assert forall|k: int| 0 <= k < holds.len() implies (#[trigger] holds[k]).1 != Some(target) by {
                        if k < n {
                            assert(holds[k] == p[k]);
                        }
                    }
                },
            }
        }
        if last_holder(holds, target) is None {
            assert(holds.last().1 != Some(target));
        }
        if forall|k: int| 0 <= k < holds.len() ==> (#[trigger] holds[k]).1 != Some(target) {
            assert forall|k: int| 0 <= k < p.len() implies (#[trigger] p[k]).1 != Some(target) by {
                assert(holds[k] == p[k]);
            }
        }
    }
}

/// The held identifiers are exactly what some body holds, in visiting order:
/// something is listed exactly when some body holds it.
pub proof fn lemma_held_ids_exact(holds: Seq<(u64, Option<u64>)>, x: u64)
    ensures
        held_ids(holds).contains(x) <==> exists|k: int| 0 <= k < holds.len() && (#[trigger] holds[k]).1 == Some(x),
    decreases holds.len(),
{
    if holds.len() > 0 {
        let p = holds.drop_last();
        lemma_held_ids_exact(p, x);
        let n = holds.len() - 1;
        assert(holds[n] == holds.last());
        if held_ids(holds).contains(x) {
            let w = choose|w: int| 0 <= w < held_ids(holds).len() && held_ids(holds)[w] == x;
            match holds.last().1 {
                Some(h) => {
                    if w < held_ids(p).len() {
                        assert(held_ids(p)[w] == x);
                        let k = choose|k: int| 0 <= k < p.len() && (#[trigger] p[k]).1 == Some(x);
                        assert(holds[k] == p[k]);
                    } else {
                        assert(holds[n].1 == Some(x));
                    }
                },
                None => {
                    assert(held_ids(p)[w] == x);
                    let k = choose|k: int| 0 <= k < p.len() && (#[trigger] p[k]).1 == Some(x);
                    assert(holds[k] == p[k]);
                },
            }
        }
        if exists|k: int| 0 <= k < holds.len() && (#[trigger] holds[k]).1 == Some(x) {
            let k = choose|k: int| 0 <= k < holds.len() && (#[trigger] holds[k]).1 == Some(x);
            lemma_held_listed(holds, k);
        }
    }
}

/// Up the chain of holders: besides the body itself and what is held, the
/// body holding it, the body holding that one and the next one up are all
/// excluded.
pub proof fn lemma_exclusions_chain(id: u64, holds: Seq<(u64, Option<u64>)>)
    ensures
        spec_exclusions(id, holds)[0] == id,
        last_holder(holds, id) matches Some(a) ==> {
            &&& spec_exclusions(id, holds).contains(a)
            &&& last_holder(holds, a) matches Some(b) ==> {
                &&& spec_exclusions(id, holds).contains(b)
                &&& last_holder(holds, b) matches Some(c) ==> spec_exclusions(id, holds).contains(c)
            }
        },
{
    let h1 = last_holder(holds, id);
    let h2 = holder_of(holds, h1);
    let h3 = holder_of(holds, h2);
    let e = spec_exclusions(id, holds);
    let f1 = seq![id] + opt_seq(h1);
    let f2 = f1 + opt_seq(h2);
    let f3 = f2 + opt_seq(h3);
    assert(e == f3 + held_ids(holds));
    match h1 {
        Some(a) => {
            assert(e[1] == a);
            match h2 {
                Some(b) => {
                    assert(e[2] == b);
                    match h3 {
                        Some(c) => assert(e[3] == c),
                        None => {},
                    }
                },
                None => {},
            }
        },
        None => {},
    }
}

} // verus!
