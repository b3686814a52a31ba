use vstd::prelude::*;
use std::collections::HashMap;

verus! {

broadcast use vstd::std_specs::hash::group_hash_axioms;

/// Removes from `map` every entry whose key is among `removals`; the rest stays as it was.
pub fn remove_flagged<T>(map: &mut HashMap<u64, T>, removals: &Vec<u64>)
    ensures
        final(map)@ == old(map)@.remove_keys(removals@.to_set()),
{
    let ghost start = map@;
    let mut i: usize = 0;
    while i < removals.len()
        invariant
            i <= removals.len(),
            start == old(map)@,
            map@ == start.remove_keys(removals@.take(i as int).to_set()),
        decreases removals.len() - i,
    {
        let id = removals[i];
        map.remove(&id);
        proof {
            assert(removals@.take(i + 1).to_set() =~= removals@.take(i as int).to_set().insert(id)) by {
                assert(removals@.take(i + 1) =~= removals@.take(i as int).push(id));
                vstd::seq_lib::lemma_seq_contains_after_push(removals@.take(i as int), id, id);
            }
            assert(map@ =~= start.remove_keys(removals@.take(i + 1).to_set()));
        }
        i += 1;
    }
    assert(removals@.take(removals.len() as int) =~= removals@);
}

/// The entries after a world update from the server arrives: the incoming
/// entries replace the local ones, except that the entry `me` is kept from
/// the local side when it is there.
pub open spec fn spec_adopt<T>(local: Map<u64, T>, incoming: Map<u64, T>, me: u64) -> Map<u64, T> {
    if local.contains_key(me) {
        incoming.insert(me, local[me])
    } else {
        incoming
    }
}

/// A world update takes everything the server sent; the only local entry
/// that survives is the player `me`, and only when it is there locally.
/// Without a local `me`, the result is exactly what came in (so an own
/// player sent by the server appears as sent).
pub proof fn lemma_adopt_cases<T>(local: Map<u64, T>, incoming: Map<u64, T>, me: u64)
    ensures
        !local.contains_key(me) ==> spec_adopt(local, incoming, me) == incoming,
        local.contains_key(me) ==> spec_adopt(local, incoming, me) == incoming.insert(me, local[me]),
        incoming.contains_key(me) ==> spec_adopt(local, incoming, me).contains_key(me),
        forall|k: u64| #[trigger] incoming.contains_key(k) ==> spec_adopt(local, incoming, me).contains_key(k),
        forall|k: u64| #[trigger] spec_adopt(local, incoming, me).contains_key(k) ==> incoming.contains_key(k) || (k == me && local.contains_key(me)),
{
    if !local.contains_key(me) {
        assert(spec_adopt(local, incoming, me) =~= incoming);
    }
}

/// Replaces `local` by `incoming`, keeping the local entry `me` (the
/// player this machine controls) when there is one.
pub fn adopt_world<T>(local: &mut HashMap<u64, T>, incoming: HashMap<u64, T>, me: u64)
    ensures
        final(local)@ == spec_adopt(old(local)@, incoming@, me),
        !old(local)@.contains_key(me) ==> final(local)@ == incoming@,
        old(local)@.contains_key(me) ==> final(local)@ == incoming@.insert(me, old(local)@[me]),
{
    proof {
        lemma_adopt_cases(old(local)@, incoming@, me);
    }
    let mut incoming = incoming;
    let kept = local.remove(&me);
    match kept {
        Some(own) => {
            incoming.insert(me, own);
        },
        None => {},
    }
    *local = incoming;
}

/// A world update never takes away or replaces the local player: after it,
/// the local entry `me` is still there with its local value, every other
/// entry is the incoming one, and nothing else is present.
pub proof fn lemma_adopt_keeps_me<T>(local: Map<u64, T>, incoming: Map<u64, T>, me: u64)
    ensures
        local.contains_key(me) ==> spec_adopt(local, incoming, me).contains_key(me)
            && spec_adopt(local, incoming, me)[me] == local[me],
        forall|k: u64| k != me ==> (#[trigger] spec_adopt(local, incoming, me).contains_key(k) <==> incoming.contains_key(k)),
        forall|k: u64| k != me && incoming.contains_key(k) ==> #[trigger] spec_adopt(local, incoming, me)[k] == incoming[k],
{
}

} // verus!
