use vstd::prelude::*;

verus! {

/// The kinds of things in a level.
#[derive(Clone, Copy, Debug, PartialEq, Eq, Structural)]
pub enum EntityKind {
    Stone,
    Player,
    Cannon,
    Damage,
    Platform,
}

/// What an entity can be used as: an object that can be held and moved
/// (`Obj`), or a projectile that pushes players it touches.
#[derive(Clone, Copy, Debug, PartialEq, Eq, Structural)]
pub enum Role {
    Obj,
    Projectile,
}

/// Stones and players are both; cannons and platforms are objects only;
/// cannon shots are projectiles only.
pub open spec fn spec_plays(kind: EntityKind, role: Role) -> bool {
    match role {
        Role::Obj => !(kind is Damage),
        Role::Projectile => kind is Stone || kind is Player || kind is Damage,
    }
}

/// Whether an entity of `kind` can be used in `role`.
pub fn plays(kind: EntityKind, role: Role) -> (b: bool)
    ensures
        b == spec_plays(kind, role),
{
    match role {
        Role::Obj => match kind {
            EntityKind::Damage => false,
            _ => true,
        },
        Role::Projectile => match kind {
            EntityKind::Stone | EntityKind::Player | EntityKind::Damage => true,
            _ => false,
        },
    }
}

/// The entities of a step: each identifier at most once, with its kind, in
/// the order they were first added.
pub struct Entities {
    entries: Vec<(u64, EntityKind)>,
}

/// No identifier occurs twice.
pub open spec fn ids_unique(s: Seq<(u64, EntityKind)>) -> bool {
    forall|i: int, j: int| 0 <= i < j < s.len() ==> s[i].0 != s[j].0
}

/// Some entry of `s` has identifier `id`.
pub open spec fn has_id(s: Seq<(u64, EntityKind)>, id: u64) -> bool {
    exists|j: int| 0 <= j < s.len() && #[trigger] s[j].0 == id
}

/// The kind recorded for `id` in `s`, if any.
pub open spec fn kind_of(s: Seq<(u64, EntityKind)>, id: u64) -> Option<EntityKind> {
    if has_id(s, id) {
        Some(s[choose|j: int| 0 <= j < s.len() && #[trigger] s[j].0 == id].1)
    } else {
        None
    }
}

/// `s` with `id` recorded as `kind`: an entry already there for `id` is
/// overwritten in place, otherwise the entry goes at the end.
pub open spec fn spec_put(s: Seq<(u64, EntityKind)>, id: u64, kind: EntityKind) -> Seq<(u64, EntityKind)> {
    if has_id(s, id) {
        s.update(choose|j: int| 0 <= j < s.len() && #[trigger] s[j].0 == id, (id, kind))
    } else {
        s.push((id, kind))
    }
}

/// `s` with every identifier of `ids`, in order, recorded as `kind`.
pub open spec fn spec_append(s: Seq<(u64, EntityKind)>, ids: Seq<u64>, kind: EntityKind) -> Seq<(u64, EntityKind)>
    decreases ids.len(),
{
    if ids.len() == 0 {
        s
    } else {
        spec_put(spec_append(s, ids.drop_last(), kind), ids.last(), kind)
    }
}

/// The entries of `s` that can be used in `role`, in order.
pub open spec fn in_role(s: Seq<(u64, EntityKind)>, role: Role) -> Seq<(u64, EntityKind)> {
    s.filter(|e: (u64, EntityKind)| spec_plays(e.1, role))
}

/// Recording one identifier keeps identifiers unique, gives it the new
/// kind and leaves every other identifier as it was.
proof fn lemma_put(s: Seq<(u64, EntityKind)>, id: u64, kind: EntityKind)
    requires
        ids_unique(s),
    ensures
        ids_unique(spec_put(s, id, kind)),
        kind_of(spec_put(s, id, kind), id) == Some(kind),
        forall|other: u64| other != id ==> #[trigger] kind_of(spec_put(s, id, kind), other) == kind_of(s, other),
{
    let t = spec_put(s, id, kind);
    if has_id(s, id) {
        let j = choose|j: int| 0 <= j < s.len() && #[trigger] s[j].0 == id;
        assert(t[j].0 == id);
        assert(has_id(t, id));
        let k = choose|k: int| 0 <= k < t.len() && #[trigger] t[k].0 == id;
        if k != j {
            assert(s[k].0 == id);
        }
        assert forall|other: u64| other != id implies #[trigger] kind_of(t, other) == kind_of(s, other) by {
            if has_id(s, other) {
                let a = choose|a: int| 0 <= a < s.len() && #[trigger] s[a].0 == other;
                assert(t[a].0 == other);
                let b = choose|b: int| 0 <= b < t.len() && #[trigger] t[b].0 == other;
                assert(s[b].0 == other);
            }
            if has_id(t, other) {
                let b = choose|b: int| 0 <= b < t.len() && #[trigger] t[b].0 == other;
                assert(s[b].0 == other);
            }
        }
    } else {
        assert(t[s.len() as int].0 == id);
        assert(has_id(t, id));
        let k = choose|k: int| 0 <= k < t.len() && #[trigger] t[k].0 == id;
        if k < s.len() {
            assert(s[k].0 == id);
        }
        assert forall|other: u64| other != id implies #[trigger] kind_of(t, other) == kind_of(s, other) by {
            if has_id(s, other) {
                let a = choose|a: int| 0 <= a < s.len() && #[trigger] s[a].0 == other;
                assert(t[a].0 == other);
                let b = choose|b: int| 0 <= b < t.len() && #[trigger] t[b].0 == other;
                if b < s.len() {
                    assert(s[b].0 == other);
                }
            }
            if has_id(t, other) {
                let b = choose|b: int| 0 <= b < t.len() && #[trigger] t[b].0 == other;
                assert(s[b].0 == other);
            }
        }
    }
}

impl Entities {
    /// The entries, in the order their identifiers were first added.
    pub closed spec fn view(&self) -> Seq<(u64, EntityKind)> {
        self.entries@
    }

    /// No identifier is recorded twice.
    pub closed spec fn wf(&self) -> bool {
        ids_unique(self.entries@)
    }

    /// No entities.
    pub fn new() -> (e: Entities)
        ensures
            e.wf(),
            e.view() == Seq::<(u64, EntityKind)>::empty(),
    {
        Entities { entries: Vec::new() }
    }

    /// Forgets all entities.
    pub fn clear(&mut self)
        ensures
            final(self).wf(),
            final(self).view() == Seq::<(u64, EntityKind)>::empty(),
    {
        self.entries.clear();
    }

    /// How many entities are recorded.
    pub fn len(&self) -> (n: usize)
        ensures
            n == self.view().len(),
    {
        self.entries.len()
    }

    /// Records `id` as `kind`, overwriting what was recorded for it.
    fn put(&mut self, id: u64, kind: EntityKind)
        requires
            old(self).wf(),
        ensures
            final(self).wf(),
            final(self).view() == spec_put(old(self).view(), id, kind),
    {
        let ghost s = self.entries@;
        proof {
            lemma_put(s, id, kind);
        }
        let mut j: usize = 0;
        while j < self.entries.len()
            invariant
                s == self.entries@,
                s == old(self).view(),
                ids_unique(s),
                j <= s.len(),
                forall|k: int| 0 <= k < j ==> s[k].0 != id,
            decreases s.len() - j,
        {
            if self.entries[j].0 == id {
                proof {
                    assert(has_id(s, id));
                    let c = choose|c: int| 0 <= c < s.len() && #[trigger] s[c].0 == id;
                    if c != j {
                        assert(s[c].0 == s[j as int].0);
                    }
                    assert(c == j);
                    assert(spec_put(s, id, kind) == s.update(j as int, (id, kind)));
                }
                self.entries.set(j, (id, kind));
                return;
            }
            j += 1;
        }
        self.entries.push((id, kind));
    }

    /// Adds the entities `ids`, all of kind `kind`; an identifier already
    /// recorded takes the new kind.
    pub fn append(&mut self, ids: &Vec<u64>, kind: EntityKind)
        requires
            old(self).wf(),
        ensures
            final(self).wf(),
            final(self).view() == spec_append(old(self).view(), ids@, kind),
    {
        let ghost start = self.view();
        let mut i: usize = 0;
        while i < ids.len()
            invariant
                i <= ids.len(),
                start == old(self).view(),
                self.wf(),
                self.view() == spec_append(start, ids@.take(i as int), kind),
            decreases ids.len() - i,
        {
            proof {
                assert(ids@.take(i + 1).drop_last() =~= ids@.take(i as int));
            }
            self.put(ids[i], kind);
            i += 1;
        }
        assert(ids@.take(ids.len() as int) =~= ids@);
    }

    /// The entities that can be used in `role`, in order.
    pub fn as_mut(&self, role: Role) -> (found: Vec<(u64, EntityKind)>)
        ensures
            found@ == in_role(self.view(), role),
    {
        let ghost s = self.entries@;
        let mut found: Vec<(u64, EntityKind)> = Vec::new();
        let mut i: usize = 0;
        while i < self.entries.len()
            invariant
                i <= self.entries.len(),
                s == self.entries@,
                found@ == in_role(s.take(i as int), role),
            decreases self.entries.len() - i,
        {
            let e = self.entries[i];
            proof {
                assert(s.take(i + 1).drop_last() =~= s.take(i as int));
                reveal_with_fuel(Seq::filter, 1);
            }
            if plays(e.1, role) {
                found.push(e);
            }
            i += 1;
        }
        assert(s.take(s.len() as int) =~= s);
        found
    }
}

/// Adding entities keeps identifiers unique; each added identifier ends up
/// recorded once, with the new kind, and every other identifier keeps what
/// it had.
pub proof fn lemma_append_overwrites(s: Seq<(u64, EntityKind)>, ids: Seq<u64>, kind: EntityKind)
    requires
        ids_unique(s),
    ensures
        ids_unique(spec_append(s, ids, kind)),
        forall|id: u64| #[trigger] ids.contains(id) ==> kind_of(spec_append(s, ids, kind), id) == Some(kind),
        forall|id: u64| !ids.contains(id) ==> #[trigger] kind_of(spec_append(s, ids, kind), id) == kind_of(s, id),
    decreases ids.len(),
{
    if ids.len() > 0 {
        let p = ids.drop_last();
        lemma_append_overwrites(s, p, kind);
        lemma_put(spec_append(s, p, kind), ids.last(), kind);
        assert forall|id: u64| #[trigger] ids.contains(id) implies kind_of(spec_append(s, ids, kind), id) == Some(kind) by {
            if id != ids.last() {
                let w = choose|w: int| 0 <= w < ids.len() && ids[w] == id;
                assert(p[w] == id);
                assert(p.contains(id));
            }
        }
        assert forall|id: u64| !ids.contains(id) implies #[trigger] kind_of(spec_append(s, ids, kind), id) == kind_of(s, id) by {
            assert(id != ids.last()) by {
                assert(ids[ids.len() - 1] == ids.last());
            }
            if p.contains(id) {
                let w = choose|w: int| 0 <= w < p.len() && p[w] == id;
                assert(ids[w] == id);
            }
        }
    }
}

/// An entity is found in a role exactly when its kind plays that role:
/// everything found plays the role and was added, and everything added that
/// plays the role is found.
pub proof fn lemma_roles_found(s: Seq<(u64, EntityKind)>, role: Role)
    ensures
        forall|i: int| 0 <= i < in_role(s, role).len() ==> spec_plays(#[trigger] in_role(s, role)[i].1, role)
            && s.contains(in_role(s, role)[i]),
        forall|i: int| 0 <= i < s.len() && spec_plays((#[trigger] s[i]).1, role) ==> in_role(s, role).contains(s[i]),
{
    let pred = |e: (u64, EntityKind)| spec_plays(e.1, role);
    assert forall|i: int| 0 <= i < in_role(s, role).len() implies spec_plays(#[trigger] in_role(s, role)[i].1, role)
        && s.contains(in_role(s, role)[i]) by {
        s.lemma_filter_pred(pred, i);
        s.lemma_filter_contains_rev(pred, in_role(s, role)[i]);
    }
    assert forall|i: int| 0 <= i < s.len() && spec_plays((#[trigger] s[i]).1, role) implies in_role(s, role).contains(s[i]) by {
        s.lemma_filter_contains(pred, i);
    }
}

/// The roles of each kind: stones and players are objects and projectiles,
/// cannons and platforms are objects only, cannon shots are projectiles only.
pub proof fn lemma_role_table()
    ensures
        spec_plays(EntityKind::Stone, Role::Obj) && spec_plays(EntityKind::Stone, Role::Projectile),
        spec_plays(EntityKind::Player, Role::Obj) && spec_plays(EntityKind::Player, Role::Projectile),
        spec_plays(EntityKind::Cannon, Role::Obj) && !spec_plays(EntityKind::Cannon, Role::Projectile),
        spec_plays(EntityKind::Platform, Role::Obj) && !spec_plays(EntityKind::Platform, Role::Projectile),
        !spec_plays(EntityKind::Damage, Role::Obj) && spec_plays(EntityKind::Damage, Role::Projectile),
{
}

} // verus!
