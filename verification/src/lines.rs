use vstd::prelude::*;

verus! {

/// The kind of a platform edge: `Normal` ground, the `End` goal line,
/// slippery `Ice`, and `Inv`isible walls that stop a body without giving it
/// footing.
#[derive(Clone, Copy, Debug, PartialEq, Eq, Structural)]
pub enum LineType {
    Normal,
    End,
    Ice,
    Inv,
}

/// A surface one can walk on: `Normal` or `Ice`.
pub open spec fn is_surface(t: LineType) -> bool {
    t is Normal || t is Ice
}

/// The surface of the last walkable edge in `s`, or `current` when `s` has none.
pub open spec fn last_surface(s: Seq<LineType>, current: LineType) -> LineType
    decreases s.len(),
{
    if s.len() == 0 {
        current
    } else if is_surface(s.last()) {
        s.last()
    } else {
        last_surface(s.drop_last(), current)
    }
}

/// Some edge of `s` gives footing (any kind but `Inv`).
pub open spec fn gives_footing(s: Seq<LineType>) -> bool {
    exists|k: int| 0 <= k < s.len() && !(#[trigger] s[k] is Inv)
}

/// Some edge of `s` is the goal line.
pub open spec fn reaches_goal(s: Seq<LineType>) -> bool {
    exists|k: int| 0 <= k < s.len() && #[trigger] s[k] is End
}

/// What a body learns from the edges it touched in one step: the surface
/// under it, the frames since it last had footing, and whether it reached
/// the goal.
#[derive(Clone, Copy, Debug)]
pub struct Footing {
    pub linetype: LineType,
    pub ground: i32,
    pub reached_end: bool,
}

/// The footing after touching the edges `s`.
pub open spec fn spec_touch(f: Footing, s: Seq<LineType>) -> Footing {
    Footing {
        linetype: last_surface(s, f.linetype),
        ground: if gives_footing(s) { 0 } else { f.ground },
        reached_end: f.reached_end || reaches_goal(s),
    }
}

impl Footing {
    /// Footing at the start of a step: no surface yet (`Inv`), the given
    /// frames since footing, goal not reached.
    pub fn new(ground: i32) -> (f: Footing)
        ensures
            f == (Footing { linetype: LineType::Inv, ground, reached_end: false }),
    {
        Footing { linetype: LineType::Inv, ground, reached_end: false }
    }

    /// Takes in the edges of one platform that the body collided with, in order.
    pub fn touch(&mut self, linetypes: &Vec<LineType>)
        ensures
            *final(self) == spec_touch(*old(self), linetypes@),
    {
        let ghost start = *self;
        let ghost s = linetypes@;
        let mut n: usize = 0;
        while n < linetypes.len()
            invariant
                n <= s.len(),
                s == linetypes@,
                *self == spec_touch(start, s.take(n as int)),
            decreases s.len() - n,
        {
            let t = linetypes[n];
            proof {
                let one = seq![t];
                assert(s.take(n + 1) =~= s.take(n as int) + one);
                lemma_touch_concat(start, s.take(n as int), one);
                assert(one.drop_last() =~= Seq::<LineType>::empty());
                assert(one[0] == t);
                reveal_with_fuel(last_surface, 2);
                assert(gives_footing(one) == !(t is Inv));
                assert(reaches_goal(one) == (t is End));
            }
            match t {
                LineType::Inv => {},
                _ => {
                    self.ground = 0;
                },
            }
            match t {
                LineType::End => {
                    self.reached_end = true;
                },
                LineType::Normal => {
                    self.linetype = LineType::Normal;
                },
                LineType::Ice => {
                    self.linetype = LineType::Ice;
                },
                LineType::Inv => {},
            }
            n += 1;
        }
        assert(s.take(s.len() as int) =~= s);
    }
}

/// The edges of the closed polygon through `points`: edge `i` runs from
/// point `i` to the next point, the last one back to the first.
pub open spec fn spec_polygon<T>(points: Seq<T>) -> Seq<(T, T)> {
    Seq::new(
        points.len(),
        |i: int| (points[i], if i + 1 < points.len() { points[i + 1] } else { points[0] }),
    )
}

/// Closes the outline `points` into a polygon and returns its edges, in order.
pub fn polygon_edges<T: Copy>(points: &Vec<T>) -> (edges: Vec<(T, T)>)
    requires
        points.len() > 0,
    ensures
        edges@ == spec_polygon(points@),
{
    let n = points.len();
    let mut edges: Vec<(T, T)> = Vec::new();
    let mut i: usize = 0;
    while i < n
        invariant
            n == points.len(),
            n > 0,
            i <= n,
            edges@ == spec_polygon(points@).take(i as int),
        decreases n - i,
    {
        let next = if i + 1 < n { points[i + 1] } else { points[0] };
        edges.push((points[i], next));
        i += 1;
        assert(edges@ =~= spec_polygon(points@).take(i as int));
    }
    assert(spec_polygon(points@).take(n as int) =~= spec_polygon(points@));
    edges
}

/// The last surface of two batches of edges is that of the second batch,
/// falling back on the first.
proof fn lemma_last_surface_concat(a: Seq<LineType>, b: Seq<LineType>, current: LineType)
    ensures
        last_surface(a + b, current) == last_surface(b, last_surface(a, current)),
    decreases b.len(),
{
    if b.len() > 0 {
        assert((a + b).drop_last() =~= a + b.drop_last());
        assert((a + b).last() == b.last());
        lemma_last_surface_concat(a, b.drop_last(), current);
    } else {
        assert(a + b =~= a);
    }
}

/// Touching the edges of one platform and then those of another is the same
/// as touching all of them in that order.
pub proof fn lemma_touch_concat(f: Footing, a: Seq<LineType>, b: Seq<LineType>)
    ensures
        spec_touch(spec_touch(f, a), b) == spec_touch(f, a + b),
{
    lemma_last_surface_concat(a, b, f.linetype);
    assert(gives_footing(a + b) == (gives_footing(a) || gives_footing(b))) by {
        if gives_footing(a + b) {
            let k = choose|k: int| 0 <= k < (a + b).len() && !(#[trigger] (a + b)[k] is Inv);
            if k < a.len() {
                assert(a[k] == (a + b)[k]);
            } else {
                assert(b[k - a.len()] == (a + b)[k]);
            }
        }
        if gives_footing(a) {
            let k = choose|k: int| 0 <= k < a.len() && !(#[trigger] a[k] is Inv);
            assert((a + b)[k] == a[k]);
        }
        if gives_footing(b) {
            let k = choose|k: int| 0 <= k < b.len() && !(#[trigger] b[k] is Inv);
            assert((a + b)[k + a.len()] == b[k]);
        }
    }
    assert(reaches_goal(a + b) == (reaches_goal(a) || reaches_goal(b))) by {
        if reaches_goal(a + b) {
            let k = choose|k: int| 0 <= k < (a + b).len() && #[trigger] (a + b)[k] is End;
            if k < a.len() {
                assert(a[k] == (a + b)[k]);
            } else {
                assert(b[k - a.len()] == (a + b)[k]);
            }
        }
        if reaches_goal(a) {
            let k = choose|k: int| 0 <= k < a.len() && #[trigger] a[k] is End;
            assert((a + b)[k] == a[k]);
        }
        if reaches_goal(b) {
            let k = choose|k: int| 0 <= k < b.len() && #[trigger] b[k] is End;
            assert((a + b)[k + a.len()] == b[k]);
        }
    }
}

/// The edges of a polygon form a closed chain: each edge ends where the
/// next one starts, and the last one ends where the first one starts.
pub proof fn lemma_polygon_closed<T>(points: Seq<T>)
    requires
        points.len() > 0,
    ensures
        spec_polygon(points).len() == points.len(),
        forall|i: int| 0 <= i < points.len() ==> #[trigger] spec_polygon(points)[i].0 == points[i],
        forall|i: int| 0 <= i < points.len() - 1 ==> #[trigger] spec_polygon(points)[i].1 == spec_polygon(points)[i + 1].0,
        spec_polygon(points)[points.len() - 1].1 == spec_polygon(points)[0].0,
{
}

/// Touching one edge: any edge but an invisible one gives footing, the goal
/// line reaches the goal, and a walkable edge becomes the surface; nothing
/// else changes.
pub proof fn lemma_touch_one(f: Footing, t: LineType)
    ensures
        spec_touch(f, seq![t]).ground == if t == LineType::Inv { f.ground } else { 0 },
        spec_touch(f, seq![t]).reached_end == (f.reached_end || t == LineType::End),
        spec_touch(f, seq![t]).linetype == if t == LineType::Normal || t == LineType::Ice { t } else { f.linetype },
        spec_touch(f, Seq::<LineType>::empty()) == f,
{
    let one = seq![t];
    assert(one[0] == t);
    assert(one.drop_last() =~= Seq::<LineType>::empty());
    reveal_with_fuel(last_surface, 2);
    assert(!gives_footing(Seq::<LineType>::empty()));
    assert(!reaches_goal(Seq::<LineType>::empty()));
}

} // verus!
