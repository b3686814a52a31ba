use vstd::prelude::*;
use crate::input::{Input, InputView};
use crate::lines::{Footing, LineType};
use crate::scene::{Scene, winner_text};

verus! {

/// A key event or a footing counts for this many frames.
pub const GRACE: i32 = 16;

/// How walking acts on a body: along the surface it stands on, on ice, or in the air.
#[derive(Clone, Copy, Debug, PartialEq, Eq, Structural)]
pub enum Grip {
    Surface,
    Ice,
    Air,
}

/// Walking follows a normal surface while the body had footing in the last
/// 16 frames; on ice it slides; otherwise it steers in the air.
pub open spec fn spec_grip(linetype: LineType, ground: i32) -> Grip {
    if linetype is Normal && ground < GRACE {
        Grip::Surface
    } else if linetype is Ice {
        Grip::Ice
    } else {
        Grip::Air
    }
}

/// How walking acts on a body standing on `linetype` that had footing `ground` frames ago.
pub fn grip(linetype: LineType, ground: i32) -> (g: Grip)
    ensures
        g == spec_grip(linetype, ground),
{
    match linetype {
        LineType::Normal => if ground < GRACE { Grip::Surface } else { Grip::Air },
        LineType::Ice => Grip::Ice,
        _ => Grip::Air,
    }
}

/// The walking direction: +1 for the right key alone, -1 for the left key
/// alone, 0 for both or neither.
pub fn walk_direction(left: bool, right: bool) -> (d: i32)
    ensures
        d == (if right { 1int } else { 0int }) - (if left { 1int } else { 0int }),
{
    let mut d: i32 = 0;
    if right {
        d += 1;
    }
    if left {
        d -= 1;
    }
    d
}

/// Which way a jump pushes off the surface normal.
#[derive(Clone, Copy, Debug, PartialEq, Eq, Structural)]
pub enum JumpKind {
    /// Along the normal, at full strength.
    Straight,
    /// Along the normal, scaled by one over the square root of two.
    Damped,
    /// The normal turned an eighth of a turn towards the left key.
    TurnLeft,
    /// The normal turned an eighth of a turn towards the right key.
    TurnRight,
}

/// Without the down key a jump goes straight; with it, a single side key
/// turns the jump towards that side, and neither or both damp it.
pub open spec fn spec_jump_kind(down: bool, left: bool, right: bool) -> JumpKind {
    if !down {
        JumpKind::Straight
    } else if left && !right {
        JumpKind::TurnLeft
    } else if right && !left {
        JumpKind::TurnRight
    } else {
        JumpKind::Damped
    }
}

/// The side keys only turn a jump while the down key is held: without it
/// every jump goes straight along the normal; with it, one side key alone
/// turns the jump to that side, and neither or both damp it. A turn or a
/// damped jump always means the down key was held.
pub proof fn lemma_jump_directions(down: bool, left: bool, right: bool)
    ensures
        !down ==> spec_jump_kind(down, left, right) == JumpKind::Straight,
        down && left && !right ==> spec_jump_kind(down, left, right) == JumpKind::TurnLeft,
        down && right && !left ==> spec_jump_kind(down, left, right) == JumpKind::TurnRight,
        down && left == right ==> spec_jump_kind(down, left, right) == JumpKind::Damped,
        spec_jump_kind(down, left, right) != JumpKind::Straight ==> down,
        spec_jump_kind(down, left, right) == JumpKind::TurnLeft ==> left && !right,
        spec_jump_kind(down, left, right) == JumpKind::TurnRight ==> right && !left,
{
}

/// Which way a jump goes, from the down, left and right keys held.
pub fn jump_kind(down: bool, left: bool, right: bool) -> (k: JumpKind)
    ensures
        k == spec_jump_kind(down, left, right),
        !down ==> k == JumpKind::Straight,
        down && left && !right ==> k == JumpKind::TurnLeft,
        down && right && !left ==> k == JumpKind::TurnRight,
        down && left == right ==> k == JumpKind::Damped,
{
    proof {
        lemma_jump_directions(down, left, right);
    }
    let mut k = JumpKind::Straight;
    if down {
        if !left && !right {
            k = JumpKind::Damped;
        }
        if left {
            k = JumpKind::TurnLeft;
        }
        if right {
            k = JumpKind::TurnRight;
        }
        if left && right {
            k = JumpKind::Damped;
        }
    }
    k
}

/// Which way a held object is thrown.
#[derive(Clone, Copy, Debug, PartialEq, Eq, Structural)]
pub enum ThrowKind {
    Down,
    Up,
    Forward,
}

/// The down key throws down, else the up key throws up, else the throw goes forward.
pub fn throw_kind(down: bool, up: bool) -> (k: ThrowKind)
    ensures
        k == (if down { ThrowKind::Down } else if up { ThrowKind::Up } else { ThrowKind::Forward }),
{
    if down {
        ThrowKind::Down
    } else if up {
        ThrowKind::Up
    } else {
        ThrowKind::Forward
    }
}

/// The frame counters of a player: frames since footing, and frames left
/// during which a held player may break free.
#[derive(Clone, Copy, Debug)]
pub struct Stance {
    pub ground: i32,
    pub escape: i32,
}

/// The stance and the jump key row after the start of a step: the escape
/// window counts down; a jump starts when the jump key went down within the
/// last 16 frames and the body had footing within the last 16 frames; it
/// uses up the key press and opens both windows at 16.
pub open spec fn spec_try_jump(s: Stance, down: Seq<i64>, slot: int) -> (Stance, Seq<i64>, bool) {
    let counted = Stance { escape: (s.escape - 1) as i32, ..s };
    if down[slot] < 16 && s.ground < GRACE {
        (Stance { ground: GRACE, escape: GRACE }, down.update(slot, 16), true)
    } else {
        (counted, down, false)
    }
}

impl Stance {
    /// A player just placed: footing now, no escape window.
    pub fn new() -> (s: Stance)
        ensures
            s.ground == 0 && s.escape == 0,
    {
        Stance { ground: 0, escape: 0 }
    }

    /// The start of a step: counts the escape window down and starts a jump
    /// if the key in `jump_slot` allows it; returns whether a jump started.
    pub fn try_jump(&mut self, input: &mut Input, jump_slot: usize) -> (jumped: bool)
        requires
            jump_slot < 512,
            old(self).escape > i32::MIN,
        ensures
            (*final(self), final(input)@.down, jumped) == spec_try_jump(*old(self), old(input)@.down, jump_slot as int),
            final(input)@.up == old(input)@.up,
            final(input)@.key == old(input)@.key,
    {
        self.escape = self.escape - 1;
        if input.recent(jump_slot) && self.ground < GRACE {
            input.consume(jump_slot);
            self.escape = GRACE;
            self.ground = GRACE;
            true
        } else {
            false
        }
    }

    /// One more frame without new footing; returns whether the body has been
    /// off the ground for more than 16 frames, so that it drifts freely.
    pub fn tick(&mut self) -> (airborne: bool)
        requires
            old(self).ground < i32::MAX,
        ensures
            final(self).ground == old(self).ground + 1,
            final(self).escape == old(self).escape,
            airborne == (final(self).ground > GRACE),
    {
        self.ground = self.ground + 1;
        self.ground > GRACE
    }

    /// Whether a held player is still able to break free.
    pub fn escaping(&self) -> (b: bool)
        ensures
            b == (self.escape > 0),
    {
        self.escape > 0
    }

    /// The player is being carried: it counts as standing.
    pub fn carried(&mut self)
        ensures
            final(self).ground == 0,
            final(self).escape == old(self).escape,
    {
        self.ground = 0;
    }
}

/// The key slots a player is steered with.
#[derive(Clone, Copy, Debug)]
pub struct ControlKeys {
    pub left: usize,
    pub right: usize,
    pub up: usize,
    pub down: usize,
    pub jump: usize,
    pub grab: usize,
}

/// All slots are within the key table.
pub open spec fn keys_in_range(k: ControlKeys) -> bool {
    k.left < 512 && k.right < 512 && k.up < 512 && k.down < 512 && k.jump < 512 && k.grab < 512
}

/// What a player does in a step, before its motion is integrated.
#[derive(Clone, Copy, Debug, PartialEq, Eq, Structural)]
pub struct Controls {
    /// Walking direction: -1, 0 or 1.
    pub walk: i32,
    /// The jump started in this step, if any.
    pub jump: Option<JumpKind>,
    /// The throw of the held object in this step, if any.
    pub throw: Option<ThrowKind>,
    /// Whether the player reaches for the nearest object.
    pub grab: bool,
}

/// The stance, the input and the controls of a player after reading its
/// keys in a step. `held` is `Some(escaping)` when the player holds an
/// object, `escaping` telling whether that object (a held player) is
/// breaking free. In order: the escape window counts down and a jump may
/// start (see [`spec_try_jump`]); the walking direction comes from the side
/// keys; a held object is thrown when the grab key went down recently or
/// the object breaks free, which uses up the grab key; and a recent grab key
/// press that is still unused makes the player reach for an object.
pub open spec fn spec_control(s: Stance, v: InputView, k: ControlKeys, held: Option<bool>) -> (Stance, InputView, Controls) {
    let (s1, down1, jumped) = spec_try_jump(s, v.down, k.jump as int);
    let jump = if jumped {
        Some(spec_jump_kind(v.key[k.down as int], v.key[k.left as int], v.key[k.right as int]))
    } else {
        None
    };
    let walk = (if v.key[k.right as int] { 1int } else { 0int }) - (if v.key[k.left as int] { 1int } else { 0int });
    let throws = match held {
        Some(escaping) => down1[k.grab as int] < 16 || escaping,
        None => false,
    };
    let down2 = if throws { down1.update(k.grab as int, 16) } else { down1 };
    let throw = if throws {
        Some(if v.key[k.down as int] { ThrowKind::Down } else if v.key[k.up as int] { ThrowKind::Up } else { ThrowKind::Forward })
    } else {
        None
    };
    (s1, InputView { down: down2, ..v }, Controls { walk: walk as i32, jump, throw, grab: down2[k.grab as int] < 16 })
}

/// Reads a player's keys for one step: updates its stance and uses up the
/// key presses it acts on.
pub fn control(stance: &mut Stance, input: &mut Input, keys: &ControlKeys, held: Option<bool>) -> (c: Controls)
    requires
        keys_in_range(*keys),
        old(stance).escape > i32::MIN,
    ensures
        (*final(stance), final(input)@, c) == spec_control(*old(stance), old(input)@, *keys, held),
{
    let ghost v = input@;
    let jumped = stance.try_jump(input, keys.jump);
    let jump = if jumped {
        Some(jump_kind(input.key[keys.down], input.key[keys.left], input.key[keys.right]))
    } else {
        None
    };
    let walk = walk_direction(input.key[keys.left], input.key[keys.right]);
    let throws = match held {
        Some(escaping) => input.recent(keys.grab) || escaping,
        None => false,
    };
    let throw = if throws {
        input.consume(keys.grab);
        Some(throw_kind(input.key[keys.down], input.key[keys.up]))
    } else {
        None
    };
    let grab = input.recent(keys.grab);
    assert(input@ =~= spec_control(*old(stance), v, *keys, held).1);
    Controls { walk, jump, throw, grab }
}

/// The end of a player's step, once its contacts are known: the player's
/// footing counter becomes the one the contacts gave, the scene becomes the
/// end scene announcing `username` if the goal line was touched, and the
/// start area closes (`start` becomes false) if the key in `start_slot` went
/// down in this very frame. Returns the surface the player now stands on.
pub fn finish_step(
    stance: &mut Stance,
    footing: &Footing,
    input: &Input,
    start_slot: usize,
    username: &String,
    scene: &mut Scene,
    start: &mut bool,
) -> (surface: LineType)
    requires
        start_slot < 512,
    ensures
        surface == footing.linetype,
        final(stance).ground == footing.ground,
        final(stance).escape == old(stance).escape,
        footing.reached_end ==> (*final(scene) matches Scene::End { winner } && winner@ == winner_text(username@)),
        !footing.reached_end ==> *final(scene) == *old(scene),
        *final(start) == (*old(start) && input@.down[start_slot as int] != 0),
{
    stance.ground = footing.ground;
    if footing.reached_end {
        *scene = Scene::won_by(username);
    }
    if input.just_pressed(start_slot) {
        *start = false;
    }
    footing.linetype
}

/// A jump uses up the footing: right after a jump no key press can start
/// another one until the body touches ground again.
pub proof fn lemma_no_double_jump(s: Stance, down: Seq<i64>, later: Seq<i64>, slot: int)
    requires
        0 <= slot < down.len(),
        0 <= slot < later.len(),
        spec_try_jump(s, down, slot).2,
    ensures
        !spec_try_jump(spec_try_jump(s, down, slot).0, later, slot).2,
        spec_try_jump(s, down, slot).1[slot] == 16,
{
}

/// A step never both throws and grabs: a throw uses up the grab key.
pub proof fn lemma_throw_excludes_grab(s: Stance, v: InputView, k: ControlKeys, held: Option<bool>)
    requires
        keys_in_range(k),
        v.down.len() == 512,
    ensures
        spec_control(s, v, k, held).2.throw is Some ==> !spec_control(s, v, k, held).2.grab,
        held is None ==> spec_control(s, v, k, held).2.throw is None,
{
}

/// Walking goes the way of the single side key held, and nowhere with both
/// or neither; the grip follows a normal surface only with recent footing,
/// slides on ice whatever the footing, and is the air grip otherwise.
pub proof fn lemma_walk_and_grip(left: bool, right: bool, linetype: LineType, ground: i32)
    ensures
        spec_grip(linetype, ground) == Grip::Surface <==> (linetype == LineType::Normal && ground < 16),
        spec_grip(linetype, ground) == Grip::Ice <==> linetype == LineType::Ice,
        spec_grip(linetype, ground) == Grip::Air <==> !(linetype == LineType::Ice) && !(linetype == LineType::Normal && ground < 16),
{
}

/// A jump starts exactly when the jump key went down within the last 16
/// frames and the body had footing within the last 16 frames. A jump uses
/// up the key press and opens both windows at 16; otherwise the key row and
/// the footing counter are untouched and the escape window goes down by one.
pub proof fn lemma_jump_start(s: Stance, down: Seq<i64>, slot: int)
    requires
        0 <= slot < down.len(),
        s.escape > i32::MIN,
    ensures
        spec_try_jump(s, down, slot).2 <==> (down[slot] < 16 && s.ground < 16),
        spec_try_jump(s, down, slot).2 ==> spec_try_jump(s, down, slot).0 == (Stance { ground: 16, escape: 16 })
            && spec_try_jump(s, down, slot).1 == down.update(slot, 16),
        !spec_try_jump(s, down, slot).2 ==> spec_try_jump(s, down, slot).0.ground == s.ground
            && spec_try_jump(s, down, slot).0.escape == s.escape - 1
            && spec_try_jump(s, down, slot).1 == down,
{
}

/// Reading a player's keys, with distinct jump and grab slots: it jumps
/// exactly as [`lemma_jump_start`] says, in the direction the down and side
/// keys give; it walks toward the single side key held; it throws exactly
/// when it holds an object and the grab key went down recently or the object
/// breaks free, in the direction of the down key, else the up key, else
/// forward; and it reaches for an object exactly when it does not throw and
/// the grab key went down recently. Only the jump and grab counters change.
pub proof fn lemma_control_reads_keys(s: Stance, v: InputView, k: ControlKeys, held: Option<bool>)
    requires
        keys_in_range(k),
        k.jump != k.grab,
        v.down.len() == 512,
        s.escape > i32::MIN,
    ensures
        ({
            let (s1, v1, c) = spec_control(s, v, k, held);
            let jumps = v.down[k.jump as int] < 16 && s.ground < 16;
            let recent_grab = v.down[k.grab as int] < 16;
            let down = v.key[k.down as int];
            let throws = match held { Some(e) => recent_grab || e, None => false };
            &&& (c.jump is Some) == jumps
            &&& jumps ==> c.jump == Some(if !down {
                JumpKind::Straight
            } else if v.key[k.left as int] && !v.key[k.right as int] {
                JumpKind::TurnLeft
            } else if v.key[k.right as int] && !v.key[k.left as int] {
                JumpKind::TurnRight
            } else {
                JumpKind::Damped
            })
            &&& c.walk == (if v.key[k.right as int] { 1int } else { 0int }) - (if v.key[k.left as int] { 1int } else { 0int })
            &&& (c.throw is Some) == throws
            &&& throws ==> c.throw == Some(if down { ThrowKind::Down } else if v.key[k.up as int] { ThrowKind::Up } else { ThrowKind::Forward })
            &&& c.grab == (!throws && recent_grab)
            &&& v1.key == v.key && v1.up == v.up
            &&& forall|j: int| 0 <= j < 512 && j != k.jump && j != k.grab ==> #[trigger] v1.down[j] == v.down[j]
            &&& v1.down[k.jump as int] == if jumps { 16 } else { v.down[k.jump as int] }
            &&& v1.down[k.grab as int] == if throws { 16 } else { v.down[k.grab as int] }
            &&& s1.ground == if jumps { 16 } else { s.ground as int }
            &&& s1.escape == if jumps { 16 } else { s.escape - 1 }
        }),
{
}

} // verus!
