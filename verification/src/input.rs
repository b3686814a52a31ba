use vstd::prelude::*;

verus! {

/// Number of key slots: key codes are folded onto `0..512`.
pub const KEY_SLOTS: usize = 512;

/// How many frames ago each key went down and came up, and which keys are held.
/// A fresh slot counts 256 frames; a key event sets its counter to 0.
#[derive(Clone)]
pub struct Input {
    pub down: [i64; 512],
    pub up: [i64; 512],
    pub key: [bool; 512],
}

/// The three rows of an [`Input`] as sequences.
#[verifier::ext_equal]
pub struct InputView {
    pub down: Seq<i64>,
    pub up: Seq<i64>,
    pub key: Seq<bool>,
}

impl View for Input {
    type V = InputView;

    open spec fn view(&self) -> InputView {
        InputView { down: self.down@, up: self.up@, key: self.key@ }
    }
}

/// What the game reads of one mouse button in a frame.
#[derive(Clone, Copy, Debug)]
pub struct ButtonState {
    pub pressed: bool,
    pub down: bool,
    pub released: bool,
}

/// Slot `j` is named by one of the first `n` of `codes`.
pub open spec fn names_in(codes: Seq<usize>, n: int, j: int) -> bool {
    exists|k: int| 0 <= k < n && #[trigger] codes[k] % 512 == j
}

/// Slot `j` is named by one of `codes`.
pub open spec fn names(codes: Seq<usize>, j: int) -> bool {
    names_in(codes, codes.len() as int, j)
}

/// Naming by one more code: slot `j` is named by the first `n + 1` codes
/// exactly when the first `n` name it or code `n` does.
proof fn lemma_names_step(codes: Seq<usize>, n: int, j: int)
    requires
        0 <= n < codes.len(),
    ensures
        names_in(codes, n + 1, j) == (names_in(codes, n, j) || codes[n] % 512 == j),
{
    if names_in(codes, n + 1, j) && codes[n] % 512 != j {
        let w = choose|w: int| 0 <= w < n + 1 && #[trigger] codes[w] % 512 == j;
        assert(names_in(codes, n, j));
    }
}

/// The slot of a key code.
pub open spec fn slot(code: usize) -> int {
    (code % 512) as int
}

/// A fresh input: no key held, every counter at 256.
pub open spec fn spec_fresh() -> InputView {
    InputView {
        down: Seq::new(512, |j: int| 256i64),
        up: Seq::new(512, |j: int| 256i64),
        key: Seq::new(512, |j: int| false),
    }
}

/// One frame passes: every counter goes up by one.
pub open spec fn spec_tick(v: InputView) -> InputView {
    InputView {
        down: Seq::new(512, |j: int| (v.down[j] + 1) as i64),
        up: Seq::new(512, |j: int| (v.up[j] + 1) as i64),
        key: v.key,
    }
}

/// No counter is at the top of its range, so a frame can pass.
pub open spec fn can_tick(v: InputView) -> bool {
    forall|j: int| 0 <= j < 512 ==> v.down[j] < i64::MAX && v.up[j] < i64::MAX
}

/// `v` takes over the events and held keys of `other`: a counter that is 0
/// in `other` becomes 0, the held keys become those of `other`.
pub open spec fn spec_merge(v: InputView, other: InputView) -> InputView {
    InputView {
        down: Seq::new(512, |j: int| if other.down[j] == 0 { 0i64 } else { v.down[j] }),
        up: Seq::new(512, |j: int| if other.up[j] == 0 { 0i64 } else { v.up[j] }),
        key: other.key,
    }
}

/// The keys named by `codes` are held.
pub open spec fn spec_hold(v: InputView, codes: Seq<usize>) -> InputView {
    InputView { key: Seq::new(512, |j: int| v.key[j] || names(codes, j)), ..v }
}

/// The keys named by `codes` came up: their `up` counter restarts and they are no longer held.
pub open spec fn spec_release(v: InputView, codes: Seq<usize>) -> InputView {
    InputView {
        down: v.down,
        up: Seq::new(512, |j: int| if names(codes, j) { 0i64 } else { v.up[j] }),
        key: Seq::new(512, |j: int| if names(codes, j) { false } else { v.key[j] }),
    }
}

/// The keys named by `codes` went down: their `down` counter restarts and they are held.
pub open spec fn spec_press(v: InputView, codes: Seq<usize>) -> InputView {
    InputView {
        down: Seq::new(512, |j: int| if names(codes, j) { 0i64 } else { v.down[j] }),
        up: v.up,
        key: Seq::new(512, |j: int| if names(codes, j) { true } else { v.key[j] }),
    }
}

/// Mouse button `b` reported in slot `i`: a press restarts `down` and holds the
/// slot, a button held down holds it, a release restarts `up` and frees it.
pub open spec fn spec_mouse(v: InputView, b: ButtonState, i: int) -> InputView {
    InputView {
        down: if b.pressed { v.down.update(i, 0) } else { v.down },
        up: if b.released { v.up.update(i, 0) } else { v.up },
        key: if b.released {
            v.key.update(i, false)
        } else if b.pressed || b.down {
            v.key.update(i, true)
        } else {
            v.key
        },
    }
}

/// The input of one frame: held keys, then releases, then presses, then the
/// four mouse buttons in slots 0 to 3.
pub open spec fn spec_read(
    v: InputView,
    held: Seq<usize>,
    released: Seq<usize>,
    pressed: Seq<usize>,
    mouse: Seq<ButtonState>,
) -> InputView {
    let keys = spec_press(spec_release(spec_hold(v, held), released), pressed);
    spec_mouse(
        spec_mouse(spec_mouse(spec_mouse(keys, mouse[0], 0), mouse[1], 1), mouse[2], 2),
        mouse[3],
        3,
    )
}

/// The slot of a key code: its low nine bits.
pub fn key_index(code: usize) -> (i: usize)
    ensures
        i == code % 512,
{
    let i = code & 0x1ff;
    assert(code & 0x1ff == code % 512) by (bit_vector);
    i
}

impl Input {
    /// No key held, every counter at 256.
    pub fn new() -> (s: Self)
        ensures
            s@ == spec_fresh(),
    {
        let s = Input { down: [256; 512], up: [256; 512], key: [false; 512] };
        assert(s@ =~= spec_fresh());
        s
    }

    /// Whether a frame can pass without a counter running over.
    pub fn can_update(&self) -> (b: bool)
        ensures
            b == can_tick(self@),
    {
        let mut i: usize = 0;
        while i < 512
            invariant
                i <= 512,
                forall|j: int| 0 <= j < i ==> self.down@[j] < i64::MAX && self.up@[j] < i64::MAX,
            decreases 512 - i,
        {
            if self.down[i] == i64::MAX || self.up[i] == i64::MAX {
                assert(!(self@.down[i as int] < i64::MAX && self@.up[i as int] < i64::MAX));
                return false;
            }
            i += 1;
        }
        true
    }

    /// One frame passes: every counter goes up by one.
    pub fn update(&mut self)
        requires
            can_tick(old(self)@),
        ensures
            final(self)@ == spec_tick(old(self)@),
    {
        let ghost start = self@;
        let mut i: usize = 0;
        while i < 512
            invariant
                i <= 512,
                start == old(self)@,
                can_tick(start),
                self.key@ == start.key,
                forall|j: int| 0 <= j < i ==> self.down@[j] == start.down[j] + 1 && self.up@[j] == start.up[j] + 1,
                forall|j: int| i <= j < 512 ==> self.down@[j] == start.down[j] && self.up@[j] == start.up[j],
            decreases 512 - i,
        {
            assert(start.down[i as int] < i64::MAX && start.up[i as int] < i64::MAX);
            self.up[i] = self.up[i] + 1;
            self.down[i] = self.down[i] + 1;
            i += 1;
        }
        assert(self@ =~= spec_tick(start));
    }

    /// Takes over the events and held keys of `other`.
    pub fn set(&mut self, other: &Input)
        ensures
            final(self)@ == spec_merge(old(self)@, other@),
    {
        let ghost start = self@;
        let mut i: usize = 0;
        while i < 512
            invariant
                i <= 512,
                start == old(self)@,
                forall|j: int| 0 <= j < i ==> self.down@[j] == spec_merge(start, other@).down[j],
                forall|j: int| 0 <= j < i ==> self.up@[j] == spec_merge(start, other@).up[j],
                forall|j: int| 0 <= j < i ==> self.key@[j] == other.key@[j],
                forall|j: int| i <= j < 512 ==> self.down@[j] == start.down[j] && self.up@[j] == start.up[j]
                    && self.key@[j] == start.key[j],
            decreases 512 - i,
        {
            if other.down[i] == 0 {
                self.down[i] = 0;
            }
            if other.up[i] == 0 {
                self.up[i] = 0;
            }
            self.key[i] = other.key[i];
            i += 1;
        }
        assert(self@ =~= spec_merge(start, other@));
    }

    /// The keys named by `codes` are held.
    pub fn hold_keys(&mut self, codes: &Vec<usize>)
        ensures
            final(self)@ == spec_hold(old(self)@, codes@),
    {
        let ghost start = self@;
        let mut n: usize = 0;
        while n < codes.len()
            invariant
                n <= codes.len(),
                start == old(self)@,
                self.down@ == start.down,
                self.up@ == start.up,
                forall|j: int| 0 <= j < 512 ==> #[trigger] self.key@[j] == (start.key[j] || names_in(codes@, n as int, j)),
            decreases codes.len() - n,
        {
            let k = key_index(codes[n]);
            let ghost before = self.key@;
            self.key[k] = true;
            proof {
                assert(self.key@ == before.update(k as int, true));
                assert forall|j: int| 0 <= j < 512 implies #[trigger] self.key@[j] == (start.key[j] || names_in(codes@, n + 1, j)) by {
                    lemma_names_step(codes@, n as int, j);
                }
            }
            n += 1;
        }
        assert(self.key@ =~= spec_hold(start, codes@).key);
        assert(self@ =~= spec_hold(start, codes@));
    }

    /// The keys named by `codes` came up.
    pub fn release_keys(&mut self, codes: &Vec<usize>)
        ensures
            final(self)@ == spec_release(old(self)@, codes@),
    {
        let ghost start = self@;
        let mut n: usize = 0;
        while n < codes.len()
            invariant
                n <= codes.len(),
                start == old(self)@,
                self.down@ == start.down,
                forall|j: int| 0 <= j < 512 ==> #[trigger] self.up@[j] == if names_in(codes@, n as int, j) { 0i64 } else { start.up[j] },
                forall|j: int| 0 <= j < 512 ==> #[trigger] self.key@[j] == if names_in(codes@, n as int, j) { false } else { start.key[j] },
            decreases codes.len() - n,
        {
            let k = key_index(codes[n]);
            let ghost before_up = self.up@;
            let ghost before_key = self.key@;
            self.up[k] = 0;
            self.key[k] = false;
            proof {
                assert(self.up@ == before_up.update(k as int, 0i64));
                assert(self.key@ == before_key.update(k as int, false));
                assert forall|j: int| 0 <= j < 512 implies #[trigger] self.up@[j] == if names_in(codes@, n + 1, j) { 0i64 } else { start.up[j] } by {
                    lemma_names_step(codes@, n as int, j);
                }
                assert forall|j: int| 0 <= j < 512 implies #[trigger] self.key@[j] == if names_in(codes@, n + 1, j) { false } else { start.key[j] } by {
                    lemma_names_step(codes@, n as int, j);
                }
            }
            n += 1;
        }
        assert(self.up@ =~= spec_release(start, codes@).up);
        assert(self.key@ =~= spec_release(start, codes@).key);
        assert(self@ =~= spec_release(start, codes@));
    }

    /// The keys named by `codes` went down.
    pub fn press_keys(&mut self, codes: &Vec<usize>)
        ensures
            final(self)@ == spec_press(old(self)@, codes@),
    {
        let ghost start = self@;
        let mut n: usize = 0;
        while n < codes.len()
            invariant
                n <= codes.len(),
                start == old(self)@,
                self.up@ == start.up,
                forall|j: int| 0 <= j < 512 ==> #[trigger] self.down@[j] == if names_in(codes@, n as int, j) { 0i64 } else { start.down[j] },
                forall|j: int| 0 <= j < 512 ==> #[trigger] self.key@[j] == if names_in(codes@, n as int, j) { true } else { start.key[j] },
            decreases codes.len() - n,
        {
            let k = key_index(codes[n]);
            let ghost before_down = self.down@;
            let ghost before_key = self.key@;
            self.down[k] = 0;
            self.key[k] = true;
            proof {
                assert(self.down@ == before_down.update(k as int, 0i64));
                assert(self.key@ == before_key.update(k as int, true));
                assert forall|j: int| 0 <= j < 512 implies #[trigger] self.down@[j] == if names_in(codes@, n + 1, j) { 0i64 } else { start.down[j] } by {
                    lemma_names_step(codes@, n as int, j);
                }
                assert forall|j: int| 0 <= j < 512 implies #[trigger] self.key@[j] == if names_in(codes@, n + 1, j) { true } else { start.key[j] } by {
                    lemma_names_step(codes@, n as int, j);
                }
            }
            n += 1;
        }
        assert(self.down@ =~= spec_press(start, codes@).down);
        assert(self.key@ =~= spec_press(start, codes@).key);
        assert(self@ =~= spec_press(start, codes@));
    }

    /// Reads one frame of input: the keys held, released and pressed in it
    /// (as key codes), and the states of the left, middle, right and fourth
    /// mouse buttons, which take slots 0 to 3.
    pub fn input(
        &mut self,
        held: &Vec<usize>,
        released: &Vec<usize>,
        pressed: &Vec<usize>,
        mouse: &[ButtonState; 4],
    )
        ensures
            final(self)@ == spec_read(old(self)@, held@, released@, pressed@, mouse@),
    {
        self.hold_keys(held);
        self.release_keys(released);
        self.press_keys(pressed);
        mouse_key(mouse[0], 0, self);
        mouse_key(mouse[1], 1, self);
        mouse_key(mouse[2], 2, self);
        mouse_key(mouse[3], 3, self);
    }

    /// The key in `slot` went down less than 16 frames ago and has not been used up.
    pub fn recent(&self, slot: usize) -> (b: bool)
        requires
            slot < 512,
        ensures
            b == (self@.down[slot as int] < 16),
    {
        self.down[slot] < 16
    }

    /// The key in `slot` went down in this very frame.
    pub fn just_pressed(&self, slot: usize) -> (b: bool)
        requires
            slot < 512,
        ensures
            b == (self@.down[slot as int] == 0),
    {
        self.down[slot] == 0
    }

    /// Uses up the press of the key in `slot`, so that it no longer counts as recent.
    pub fn consume(&mut self, slot: usize)
        requires
            slot < 512,
        ensures
            final(self)@ == (InputView { down: old(self)@.down.update(slot as int, 16), ..old(self)@ }),
    {
        let ghost start = self@;
        self.down[slot] = 16;
        assert(self@ =~= (InputView { down: start.down.update(slot as int, 16), ..start }));
    }
}

/// Applies the state of one mouse button to slot `i` of `input`.
pub fn mouse_key(button: ButtonState, i: usize, input: &mut Input)
    requires
        i < 512,
    ensures
        final(input)@ == spec_mouse(old(input)@, button, i as int),
{
    let ghost start = input@;
    if button.pressed {
        input.down[i] = 0;
        input.key[i] = true;
    }
    if button.down {
        input.key[i] = true;
    }
    if button.released {
        input.up[i] = 0;
        input.key[i] = false;
    }
    assert(input@ =~= spec_mouse(start, button, i as int));
}

/// A frame's input leaves alone every key slot that no event names: slots
/// past the four mouse slots that are neither held, released nor pressed
/// keep their counters and held state.
pub proof fn lemma_read_untouched(
    v: InputView,
    held: Seq<usize>,
    released: Seq<usize>,
    pressed: Seq<usize>,
    mouse: Seq<ButtonState>,
    j: int,
)
    requires
        4 <= j < 512,
        v.down.len() == 512,
        v.up.len() == 512,
        v.key.len() == 512,
        !names(held, j),
        !names(released, j),
        !names(pressed, j),
    ensures
        spec_read(v, held, released, pressed, mouse).down[j] == v.down[j],
        spec_read(v, held, released, pressed, mouse).up[j] == v.up[j],
        spec_read(v, held, released, pressed, mouse).key[j] == v.key[j],
{
}

/// `k` frames pass.
pub open spec fn spec_ticks(v: InputView, k: nat) -> InputView
    decreases k,
{
    if k == 0 {
        v
    } else {
        spec_tick(spec_ticks(v, (k - 1) as nat))
    }
}

/// Taking over the events of another input twice is the same as once.
pub proof fn lemma_merge_idempotent(v: InputView, other: InputView)
    requires
        v.down.len() == 512,
        v.up.len() == 512,
        other.key.len() == 512,
    ensures
        spec_merge(spec_merge(v, other), other) == spec_merge(v, other),
{
    assert(spec_merge(spec_merge(v, other), other) =~= spec_merge(v, other));
}

/// A key pressed in a frame counts `k` in its `down` counter after `k`
/// further frames, and stays held until released.
pub proof fn lemma_press_then_ticks(v: InputView, codes: Seq<usize>, j: int, k: nat)
    requires
        0 <= j < 512,
        names(codes, j),
        k <= i64::MAX,
    ensures
        spec_ticks(spec_press(v, codes), k).down[j] == k,
        spec_ticks(spec_press(v, codes), k).key[j],
    decreases k,
{
    if k > 0 {
        lemma_press_then_ticks(v, codes, j, (k - 1) as nat);
    }
}

/// What each event does to a slot it names, and that slots it does not name
/// are untouched: a press zeroes `down` and holds the key, a release zeroes
/// `up` and frees it, holding holds it; a frame adds one to every counter;
/// taking over another input copies its held keys and zeroes exactly the
/// counters that are zero there.
pub proof fn lemma_events(v: InputView, other: InputView, codes: Seq<usize>, j: int)
    requires
        0 <= j < 512,
    ensures
        names(codes, j) ==> spec_press(v, codes).down[j] == 0 && spec_press(v, codes).key[j],
        !names(codes, j) ==> spec_press(v, codes).down[j] == v.down[j] && spec_press(v, codes).key[j] == v.key[j],
        spec_press(v, codes).up == v.up,
        names(codes, j) ==> spec_release(v, codes).up[j] == 0 && !spec_release(v, codes).key[j],
        !names(codes, j) ==> spec_release(v, codes).up[j] == v.up[j] && spec_release(v, codes).key[j] == v.key[j],
        spec_release(v, codes).down == v.down,
        spec_hold(v, codes).key[j] == (v.key[j] || names(codes, j)),
        spec_hold(v, codes).down == v.down && spec_hold(v, codes).up == v.up,
        spec_tick(v).down[j] == v.down[j] + 1 || v.down[j] == i64::MAX,
        v.down[j] < i64::MAX ==> spec_tick(v).down[j] == v.down[j] + 1,
        v.up[j] < i64::MAX ==> spec_tick(v).up[j] == v.up[j] + 1,
        spec_tick(v).key == v.key,
        spec_merge(v, other).key == other.key,
        spec_merge(v, other).down[j] == if other.down[j] == 0 { 0 } else { v.down[j] },
        spec_merge(v, other).up[j] == if other.up[j] == 0 { 0 } else { v.up[j] },
        names(codes, j) <==> exists|k: int| 0 <= k < codes.len() && codes[k] % 512 == j,
{
}

/// In one frame's input, for a key slot past the mouse slots: a press wins
/// over a release, which wins over holding; a press zeroes `down`, a
/// release zeroes `up`, and a slot no event names keeps its state. The
/// mouse slots take the button states: a release frees the slot and zeroes
/// `up`, else a press or a held button holds it, and a press zeroes `down`.
pub proof fn lemma_read_order(
    v: InputView,
    held: Seq<usize>,
    released: Seq<usize>,
    pressed: Seq<usize>,
    mouse: Seq<ButtonState>,
    j: int,
)
    requires
        0 <= j < 512,
        v.down.len() == 512,
        v.up.len() == 512,
        v.key.len() == 512,
    ensures
        4 <= j ==> spec_read(v, held, released, pressed, mouse).key[j] == if names(pressed, j) {
            true
        } else if names(released, j) {
            false
        } else if names(held, j) {
            true
        } else {
            v.key[j]
        },
        4 <= j ==> spec_read(v, held, released, pressed, mouse).down[j] == if names(pressed, j) { 0 } else { v.down[j] },
        4 <= j ==> spec_read(v, held, released, pressed, mouse).up[j] == if names(released, j) { 0 } else { v.up[j] },
        j < 4 && mouse[j].released ==> !spec_read(v, held, released, pressed, mouse).key[j]
            && spec_read(v, held, released, pressed, mouse).up[j] == 0,
        j < 4 && !mouse[j].released && (mouse[j].pressed || mouse[j].down) ==> spec_read(v, held, released, pressed, mouse).key[j],
        j < 4 && mouse[j].pressed ==> spec_read(v, held, released, pressed, mouse).down[j] == 0,
{
}

} // verus!
