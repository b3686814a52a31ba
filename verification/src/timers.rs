use vstd::prelude::*;

verus! {

/// Frames a cannon shot lives.
pub const SHOT_LIFETIME: i32 = 4096;

/// A cannon's reload counter after one frame, and whether it fires: the
/// counter goes down by one; once it drops below zero the cannon fires and
/// the counter starts again from `freq`.
pub open spec fn spec_reload(progress: i32, freq: i32) -> (i32, bool) {
    if progress - 1 < 0 {
        (freq, true)
    } else {
        ((progress - 1) as i32, false)
    }
}

/// One frame of a cannon's reload; returns whether it fires now.
pub fn reload(progress: &mut i32, freq: i32) -> (fire: bool)
    requires
        *old(progress) > i32::MIN,
    ensures
        (*final(progress), fire) == spec_reload(*old(progress), freq),
{
    *progress = *progress - 1;
    if *progress < 0 {
        *progress = freq;
        true
    } else {
        false
    }
}

/// One frame of a shot's life; returns whether the shot is spent and must be removed.
pub fn expire(t: &mut i32) -> (spent: bool)
    requires
        *old(t) > i32::MIN,
    ensures
        *final(t) == *old(t) - 1,
        spent == (*final(t) < 0),
{
    *t = *t - 1;
    *t < 0
}

/// A stone's frames since it last touched a platform, after one frame of
/// flight, and whether its speed is damped: a stone that touched a platform
/// within the last 16 frames is damped once and its counter jumps to 16;
/// then the counter goes up by one.
pub open spec fn spec_settle(ground: i32) -> (i32, bool) {
    if ground < 16 {
        (17i32, true)
    } else {
        ((ground + 1) as i32, false)
    }
}

/// One frame of a stone's flight counter; returns whether its speed is damped now.
pub fn settle(ground: &mut i32) -> (damped: bool)
    requires
        *old(ground) < i32::MAX,
    ensures
        (*final(ground), damped) == spec_settle(*old(ground)),
{
    let mut damped = false;
    if *ground < 16 {
        *ground = 16;
        damped = true;
    }
    *ground = *ground + 1;
    damped
}

/// A cannon's reload counter after `n` frames starting from `p`, and the
/// number of shots it fired in them.
pub open spec fn reload_run(p: i32, freq: i32, n: nat) -> (i32, nat)
    decreases n,
{
    if n == 0 {
        (p, 0)
    } else {
        let (q, fired) = spec_reload(p, freq);
        let (r, shots) = reload_run(q, freq, (n - 1) as nat);
        (r, if fired { shots + 1 } else { shots })
    }
}

/// While its counter lasts, a cannon stays quiet and counts down.
proof fn lemma_reload_quiet(p: i32, freq: i32, n: nat)
    requires
        n <= p,
    ensures
        reload_run(p, freq, n) == ((p - n) as i32, 0nat),
    decreases n,
{
    if n > 0 {
        lemma_reload_quiet((p - 1) as i32, freq, (n - 1) as nat);
    }
}

/// A cannon whose counter stands at `p` stays quiet for `p` frames, fires
/// in the frame after, and starts counting again from its frequency.
pub proof fn lemma_reload_period(p: i32, freq: i32)
    requires
        0 <= p,
    ensures
        reload_run(p, freq, p as nat) == (0i32, 0nat),
        reload_run(p, freq, (p + 1) as nat) == (freq, 1nat),
    decreases p,
{
    lemma_reload_quiet(p, freq, p as nat);
    if p > 0 {
        lemma_reload_period((p - 1) as i32, freq);
    } else {
        assert(reload_run(freq, freq, 0) == (freq, 0nat));
    }
}

/// The shots fired over `n` frames from a counter `p` within `0..=freq`:
/// none in the first `p` frames, then one every `freq + 1` frames.
proof fn lemma_reload_count_from(p: i32, freq: i32, n: nat)
    requires
        0 <= p <= freq,
    ensures
        reload_run(p, freq, n).1 == if n <= p { 0 } else { ((n - p - 1) / (freq + 1) + 1) as nat },
    decreases n,
{
    if n > 0 {
        if p == 0 {
            lemma_reload_count_from(freq, freq, (n - 1) as nat);
            let x = n - 1;
            let d = freq + 1;
            if x > freq {
                assert(x / d == (x - d) / d + 1) by (nonlinear_arith)
                    requires
                        d > 0,
                        x >= d,
                ;
            } else {
                assert(x / d == 0) by (nonlinear_arith)
                    requires
                        d > 0,
                        0 <= x < d,
                ;
            }
        } else {
            lemma_reload_count_from((p - 1) as i32, freq, (n - 1) as nat);
        }
    }
}

/// A new cannon (counter 0) with a frequency `freq >= 0` fires on its first
/// frame and then once every `freq + 1` frames: over `n >= 1` frames it
/// fires `(n - 1) / (freq + 1) + 1` shots.
pub proof fn lemma_reload_shot_count(freq: i32, n: nat)
    requires
        0 <= freq,
        n >= 1,
    ensures
        reload_run(0, freq, n).1 == (n - 1) / (freq + 1) + 1,
{
    lemma_reload_count_from(0, freq, n);
}

/// A shot's counter after `k` frames, starting from `t`.
pub open spec fn expire_run(t: i32, k: nat) -> int
    decreases k,
{
    if k == 0 {
        t as int
    } else {
        expire_run(t, (k - 1) as nat) - 1
    }
}

/// Frame `k` of a shot's life (counting from 1) is the one that spends it
/// exactly when the counter is then below zero.
pub open spec fn spent_at(t: i32, k: nat) -> bool {
    expire_run(t, k) < 0
}

/// A shot counts down one per frame.
proof fn lemma_expire_run(t: i32, k: nat)
    ensures
        expire_run(t, k) == t - k,
    decreases k,
{
    if k > 0 {
        lemma_expire_run(t, (k - 1) as nat);
    }
}

/// A new shot lives `SHOT_LIFETIME` (4096) frames: frames 1 to 4096 leave it
/// alive and frame 4097 spends it.
pub proof fn lemma_shot_lifetime(k: nat)
    requires
        1 <= k,
    ensures
        spent_at(SHOT_LIFETIME, k) == (k >= 4097),
{
    lemma_expire_run(SHOT_LIFETIME, k);
}

/// A stone is damped exactly in a frame that starts within 16 frames of its
/// last contact; its counter then stands at 17, otherwise it goes up by one.
pub proof fn lemma_settle(ground: i32)
    requires
        ground < i32::MAX,
    ensures
        spec_settle(ground).1 <==> ground < 16,
        spec_settle(ground).0 == if ground < 16 { 17 } else { ground + 1 },
        spec_settle(ground).0 > 16,
{
}

/// One frame of reload: the counter drops by one and the cannon fires
/// exactly when it drops below zero, and then restarts at its frequency.
pub proof fn lemma_reload_step(progress: i32, freq: i32)
    requires
        progress > i32::MIN,
    ensures
        spec_reload(progress, freq).1 <==> progress <= 0,
        spec_reload(progress, freq).0 == if progress <= 0 { freq as int } else { progress - 1 },
{
}

} // verus!
