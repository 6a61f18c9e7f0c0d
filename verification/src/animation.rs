//! Sprite animation clocks: directional (per-heading tiles sharing one clock)
//! and linear (a strip played once or looped).

use vstd::prelude::*;

verus! {

/// Marks Pac-Man while his death animation plays: frozen, yet still animated.
#[derive(Debug, Clone, Copy)]
pub struct Dying;

/// An animation with tiles per heading, moving and stopped, on one shared clock.
#[derive(Clone)]
pub struct DirectionalAnimation<T> {
    pub moving_tiles: T,
    pub stopped_tiles: T,
    /// Frame counter; tile lookups wrap it.
    pub current_frame: usize,
    /// Ticks banked towards the next frame.
    pub time_bank: u16,
    /// Ticks per frame.
    pub frame_duration: u16,
}

impl<T> DirectionalAnimation<T> {
    /// A fresh animation at its first frame.
    pub fn new(moving_tiles: T, stopped_tiles: T, frame_duration: u16) -> (r: Self)
        ensures
            r.moving_tiles == moving_tiles,
            r.stopped_tiles == stopped_tiles,
            r.current_frame == 0,
            r.time_bank == 0,
            r.frame_duration == frame_duration,
    {
        DirectionalAnimation { moving_tiles, stopped_tiles, current_frame: 0, time_bank: 0, frame_duration }
    }
}

/// Advances a directional animation by `ticks`, only while the entity moves and
/// is not frozen: every whole frame duration banked moves one frame on, and the
/// rest stays banked.
pub fn advance_directional<T>(anim: &mut DirectionalAnimation<T>, ticks: u16, stopped: bool, frozen: bool)
    requires
        old(anim).frame_duration > 0,
        !stopped && !frozen ==> old(anim).time_bank + ticks <= u16::MAX,
        !stopped && !frozen ==> old(anim).current_frame + (old(anim).time_bank + ticks) / (
        old(anim).frame_duration as int) <= usize::MAX,
    ensures
        final(anim).moving_tiles == old(anim).moving_tiles,
        final(anim).stopped_tiles == old(anim).stopped_tiles,
        final(anim).frame_duration == old(anim).frame_duration,
        stopped || frozen ==> final(anim).current_frame == old(anim).current_frame
            && final(anim).time_bank == old(anim).time_bank,
        !stopped && !frozen ==> {
            let total = old(anim).time_bank + ticks;
            &&& final(anim).current_frame == old(anim).current_frame + total / (old(anim).frame_duration as int)
            &&& final(anim).time_bank == total % (old(anim).frame_duration as int)
        },
{
    if stopped || frozen {
        return;
    }
    let ghost start_frame = anim.current_frame as int;
    let ghost total = anim.time_bank + ticks;
    let fd = anim.frame_duration;
    anim.time_bank = anim.time_bank + ticks;
    assert((anim.current_frame - start_frame) * fd == 0) by (nonlinear_arith)
        requires anim.current_frame == start_frame;
    while anim.time_bank >= anim.frame_duration
        invariant
            anim.frame_duration == fd,
            fd > 0,
            0 <= anim.time_bank <= total,
            (anim.current_frame - start_frame) * fd + anim.time_bank == total,
            start_frame + total / (fd as int) <= usize::MAX,
            anim.moving_tiles == old(anim).moving_tiles,
            anim.stopped_tiles == old(anim).stopped_tiles,
        decreases anim.time_bank,
    {
        anim.time_bank = anim.time_bank - anim.frame_duration;
        proof {
            assert((anim.current_frame + 1 - start_frame) * fd + anim.time_bank == total) by (nonlinear_arith)
                requires
                    (anim.current_frame - start_frame) * fd + anim.time_bank + fd == total;
            assert(anim.current_frame + 1 - start_frame <= total / (fd as int)) by (nonlinear_arith)
                requires
                    (anim.current_frame + 1 - start_frame) * fd + anim.time_bank == total,
                    anim.time_bank >= 0,
                    fd > 0;
        }
        anim.current_frame = anim.current_frame + 1;
    }
    proof {
        let k = anim.current_frame - start_frame;
        let b = anim.time_bank as int;
        assert(k * fd + b == total);
        assert(0 <= b < fd);
        vstd::arithmetic::div_mod::lemma_fundamental_div_mod_converse(total, fd as int, k, b);
    }
}

/// A strip of tiles played once, or looped.
#[derive(Clone)]
pub struct LinearAnimation<T> {
    pub tiles: Vec<T>,
    pub current_frame: usize,
    pub time_bank: u16,
    pub frame_duration: u16,
    /// Set when a non-looping strip has shown its last tile.
    pub finished: bool,
}

impl<T> LinearAnimation<T> {
    /// A strip at its first frame, not finished.
    pub fn new(tiles: Vec<T>, frame_duration: u16) -> (r: Self)
        ensures
            r.tiles == tiles,
            r.current_frame == 0,
            r.time_bank == 0,
            r.frame_duration == frame_duration,
            !r.finished,
    {
        LinearAnimation { tiles, current_frame: 0, time_bank: 0, frame_duration, finished: false }
    }
}

/// Advances a linear animation by `ticks` (which the clock counts modulo 2^16).
/// A finished strip stays as it is. Once a whole frame is banked, a looping strip
/// moves on by the banked frames, and a non-looping one as well unless that
/// reaches the end: then it rests on its last tile, finished. The bank keeps the
/// remainder. Returns whether the frame was moved.
pub fn advance_linear<T>(anim: &mut LinearAnimation<T>, ticks: u32, looping: bool) -> (moved: bool)
    requires
        old(anim).frame_duration > 0,
        old(anim).tiles.len() > 0,
        !old(anim).finished ==> old(anim).time_bank + (ticks % 0x10000) <= u16::MAX,
        !old(anim).finished && looping ==> old(anim).current_frame + (old(anim).time_bank + (ticks
            % 0x10000)) / (old(anim).frame_duration as int) <= usize::MAX,
    ensures
        final(anim).tiles == old(anim).tiles,
        final(anim).frame_duration == old(anim).frame_duration,
        ({
            let a = *old(anim);
            let bank = a.time_bank + (ticks % 0x10000);
            let adv = bank / (a.frame_duration as int);
            if a.finished {
                !moved && *final(anim) == a
            } else if adv == 0 {
                !moved && final(anim).time_bank == bank && final(anim).current_frame == a.current_frame
                    && !final(anim).finished
            } else {
                &&& moved
                &&& final(anim).time_bank == bank % (a.frame_duration as int)
                &&& if !looping && a.current_frame + adv >= a.tiles.len() {
                    final(anim).finished && final(anim).current_frame == a.tiles.len() - 1
                } else {
                    !final(anim).finished && final(anim).current_frame == a.current_frame + adv
                }
            }
        }),
{
    if anim.finished {
        return false;
    }
    anim.time_bank = anim.time_bank + (ticks % 0x10000) as u16;
    let frames_to_advance: usize = (anim.time_bank / anim.frame_duration) as usize;
    if frames_to_advance == 0 {
        return false;
    }
    let total_frames = anim.tiles.len();
    let reaches_end = if anim.current_frame >= total_frames {
        true
    } else {
        frames_to_advance >= total_frames - anim.current_frame
    };
    if !looping && reaches_end {
        anim.finished = true;
        anim.current_frame = total_frames - 1;
    } else {
        anim.current_frame = anim.current_frame + frames_to_advance;
    }
    anim.time_bank = anim.time_bank % anim.frame_duration;
    true
}

} // verus!
