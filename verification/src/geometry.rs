//! Grid geometry along one axis.
//!
//! Frames of length `frame` tile an axis of length `extent`; in the padded
//! layout consecutive frames are `padding` pixels apart. Both axes of a sheet
//! follow the same rules, so everything here is stated once, for one axis.

use vstd::arithmetic::div_mod::{
    lemma_div_by_self,
    lemma_div_pos_is_pos,
    lemma_fundamental_div_mod,
    lemma_fundamental_div_mod_converse,
    lemma_mod_bound,
};
use vstd::arithmetic::mul::{
    lemma_mul_inequality,
    lemma_mul_is_commutative,
    lemma_mul_is_distributive_add,
};
use vstd::prelude::*;

verus! {

/// A frame length is usable on an axis when it is positive and no longer than
/// the axis.
pub open spec fn valid_frame(extent: int, frame: int) -> bool {
    1 <= frame <= extent
}

/// The number of whole frames along the axis.
pub open spec fn frame_count(extent: int, frame: int) -> int {
    extent / frame
}

/// The length of the axis once `padding` pixels separate adjacent frames.
pub open spec fn padded_extent(extent: int, frame: int, padding: int) -> int {
    extent + (frame_count(extent, frame) - 1) * padding
}

/// Where frame number `index` starts on the source axis.
pub open spec fn source_origin(index: int, frame: int) -> int {
    index * frame
}

/// Where frame number `index` starts on the padded axis.
pub open spec fn padded_origin(index: int, frame: int, padding: int) -> int {
    index * (frame + padding)
}

/// Whether position `t` of the padded axis lies inside one of the frames.
pub open spec fn in_frame(t: int, extent: int, frame: int, padding: int) -> bool {
    &&& t / (frame + padding) < frame_count(extent, frame)
    &&& t % (frame + padding) < frame
}

/// The source position shown at position `t` of the padded axis, for a `t`
/// that lies inside a frame.
pub open spec fn source_position(t: int, frame: int, padding: int) -> int {
    source_origin(t / (frame + padding), frame) + t % (frame + padding)
}

/// A usable frame length gives at least one frame, and the frames fit on the
/// axis.
pub proof fn lemma_frame_count(extent: int, frame: int)
    requires
        valid_frame(extent, frame),
    ensures
        frame_count(extent, frame) >= 1,
        frame_count(extent, frame) * frame <= extent,
        extent < (frame_count(extent, frame) + 1) * frame,
{
    lemma_fundamental_div_mod(extent, frame);
    lemma_mod_bound(extent, frame);
    lemma_mul_is_commutative(frame, extent / frame);
    lemma_mul_is_distributive_add(frame, extent / frame, 1);
    lemma_mul_is_commutative(frame, extent / frame + 1);
    if extent / frame < 1 {
        lemma_div_pos_is_pos(extent, frame);
    }
}

/// Frame number `index` lies within the source axis and within the padded
/// axis.
pub proof fn lemma_frame_fits(extent: int, frame: int, padding: int, index: int)
    requires
        valid_frame(extent, frame),
        0 <= padding,
        0 <= index < frame_count(extent, frame),
    ensures
        0 <= source_origin(index, frame),
        source_origin(index, frame) + frame <= extent,
        0 <= padded_origin(index, frame, padding),
        padded_origin(index, frame, padding) + frame <= padded_extent(extent, frame, padding),
        padded_origin(index, frame, padding) == source_origin(index, frame) + index * padding,
        0 <= index * padding <= (frame_count(extent, frame) - 1) * padding,
{
    let count = frame_count(extent, frame);
    lemma_frame_count(extent, frame);
    lemma_mul_is_distributive_add(index, frame, padding);
    assert(0 <= index * frame) by (nonlinear_arith)
        requires
            0 <= index,
            0 <= frame,
    ;
    assert(0 <= index * padding) by (nonlinear_arith)
        requires
            0 <= index,
            0 <= padding,
    ;
    lemma_mul_inequality(index, count - 1, padding);
    lemma_mul_inequality(index + 1, count, frame);
    lemma_mul_is_distributive_add(frame, index, 1);
    lemma_mul_is_commutative(frame, index);
    lemma_mul_is_commutative(frame, index + 1);
}

/// Position `t` of the padded axis lies in frame number `index` exactly when
/// it is at most `frame - 1` pixels past that frame's origin, and it then
/// shows the source pixel equally far past the frame's source origin.
pub proof fn lemma_position_in_frame(t: int, frame: int, padding: int, index: int)
    requires
        1 <= frame,
        0 <= padding,
    ensures
        (t / (frame + padding) == index && t % (frame + padding) < frame) <==> (padded_origin(
            index,
            frame,
            padding,
        ) <= t < padded_origin(index, frame, padding) + frame),
        t / (frame + padding) == index ==> source_position(t, frame, padding) == source_origin(
            index,
            frame,
        ) + (t - padded_origin(index, frame, padding)),
{
    let pitch = frame + padding;
    lemma_fundamental_div_mod(t, pitch);
    lemma_mod_bound(t, pitch);
    lemma_mul_is_commutative(pitch, t / pitch);
    if index * pitch <= t < index * pitch + frame {
        lemma_fundamental_div_mod_converse(t, pitch, index, t - index * pitch);
    }
}

/// A position that is not negative lies in a cell that is not negative.
pub proof fn lemma_nonnegative_cell(t: int, pitch: int)
    requires
        0 <= t,
        1 <= pitch,
    ensures
        0 <= t / pitch,
{
    lemma_div_pos_is_pos(t, pitch);
}

/// An axis whose length is an exact multiple of the frame length is covered
/// by its frames from end to end.
pub proof fn lemma_exact_axis(extent: int, frame: int)
    requires
        valid_frame(extent, frame),
        extent % frame == 0,
    ensures
        frame_count(extent, frame) * frame == extent,
{
    lemma_fundamental_div_mod(extent, frame);
    lemma_mul_is_commutative(frame, extent / frame);
}

/// Without padding the axis keeps its length, the frames cover it up to the
/// end of the last whole frame, and every covered position shows itself.
pub proof fn lemma_axis_without_padding(t: int, extent: int, frame: int)
    requires
        valid_frame(extent, frame),
        0 <= t,
    ensures
        padded_extent(extent, frame, 0) == extent,
        in_frame(t, extent, frame, 0) <==> t < frame_count(extent, frame) * frame,
        source_position(t, frame, 0) == t,
{
    let count = frame_count(extent, frame);
    lemma_fundamental_div_mod(t, frame);
    lemma_mod_bound(t, frame);
    lemma_mul_is_commutative(frame, t / frame);
    if t / frame < count {
        lemma_mul_inequality(t / frame + 1, count, frame);
        lemma_mul_is_distributive_add(frame, t / frame, 1);
        lemma_mul_is_commutative(frame, t / frame + 1);
    } else {
        lemma_mul_inequality(count, t / frame, frame);
    }
}

/// A frame as long as the axis is the only frame: the axis keeps its length
/// whatever the padding, and every position shows itself.
pub proof fn lemma_axis_of_one_frame(t: int, extent: int, padding: int)
    requires
        1 <= extent,
        0 <= padding,
        0 <= t < extent,
    ensures
        frame_count(extent, extent) == 1,
        padded_extent(extent, extent, padding) == extent,
        in_frame(t, extent, extent, padding),
        source_position(t, extent, padding) == t,
{
    lemma_div_by_self(extent);
    lemma_fundamental_div_mod_converse(t, extent + padding, 0, t);
}

} // verus!
