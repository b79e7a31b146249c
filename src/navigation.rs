//! Selection and animation state of the machine list.

use vstd::prelude::*;

verus! {

/// The number of frames of the running-machine spinner.
pub const SPINNER_FRAME_COUNT: usize = 4;

/// The selection of a freshly shown list of `len` machines: the first one, if any.
pub fn initial_selection(len: usize) -> (r: Option<usize>)
    ensures
        r == (if len == 0 {
            None
        } else {
            Some(0usize)
        }),
{
    if len == 0 {
        None
    } else {
        Some(0)
    }
}

/// The selection after moving down a list of `len` machines: the next one,
/// wrapping from the last to the first.
pub fn select_next(selected: Option<usize>, len: usize) -> (r: Option<usize>)
    ensures
        len == 0 ==> r is None,
        len > 0 ==> r == Some(
            match selected {
                Some(i) => if i + 1 >= len {
                    0usize
                } else {
                    (i + 1) as usize
                },
                None => 0usize,
            },
        ),
{
    if len == 0 {
        return None;
    }
    match selected {
        Some(i) => if i >= len - 1 {
            Some(0)
        } else {
            Some(i + 1)
        },
        None => Some(0),
    }
}

/// The selection after moving up a list of `len` machines: the previous one,
/// wrapping from the first to the last.
pub fn select_prev(selected: Option<usize>, len: usize) -> (r: Option<usize>)
    ensures
        len == 0 ==> r is None,
        len > 0 ==> r == Some(
            match selected {
                Some(i) => if i == 0 || i > len {
                    (len - 1) as usize
                } else {
                    (i - 1) as usize
                },
                None => (len - 1) as usize,
            },
        ),
{
    if len == 0 {
        return None;
    }
    match selected {
        Some(i) => if i == 0 || i > len {
            Some(len - 1)
        } else {
            Some(i - 1)
        },
        None => Some(len - 1),
    }
}

/// The spinner frame after `frame`, cycling through the frames.
pub fn next_spinner_frame(frame: usize) -> (r: usize)
    ensures
        r == (frame + 1) % (SPINNER_FRAME_COUNT as int),
{
    let k = frame % SPINNER_FRAME_COUNT;
    if k == SPINNER_FRAME_COUNT - 1 {
        0
    } else {
        k + 1
    }
}

} // verus!
