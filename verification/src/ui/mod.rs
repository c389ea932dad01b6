//! What the panes and popups hold, and how keys move through them.

use vstd::prelude::*;

pub mod agenda;
pub mod backstage;
pub mod calendar;
pub mod categories;
pub mod categorypicker;
pub mod compose;
pub mod eventform;
pub mod filepicker;
pub mod folders;
pub mod foldertree;
pub mod freebusy;
pub mod help;
pub mod layout;
pub mod linkprompt;
pub mod message_list;
pub mod oofform;
pub mod picture;
pub mod rail;
pub mod reading;
pub mod ribbon;
pub mod screen;
pub mod style;
pub mod width;

verus! {

/// `idx + delta`, wrapped into `[0, len)`.
pub open spec fn wrap_index(idx: int, delta: int, len: int) -> int {
    (idx + delta) % len
}

/// `idx + delta`, held between the first and the last of `len`.
pub open spec fn clamp_index(idx: int, delta: int, len: int) -> int {
    if idx + delta < 0 {
        0
    } else if idx + delta > len - 1 {
        len - 1
    } else {
        idx + delta
    }
}

/// `idx`, or the last of `len` where it lies past the end; 0 where there is
/// none.
pub open spec fn into_range(idx: int, len: int) -> int {
    if idx < len {
        idx
    } else if len > 0 {
        len - 1
    } else {
        0
    }
}

pub fn nonzero(len: usize) -> (r: Option<usize>)
    ensures
        r == (if len > 0 {
            Some(len)
        } else {
            None
        }),
{
    if len > 0 {
        Some(len)
    } else {
        None
    }
}

/// `idx + delta`, wrapped into `[0, len)`.
pub fn wrapped(idx: usize, delta: isize, len: usize) -> (r: usize)
    requires
        len > 0,
    ensures
        r == wrap_index(idx as int, delta as int, len as int),
        r < len,
{
    let at: i128 = idx as i128 + delta as i128;
    let n: i128 = len as i128;
    let q: i128 = calendar::floor_div(at, n);
    proof {
        vstd::arithmetic::div_mod::lemma_fundamental_div_mod(at as int, n as int);
        vstd::arithmetic::div_mod::lemma_mod_bound(at as int, n as int);
        assert(q * n == n * q) by (nonlinear_arith);
    }
    (at - q * n) as usize
}

/// `idx + delta`, held between the first and the last of `len`.
pub fn clamped(idx: usize, delta: isize, len: usize) -> (r: usize)
    requires
        len > 0,
    ensures
        r == clamp_index(idx as int, delta as int, len as int),
        r < len,
{
    let at: i128 = idx as i128 + delta as i128;
    if at < 0 {
        0
    } else if at > (len - 1) as i128 {
        len - 1
    } else {
        at as usize
    }
}

/// `idx`, brought into the range of `len`.
pub fn in_range(idx: usize, len: usize) -> (r: usize)
    ensures
        r == into_range(idx as int, len as int),
        len > 0 ==> r < len,
{
    if idx < len {
        idx
    } else if len > 0 {
        len - 1
    } else {
        0
    }
}

/// Going one step and one step back in a wrapping list ends where it began.
pub proof fn wrapping_step_back(idx: int, delta: int, len: int)
    requires
        0 <= idx < len,
    ensures
        wrap_index(wrap_index(idx, delta, len), -delta, len) == idx,
{
    wrapping_steps_add(idx, delta, -delta, len);
    vstd::arithmetic::div_mod::lemma_small_mod(idx as nat, len as nat);
}

/// Steps in a wrapping list add up.
pub proof fn wrapping_steps_add(idx: int, a: int, b: int, len: int)
    requires
        len > 0,
    ensures
        wrap_index(wrap_index(idx, a, len), b, len) == wrap_index(idx, a + b, len),
{
    vstd::arithmetic::div_mod::lemma_add_mod_noop_right(b, idx + a, len);
}

}
