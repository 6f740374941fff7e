use vstd::prelude::*;

verus! {

/// Filter code selecting read readiness as the watched event class.
pub const EVFILT_READ: i16 = -1;

/// Flag bit: add a new interest to the queue.
pub const EV_ADD: u16 = 0x1;

/// Flag bit: deliver the event when it fires.
pub const EV_ENABLE: u16 = 0x4;

/// Flag bit: the kernel removes the interest the first time it fires.
pub const EV_ONESHOT: u16 = 0x10;

/// One event record as it crosses the boundary to the kernel: the watched
/// resource (`ident`), the event class (`filter`), the interest flags, and
/// the opaque correlation tag (`udata`) echoed back in the completion.
/// Field order and widths mirror the native layout.
#[derive(Clone, Copy, Debug, PartialEq, Eq, Structural)]
pub struct Kevent {
    pub ident: u64,
    pub filter: i16,
    pub flags: u16,
    pub fflags: u32,
    pub data: i64,
    pub udata: u64,
}

/// The native timeout representation: whole seconds plus nanoseconds.
#[derive(Clone, Copy, Debug, PartialEq, Eq, Structural)]
pub struct Timespec {
    /// Seconds
    pub tv_sec: isize,
    /// Nanoseconds
    pub v_nsec: usize,
}

impl Timespec {
    /// Converts a millisecond duration to the native seconds/nanoseconds pair.
    pub fn from_millis(milliseconds: i32) -> (t: Self)
        requires
            0 <= milliseconds,
        ensures
            t.tv_sec == milliseconds as int / 1000,
            t.v_nsec == (milliseconds as int % 1000) * 1_000_000,
    {
        let seconds: i32 = milliseconds / 1000;
        let nanoseconds: i32 = (milliseconds % 1000) * 1000 * 1000;
        Timespec { tv_sec: seconds as isize, v_nsec: nanoseconds as usize }
    }
}

} // verus!
