use vstd::prelude::*;
use crate::record::{Kevent, EVFILT_READ, EV_ADD, EV_ENABLE, EV_ONESHOT};

verus! {

/// The record a one-shot read-interest registration submits: read filter,
/// add/enable/one-shot flags, the watched resource in `ident`, the caller's
/// correlation tag in `udata`. The filter-specific fields stay zero.
pub open spec fn spec_read_oneshot_record(resource_id: u64, tag: u64) -> Kevent {
    Kevent {
        ident: resource_id,
        filter: EVFILT_READ,
        flags: EV_ADD | EV_ENABLE | EV_ONESHOT,
        fflags: 0,
        data: 0,
        udata: tag,
    }
}

/// Builds the event record that registers one-shot read interest for
/// `resource_id`, tagged with the caller-supplied correlation tag.
pub fn read_oneshot_record(resource_id: u64, tag: u64) -> (r: Kevent)
    ensures
        r == spec_read_oneshot_record(resource_id, tag),
        r.udata == tag,
        r.ident == resource_id,
{
    Kevent {
        ident: resource_id,
        filter: EVFILT_READ,
        flags: EV_ADD | EV_ENABLE | EV_ONESHOT,
        fflags: 0,
        data: 0,
        udata: tag,
    }
}

/// A registration record asks for add, enable and one-shot semantics: the
/// kernel removes the interest the first time it fires, so the registration
/// can produce at most one completion over its lifetime.
pub proof fn lemma_registration_is_oneshot(resource_id: u64, tag: u64)
    ensures
        spec_read_oneshot_record(resource_id, tag).flags & EV_ONESHOT == EV_ONESHOT,
        spec_read_oneshot_record(resource_id, tag).flags & EV_ADD == EV_ADD,
        spec_read_oneshot_record(resource_id, tag).flags & EV_ENABLE == EV_ENABLE,
{
    assert((0x1u16 | 0x4u16 | 0x10u16) & 0x10u16 == 0x10u16) by (bit_vector);
    assert((0x1u16 | 0x4u16 | 0x10u16) & 0x1u16 == 0x1u16) by (bit_vector);
    assert((0x1u16 | 0x4u16 | 0x10u16) & 0x4u16 == 0x4u16) by (bit_vector);
}

} // verus!
