//! Opening a session through an out-parameter that is only read once the
//! opener reports that it was filled in.
use vstd::prelude::*;

verus! {

/// A session identifier: a `u32` that is never zero.
#[derive(Debug, PartialEq, Eq)]
pub struct SessionId {
    value: u32,
}

impl SessionId {
    #[verifier::type_invariant]
    spec fn nonzero(self) -> bool {
        self.value != 0
    }

    /// The identifier as a number.
    pub closed spec fn spec_value(self) -> u32 {
        self.value
    }

    /// An identifier with the given value, or `None` for zero.
    pub fn new(value: u32) -> (r: Option<SessionId>)
        ensures
            r is Some <==> value != 0,
            r matches Some(id) ==> id.spec_value() == value,
    {
        if value == 0 {
            None
        } else {
            Some(SessionId { value })
        }
    }

    /// The identifier as a number, which is never zero.
    pub fn get(&self) -> (r: u32)
        ensures
            r == self.spec_value(),
            r != 0,
    {
        proof {
            use_type_invariant(self);
        }
        self.value
    }
}

#[derive(Debug, PartialEq, Eq)]
pub struct Session {
    pub id: SessionId,
    pub flags: u32,
}

/// The session the opener hands out: identifier 7, flags 3.
pub open spec fn is_opened_session(s: Session) -> bool {
    s.id.spec_value() == 7 && s.flags == 3
}

/// Writes a session into `out` and returns `true`. When `fail` is set, it
/// returns `false` and writes nothing at all.
pub fn open_session(out: &mut Option<Session>, fail: bool) -> (ok: bool)
    ensures
        ok == !fail,
        fail ==> *final(out) == *old(out),
        !fail ==> (*final(out) matches Some(s) && is_opened_session(s)),
{
    if fail {
        return false;
    }
    let id = match SessionId::new(7) {
        Some(id) => id,
        None => return false,
    };
    *out = Some(Session { id, flags: 3 });
    true
}

/// Opens a session, or returns `None` when the opener reports failure.
pub fn load_session(fail: bool) -> (r: Option<Session>)
    ensures
        r is None <==> fail,
        r matches Some(s) ==> is_opened_session(s),
{
    let mut slot: Option<Session> = None;
    if open_session(&mut slot, fail) {
        slot
    } else {
        None
    }
}

} // verus!
