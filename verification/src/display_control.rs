//! The display-control port: the capability contract a platform backend
//! implements to enumerate displays and read or write their active DDC/CI
//! input selector, and the best-effort batch operations built on it.

use vstd::prelude::*;

use crate::input_source::InputSource;

verus! {

/// A single DDC/CI bus transaction with one display failed: the display did
/// not answer, does not expose the input-select feature, or the bus
/// transaction was not acknowledged. Always recovered locally.
#[derive(Clone, Copy, Debug, PartialEq, Eq, Structural)]
pub struct CommunicationError;

/// The subset of DDC/CI needed for display control, implemented once per
/// platform by wrapping that platform's native monitor-control mechanism.
///
/// Implementations live outside the verified library; the contracts below are
/// relied upon, not proved, for each platform backend.
pub trait DdcControlTrait {
    /// The ordinals of all displays controllable at the moment of the call:
    /// platform-assigned, zero-based and contiguous, re-derived on every call.
    fn get_display_range(&mut self) -> (displays: Vec<isize>)
        ensures
            forall|i: int| 0 <= i < displays@.len() ==> displays@[i] as int == i,
    ;

    /// Read the display's currently active input-selector code. No outcome is
    /// promised: the display may not answer at all.
    fn ddc_read_input_select(&mut self, display_idx: isize) -> (r: Result<
        u16,
        CommunicationError,
    >);

    /// Instruct the display to switch to the given input selector. Success
    /// means the bus transaction was acknowledged, not that the switch took
    /// visual effect; no outcome is promised.
    fn ddc_write_input_select(&mut self, display_idx: isize, value: u16) -> (r: Result<
        (),
        CommunicationError,
    >);
}

/// One attempted input-selector write: which display was addressed, the code
/// handed to it, and whether the bus transaction was acknowledged.
#[derive(Clone, Copy, Debug)]
pub struct WriteAttempt {
    pub display: isize,
    pub code: u16,
    pub outcome: Result<(), CommunicationError>,
}

/// Read the current input selector of each listed display, one outcome per
/// display in order: a failure on one display never stops the remaining
/// reads.
pub fn read_inputs<D: DdcControlTrait>(ddc: &mut D, displays: &Vec<isize>) -> (r: Vec<
    (isize, Result<u16, CommunicationError>),
>)
    ensures
        r@.len() == displays@.len(),
        forall|i: int| 0 <= i < r@.len() ==> (#[trigger] r@[i]).0 == displays@[i],
{
    let mut r: Vec<(isize, Result<u16, CommunicationError>)> = Vec::new();
    let mut i: usize = 0;
    while i < displays.len()
        invariant
            i <= displays@.len(),
            r@.len() == i,
            forall|j: int| 0 <= j < r@.len() ==> (#[trigger] r@[j]).0 == displays@[j],
        decreases displays@.len() - i,
    {
        let display = displays[i];
        let outcome = ddc.ddc_read_input_select(display);
        r.push((display, outcome));
        i = i + 1;
    }
    r
}

/// Attempt to switch each listed display to `code`, one attempt per display
/// in order: a failure on one display never stops the remaining attempts.
pub fn write_inputs<D: DdcControlTrait>(ddc: &mut D, displays: &Vec<isize>, code: u16) -> (r: Vec<
    WriteAttempt,
>)
    ensures
        r@.len() == displays@.len(),
        forall|i: int| 0 <= i < r@.len()
            ==> (#[trigger] r@[i]).display == displays@[i] && r@[i].code == code,
{
    let mut r: Vec<WriteAttempt> = Vec::new();
    let mut i: usize = 0;
    while i < displays.len()
        invariant
            i <= displays@.len(),
            r@.len() == i,
            forall|j: int| 0 <= j < r@.len()
                ==> (#[trigger] r@[j]).display == displays@[j] && r@[j].code == code,
        decreases displays@.len() - i,
    {
        let display = displays[i];
        let outcome = ddc.ddc_write_input_select(display, code);
        r.push(WriteAttempt { display, code, outcome });
        i = i + 1;
    }
    r
}

/// Read the current input selector of every display enumerable right now, as
/// a diagnostic baseline: one outcome per display, addressed in order.
pub fn log_current_source<D: DdcControlTrait>(ddc: &mut D) -> (r: Vec<
    (isize, Result<u16, CommunicationError>),
>)
    ensures
        forall|i: int| 0 <= i < r@.len() ==> (#[trigger] r@[i]).0 as int == i,
{
    let displays = ddc.get_display_range();
    read_inputs(ddc, &displays)
}

/// Best-effort switch of every display enumerable right now to the given
/// input source: one write attempt per display, each with the source's
/// resolved code, continuing past individual failures.
pub fn switch_to<D: DdcControlTrait>(ddc: &mut D, source: InputSource) -> (r: Vec<WriteAttempt>)
    ensures
        forall|i: int| 0 <= i < r@.len()
            ==> (#[trigger] r@[i]).display as int == i && r@[i].code == source.spec_value(),
{
    let code = source.value();
    let displays = ddc.get_display_range();
    write_inputs(ddc, &displays, code)
}

/// Translate a native read reply into the port's result: positive replies
/// carry the selector code in their low 16 bits, any other reply signals a
/// failed transaction.
pub fn decode_read_reply(raw: isize) -> (r: Result<u16, CommunicationError>)
    ensures
        raw > 0 ==> r == Ok::<u16, CommunicationError>(raw as u16),
        raw <= 0 ==> r == Err::<u16, CommunicationError>(CommunicationError),
{
    if raw > 0 {
        Ok(#[verifier::truncate] (raw as u16))
    } else {
        Err(CommunicationError)
    }
}

/// Translate a native write acknowledgement into the port's result: an
/// unacknowledged transaction signals a failure.
pub fn decode_write_reply(acknowledged: bool) -> (r: Result<(), CommunicationError>)
    ensures
        acknowledged ==> r == Ok::<(), CommunicationError>(()),
        !acknowledged ==> r == Err::<(), CommunicationError>(CommunicationError),
{
    if acknowledged {
        Ok(())
    } else {
        Err(CommunicationError)
    }
}

} // verus!
