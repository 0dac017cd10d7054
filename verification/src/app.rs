//! The switch orchestrator: owns the immutable configuration, receives
//! hot-plug events, and on an arrival event matching the configured device
//! identifier wakes the displays and switches every enumerable display to the
//! configured input.

use vstd::prelude::*;

use crate::display_control::{switch_to, log_current_source, DdcControlTrait, WriteAttempt};
use crate::display_control::CommunicationError;
use crate::input_source::{str_eq_str, InputSource};

verus! {

/// The immutable record the orchestrator is configured with: the identifier
/// of the USB device to watch for, and the input selector to switch to.
pub struct Configuration {
    /// The stable identifier of the watched USB device; matched by exact
    /// string equality, with no normalization.
    pub usb_device: String,
    /// The input selector every display is switched to on a matching arrival.
    pub monitor_input: InputSource,
}

/// The OS power-management collaborator that wakes sleeping displays.
/// Invoked best-effort: it reports nothing, and a failure to wake never
/// blocks the subsequent switch. Implementations live outside the verified
/// library.
pub trait WakeControlTrait {
    fn wake_displays(&mut self);
}

/// One hot-plug notification from the platform watch mechanism.
pub enum DeviceEvent {
    Added(String),
    Removed(String),
}

/// The platform hot-plug notification mechanism could not be established or
/// broke down; fatal to the watch loop.
#[derive(Clone, Copy, Debug, PartialEq, Eq, Structural)]
pub struct FatalError;

/// The device-watch port: delivers hot-plug events, in the order the native
/// subsystem reports them, blocking until one arrives. `Ok(None)` means the
/// subsystem delivered its last event and shut down cleanly. Implementations
/// live outside the verified library.
pub trait DeviceWatchTrait {
    fn next_event(&mut self) -> (r: Result<Option<DeviceEvent>, FatalError>);
}

/// What handling one arrival event did: whether the identifier matched the
/// configured target, and every write attempted as a consequence.
pub struct SwitchReport {
    pub matched: bool,
    pub attempts: Vec<WriteAttempt>,
}

/// The contract an arrival-event report obeys: the identifier matched exactly
/// when it equals the configured target; a mismatch attempts nothing; and
/// every attempt addresses display `i` with the configured target code.
pub open spec fn added_report_ok(
    config: Configuration,
    device_id: Seq<char>,
    r: SwitchReport,
) -> bool {
    &&& r.matched == (device_id == config.usb_device@)
    &&& (!r.matched ==> r.attempts@.len() == 0)
    &&& forall|i: int| 0 <= i < r.attempts@.len()
        ==> (#[trigger] r.attempts@[i]).display as int == i && r.attempts@[i].code
            == config.monitor_input.spec_value()
}

/// The switch orchestrator. It owns the configuration and the two platform
/// collaborators it drives: the display-control backend and the wake
/// collaborator.
pub struct App<D: DdcControlTrait, W: WakeControlTrait> {
    pub config: Configuration,
    pub ddc: D,
    pub wake: W,
}

impl<D: DdcControlTrait, W: WakeControlTrait> App<D, W> {
    /// Assemble the orchestrator from its configuration and collaborators.
    pub fn new(config: Configuration, ddc: D, wake: W) -> (r: Self)
        ensures
            r.config == config,
            r.ddc == ddc,
            r.wake == wake,
    {
        App { config, ddc, wake }
    }

    /// Handle a device-arrival notification. On an identifier mismatch this
    /// is a no-op; on a match it wakes the displays and then attempts one
    /// input-selector write per enumerable display, continuing past
    /// individual failures. The configuration never changes.
    pub fn device_added(&mut self, device_id: &str) -> (r: SwitchReport)
        ensures
            added_report_ok(old(self).config, device_id@, r),
            final(self).config == old(self).config,
            !r.matched ==> *final(self) == *old(self),
    {
        if str_eq_str(device_id, self.config.usb_device.as_str()) {
            self.wake.wake_displays();
            let source = self.config.monitor_input;
            let attempts = switch_to(&mut self.ddc, source);
            SwitchReport { matched: true, attempts }
        } else {
            SwitchReport { matched: false, attempts: Vec::new() }
        }
    }

    /// Handle a device-removal notification: no action is ever taken, for any
    /// identifier, including the configured target. Removal never reverts the
    /// input switch, since the previous input is unknown.
    #[allow(unused_variables)]
    pub fn device_removed(&mut self, device_id: &str)
        ensures
            *final(self) == *old(self),
    {
    }

    /// Read the current input selector of every enumerable display as a
    /// one-shot diagnostic baseline, without writing anything.
    pub fn log_current_source(&mut self) -> (r: Vec<(isize, Result<u16, CommunicationError>)>)
        ensures
            forall|i: int| 0 <= i < r@.len() ==> (#[trigger] r@[i]).0 as int == i,
            final(self).config == old(self).config,
    {
        log_current_source(&mut self.ddc)
    }

    /// Handle one hot-plug event: an arrival is matched and acted on as
    /// `device_added` says, a removal is never acted on. This is the whole of
    /// the orchestrator's per-event decision; the blocking watch loop that
    /// feeds it events stays outside the library. The configuration never
    /// changes.
    pub fn handle_event(&mut self, event: &DeviceEvent) -> (r: Option<SwitchReport>)
        ensures
            final(self).config == old(self).config,
            match *event {
                DeviceEvent::Added(ref id) => r is Some && added_report_ok(
                    old(self).config,
                    id@,
                    r->Some_0,
                ),
                DeviceEvent::Removed(_) => r is None && *final(self) == *old(self),
            },
    {
        match event {
            DeviceEvent::Added(id) => Some(self.device_added(id.as_str())),
            DeviceEvent::Removed(id) => {
                self.device_removed(id.as_str());
                None
            },
        }
    }

    /// Run the orchestrator: record the diagnostic baseline once, then block
    /// on the watch port and handle hot-plug events in the order it delivers
    /// them, until the subsystem shuts down cleanly, fails fatally, or
    /// `max_events` events have been handled — the explicit bound that
    /// verified termination requires; a caller wanting the process-lifetime
    /// loop passes `usize::MAX`. The configuration never changes.
    pub fn run<V: DeviceWatchTrait>(&mut self, watcher: &mut V, max_events: usize) -> (r: Result<
        (),
        FatalError,
    >)
        ensures
            final(self).config == old(self).config,
    {
        let _baseline = self.log_current_source();
        let mut remaining: usize = max_events;
        while remaining > 0
            invariant
                self.config == old(self).config,
            decreases remaining,
        {
            match watcher.next_event() {
                Ok(Some(event)) => {
                    let _report = self.handle_event(&event);
                },
                Ok(None) => {
                    return Ok(());
                },
                Err(e) => {
                    return Err(e);
                },
            }
            remaining = remaining - 1;
        }
        Ok(())
    }
}

/// Repeated triggers are independent: two arrival events carrying the same
/// identifier, handled against the same configuration, match identically, and
/// when they enumerate the same number of displays they plan the identical
/// write sequence — no orchestrator state suppresses or alters a repeat.
pub proof fn lemma_repeated_trigger(
    config: Configuration,
    device_id: Seq<char>,
    r1: SwitchReport,
    r2: SwitchReport,
)
    requires
        added_report_ok(config, device_id, r1),
        added_report_ok(config, device_id, r2),
        r1.attempts@.len() == r2.attempts@.len(),
    ensures
        r1.matched == r2.matched,
        forall|i: int| 0 <= i < r1.attempts@.len()
            ==> (#[trigger] r1.attempts@[i]).display == r2.attempts@[i].display
                && r1.attempts@[i].code == r2.attempts@[i].code,
{
}

} // verus!
