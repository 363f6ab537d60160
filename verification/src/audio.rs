//! The worker that opens, probes and tears down audio outputs, one after the other.
//!
//! A successfully opened output is leased to the application until it is given back. Shutting down
//! waits for the lease, so that no output is torn down anywhere but in the worker.

use vstd::prelude::*;

use crate::player::SinkEpoch;

verus! {

/// What one attempt to identify the system's default output gave.
///
/// `Unavailable` and `Failed` are distinct: a lookup that fails for a moment must not tear down an
/// output that works.
#[derive(Debug)]
pub enum DefaultOutputProbe {
    Available(String),
    Unavailable,
    Failed(String),
}

/// What a query for the identity of an opened device gave.
#[derive(Debug)]
pub enum OutputDeviceProbe {
    Available(String),
    Failed(String),
}

pub enum ProbeView {
    Available(Seq<char>),
    Unavailable,
    Failed(Seq<char>),
}

impl View for DefaultOutputProbe {
    type V = ProbeView;

    open spec fn view(&self) -> ProbeView {
        match self {
            DefaultOutputProbe::Available(device) => ProbeView::Available(device@),
            DefaultOutputProbe::Unavailable => ProbeView::Unavailable,
            DefaultOutputProbe::Failed(error) => ProbeView::Failed(error@),
        }
    }
}

impl DefaultOutputProbe {
    /// What the answer of the system means: a device, no device, or an error.
    pub fn from_answer(answer: std::result::Result<Option<String>, String>) -> (res:
        DefaultOutputProbe)
        ensures
            match answer {
                Ok(Some(device)) => res@ == ProbeView::Available(device@),
                Ok(None) => res@ == ProbeView::Unavailable,
                Err(error) => res@ == ProbeView::Failed(error@),
            },
    {
        match answer {
            Ok(Some(device)) => DefaultOutputProbe::Available(device),
            Ok(None) => DefaultOutputProbe::Unavailable,
            Err(error) => DefaultOutputProbe::Failed(error),
        }
    }
}

/// The identity to remember for an opened device: the one that a later query found, where none is
/// known yet.
pub fn recovered_identity(known: bool, probe: Option<OutputDeviceProbe>) -> (res: Option<String>)
    ensures
        match (known, probe) {
            (false, Some(OutputDeviceProbe::Available(device))) => res is Some && res->0@
                == device@,
            _ => res is None,
        },
{
    if known {
        return None;
    }
    match probe {
        Some(OutputDeviceProbe::Available(device)) => Some(device),
        _ => None,
    }
}

/// The number after `number`, which is never zero.
pub open spec fn successor(number: u64) -> u64 {
    if number == u64::MAX {
        1
    } else {
        (number + 1) as u64
    }
}

/// The number after `number`, which is never zero.
pub fn next_number(number: u64) -> (res: u64)
    ensures
        res == successor(number),
{
    let next: u64 = number.wrapping_add(1);
    if next == 0 {
        1
    } else {
        next
    }
}

/// The state of the worker.
#[derive(Clone, Copy, Debug, PartialEq, Eq, Structural)]
pub struct WorkerState {
    /// The number of the output that is opened next.
    pub next_sink_epoch: SinkEpoch,
    /// The output that the application holds.
    pub leased_epoch: Option<SinkEpoch>,
    /// A shutdown was asked for and has not been acknowledged.
    pub shutdown_requested: bool,
}

/// The lease after the given output came back.
pub open spec fn lease_after(leased: Option<SinkEpoch>, returned: SinkEpoch) -> Option<SinkEpoch> {
    if leased == Some(returned) {
        None
    } else {
        leased
    }
}

/// The lease after an output came back, if one did.
pub open spec fn lease_after_any(
    leased: Option<SinkEpoch>,
    returned: Option<SinkEpoch>,
) -> Option<SinkEpoch> {
    match returned {
        Some(epoch) => lease_after(leased, epoch),
        None => leased,
    }
}

/// Ends the lease of the output that came back, and of no other.
pub fn clear_returned_lease(leased_epoch: &mut Option<SinkEpoch>, returned_epoch: SinkEpoch)
    ensures
        *final(leased_epoch) == lease_after(*old(leased_epoch), returned_epoch),
{
    if *leased_epoch == Some(returned_epoch) {
        *leased_epoch = None;
    }
}

/// Whether a shutdown can be acknowledged.
pub fn shutdown_can_finish(shutdown_requested: bool, leased_epoch: Option<SinkEpoch>) -> (res: bool)
    ensures
        res == (shutdown_requested && leased_epoch is None),
{
    shutdown_requested && leased_epoch.is_none()
}

impl WorkerState {
    pub open spec fn started() -> WorkerState {
        WorkerState { next_sink_epoch: 1, leased_epoch: None, shutdown_requested: false }
    }

    /// A shutdown can be acknowledged.
    pub open spec fn can_finish(self) -> bool {
        self.shutdown_requested && self.leased_epoch is None
    }

    /// The state after the command to open an output, and the number of the output.
    pub open spec fn opened(self, previous: Option<SinkEpoch>, shutting_down: bool) -> (
        WorkerState,
        Option<SinkEpoch>,
    ) {
        let freed = WorkerState {
            leased_epoch: lease_after_any(self.leased_epoch, previous),
            ..self
        };
        if shutting_down {
            (freed, None)
        } else {
            (
                WorkerState { next_sink_epoch: successor(self.next_sink_epoch), ..freed },
                Some(self.next_sink_epoch),
            )
        }
    }

    pub fn start() -> (res: WorkerState)
        ensures
            res == WorkerState::started(),
    {
        WorkerState { next_sink_epoch: 1, leased_epoch: None, shutdown_requested: false }
    }

    /// Takes the command to open an output into account, after the previous output was dropped.
    /// Gives the number of the output that is to be opened; nothing is opened during a shutdown.
    pub fn on_open(&mut self, previous: Option<SinkEpoch>, shutting_down: bool) -> (res: Option<
        SinkEpoch,
    >)
        ensures
            (*final(self), res) == old(self).opened(previous, shutting_down),
    {
        if let Some(epoch) = previous {
            clear_returned_lease(&mut self.leased_epoch, epoch);
        }
        if shutting_down {
            return None;
        }
        let sink_epoch: SinkEpoch = self.next_sink_epoch;
        self.next_sink_epoch = next_number(sink_epoch);
        Some(sink_epoch)
    }

    /// Whether an output that was opened is handed out. One that was opened while a shutdown began
    /// is dropped by the worker itself.
    pub fn hands_out(shutting_down: bool) -> (res: bool)
        ensures
            res == !shutting_down,
    {
        !shutting_down
    }

    /// Records that the outcome of opening was told: the output, if there is one, is leased. What
    /// was leased before is not: the application gave it back with the command.
    pub fn on_told(&mut self, candidate: Option<SinkEpoch>)
        ensures
            *final(self) == (WorkerState { leased_epoch: candidate, ..*old(self) }),
    {
        self.leased_epoch = candidate;
    }

    /// Takes an output that was given back into account.
    pub fn on_dispose(&mut self, returned: SinkEpoch)
        ensures
            *final(self) == (WorkerState {
                leased_epoch: lease_after(old(self).leased_epoch, returned),
                ..*old(self)
            }),
    {
        clear_returned_lease(&mut self.leased_epoch, returned);
    }

    /// Takes the command to shut down into account, with the output that comes back with it.
    pub fn on_shutdown(&mut self, current: Option<SinkEpoch>)
        ensures
            *final(self) == (WorkerState {
                leased_epoch: lease_after_any(old(self).leased_epoch, current),
                shutdown_requested: true,
                ..*old(self)
            }),
    {
        if let Some(epoch) = current {
            clear_returned_lease(&mut self.leased_epoch, epoch);
        }
        self.shutdown_requested = true;
    }

    /// Whether the shutdown can be acknowledged, upon which the worker ends.
    pub fn can_acknowledge(&self) -> (res: bool)
        ensures
            res == self.can_finish(),
    {
        shutdown_can_finish(self.shutdown_requested, self.leased_epoch)
    }
}

/// A shutdown waits for the very output that is leased: the return of another one does not end the
/// lease, and that of the leased one does.
pub proof fn law_shutdown_waits_for_the_lease(state: WorkerState, returned: SinkEpoch)
    requires
        state.shutdown_requested,
        state.leased_epoch is Some,
    ensures
        !state.can_finish(),
        ({
            let after = WorkerState {
                leased_epoch: lease_after(state.leased_epoch, returned),
                ..state
            };
            after.can_finish() <==> state.leased_epoch == Some(returned)
        }),
{
}

/// Outputs that are opened one after the other have different numbers, and none is zero.
pub proof fn law_sink_epochs_differ(number: u64)
    requires
        number > 0,
    ensures
        successor(number) > 0,
        successor(number) != number,
{
}

} // verus!
