use vstd::prelude::*;
use crate::descriptor::{Descriptor, Handle};
use crate::status::OsError;

verus! {

/// The next thing the caller must do to redirect a file's native handle through the
/// C runtime's descriptor table.
#[derive(Clone, Copy, Debug)]
pub enum BridgeAction {
    /// Give `handle` a slot of the descriptor table (`_open_osfhandle(handle, 0)`) and
    /// reply with that descriptor.
    Bridge { handle: Handle },
    /// Make descriptor `onto` an alias of the kernel object behind `from` (`dup2(from, onto)`).
    Duplicate { from: Descriptor, onto: Descriptor },
    /// Reply with the native handle now behind `descriptor` (`_get_osfhandle(descriptor)`).
    Fetch { descriptor: Descriptor },
    /// The procedure is over: when `patch` holds a handle, store it in the source file
    /// object in place of its old handle; then report `result`.
    Finish { patch: Option<Handle>, result: Result<(), OsError> },
}

/// Where a handle bridge stands.
#[derive(Clone, Copy, Debug, PartialEq, Eq, Structural)]
pub enum BridgeStage {
    /// The source's handle is being given a descriptor.
    BridgingSource,
    /// The destination's handle is being given a descriptor.
    BridgingDestination { source: Descriptor },
    /// The source's descriptor is being made an alias of the destination's.
    Duplicating { source: Descriptor },
    /// The handle now behind the source's descriptor is being read.
    Fetching { source: Descriptor },
    /// The procedure is over.
    Done,
}

/// The redirection of one file's native handle to another's: both handles are bridged
/// into the descriptor table, the source's descriptor is duplicated over, and the handle
/// that then stands behind it replaces the one held by the source file object. Any
/// failure ends the procedure before the file object is touched.
pub struct HandleBridge {
    source: Handle,
    destination: Handle,
    stage: BridgeStage,
}

/// The stage and action that follow `stage` when the last call replied with descriptor
/// `reply`.
pub open spec fn descriptor_transition(
    destination: Handle,
    stage: BridgeStage,
    reply: Result<Descriptor, OsError>,
) -> (BridgeStage, BridgeAction) {
    match reply {
        Err(e) => (BridgeStage::Done, BridgeAction::Finish { patch: None, result: Err(e) }),
        Ok(fd) => match stage {
            BridgeStage::BridgingSource => (
                BridgeStage::BridgingDestination { source: fd },
                BridgeAction::Bridge { handle: destination },
            ),
            BridgeStage::BridgingDestination { source } => (
                BridgeStage::Duplicating { source },
                BridgeAction::Duplicate { from: fd, onto: source },
            ),
            BridgeStage::Duplicating { source } => (
                BridgeStage::Fetching { source },
                BridgeAction::Fetch { descriptor: source },
            ),
            _ => (BridgeStage::Done, BridgeAction::Finish { patch: None, result: Ok(()) }),
        },
    }
}

/// The stage and action that follow the fetch of the source's new handle.
pub open spec fn handle_transition(reply: Result<Handle, OsError>) -> (BridgeStage, BridgeAction) {
    match reply {
        Err(e) => (BridgeStage::Done, BridgeAction::Finish { patch: None, result: Err(e) }),
        Ok(h) => (BridgeStage::Done, BridgeAction::Finish { patch: Some(h), result: Ok(()) }),
    }
}

/// The source file object is patched only at the end of a procedure in which every call
/// succeeded, and with the handle that the fetch returned; a failure at any call ends the
/// procedure with that call's error and leaves the file object as it was.
pub proof fn lemma_patch_only_after_success(
    destination: Handle,
    stage: BridgeStage,
    e: OsError,
    fd: Descriptor,
    h: Handle,
)
    requires
        !(stage is Fetching) && stage != BridgeStage::Done,
    ensures
        descriptor_transition(destination, stage, Err(e)).1 == (BridgeAction::Finish { patch: None, result: Err(e) }),
        !(descriptor_transition(destination, stage, Ok(fd)).1 is Finish),
        handle_transition(Err(e)).1 == (BridgeAction::Finish { patch: None, result: Err(e) }),
        handle_transition(Ok(h)).1 == (BridgeAction::Finish { patch: Some(h), result: Ok(()) }),
{
}

impl HandleBridge {
    /// The handle held by the file object being redirected.
    pub closed spec fn source(&self) -> Handle {
        self.source
    }

    /// The handle of the destination.
    pub closed spec fn destination(&self) -> Handle {
        self.destination
    }

    /// Where the procedure stands.
    pub closed spec fn stage(&self) -> BridgeStage {
        self.stage
    }

    /// Whether the procedure waits for a descriptor, as the bridging and duplicating
    /// calls return.
    pub open spec fn awaits_descriptor(&self) -> bool {
        match self.stage() {
            BridgeStage::BridgingSource => true,
            BridgeStage::BridgingDestination { .. } => true,
            BridgeStage::Duplicating { .. } => true,
            _ => false,
        }
    }

    /// A bridge that redirects the file holding handle `source` to the object behind
    /// handle `destination`.
    pub fn new(source: Handle, destination: Handle) -> (b: HandleBridge)
        ensures
            b.source() == source,
            b.destination() == destination,
            b.stage() == BridgeStage::BridgingSource,
    {
        HandleBridge { source, destination, stage: BridgeStage::BridgingSource }
    }

    /// The action that starts the procedure: bridging the source's handle.
    pub fn first_action(&self) -> (a: BridgeAction)
        ensures
            a == (BridgeAction::Bridge { handle: self.source() }),
    {
        BridgeAction::Bridge { handle: self.source }
    }

    /// Whether the procedure waits for the handle of a fetch.
    pub fn awaits_handle(&self) -> (r: bool)
        ensures
            r == (self.stage() is Fetching),
    {
        match self.stage {
            BridgeStage::Fetching { .. } => true,
            _ => false,
        }
    }

    /// Whether the procedure is over.
    pub fn is_finished(&self) -> (r: bool)
        ensures
            r == (self.stage() == BridgeStage::Done),
    {
        match self.stage {
            BridgeStage::Done => true,
            _ => false,
        }
    }

    /// Takes the reply of a bridging or duplicating call and returns the next action.
    pub fn on_descriptor(&mut self, reply: Result<Descriptor, OsError>) -> (a: BridgeAction)
        requires
            old(self).awaits_descriptor(),
        ensures
            final(self).source() == old(self).source(),
            final(self).destination() == old(self).destination(),
            (final(self).stage(), a) == descriptor_transition(old(self).destination(), old(self).stage(), reply),
    {
        match reply {
            Err(e) => {
                self.stage = BridgeStage::Done;
                BridgeAction::Finish { patch: None, result: Err(e) }
            },
            Ok(fd) => match self.stage {
                BridgeStage::BridgingSource => {
                    self.stage = BridgeStage::BridgingDestination { source: fd };
                    BridgeAction::Bridge { handle: self.destination }
                },
                BridgeStage::BridgingDestination { source } => {
                    self.stage = BridgeStage::Duplicating { source };
                    BridgeAction::Duplicate { from: fd, onto: source }
                },
                BridgeStage::Duplicating { source } => {
                    self.stage = BridgeStage::Fetching { source };
                    BridgeAction::Fetch { descriptor: source }
                },
                _ => {
                    self.stage = BridgeStage::Done;
                    BridgeAction::Finish { patch: None, result: Ok(()) }
                },
            },
        }
    }

    /// Takes the reply of the fetch of the source's new handle and returns the final
    /// action.
    pub fn on_handle(&mut self, reply: Result<Handle, OsError>) -> (a: BridgeAction)
        requires
            old(self).stage() is Fetching,
        ensures
            final(self).source() == old(self).source(),
            final(self).destination() == old(self).destination(),
            (final(self).stage(), a) == handle_transition(reply),
    {
        self.stage = BridgeStage::Done;
        match reply {
            Err(e) => BridgeAction::Finish { patch: None, result: Err(e) },
            Ok(h) => BridgeAction::Finish { patch: Some(h), result: Ok(()) },
        }
    }
}

} // verus!
