//! Session management: a registry of active connections driven by a
//! single command loop, and the per-connection worker step. The verified
//! core decides what each command or event does; the surrounding runtime
//! performs the I/O those decisions call for.

use vstd::prelude::*;

use crate::builder::FrameBuilder;
use crate::builder::spec_push_bytes;
use crate::frame::Frame;

verus! {

/// Opaque identifier of a registered connection: minted once per
/// registration, monotonically increasing, never reused.
#[derive(Debug, Clone, Copy, PartialEq, Eq, Hash, Structural)]
pub struct DeviceHandle(pub u64);

/// A command submitted to the session manager's single command queue.
pub enum Cmd {
    /// Register a newly opened transport and mint a handle for it.
    RegisterDevice,
    /// Cancel the worker for `handle`, if any, and forget the handle.
    CloseDevice { handle: DeviceHandle },
    /// Forward payload bytes to the worker for `handle`.
    SendData { handle: DeviceHandle, data: Vec<u8> },
}

/// What the command loop must do after one command was processed.
pub enum CmdAction {
    /// A worker must be spawned for this fresh handle and the handle
    /// reported to the caller.
    Registered { handle: DeviceHandle },
    /// If the handle was registered, its worker must be cancelled;
    /// an unknown handle is a silent no-op.
    Closed { handle: DeviceHandle, was_registered: bool },
    /// The payload must be handed to this handle's worker.
    Forward { handle: DeviceHandle, data: Vec<u8> },
    /// The handle is unknown; the caller must be told the send failed.
    RejectSend { handle: DeviceHandle },
}

/// The session manager's registry: which connection handles are live and
/// which identifier the next registration receives. The workers' channels
/// and cancellation signals live with the runtime that owns the transports.
pub struct SerialHandler {
    next_handle: u64,
    devices: Vec<u64>,
}

impl SerialHandler {
    /// The identifiers of the currently registered connections, in
    /// registration order.
    pub closed spec fn registered(&self) -> Seq<u64> {
        self.devices@
    }

    /// The identifier the next registration will be given.
    pub closed spec fn next_id(&self) -> u64 {
        self.next_handle
    }

    /// Registry invariant: live handles are pairwise distinct and all
    /// below the next identifier, so a handle is never reused.
    pub open spec fn wf(&self) -> bool {
        &&& forall|i: int, j: int|
            0 <= i < j < self.registered().len() ==> self.registered()[i] != self.registered()[j]
        &&& forall|i: int|
            0 <= i < self.registered().len() ==> #[trigger] self.registered()[i] < self.next_id()
    }

    /// A manager with no registered connection.
    pub fn new() -> (r: Self)
        ensures
            r.registered() == Seq::<u64>::empty(),
            r.next_id() == 0,
            r.wf(),
    {
        SerialHandler { next_handle: 0, devices: Vec::new() }
    }

    /// How many handles have been minted so far; equally, the identifier
    /// the next registration receives.
    pub fn minted(&self) -> (n: u64)
        ensures
            n == self.next_id(),
    {
        self.next_handle
    }

    /// Whether `handle` is currently registered.
    pub fn is_registered(&self, handle: DeviceHandle) -> (b: bool)
        ensures
            b <==> self.registered().contains(handle.0),
    {
        let mut i: usize = 0;
        while i < self.devices.len()
            invariant
                i <= self.devices.len(),
                forall|k: int| 0 <= k < i ==> self.devices@[k] != handle.0,
            decreases self.devices.len() - i,
        {
            if self.devices[i] == handle.0 {
                return true;
            }
            i = i + 1;
        }
        false
    }

    /// Processes one command:
    /// - registering mints the next handle, records it and asks for a
    ///   worker; it never fails, whether or not the caller can be told;
    /// - closing removes the handle and asks for its worker's cancellation,
    ///   and is a silent no-op on an unknown handle;
    /// - sending asks for the payload to be forwarded, or reports an
    ///   unknown handle back to the caller instead of failing the loop.
    pub fn handle_cmd(&mut self, cmd: Cmd) -> (a: CmdAction)
        requires
            old(self).wf(),
            cmd is RegisterDevice ==> old(self).next_id() < u64::MAX,
        ensures
            final(self).wf(),
            match cmd {
                Cmd::RegisterDevice => {
                    &&& a == CmdAction::Registered { handle: DeviceHandle(old(self).next_id()) }
                    &&& !old(self).registered().contains(old(self).next_id())
                    &&& final(self).registered() == old(self).registered().push(
                        old(self).next_id(),
                    )
                    &&& final(self).next_id() == old(self).next_id() + 1
                },
                Cmd::CloseDevice { handle } => {
                    &&& a == (CmdAction::Closed {
                        handle,
                        was_registered: old(self).registered().contains(handle.0),
                    })
                    &&& final(self).registered() == old(self).registered().remove_value(handle.0)
                    &&& final(self).next_id() == old(self).next_id()
                },
                Cmd::SendData { handle, data } => {
                    &&& *final(self) == *old(self)
                    &&& a == (if old(self).registered().contains(handle.0) {
                        CmdAction::Forward { handle, data }
                    } else {
                        CmdAction::RejectSend { handle }
                    })
                },
            },
    {
        match cmd {
            Cmd::RegisterDevice => {
                let id = self.next_handle;
                self.next_handle = self.next_handle + 1;
                self.devices.push(id);
                CmdAction::Registered { handle: DeviceHandle(id) }
            },
            Cmd::CloseDevice { handle } => {
                let mut i: usize = 0;
                let mut found: Option<usize> = None;
                while found.is_none() && i < self.devices.len()
                    invariant
                        i <= self.devices.len(),
                        match found {
                            None => forall|k: int| 0 <= k < i ==> self.devices@[k] != handle.0,
                            Some(idx) => {
                                &&& idx < self.devices@.len()
                                &&& self.devices@[idx as int] == handle.0
                                &&& forall|k: int| 0 <= k < idx ==> self.devices@[k] != handle.0
                            },
                        },
                    decreases self.devices.len() - i,
                {
                    if self.devices[i] == handle.0 {
                        found = Some(i);
                    }
                    i = i + 1;
                }
                proof {
                    self.devices@.index_of_first_ensures(handle.0);
                }
                match found {
                    Some(idx) => {
                        proof {
                            let first = self.devices@.index_of_first(handle.0);
                            assert(self.devices@[idx as int] == handle.0);
                            assert(self.devices@.contains(handle.0));
                            assert(first matches Some(fi) && fi == idx) by {
                                let fi = first.unwrap();
                                if fi < idx {
                                    assert(self.devices@[fi] != handle.0);
                                } else if idx < fi {
                                    assert(self.devices@[idx as int] != handle.0);
                                }
                            }
                        }
                        self.devices.remove(idx);
                        CmdAction::Closed { handle, was_registered: true }
                    },
                    None => {
                        proof {
                            assert(forall|k: int|
                                0 <= k < self.devices@.len() ==> self.devices@[k] != handle.0);
                            assert(!self.devices@.contains(handle.0));
                        }
                        CmdAction::Closed { handle, was_registered: false }
                    },
                }
            },
            Cmd::SendData { handle, data } => {
                if self.is_registered(handle) {
                    CmdAction::Forward { handle, data }
                } else {
                    CmdAction::RejectSend { handle }
                }
            },
        }
    }
}

/// An event one connection's worker wakes up on; cancellation is checked
/// before data, so a close interrupts a busy connection promptly.
pub enum WorkerEvent {
    /// The connection's cancellation signal fired.
    Cancelled,
    /// A queued request to write payload bytes to the transport.
    SendRequest { data: Vec<u8> },
    /// The worker's command channel was torn down.
    QueueClosed,
    /// Bytes arrived from the transport.
    ReadData { bytes: Vec<u8> },
    /// Reading from the transport failed; fatal for this connection.
    ReadError,
}

/// What the runtime must do after a worker processed one event.
pub enum WorkerAction {
    /// Terminate the worker and release the transport.
    Stop,
    /// Write these bytes to the transport; report the outcome to the
    /// requester, and keep the worker running even if the write fails.
    WriteData { data: Vec<u8> },
    /// Signal this worker's own cancellation.
    CancelSelf,
    /// Append these decoded frames to the connection's received-frame
    /// store and notify consumers.
    PublishFrames { frames: Vec<Frame> },
}

/// The per-connection state a worker owns: its private frame reassembler.
pub struct DeviceWorker {
    builder: FrameBuilder,
}

impl DeviceWorker {
    /// The still-escaped bytes of the frame currently being received.
    pub closed spec fn buffered(&self) -> Seq<u8> {
        self.builder@
    }

    /// The reassembler invariant carries over to the worker.
    pub closed spec fn wf(&self) -> bool {
        self.builder.wf()
    }

    /// A worker that has not yet received any byte.
    pub fn new() -> (r: Self)
        ensures
            r.buffered() == Seq::<u8>::empty(),
            r.wf(),
    {
        DeviceWorker { builder: FrameBuilder::new() }
    }

    /// Processes one event: cancellation stops the worker; a send request
    /// becomes a transport write; a torn-down queue or a read failure makes
    /// the worker cancel itself; read bytes run through the reassembler and
    /// the frames they complete are published.
    pub fn handle_event(&mut self, event: WorkerEvent) -> (a: WorkerAction)
        requires
            old(self).wf(),
        ensures
            final(self).wf(),
            match event {
                WorkerEvent::Cancelled => a == WorkerAction::Stop && *final(self) == *old(self),
                WorkerEvent::SendRequest { data } => a == WorkerAction::WriteData { data }
                    && *final(self) == *old(self),
                WorkerEvent::QueueClosed => a == WorkerAction::CancelSelf && *final(self) == *old(
                    self,
                ),
                WorkerEvent::ReadError => a == WorkerAction::CancelSelf && *final(self) == *old(
                    self,
                ),
                WorkerEvent::ReadData { bytes } => {
                    &&& final(self).buffered() == spec_push_bytes(
                        old(self).buffered(),
                        bytes@,
                    ).0
                    &&& a matches WorkerAction::PublishFrames { frames } && frames@.map_values(
                        |f: Frame| f@,
                    ) == spec_push_bytes(old(self).buffered(), bytes@).1
                },
            },
    {
        match event {
            WorkerEvent::Cancelled => WorkerAction::Stop,
            WorkerEvent::SendRequest { data } => WorkerAction::WriteData { data },
            WorkerEvent::QueueClosed => WorkerAction::CancelSelf,
            WorkerEvent::ReadError => WorkerAction::CancelSelf,
            WorkerEvent::ReadData { bytes } => {
                let frames = self.builder.push_buf(bytes.as_slice());
                WorkerAction::PublishFrames { frames }
            },
        }
    }
}

} // verus!
