//! The capability record of a running server.

use crate::util::log_cache::LogCache;
use parking_lot::lock_api::Mutex;
use parking_lot::RawMutex;
use std::sync::Arc;
use tokio::sync::mpsc::UnboundedSender;
use vstd::prelude::*;

verus! {

/// The sending half of tokio's unbounded channel. Opaque here.
#[verifier::external_type_specification]
#[verifier::external_body]
#[verifier::reject_recursive_types(T)]
pub struct ExUnboundedSender<T>(UnboundedSender<T>);

/// The raw lock of `parking_lot`. Opaque here.
#[verifier::external_type_specification]
#[verifier::external_body]
pub struct ExRawMutex(RawMutex);

/// The mutex of `lock_api`, which `parking_lot::Mutex` is made of. Opaque
/// here: what it guards may change whenever another holder has the lock.
#[verifier::external_type_specification]
#[verifier::external_body]
#[verifier::reject_recursive_types(R)]
#[verifier::reject_recursive_types(T)]
pub struct ExMutex<R, T: ?Sized>(Mutex<R, T>);

/// What the supervisor holds of a running server: its identifier, a channel
/// that carries lines to the standard input of the child, and a shared view
/// of its log cache.
pub struct ServerHandle {
    pub id: u128,
    command: UnboundedSender<String>,
    log_buffer: Arc<Mutex<RawMutex, LogCache>>,
}

impl ServerHandle {
    /// The identifier of the server that the handle belongs to.
    pub closed spec fn server_id(&self) -> u128 {
        self.id
    }

    /// The shared log cache that the handle was made with.
    pub closed spec fn shared_log(&self) -> Arc<Mutex<RawMutex, LogCache>> {
        self.log_buffer
    }

    /// The identifier of the server that the handle belongs to.
    pub fn id(&self) -> (id: u128)
        ensures
            id == self.server_id(),
    {
        self.id
    }

    /// A handle for the server `id` with the given channel and log cache.
    pub fn new(
        id: u128,
        command: UnboundedSender<String>,
        log_buffer: Arc<Mutex<RawMutex, LogCache>>,
    ) -> (handle: Self)
        ensures
            handle.server_id() == id,
            handle.shared_log() == log_buffer,
    {
        Self { id, command, log_buffer }
    }

    /// The log cache of the server, shared with the runner that fills it.
    /// A reader takes the lock and then a snapshot.
    pub fn log(&self) -> (log: &Arc<Mutex<RawMutex, LogCache>>)
        ensures
            *log == self.shared_log(),
    {
        &self.log_buffer
    }

    /// `UnboundedSender::clone`: another sender for the same channel, for a
    /// caller that needs to write to the process.
    #[verifier::external_body]
    pub fn command(&self) -> UnboundedSender<String> {
        self.command.clone()
    }
}

} // verus!
