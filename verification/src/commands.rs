//! Deferred commands: work that a unit queues while it runs and that is
//! applied to the store later, when nothing else touches the store.
use vstd::prelude::*;
use std::sync::Arc;

verus! {

/// `lock_api::Mutex`, the mutex behind `parking_lot::Mutex`, as an opaque
/// type: nothing is known of what it guards until it is locked.
#[verifier::external_type_specification]
#[verifier::external_body]
#[verifier::reject_recursive_types(R)]
#[verifier::reject_recursive_types(T)]
pub struct ExMutex<R, T: ?Sized>(parking_lot::lock_api::Mutex<R, T>);

/// `parking_lot::RawMutex`, the lock that `parking_lot::Mutex` is built on, as
/// an opaque type.
#[verifier::external_type_specification]
#[verifier::external_body]
pub struct ExRawMutex(parking_lot::RawMutex);

/// A queue of deferred commands, each known by a handle that the owner of the
/// store can resolve.
pub struct Commands {
    queue: Vec<u64>,
}

impl Commands {
    /// The queued handles, oldest first.
    pub closed spec fn view(&self) -> Seq<u64> {
        self.queue@
    }

    /// An empty queue.
    pub fn new() -> (c: Commands)
        ensures
            c@ == Seq::<u64>::empty(),
    {
        Commands { queue: Vec::new() }
    }

    /// Queues one command behind those already queued.
    pub fn push(&mut self, command: u64)
        ensures
            final(self)@ == old(self)@.push(command),
    {
        self.queue.push(command);
    }

    /// Takes every queued command out, oldest first, and leaves the queue
    /// empty.
    pub fn take(&mut self) -> (taken: Vec<u64>)
        ensures
            taken@ == old(self)@,
            final(self)@ == Seq::<u64>::empty(),
    {
        let mut taken: Vec<u64> = Vec::new();
        std::mem::swap(&mut taken, &mut self.queue);
        taken
    }
}

/// Locks the shared queue with `parking_lot::Mutex::lock`, puts `fresh` in its
/// place with `std::mem::replace` and hands out the queue that was there.
/// What the other holders have queued is not known here, so nothing is
/// claimed of the result.
#[verifier::external_body]
fn swap_shared(shared: &Arc<parking_lot::Mutex<Commands>>, fresh: Commands) -> (held: Commands) {
    std::mem::replace(&mut *shared.lock(), fresh)
}

/// Takes out what the shared queue holds, oldest first, and leaves an empty
/// queue in its place. The other holders decide what it held.
pub(crate) fn drain_shared(shared: &Arc<parking_lot::Mutex<Commands>>) -> (taken: Vec<u64>) {
    let mut held = swap_shared(shared, Commands::new());
    held.take()
}

/// The order in which a flush applies commands: the unit's own, oldest first,
/// then those of the shared queue, if there is one.
pub fn flush_order(own: Vec<u64>, shared: Option<Vec<u64>>) -> (all: Vec<u64>)
    ensures
        all@ == own@ + (match shared {
            Some(s) => s@,
            None => Seq::<u64>::empty(),
        }),
{
    let mut all = own;
    match shared {
        Some(s) => {
            let mut s = s;
            all.append(&mut s);
        },
        None => {
            assert(all@ =~= own@ + Seq::<u64>::empty());
        },
    }
    all
}

} // verus!
