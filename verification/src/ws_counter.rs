//! How many connections are open.
use vstd::prelude::*;

verus! {

/// The number of open connections.
pub struct ConnectionCount {
    count: usize,
}

impl View for ConnectionCount {
    type V = usize;

    closed spec fn view(&self) -> usize {
        self.count
    }
}

impl ConnectionCount {
    /// No connection is open.
    pub fn none() -> (r: ConnectionCount)
        ensures
            r@ == 0,
    {
        ConnectionCount { count: 0 }
    }
}

/// How many connections are open.
pub fn get(connections: &ConnectionCount) -> (count: usize)
    ensures
        count == connections@,
{
    connections.count
}

/// An open connection. It counts from its making until it is released.
pub struct ConnectionGuard;

/// The count with one connection more. The numbers wrap around, as those of an atomic counter do.
pub open spec fn opened(count: int) -> int {
    if count == usize::MAX {
        0
    } else {
        count + 1
    }
}

/// The count with one connection less.
pub open spec fn closed(count: int) -> int {
    if count == 0 {
        usize::MAX as int
    } else {
        count - 1
    }
}

impl ConnectionGuard {
    /// Counts one connection more.
    pub fn new(connections: &mut ConnectionCount) -> (guard: ConnectionGuard)
        ensures
            final(connections)@ == opened(old(connections)@ as int),
    {
        connections.count = connections.count.wrapping_add(1);
        ConnectionGuard
    }

    /// Counts one connection less. A released connection is gone and cannot be released again.
    pub fn release(self, connections: &mut ConnectionCount)
        ensures
            final(connections)@ == closed(old(connections)@ as int),
    {
        connections.count = connections.count.wrapping_sub(1);
    }
}

/// The count after connections were opened and closed, in order: `true` for one that was opened.
pub open spec fn counted(changes: Seq<bool>) -> int
    decreases changes.len(),
{
    if changes.len() == 0 {
        0
    } else if changes.last() {
        opened(counted(changes.drop_last()))
    } else {
        closed(counted(changes.drop_last()))
    }
}

/// How many connections are open: those that were opened without those that were closed.
pub open spec fn open_connections(changes: Seq<bool>) -> int
    decreases changes.len(),
{
    if changes.len() == 0 {
        0
    } else {
        open_connections(changes.drop_last()) + if changes.last() {
            1int
        } else {
            -1
        }
    }
}

/// Releasing a connection undoes its opening.
pub proof fn law_release_undoes_opening(count: usize)
    ensures
        closed(opened(count as int)) == count,
{
}

/// The count is how many connections are open, whatever the order in which they are opened and
/// closed, as long as there are not more than can be counted and none is closed that is not open.
pub proof fn law_count_is_open_connections(changes: Seq<bool>)
    requires
        forall|n: int|
            0 <= n <= changes.len() ==> 0 <= #[trigger] open_connections(changes.take(n))
                <= usize::MAX,
    ensures
        counted(changes) == open_connections(changes),
    decreases changes.len(),
{
    assert(changes.take(changes.len() as int) =~= changes);
    if changes.len() > 0 {
        let earlier = changes.drop_last();
        assert forall|n: int| 0 <= n <= earlier.len() implies 0 <= #[trigger] open_connections(
            earlier.take(n),
        ) <= usize::MAX by {
            assert(earlier.take(n) =~= changes.take(n));
        }
        law_count_is_open_connections(earlier);
        assert(0 <= open_connections(changes.take(changes.len() as int)) <= usize::MAX);
    }
}

/// What happens to an open connection that several owners share.
pub enum OwnerChange {
    /// One owner more.
    Cloned,
    /// One owner less.
    Dropped,
}

/// An open connection behind a reference count, and the count of connections.
pub struct SharedConnection {
    pub owners: nat,
    pub count: int,
}

impl SharedConnection {
    /// A connection that was just opened, with one owner.
    pub open spec fn fresh(count: int) -> SharedConnection {
        SharedConnection { owners: 1, count: opened(count) }
    }

    /// The connection after a change: the last owner that goes releases it. Without an owner nothing
    /// can happen to it any more.
    pub open spec fn after(self, change: OwnerChange) -> SharedConnection {
        if self.owners == 0 {
            self
        } else {
            match change {
                OwnerChange::Cloned => SharedConnection { owners: self.owners + 1, ..self },
                OwnerChange::Dropped => SharedConnection {
                    owners: (self.owners - 1) as nat,
                    count: if self.owners == 1 {
                        closed(self.count)
                    } else {
                        self.count
                    },
                },
            }
        }
    }

    /// The connection after changes, one after the other.
    pub open spec fn ran(self, changes: Seq<OwnerChange>) -> SharedConnection
        decreases changes.len(),
    {
        if changes.len() == 0 {
            self
        } else {
            self.ran(changes.drop_last()).after(changes.last())
        }
    }
}

/// A connection that several owners share counts once as long as it has an owner, and not at all
/// afterwards: only the last owner that goes takes it off the count.
pub proof fn law_shared_connection_counts_once(count: usize, changes: Seq<OwnerChange>)
    ensures
        ({
            let shared = SharedConnection::fresh(count as int).ran(changes);
            shared.count == if shared.owners > 0 {
                opened(count as int)
            } else {
                count as int
            }
        }),
    decreases changes.len(),
{
    if changes.len() > 0 {
        law_shared_connection_counts_once(count, changes.drop_last());
    }
}

/// A connection that is opened is one more and one that is released is one less; at the two ends the
/// count wraps around.
pub proof fn law_a_connection_is_one(count: usize)
    ensures
        count < usize::MAX ==> opened(count as int) == count + 1,
        opened(usize::MAX as int) == 0,
        count > 0 ==> closed(count as int) == count - 1,
        closed(0) == usize::MAX,
{
}

} // verus!
