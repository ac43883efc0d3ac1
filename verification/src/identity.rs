//! Connection identity map: the association between the ids that the
//! transport gives to its connections and the handles by which the message
//! layer knows its clients.
//!
//! The map is a table of entries in the order in which the connections were
//! accepted. A handle is made when a connection is recorded and is never made
//! twice, so a handle names at most one connection over the whole life of a
//! map.

use vstd::prelude::*;

verus! {

/// Names a connected client towards the message layer.
#[derive(Clone, Copy, Debug, PartialEq, Eq, Hash, Structural)]
pub struct ConnectionHandle(pub u64);

/// One entry of the map: a connection of the transport and the handle that
/// stands for it.
#[derive(Clone, Copy, Debug, PartialEq, Eq, Structural)]
pub struct Connection {
    /// Id that the transport gave the connection when it accepted it.
    pub transport_id: u64,
    /// Handle that was made for the connection.
    pub handle: ConnectionHandle,
}

/// Why a connection was not recorded.
#[derive(Clone, Copy, Debug, PartialEq, Eq, Structural)]
pub enum ConnectError {
    /// The transport id is mapped already. The map is unchanged and the
    /// connection keeps the handle it had.
    AlreadyConnected {
        /// Handle to which the id is mapped.
        handle: ConnectionHandle,
    },
    /// Every handle was given out once. The map is unchanged.
    HandlesExhausted,
}

/// What a map holds, as a mathematical value.
pub struct ConnectionTable {
    /// The entries, oldest connection first.
    pub entries: Seq<Connection>,
    /// How many handles were made so far. The next handle carries this number.
    pub issued: nat,
}

impl ConnectionTable {
    /// The table of a new map.
    pub open spec fn empty() -> Self {
        ConnectionTable { entries: Seq::empty(), issued: 0 }
    }

    /// Whether an entry carries this transport id.
    pub open spec fn maps_transport(self, transport_id: u64) -> bool {
        exists|i: int|
            0 <= i < self.entries.len() && (#[trigger] self.entries[i]).transport_id == transport_id
    }

    /// Where the entry with this transport id stands.
    pub open spec fn position_of_transport(self, transport_id: u64) -> int {
        choose|i: int|
            0 <= i < self.entries.len() && (#[trigger] self.entries[i]).transport_id == transport_id
    }

    /// The handle that stands for a transport connection, if the id is mapped.
    pub open spec fn handle_of(self, transport_id: u64) -> Option<ConnectionHandle> {
        if self.maps_transport(transport_id) {
            Some(self.entries[self.position_of_transport(transport_id)].handle)
        } else {
            None
        }
    }

    /// Whether an entry carries this handle.
    pub open spec fn holds_handle(self, handle: ConnectionHandle) -> bool {
        exists|i: int| 0 <= i < self.entries.len() && (#[trigger] self.entries[i]).handle == handle
    }

    /// Where the entry with this handle stands.
    pub open spec fn position_of_handle(self, handle: ConnectionHandle) -> int {
        choose|i: int| 0 <= i < self.entries.len() && (#[trigger] self.entries[i]).handle == handle
    }

    /// The transport connection that a handle stands for, if the handle is live.
    pub open spec fn transport_of(self, handle: ConnectionHandle) -> Option<u64> {
        if self.holds_handle(handle) {
            Some(self.entries[self.position_of_handle(handle)].transport_id)
        } else {
            None
        }
    }

    /// The invariant of a map: no transport id and no handle stands in two
    /// entries, and every handle in the table was made by the table.
    pub open spec fn wf(self) -> bool {
        &&& self.issued <= u64::MAX
        &&& forall|i: int, j: int|
            0 <= i < j < self.entries.len() ==> (#[trigger] self.entries[i]).transport_id != (
            #[trigger] self.entries[j]).transport_id
        &&& forall|i: int, j: int|
            0 <= i < j < self.entries.len() ==> (#[trigger] self.entries[i]).handle != (
            #[trigger] self.entries[j]).handle
        &&& forall|i: int|
            0 <= i < self.entries.len() ==> (#[trigger] self.entries[i]).handle.0 < self.issued
    }

    /// Whether a handle is left to give out.
    pub open spec fn can_issue(self) -> bool {
        self.issued < u64::MAX
    }

    /// The handle that the next recorded connection gets.
    pub open spec fn next_handle(self) -> ConnectionHandle {
        ConnectionHandle(self.issued as u64)
    }

    /// Whether recording a connection under this id changes the table.
    pub open spec fn accepts(self, transport_id: u64) -> bool {
        !self.maps_transport(transport_id) && self.can_issue()
    }

    /// The table after the transport reported a new connection: the id is
    /// entered with a new handle, unless the id is mapped or no handle is left.
    pub open spec fn connect(self, transport_id: u64) -> Self {
        if self.accepts(transport_id) {
            ConnectionTable {
                entries: self.entries.push(Connection { transport_id, handle: self.next_handle() }),
                issued: self.issued + 1,
            }
        } else {
            self
        }
    }

    /// The table after the transport reported a connection lost: its entry is
    /// gone. An id that is not mapped leaves the table as it is.
    pub open spec fn disconnect(self, transport_id: u64) -> Self {
        if self.maps_transport(transport_id) {
            ConnectionTable {
                entries: self.entries.remove(self.position_of_transport(transport_id)),
                issued: self.issued,
            }
        } else {
            self
        }
    }

    /// The table after the application gave up a handle: its entry is gone.
    /// A handle that is not live leaves the table as it is.
    pub open spec fn release(self, handle: ConnectionHandle) -> Self {
        if self.holds_handle(handle) {
            ConnectionTable {
                entries: self.entries.remove(self.position_of_handle(handle)),
                issued: self.issued,
            }
        } else {
            self
        }
    }

    /// In a well-formed table the entry at `i` is the one that its transport
    /// id and its handle are looked up to.
    pub proof fn lemma_entry_is_found(self, i: int)
        requires
            self.wf(),
            0 <= i < self.entries.len(),
        ensures
            self.maps_transport(self.entries[i].transport_id),
            self.position_of_transport(self.entries[i].transport_id) == i,
            self.handle_of(self.entries[i].transport_id) == Some(self.entries[i].handle),
            self.holds_handle(self.entries[i].handle),
            self.position_of_handle(self.entries[i].handle) == i,
            self.transport_of(self.entries[i].handle) == Some(self.entries[i].transport_id),
    {
        let entry = self.entries[i];
        assert(self.maps_transport(entry.transport_id));
        assert(self.holds_handle(entry.handle));
        let p = self.position_of_transport(entry.transport_id);
        assert(self.entries[p].transport_id == entry.transport_id);
        assert(p == i) by {
            if p < i {
                assert(self.entries[p].transport_id != self.entries[i].transport_id);
            } else if i < p {
                assert(self.entries[i].transport_id != self.entries[p].transport_id);
            }
        }
        let q = self.position_of_handle(entry.handle);
        assert(self.entries[q].handle == entry.handle);
        assert(q == i) by {
            if q < i {
                assert(self.entries[q].handle != self.entries[i].handle);
            } else if i < q {
                assert(self.entries[i].handle != self.entries[q].handle);
            }
        }
    }

    /// The two lookups are inverse to each other.
    pub proof fn lemma_lookups_agree(self, transport_id: u64, handle: ConnectionHandle)
        requires
            self.wf(),
        ensures
            self.handle_of(transport_id) == Some(handle) <==> self.transport_of(handle) == Some(
                transport_id,
            ),
    {
        if self.maps_transport(transport_id) {
            self.lemma_entry_is_found(self.position_of_transport(transport_id));
        }
        if self.holds_handle(handle) {
            self.lemma_entry_is_found(self.position_of_handle(handle));
        }
    }

    /// Recording a connection keeps the table well-formed, maps the id to
    /// the new handle where it was accepted, and leaves every other id and
    /// handle as it was.
    pub proof fn lemma_connect(self, transport_id: u64)
        requires
            self.wf(),
        ensures
            self.connect(transport_id).wf(),
            self.accepts(transport_id) ==> self.connect(transport_id).handle_of(transport_id)
                == Some(self.next_handle()),
            self.accepts(transport_id) ==> self.connect(transport_id).transport_of(
                self.next_handle(),
            ) == Some(transport_id),
            !self.holds_handle(self.next_handle()),
            forall|other: u64|
                other != transport_id ==> #[trigger] self.connect(transport_id).handle_of(other)
                    == self.handle_of(other),
            forall|other: ConnectionHandle|
                other != self.next_handle() ==> #[trigger] self.connect(transport_id).transport_of(
                    other,
                ) == self.transport_of(other),
    {
        let after = self.connect(transport_id);
        assert(!self.holds_handle(self.next_handle())) by {
            if self.holds_handle(self.next_handle()) {
                let p = self.position_of_handle(self.next_handle());
                assert(self.entries[p].handle.0 < self.issued);
            }
        }
        if self.accepts(transport_id) {
            let last = self.entries.len() as int;
            assert(after.entries[last].transport_id == transport_id);
            assert(after.entries[last].handle == self.next_handle());
            assert forall|i: int| 0 <= i < last implies after.entries[i] == self.entries[i] by {}
            assert(after.wf()) by {
                assert forall|i: int, j: int| 0 <= i < j < after.entries.len() implies (
                #[trigger] after.entries[i]).transport_id != (
                #[trigger] after.entries[j]).transport_id by {
                    if j == last {
                        assert(self.entries[i].transport_id != transport_id);
                    } else {
                        assert(self.entries[i].transport_id != self.entries[j].transport_id);
                    }
                }
                assert forall|i: int, j: int| 0 <= i < j < after.entries.len() implies (
                #[trigger] after.entries[i]).handle != (#[trigger] after.entries[j]).handle by {
                    if j == last {
                        assert(self.entries[i].handle.0 < self.issued);
                    } else {
                        assert(self.entries[i].handle != self.entries[j].handle);
                    }
                }
                assert forall|i: int| 0 <= i < after.entries.len() implies (
                #[trigger] after.entries[i]).handle.0 < after.issued by {
                    if i < last {
                        assert(self.entries[i].handle.0 < self.issued);
                    }
                }
            }
            after.lemma_entry_is_found(last);
            assert forall|other: u64| other != transport_id implies #[trigger] after.handle_of(other)
                == self.handle_of(other) by {
                if self.maps_transport(other) {
                    let p = self.position_of_transport(other);
                    assert(after.entries[p] == self.entries[p]);
                    after.lemma_entry_is_found(p);
                } else if after.maps_transport(other) {
                    let p = after.position_of_transport(other);
                    assert(p < last);
                    assert(self.entries[p].transport_id == other);
                }
            }
            assert forall|other: ConnectionHandle| other != self.next_handle() implies #[trigger] after.transport_of(
                other,
            ) == self.transport_of(other) by {
                if self.holds_handle(other) {
                    let p = self.position_of_handle(other);
                    assert(after.entries[p] == self.entries[p]);
                    after.lemma_entry_is_found(p);
                } else if after.holds_handle(other) {
                    let p = after.position_of_handle(other);
                    assert(p < last);
                    assert(self.entries[p].handle == other);
                }
            }
        }
    }

    /// Taking the entry at `p` out of a well-formed table keeps it
    /// well-formed, unmaps the entry's id and handle, and leaves every other
    /// id and handle as it was.
    pub proof fn lemma_remove_entry(self, p: int)
        requires
            self.wf(),
            0 <= p < self.entries.len(),
        ensures
            ({
                let after = ConnectionTable { entries: self.entries.remove(p), issued: self.issued };
                &&& after.wf()
                &&& after.handle_of(self.entries[p].transport_id) is None
                &&& after.transport_of(self.entries[p].handle) is None
                &&& forall|other: u64|
                    other != self.entries[p].transport_id ==> #[trigger] after.handle_of(other)
                        == self.handle_of(other)
                &&& forall|other: ConnectionHandle|
                    other != self.entries[p].handle ==> #[trigger] after.transport_of(other)
                        == self.transport_of(other)
            }),
    {
        let after = ConnectionTable { entries: self.entries.remove(p), issued: self.issued };
        let gone = self.entries[p];
        assert forall|i: int| 0 <= i < after.entries.len() implies #[trigger] after.entries[i] == (
        if i < p {
            self.entries[i]
        } else {
            self.entries[i + 1]
        }) by {}
        assert(after.wf()) by {
            assert forall|i: int, j: int| 0 <= i < j < after.entries.len() implies (
            #[trigger] after.entries[i]).transport_id != (
            #[trigger] after.entries[j]).transport_id by {
                let si = if i < p { i } else { i + 1 };
                let sj = if j < p { j } else { j + 1 };
                assert(self.entries[si].transport_id != self.entries[sj].transport_id);
            }
            assert forall|i: int, j: int| 0 <= i < j < after.entries.len() implies (
            #[trigger] after.entries[i]).handle != (#[trigger] after.entries[j]).handle by {
                let si = if i < p { i } else { i + 1 };
                let sj = if j < p { j } else { j + 1 };
                assert(self.entries[si].handle != self.entries[sj].handle);
            }
            assert forall|i: int| 0 <= i < after.entries.len() implies (
            #[trigger] after.entries[i]).handle.0 < after.issued by {
                let si = if i < p { i } else { i + 1 };
                assert(self.entries[si].handle.0 < self.issued);
            }
        }
        assert(!after.maps_transport(gone.transport_id)) by {
            if after.maps_transport(gone.transport_id) {
                let i = after.position_of_transport(gone.transport_id);
                let si = if i < p { i } else { i + 1 };
                assert(self.entries[si].transport_id == gone.transport_id);
                if si < p {
                    assert(self.entries[si].transport_id != self.entries[p].transport_id);
                } else {
                    assert(self.entries[p].transport_id != self.entries[si].transport_id);
                }
            }
        }
        assert(!after.holds_handle(gone.handle)) by {
            if after.holds_handle(gone.handle) {
                let i = after.position_of_handle(gone.handle);
                let si = if i < p { i } else { i + 1 };
                assert(self.entries[si].handle == gone.handle);
                if si < p {
                    assert(self.entries[si].handle != self.entries[p].handle);
                } else {
                    assert(self.entries[p].handle != self.entries[si].handle);
                }
            }
        }
        assert forall|other: u64| other != gone.transport_id implies #[trigger] after.handle_of(other)
            == self.handle_of(other) by {
            if self.maps_transport(other) {
                let s = self.position_of_transport(other);
                let a = if s < p { s } else { s - 1 };
                assert(after.entries[a] == self.entries[s]);
                after.lemma_entry_is_found(a);
            } else if after.maps_transport(other) {
                let a = after.position_of_transport(other);
                let s = if a < p { a } else { a + 1 };
                assert(self.entries[s].transport_id == other);
            }
        }
        assert forall|other: ConnectionHandle| other != gone.handle implies #[trigger] after.transport_of(
            other,
        ) == self.transport_of(other) by {
            if self.holds_handle(other) {
                let s = self.position_of_handle(other);
                let a = if s < p { s } else { s - 1 };
                assert(after.entries[a] == self.entries[s]);
                after.lemma_entry_is_found(a);
            } else if after.holds_handle(other) {
                let a = after.position_of_handle(other);
                let s = if a < p { a } else { a + 1 };
                assert(self.entries[s].handle == other);
            }
        }
    }

    /// Losing a connection keeps the table well-formed, unmaps the id and
    /// the handle it had, and leaves every other id and handle as it was.
    pub proof fn lemma_disconnect(self, transport_id: u64)
        requires
            self.wf(),
        ensures
            self.disconnect(transport_id).wf(),
            self.disconnect(transport_id).handle_of(transport_id) is None,
            self.handle_of(transport_id) matches Some(handle) ==> self.disconnect(
                transport_id,
            ).transport_of(handle) is None,
            forall|other: u64|
                other != transport_id ==> #[trigger] self.disconnect(transport_id).handle_of(other)
                    == self.handle_of(other),
            forall|other: ConnectionHandle|
                self.handle_of(transport_id) != Some(other) ==> #[trigger] self.disconnect(
                    transport_id,
                ).transport_of(other) == self.transport_of(other),
    {
        if self.maps_transport(transport_id) {
            let p = self.position_of_transport(transport_id);
            self.lemma_entry_is_found(p);
            self.lemma_remove_entry(p);
        }
    }

    /// Giving up a handle keeps the table well-formed, unmaps the handle and
    /// the id it stood for, and leaves every other id and handle as it was.
    pub proof fn lemma_release(self, handle: ConnectionHandle)
        requires
            self.wf(),
        ensures
            self.release(handle).wf(),
            self.release(handle).transport_of(handle) is None,
            self.transport_of(handle) matches Some(transport_id) ==> self.release(handle).handle_of(
                transport_id,
            ) is None,
            forall|other: ConnectionHandle|
                other != handle ==> #[trigger] self.release(handle).transport_of(other)
                    == self.transport_of(other),
            forall|other: u64|
                self.transport_of(handle) != Some(other) ==> #[trigger] self.release(handle).handle_of(
                    other,
                ) == self.handle_of(other),
    {
        if self.holds_handle(handle) {
            let p = self.position_of_handle(handle);
            self.lemma_entry_is_found(p);
            self.lemma_remove_entry(p);
        }
    }
}

/// Something that makes a connection come or go.
#[derive(Clone, Copy, Debug, PartialEq, Eq, Structural)]
pub enum ConnectionEvent {
    /// The transport accepted a connection and gave it this id.
    Connected(u64),
    /// The transport reported the connection with this id lost or closed.
    Lost(u64),
    /// The application asked to disconnect the client with this handle, or
    /// tore the handle down itself.
    Released(ConnectionHandle),
}

/// What an event did to the map, for the host to carry out on both sides.
#[derive(Clone, Copy, Debug, PartialEq, Eq, Structural)]
pub enum ConnectionChange {
    /// The connection was entered: the message layer is to learn of a new
    /// client with this handle.
    Added(Connection),
    /// The connection was taken out: the message layer's client with this
    /// handle is to go, and the transport connection, if it is still open,
    /// is to be closed.
    Removed(Connection),
}

impl ConnectionTable {
    /// The table after one event.
    pub open spec fn step(self, event: ConnectionEvent) -> Self {
        match event {
            ConnectionEvent::Connected(transport_id) => self.connect(transport_id),
            ConnectionEvent::Lost(transport_id) => self.disconnect(transport_id),
            ConnectionEvent::Released(handle) => self.release(handle),
        }
    }

    /// What one event changes, if anything: it enters a connection, takes
    /// one out, or finds nothing to do.
    pub open spec fn change_of(self, event: ConnectionEvent) -> Option<ConnectionChange> {
        match event {
            ConnectionEvent::Connected(transport_id) => if self.accepts(transport_id) {
                Some(
                    ConnectionChange::Added(
                        Connection { transport_id, handle: self.next_handle() },
                    ),
                )
            } else {
                None
            },
            ConnectionEvent::Lost(transport_id) => match self.handle_of(transport_id) {
                Some(handle) => Some(ConnectionChange::Removed(Connection { transport_id, handle })),
                None => None,
            },
            ConnectionEvent::Released(handle) => match self.transport_of(handle) {
                Some(transport_id) => Some(
                    ConnectionChange::Removed(Connection { transport_id, handle }),
                ),
                None => None,
            },
        }
    }

    /// The table after a run of events, taken in order.
    pub open spec fn after(self, events: Seq<ConnectionEvent>) -> Self
        decreases events.len(),
    {
        if events.len() == 0 {
            self
        } else {
            self.after(events.drop_last()).step(events.last())
        }
    }

    /// The changes that a run of events makes, in order. An event that finds
    /// nothing to do leaves no trace.
    pub open spec fn changes(self, events: Seq<ConnectionEvent>) -> Seq<ConnectionChange>
        decreases events.len(),
    {
        if events.len() == 0 {
            Seq::empty()
        } else {
            let before = self.changes(events.drop_last());
            match self.after(events.drop_last()).change_of(events.last()) {
                Some(change) => before.push(change),
                None => before,
            }
        }
    }

    /// A step keeps the table well-formed and never takes back a handle that
    /// was made.
    pub proof fn lemma_step(self, event: ConnectionEvent)
        requires
            self.wf(),
        ensures
            self.step(event).wf(),
            self.issued <= self.step(event).issued,
    {
        match event {
            ConnectionEvent::Connected(transport_id) => self.lemma_connect(transport_id),
            ConnectionEvent::Lost(transport_id) => self.lemma_disconnect(transport_id),
            ConnectionEvent::Released(handle) => self.lemma_release(handle),
        }
    }

    /// A run of events keeps the table well-formed and never takes back a
    /// handle that was made.
    pub proof fn lemma_after(self, events: Seq<ConnectionEvent>)
        requires
            self.wf(),
        ensures
            self.after(events).wf(),
            self.issued <= self.after(events).issued,
        decreases events.len(),
    {
        if events.len() > 0 {
            self.lemma_after(events.drop_last());
            self.after(events.drop_last()).lemma_step(events.last());
        }
    }

    /// Taking one run of events and then another is taking them as one run.
    pub proof fn lemma_after_concat(self, first: Seq<ConnectionEvent>, second: Seq<ConnectionEvent>)
        ensures
            self.after(first + second) == self.after(first).after(second),
        decreases second.len(),
    {
        if second.len() == 0 {
            assert(first + second =~= first);
        } else {
            self.lemma_after_concat(first, second.drop_last());
            assert((first + second).drop_last() =~= first + second.drop_last());
        }
    }

    /// Taking a run of events and then one more is taking the longer run.
    pub proof fn lemma_after_push(self, events: Seq<ConnectionEvent>, event: ConnectionEvent)
        ensures
            self.after(events.push(event)) == self.after(events).step(event),
            self.changes(events.push(event)) == match self.after(events).change_of(event) {
                Some(change) => self.changes(events).push(change),
                None => self.changes(events),
            },
    {
        assert(events.push(event).drop_last() =~= events);
    }
}

/// However connections come and go, two live connections never share a
/// handle: after any run of events on a well-formed table, two different
/// transport ids that are both mapped are mapped to different handles.
pub proof fn live_connections_never_share_a_handle(
    table: ConnectionTable,
    events: Seq<ConnectionEvent>,
    first: u64,
    second: u64,
)
    requires
        table.wf(),
        first != second,
        table.after(events).handle_of(first) is Some,
    ensures
        table.after(events).handle_of(first) != table.after(events).handle_of(second),
{
    let now = table.after(events);
    table.lemma_after(events);
    if now.handle_of(second) is Some {
        let p = now.position_of_transport(first);
        let q = now.position_of_transport(second);
        assert(now.entries[p].transport_id == first);
        assert(now.entries[q].transport_id == second);
        if p < q {
            assert(now.entries[p].handle != now.entries[q].handle);
        } else if q < p {
            assert(now.entries[q].handle != now.entries[p].handle);
        }
    }
}

/// A connection that the transport reported lost exposes no handle: once
/// the event is taken, the id is unmapped and the handle it had names
/// nothing.
pub proof fn lost_connection_exposes_no_handle(
    table: ConnectionTable,
    events: Seq<ConnectionEvent>,
    transport_id: u64,
)
    requires
        table.wf(),
    ensures
        table.after(events.push(ConnectionEvent::Lost(transport_id))).handle_of(transport_id)
            is None,
        table.after(events).handle_of(transport_id) matches Some(handle) ==> table.after(
            events.push(ConnectionEvent::Lost(transport_id)),
        ).transport_of(handle) is None,
{
    table.lemma_after(events);
    table.lemma_after_push(events, ConnectionEvent::Lost(transport_id));
    table.after(events).lemma_disconnect(transport_id);
}

/// An id that is unmapped stays unmapped until the transport reports a
/// connection under it again: no other event maps it.
pub proof fn unmapped_id_stays_unmapped(
    table: ConnectionTable,
    events: Seq<ConnectionEvent>,
    transport_id: u64,
)
    requires
        table.wf(),
        table.handle_of(transport_id) is None,
        forall|i: int|
            0 <= i < events.len() ==> #[trigger] events[i] != ConnectionEvent::Connected(
                transport_id,
            ),
    ensures
        table.after(events).handle_of(transport_id) is None,
    decreases events.len(),
{
    if events.len() > 0 {
        let before = table.after(events.drop_last());
        unmapped_id_stays_unmapped(table, events.drop_last(), transport_id);
        table.lemma_after(events.drop_last());
        assert(events.last() == events[events.len() - 1]);
        match events.last() {
            ConnectionEvent::Connected(other) => {
                before.lemma_connect(other);
            },
            ConnectionEvent::Lost(other) => {
                before.lemma_disconnect(other);
            },
            ConnectionEvent::Released(handle) => {
                before.lemma_release(handle);
                before.lemma_lookups_agree(transport_id, handle);
            },
        }
    }
}

/// A handle is never made twice: one that the table has made and that
/// names no connection stays without a connection, whatever happens later.
pub proof fn dead_handle_stays_dead(
    table: ConnectionTable,
    events: Seq<ConnectionEvent>,
    handle: ConnectionHandle,
)
    requires
        table.wf(),
        handle.0 < table.issued,
        table.transport_of(handle) is None,
    ensures
        table.after(events).transport_of(handle) is None,
    decreases events.len(),
{
    if events.len() > 0 {
        let before = table.after(events.drop_last());
        dead_handle_stays_dead(table, events.drop_last(), handle);
        table.lemma_after(events.drop_last());
        match events.last() {
            ConnectionEvent::Connected(other) => {
                before.lemma_connect(other);
            },
            ConnectionEvent::Lost(other) => {
                before.lemma_disconnect(other);
                if before.handle_of(other) == Some(handle) {
                    before.lemma_lookups_agree(other, handle);
                }
            },
            ConnectionEvent::Released(other) => {
                before.lemma_release(other);
            },
        }
    }
}

/// The connection identity map.
///
/// Every map is well-formed: its table satisfies [`ConnectionTable::wf`] at
/// all times, and every operation says so of the map it leaves.
#[derive(Debug)]
pub struct ConnectionMap {
    entries: Vec<Connection>,
    issued: u64,
}

impl View for ConnectionMap {
    type V = ConnectionTable;

    closed spec fn view(&self) -> ConnectionTable {
        ConnectionTable { entries: self.entries@, issued: self.issued as nat }
    }
}

impl ConnectionMap {
    /// The invariant of the type: the table is well-formed.
    #[verifier::type_invariant]
    pub open spec fn wf(&self) -> bool {
        self@.wf()
    }

    /// A map without connections that has made no handle yet.
    pub fn new() -> (map: Self)
        ensures
            map@.wf(),
            map@ == ConnectionTable::empty(),
    {
        ConnectionMap { entries: Vec::new(), issued: 0 }
    }

    /// A map without connections whose first handle carries the number
    /// `first`. Handles below `first` are never made by it, so a host that
    /// remembers how far an earlier map came can go on from there.
    pub fn with_first_handle(first: u64) -> (map: Self)
        ensures
            map@.wf(),
            map@ == (ConnectionTable { entries: Seq::empty(), issued: first as nat }),
    {
        ConnectionMap { entries: Vec::new(), issued: first }
    }

    /// Number of live connections.
    pub fn len(&self) -> (len: usize)
        ensures
            len == self@.entries.len(),
    {
        self.entries.len()
    }

    /// Position of the entry with this transport id.
    fn find_transport(&self, transport_id: u64) -> (found: Option<usize>)
        ensures
            self@.wf(),
            found is Some <==> self@.maps_transport(transport_id),
            found matches Some(i) ==> i == self@.position_of_transport(transport_id) && i
                < self@.entries.len(),
    {
        proof {
            use_type_invariant(self);
        }
        let mut i: usize = 0;
        while i < self.entries.len()
            invariant
                self@.wf(),
                i <= self.entries@.len(),
                forall|j: int| 0 <= j < i ==> (#[trigger] self.entries@[j]).transport_id != transport_id,
            decreases self.entries@.len() - i,
        {
            if self.entries[i].transport_id == transport_id {
                proof {
                    self@.lemma_entry_is_found(i as int);
                }
                return Some(i);
            }
            i += 1;
        }
        None
    }

    /// Position of the entry with this handle.
    fn find_handle(&self, handle: ConnectionHandle) -> (found: Option<usize>)
        ensures
            self@.wf(),
            found is Some <==> self@.holds_handle(handle),
            found matches Some(i) ==> i == self@.position_of_handle(handle) && i
                < self@.entries.len(),
    {
        proof {
            use_type_invariant(self);
        }
        let mut i: usize = 0;
        while i < self.entries.len()
            invariant
                self@.wf(),
                i <= self.entries@.len(),
                forall|j: int| 0 <= j < i ==> (#[trigger] self.entries@[j]).handle != handle,
            decreases self.entries@.len() - i,
        {
            if self.entries[i].handle == handle {
                proof {
                    self@.lemma_entry_is_found(i as int);
                }
                return Some(i);
            }
            i += 1;
        }
        None
    }

    /// Looks up the handle that stands for a transport connection.
    pub fn lookup_handle(&self, transport_id: u64) -> (handle: Option<ConnectionHandle>)
        ensures
            self@.wf(),
            handle == self@.handle_of(transport_id),
    {
        match self.find_transport(transport_id) {
            Some(i) => Some(self.entries[i].handle),
            None => None,
        }
    }

    /// Looks up the transport connection that a handle stands for.
    pub fn lookup_transport(&self, handle: ConnectionHandle) -> (transport_id: Option<u64>)
        ensures
            self@.wf(),
            transport_id == self@.transport_of(handle),
    {
        match self.find_handle(handle) {
            Some(i) => Some(self.entries[i].transport_id),
            None => None,
        }
    }

    /// Records a connection that the transport accepted and makes the handle
    /// that stands for it.
    ///
    /// Fails, and leaves the map as it is, if the id is mapped already or if
    /// every handle was given out.
    pub fn on_connect(&mut self, transport_id: u64) -> (result: Result<
        ConnectionHandle,
        ConnectError,
    >)
        ensures
            old(self)@.wf(),
            final(self)@.wf(),
            final(self)@ == old(self)@.connect(transport_id),
            result is Ok <==> old(self)@.accepts(transport_id),
            result matches Ok(handle) ==> {
                &&& handle == old(self)@.next_handle()
                &&& !old(self)@.holds_handle(handle)
                &&& final(self)@.handle_of(transport_id) == Some(handle)
                &&& final(self)@.transport_of(handle) == Some(transport_id)
            },
            result matches Err(ConnectError::AlreadyConnected { handle }) ==> old(self)@.handle_of(
                transport_id,
            ) == Some(handle),
            result matches Err(ConnectError::HandlesExhausted) ==> !old(self)@.maps_transport(
                transport_id,
            ),
    {
        proof {
            use_type_invariant(&*self);
            self@.lemma_connect(transport_id);
        }
        match self.find_transport(transport_id) {
            Some(i) => Err(ConnectError::AlreadyConnected { handle: self.entries[i].handle }),
            None => {
                if self.issued == u64::MAX {
                    Err(ConnectError::HandlesExhausted)
                } else {
                    let handle = ConnectionHandle(self.issued);
                    let mut entries: Vec<Connection> = Vec::new();
                    std::mem::swap(&mut entries, &mut self.entries);
                    entries.push(Connection { transport_id, handle });
                    self.issued = self.issued + 1;
                    self.entries = entries;
                    Ok(handle)
                }
            },
        }
    }

    /// Takes the entry at `position` out of the map.
    fn take_entry(&mut self, position: usize) -> (entry: Connection)
        requires
            position < old(self)@.entries.len(),
        ensures
            entry == old(self)@.entries[position as int],
            final(self)@ == (ConnectionTable {
                entries: old(self)@.entries.remove(position as int),
                issued: old(self)@.issued,
            }),
    {
        proof {
            use_type_invariant(&*self);
            self@.lemma_remove_entry(position as int);
        }
        let mut entries: Vec<Connection> = Vec::new();
        std::mem::swap(&mut entries, &mut self.entries);
        let entry = entries.remove(position);
        self.entries = entries;
        entry
    }

    /// Forgets a connection that the transport reported lost and returns the
    /// handle that stood for it. An id that is not mapped changes nothing.
    pub fn on_disconnect(&mut self, transport_id: u64) -> (removed: Option<ConnectionHandle>)
        ensures
            old(self)@.wf(),
            final(self)@.wf(),
            final(self)@ == old(self)@.disconnect(transport_id),
            removed == old(self)@.handle_of(transport_id),
            final(self)@.handle_of(transport_id) is None,
            removed matches Some(handle) ==> final(self)@.transport_of(handle) is None,
    {
        proof {
            use_type_invariant(&*self);
            self@.lemma_disconnect(transport_id);
        }
        match self.find_transport(transport_id) {
            Some(i) => Some(self.take_entry(i).handle),
            None => None,
        }
    }

    /// Forgets the connection that a handle stands for, on the application's
    /// side, and returns the id of the transport connection that is to be
    /// closed. A handle that is not live changes nothing.
    pub fn release(&mut self, handle: ConnectionHandle) -> (removed: Option<u64>)
        ensures
            old(self)@.wf(),
            final(self)@.wf(),
            final(self)@ == old(self)@.release(handle),
            removed == old(self)@.transport_of(handle),
            final(self)@.transport_of(handle) is None,
            removed matches Some(transport_id) ==> final(self)@.handle_of(transport_id) is None,
    {
        proof {
            use_type_invariant(&*self);
            self@.lemma_release(handle);
        }
        match self.find_handle(handle) {
            Some(i) => Some(self.take_entry(i).transport_id),
            None => None,
        }
    }

    /// Takes one event and reports what it changed.
    pub fn apply(&mut self, event: ConnectionEvent) -> (change: Option<ConnectionChange>)
        ensures
            old(self)@.wf(),
            final(self)@.wf(),
            final(self)@ == old(self)@.step(event),
            change == old(self)@.change_of(event),
    {
        match event {
            ConnectionEvent::Connected(transport_id) => match self.on_connect(transport_id) {
                Ok(handle) => Some(ConnectionChange::Added(Connection { transport_id, handle })),
                Err(_) => None,
            },
            ConnectionEvent::Lost(transport_id) => match self.on_disconnect(transport_id) {
                Some(handle) => Some(ConnectionChange::Removed(Connection { transport_id, handle })),
                None => None,
            },
            ConnectionEvent::Released(handle) => match self.release(handle) {
                Some(transport_id) => Some(
                    ConnectionChange::Removed(Connection { transport_id, handle }),
                ),
                None => None,
            },
        }
    }

    /// The live connections, oldest first.
    pub fn connections(&self) -> (connections: Vec<Connection>)
        ensures
            self@.wf(),
            connections@ == self@.entries,
    {
        proof {
            use_type_invariant(self);
        }
        self.entries.clone()
    }
}

} // verus!
