//! The connections of the server, each under its id.

use crate::packet::{frames_view, Frame, FrameView};
use crate::text::same_text;
use vstd::prelude::*;

verus! {

/// One connection.
struct ClientConn {
    id: String,
    /// Whether the other end has shown itself to be the APP.
    is_app: bool,
    /// The messages that wait to be sent, oldest first.
    outbox: Vec<Frame>,
}

/// One connection, as a mathematical value.
#[verifier::ext_equal]
pub struct ConnView {
    pub is_app: bool,
    pub outbox: Seq<FrameView>,
}

impl ConnView {
    /// A connection of which nothing is known yet.
    pub open spec fn fresh() -> ConnView {
        ConnView { is_app: false, outbox: Seq::empty() }
    }
}

impl View for ClientConn {
    type V = ConnView;

    closed spec fn view(&self) -> ConnView {
        ConnView { is_app: self.is_app, outbox: frames_view(self.outbox@) }
    }
}

/// The connections, no two under the same id.
pub struct ConnTable {
    entries: Vec<ClientConn>,
}

spec fn distinct(entries: Seq<ClientConn>) -> bool {
    forall|i: int, j: int|
        0 <= i < j < entries.len() ==> (#[trigger] entries[i]).id@ != (#[trigger] entries[j]).id@
}

spec fn holds(entries: Seq<ClientConn>, id: Seq<char>) -> bool {
    exists|i: int| 0 <= i < entries.len() && (#[trigger] entries[i]).id@ == id
}

spec fn position(entries: Seq<ClientConn>, id: Seq<char>) -> int {
    choose|i: int| 0 <= i < entries.len() && (#[trigger] entries[i]).id@ == id
}

spec fn by_id(entries: Seq<ClientConn>) -> Map<Seq<char>, ConnView> {
    Map::new(|id: Seq<char>| holds(entries, id), |id: Seq<char>| entries[position(entries, id)]@)
}

/// The table at the id of an entry is that entry.
proof fn lemma_entry(entries: Seq<ClientConn>, i: int)
    requires
        distinct(entries),
        0 <= i < entries.len(),
    ensures
        position(entries, entries[i].id@) == i,
        by_id(entries).contains_key(entries[i].id@),
        by_id(entries)[entries[i].id@] == entries[i]@,
{
    let p = position(entries, entries[i].id@);
    assert(0 <= p < entries.len() && entries[p].id@ == entries[i].id@);
}

/// Changing what stands under an id changes the table there and nowhere else.
proof fn lemma_update(entries: Seq<ClientConn>, i: int, conn: ClientConn)
    requires
        distinct(entries),
        0 <= i < entries.len(),
        conn.id@ == entries[i].id@,
    ensures
        distinct(entries.update(i, conn)),
        by_id(entries.update(i, conn)) == by_id(entries).insert(conn.id@, conn@),
{
    let after = entries.update(i, conn);
    assert forall|j: int, k: int| 0 <= j < k < after.len() implies (#[trigger] after[j]).id@ != (
    #[trigger] after[k]).id@ by {
        assert(entries[j].id@ != entries[k].id@);
    }
    assert forall|id: Seq<char>| by_id(after).contains_key(id) == by_id(entries).insert(
        conn.id@,
        conn@,
    ).contains_key(id) by {
        if holds(after, id) {
            let p = position(after, id);
            assert(entries[p].id@ == id);
        }
        if holds(entries, id) {
            let p = position(entries, id);
            assert(after[p].id@ == id);
        }
        if id == conn.id@ {
            assert(after[i].id@ == id);
        }
    }
    assert forall|id: Seq<char>| by_id(after).contains_key(id) implies by_id(after)[id] == by_id(
        entries,
    ).insert(conn.id@, conn@)[id] by {
        let p = position(after, id);
        lemma_entry(after, p);
        lemma_entry(entries, p);
        lemma_entry(after, i);
    }
    assert(by_id(after) =~= by_id(entries).insert(conn.id@, conn@));
}

/// An entry with a new id adds itself to the table.
proof fn lemma_push(entries: Seq<ClientConn>, conn: ClientConn)
    requires
        distinct(entries),
        !holds(entries, conn.id@),
    ensures
        distinct(entries.push(conn)),
        by_id(entries.push(conn)) == by_id(entries).insert(conn.id@, conn@),
{
    let after = entries.push(conn);
    assert forall|j: int, k: int| 0 <= j < k < after.len() implies (#[trigger] after[j]).id@ != (
    #[trigger] after[k]).id@ by {
        assert(after[j] == entries[j]);
        if k < entries.len() {
            assert(entries[j].id@ != entries[k].id@);
        }
    }
    assert forall|id: Seq<char>| by_id(after).contains_key(id) == by_id(entries).insert(
        conn.id@,
        conn@,
    ).contains_key(id) by {
        if holds(after, id) {
            let p = position(after, id);
            if p < entries.len() {
                assert(entries[p].id@ == id);
            }
        }
        if holds(entries, id) {
            let p = position(entries, id);
            assert(after[p].id@ == id);
        }
        if id == conn.id@ {
            assert(after[entries.len() as int].id@ == id);
        }
    }
    assert forall|id: Seq<char>| by_id(after).contains_key(id) implies by_id(after)[id] == by_id(
        entries,
    ).insert(conn.id@, conn@)[id] by {
        let p = position(after, id);
        lemma_entry(after, p);
        if p < entries.len() {
            lemma_entry(entries, p);
            assert(holds(entries, id));
        }
    }
    assert(by_id(after) =~= by_id(entries).insert(conn.id@, conn@));
}

/// Taking an entry out takes its id out of the table.
proof fn lemma_remove(entries: Seq<ClientConn>, i: int)
    requires
        distinct(entries),
        0 <= i < entries.len(),
    ensures
        distinct(entries.remove(i)),
        by_id(entries.remove(i)) == by_id(entries).remove(entries[i].id@),
{
    let after = entries.remove(i);
    let gone = entries[i].id@;
    assert forall|j: int| 0 <= j < after.len() implies #[trigger] after[j] == entries[if j < i {
        j
    } else {
        j + 1
    }] by {}
    assert forall|j: int, k: int| 0 <= j < k < after.len() implies (#[trigger] after[j]).id@ != (
    #[trigger] after[k]).id@ by {}
    assert forall|id: Seq<char>| by_id(after).contains_key(id) == by_id(entries).remove(
        gone,
    ).contains_key(id) by {
        if holds(after, id) {
            let p = position(after, id);
            let q = if p < i {
                p
            } else {
                p + 1
            };
            assert(entries[q].id@ == id);
            assert(id != gone);
        }
        if holds(entries, id) && id != gone {
            let p = position(entries, id);
            let q = if p < i {
                p
            } else {
                p - 1
            };
            assert(after[q].id@ == id);
        }
    }
    assert forall|id: Seq<char>| by_id(after).contains_key(id) implies by_id(after)[id] == by_id(
        entries,
    ).remove(gone)[id] by {
        let p = position(after, id);
        lemma_entry(after, p);
        lemma_entry(
            entries,
            if p < i {
                p
            } else {
                p + 1
            },
        );
    }
    assert(by_id(after) =~= by_id(entries).remove(gone));
}

impl View for ConnTable {
    type V = Map<Seq<char>, ConnView>;

    closed spec fn view(&self) -> Map<Seq<char>, ConnView> {
        by_id(self.entries@)
    }
}

/// Some connection is the APP's.
pub open spec fn some_app(conns: Map<Seq<char>, ConnView>) -> bool {
    exists|id: Seq<char>| #[trigger] conns.contains_key(id) && conns[id].is_app
}

impl ConnTable {
    #[verifier::type_invariant]
    spec fn well_formed(self) -> bool {
        distinct(self.entries@)
    }

    /// A table without connections.
    pub fn new() -> (table: ConnTable)
        ensures
            table@ == Map::<Seq<char>, ConnView>::empty(),
    {
        let table: ConnTable = ConnTable { entries: Vec::new() };
        assert(table@ =~= Map::<Seq<char>, ConnView>::empty());
        table
    }

    /// The index of the entry under `id`.
    fn find(&self, id: &str) -> (r: Option<usize>)
        ensures
            r is Some == self@.contains_key(id@),
            r matches Some(i) ==> i < self.entries@.len() && self.entries@[i as int].id@ == id@,
    {
        let mut i: usize = 0;
        while i < self.entries.len()
            invariant
                i <= self.entries@.len(),
                forall|j: int| 0 <= j < i ==> (#[trigger] self.entries@[j]).id@ != id@,
            decreases self.entries.len() - i,
        {
            if same_text(self.entries[i].id.as_str(), id) {
                return Some(i);
            }
            i = i + 1;
        }
        None
    }

    /// Whether a connection stands under `id`.
    pub fn contains(&self, id: &str) -> (r: bool)
        ensures
            r == self@.contains_key(id@),
    {
        self.find(id).is_some()
    }

    /// Whether some connection is the APP's.
    pub fn any_app(&self) -> (r: bool)
        ensures
            r == some_app(self@),
    {
        proof {
            use_type_invariant(self);
        }
        let mut i: usize = 0;
        while i < self.entries.len()
            invariant
                i <= self.entries@.len(),
                distinct(self.entries@),
                forall|j: int| 0 <= j < i ==> !(#[trigger] self.entries@[j]).is_app,
            decreases self.entries.len() - i,
        {
            if self.entries[i].is_app {
                proof {
                    lemma_entry(self.entries@, i as int);
                    assert(self@.contains_key(self.entries@[i as int].id@));
                }
                return true;
            }
            i = i + 1;
        }
        proof {
            assert forall|id: Seq<char>| #[trigger] self@.contains_key(id) implies !self@[id].is_app
            by {
                lemma_entry(self.entries@, position(self.entries@, id));
            }
        }
        false
    }

    /// Puts a new connection under `id`, in place of any that stands there.
    pub fn insert(&mut self, id: String)
        ensures
            final(self)@ == old(self)@.insert(id@, ConnView::fresh()),
    {
        proof {
            use_type_invariant(&*self);
        }
        let found: Option<usize> = self.find(id.as_str());
        let mut entries: Vec<ClientConn> = Vec::new();
        std::mem::swap(&mut entries, &mut self.entries);
        let ghost before = entries@;
        let conn: ClientConn = ClientConn { id, is_app: false, outbox: Vec::new() };
        assert(conn@ =~= ConnView::fresh());
        match found {
            Some(i) => {
                proof {
                    lemma_update(before, i as int, conn);
                }
                entries.set(i, conn);
            },
            None => {
                proof {
                    lemma_push(before, conn);
                }
                entries.push(conn);
            },
        }
        self.entries = entries;
    }

    /// Takes out the connection under `id`, if there is one.
    pub fn remove(&mut self, id: &str)
        ensures
            final(self)@ == old(self)@.remove(id@),
    {
        proof {
            use_type_invariant(&*self);
        }
        match self.find(id) {
            Some(i) => {
                let mut entries: Vec<ClientConn> = Vec::new();
                std::mem::swap(&mut entries, &mut self.entries);
                proof {
                    lemma_remove(entries@, i as int);
                }
                entries.remove(i);
                self.entries = entries;
            },
            None => {
                assert(self@.remove(id@) =~= self@);
            },
        }
    }

    /// Marks the connection under `id`, if there is one, as the APP's.
    pub fn mark_app(&mut self, id: &str)
        ensures
            final(self)@ == marked(old(self)@, id@),
    {
        proof {
            use_type_invariant(&*self);
        }
        if let Some(i) = self.find(id) {
            let mut entries: Vec<ClientConn> = Vec::new();
            std::mem::swap(&mut entries, &mut self.entries);
            let ghost before = entries@;
            let old_conn: ClientConn = entries.remove(i);
            let conn: ClientConn = ClientConn { is_app: true, ..old_conn };
            proof {
                lemma_entry(before, i as int);
                lemma_update(before, i as int, conn);
                assert(before.remove(i as int).insert(i as int, conn) =~= before.update(
                    i as int,
                    conn,
                ));
            }
            entries.insert(i, conn);
            self.entries = entries;
        }
    }

    /// Appends a message to what waits to be sent to `id`, if a connection stands there.
    pub fn queue(&mut self, id: &str, frame: Frame)
        ensures
            final(self)@ == queued(old(self)@, id@, frame@),
    {
        proof {
            use_type_invariant(&*self);
        }
        if let Some(i) = self.find(id) {
            let mut entries: Vec<ClientConn> = Vec::new();
            std::mem::swap(&mut entries, &mut self.entries);
            let ghost before = entries@;
            let old_conn: ClientConn = entries.remove(i);
            let mut outbox: Vec<Frame> = old_conn.outbox;
            outbox.push(frame);
            let conn: ClientConn = ClientConn {
                id: old_conn.id,
                is_app: old_conn.is_app,
                outbox,
            };
            proof {
                lemma_entry(before, i as int);
                lemma_update(before, i as int, conn);
                assert(before.remove(i as int).insert(i as int, conn) =~= before.update(
                    i as int,
                    conn,
                ));
                assert(conn@.outbox =~= before[i as int]@.outbox.push(frame@));
            }
            entries.insert(i, conn);
            self.entries = entries;
        }
    }

    /// Takes out all that waits to be sent to `id`, oldest first.
    pub fn take(&mut self, id: &str) -> (frames: Vec<Frame>)
        ensures
            frames_view(frames@) == waiting(old(self)@, id@),
            final(self)@ == emptied(old(self)@, id@),
    {
        proof {
            use_type_invariant(&*self);
        }
        match self.find(id) {
            Some(i) => {
                let mut entries: Vec<ClientConn> = Vec::new();
                std::mem::swap(&mut entries, &mut self.entries);
                let ghost before = entries@;
                let old_conn: ClientConn = entries.remove(i);
                let conn: ClientConn = ClientConn {
                    id: old_conn.id,
                    is_app: old_conn.is_app,
                    outbox: Vec::new(),
                };
                proof {
                    lemma_entry(before, i as int);
                    lemma_update(before, i as int, conn);
                    assert(before.remove(i as int).insert(i as int, conn) =~= before.update(
                        i as int,
                        conn,
                    ));
                    assert(conn@.outbox =~= Seq::<FrameView>::empty());
                }
                entries.insert(i, conn);
                self.entries = entries;
                old_conn.outbox
            },
            None => {
                let frames: Vec<Frame> = Vec::new();
                assert(frames_view(frames@) =~= Seq::<FrameView>::empty());
                frames
            },
        }
    }
}

/// The connections with the one under `id`, if there is one, marked as the APP's.
pub open spec fn marked(conns: Map<Seq<char>, ConnView>, id: Seq<char>) -> Map<
    Seq<char>,
    ConnView,
> {
    if conns.contains_key(id) {
        conns.insert(id, ConnView { is_app: true, outbox: conns[id].outbox })
    } else {
        conns
    }
}

/// The connections with `frame` appended to what waits for `id`, if a connection stands there.
pub open spec fn queued(
    conns: Map<Seq<char>, ConnView>,
    id: Seq<char>,
    frame: FrameView,
) -> Map<Seq<char>, ConnView> {
    if conns.contains_key(id) {
        conns.insert(
            id,
            ConnView { is_app: conns[id].is_app, outbox: conns[id].outbox.push(frame) },
        )
    } else {
        conns
    }
}

/// What waits to be sent to `id`.
pub open spec fn waiting(conns: Map<Seq<char>, ConnView>, id: Seq<char>) -> Seq<FrameView> {
    if conns.contains_key(id) {
        conns[id].outbox
    } else {
        Seq::empty()
    }
}

/// The connections with nothing waiting for `id`.
pub open spec fn emptied(conns: Map<Seq<char>, ConnView>, id: Seq<char>) -> Map<
    Seq<char>,
    ConnView,
> {
    if conns.contains_key(id) {
        conns.insert(id, ConnView { is_app: conns[id].is_app, outbox: Seq::empty() })
    } else {
        conns
    }
}

}
