//! Shared tray state: the single source of truth for which tray items
//! exist, keyed by item address. The state is an owned value, mutated
//! only through [`TrayState::apply`]; its abstraction is a map from
//! address to record, and entry order is deterministic: first insertion
//! order, updates in place.

use vstd::map::*;
use vstd::prelude::*;

use crate::Status;
use crate::menu::MenuTree;

verus! {

/// The record kept for one tray item. An update event always replaces
/// the whole record; fields absent in the new record are gone.
pub struct TrayItemRecord {
    pub icon_name: Option<String>,
    pub icon_theme_path: Option<String>,
    pub status: Status,
    pub menu_path: Option<String>,
    pub menu: Option<MenuTree>,
}

/// One event received from the host: replace the record for an address,
/// or remove it.
pub enum InboundEvent {
    Update { address: String, item: TrayItemRecord },
    Remove { address: String },
}

/// One entry of the state: an address and its record.
pub struct Entry {
    pub address: String,
    pub record: TrayItemRecord,
}

/// The shared tray state. Invariant (`wf`): addresses are pairwise
/// distinct. Mutate it only through `apply`, which preserves that.
pub struct TrayState {
    pub entries: Vec<Entry>,
}

/// Whether some entry of `s` has address `a`.
pub open spec fn has_addr(s: Seq<Entry>, a: Seq<char>) -> bool {
    exists|i: int| 0 <= i < s.len() && s[i].address@ == a
}

/// The index of the entry with address `a` (meaningful when `has_addr`
/// holds and addresses are distinct).
pub open spec fn idx_of(s: Seq<Entry>, a: Seq<char>) -> int {
    choose|i: int| 0 <= i < s.len() && s[i].address@ == a
}

/// Pairwise distinct addresses.
pub open spec fn distinct_addrs(s: Seq<Entry>) -> bool {
    forall|i: int, j: int| 0 <= i < j < s.len() ==> s[i].address@ != s[j].address@
}

/// The map abstraction of an entry sequence.
pub open spec fn map_of(s: Seq<Entry>) -> Map<Seq<char>, TrayItemRecord> {
    Map::new(|a: Seq<char>| has_addr(s, a), |a: Seq<char>| s[idx_of(s, a)].record)
}

/// What one event does to the map abstraction: update inserts or
/// overwrites, remove deletes.
pub open spec fn event_model(
    m: Map<Seq<char>, TrayItemRecord>,
    e: InboundEvent,
) -> Map<Seq<char>, TrayItemRecord> {
    match e {
        InboundEvent::Update { address, item } => m.insert(address@, item),
        InboundEvent::Remove { address } => m.remove(address@),
    }
}

/// Sequential application of a whole event sequence, in arrival order.
pub open spec fn events_model(
    m: Map<Seq<char>, TrayItemRecord>,
    evs: Seq<InboundEvent>,
) -> Map<Seq<char>, TrayItemRecord>
    decreases evs.len(),
{
    if evs.len() == 0 {
        m
    } else {
        events_model(event_model(m, evs[0]), evs.drop_first())
    }
}

/// The address of the entry an event concerns.
pub open spec fn event_addr(e: InboundEvent) -> Seq<char> {
    match e {
        InboundEvent::Update { address, .. } => address@,
        InboundEvent::Remove { address } => address@,
    }
}

/// What one event does to the entry sequence itself: an update
/// overwrites the slot that already holds its address (keeping the
/// iteration order) or appends a new entry; a remove deletes the
/// address's slot and nothing else.
pub open spec fn entry_event_model(s: Seq<Entry>, e: InboundEvent) -> Seq<Entry> {
    match e {
        InboundEvent::Update { address, item } => if has_addr(s, address@) {
            s.update(idx_of(s, address@), Entry { address, record: item })
        } else {
            s.push(Entry { address, record: item })
        },
        InboundEvent::Remove { address } => if has_addr(s, address@) {
            s.remove(idx_of(s, address@))
        } else {
            s
        },
    }
}

/// Sequential application of a whole event sequence to the entry
/// sequence, in arrival order.
pub open spec fn entries_model(s: Seq<Entry>, evs: Seq<InboundEvent>) -> Seq<Entry>
    decreases evs.len(),
{
    if evs.len() == 0 {
        s
    } else {
        entries_model(entry_event_model(s, evs[0]), evs.drop_first())
    }
}

/// An event sequence none of whose events concerns address `a` leaves
/// `a`'s record exactly as it was.
pub proof fn lemma_untouched_address(
    m: Map<Seq<char>, TrayItemRecord>,
    evs: Seq<InboundEvent>,
    a: Seq<char>,
)
    requires
        forall|k: int| 0 <= k < evs.len() ==> event_addr(#[trigger] evs[k]) != a,
    ensures
        events_model(m, evs).contains_key(a) == m.contains_key(a),
        m.contains_key(a) ==> events_model(m, evs)[a] == m[a],
    decreases evs.len(),
{
    if evs.len() != 0 {
        let m1 = event_model(m, evs[0]);
        assert(event_addr(evs[0]) != a);
        assert(forall|k: int|
            0 <= k < evs.drop_first().len() ==> event_addr(#[trigger] evs.drop_first()[k]) != a);
        lemma_untouched_address(m1, evs.drop_first(), a);
    }
}

/// No lost updates: after a whole event sequence is applied in arrival
/// order, the record for an address is decided by the last event that
/// concerned it — a final update leaves exactly its record, a final
/// remove leaves no record, whatever was interleaved for other
/// addresses.
pub proof fn lemma_last_event_wins(
    m: Map<Seq<char>, TrayItemRecord>,
    evs: Seq<InboundEvent>,
    k: int,
)
    requires
        0 <= k < evs.len(),
        forall|j: int| k < j < evs.len() ==> event_addr(#[trigger] evs[j]) != event_addr(evs[k]),
    ensures
        match evs[k] {
            InboundEvent::Update { address, item } => events_model(m, evs).contains_key(address@)
                && events_model(m, evs)[address@] == item,
            InboundEvent::Remove { address } => !events_model(m, evs).contains_key(address@),
        },
    decreases evs.len(),
{
    let a = event_addr(evs[k]);
    let m1 = event_model(m, evs[0]);
    if k == 0 {
        assert(forall|j: int|
            0 <= j < evs.drop_first().len() ==> event_addr(#[trigger] evs.drop_first()[j]) != a);
        lemma_untouched_address(m1, evs.drop_first(), a);
    } else {
        assert(evs.drop_first()[k - 1] == evs[k]);
        assert(forall|j: int|
            k - 1 < j < evs.drop_first().len() ==> event_addr(#[trigger] evs.drop_first()[j])
                != event_addr(evs.drop_first()[k - 1]));
        lemma_last_event_wins(m1, evs.drop_first(), k - 1);
    }
}

impl View for TrayState {
    type V = Map<Seq<char>, TrayItemRecord>;

    open spec fn view(&self) -> Map<Seq<char>, TrayItemRecord> {
        map_of(self.entries@)
    }
}

proof fn lemma_index_unique(s: Seq<Entry>, i: int, j: int)
    requires
        distinct_addrs(s),
        0 <= i < s.len(),
        0 <= j < s.len(),
        s[i].address@ == s[j].address@,
    ensures
        i == j,
{
}

/// Overwriting the record at the slot that already holds address `a`
/// is, at the map level, an insert for `a`.
proof fn lemma_map_update_at(s: Seq<Entry>, t: Seq<Entry>, k: int, a: Seq<char>)
    requires
        distinct_addrs(s),
        s.len() == t.len(),
        0 <= k < s.len(),
        s[k].address@ == a,
        t[k].address@ == a,
        forall|i: int| 0 <= i < s.len() && i != k ==> t[i] == s[i],
    ensures
        distinct_addrs(t),
        map_of(t) == map_of(s).insert(a, t[k].record),
{
    assert forall|i: int| 0 <= i < s.len() implies #[trigger] t[i].address@ == s[i].address@ by {
        if i != k {
            assert(t[i] == s[i]);
        }
    }
    assert_maps_equal!(map_of(t), map_of(s).insert(a, t[k].record), b => {
        if b == a {
            assert(0 <= k < t.len() && t[k].address@ == b);
            assert(has_addr(t, b));
            let i = idx_of(t, b);
            assert(0 <= i < t.len() && t[i].address@ == b);
            lemma_index_unique(t, i, k);
        } else {
            if has_addr(s, b) {
                let i = idx_of(s, b);
                assert(0 <= i < s.len() && s[i].address@ == b);
                assert(i != k);
                assert(has_addr(t, b));
            }
            if has_addr(t, b) {
                let j = idx_of(t, b);
                assert(0 <= j < t.len() && t[j].address@ == b);
                assert(j != k);
                assert(s[j].address@ == b);
                assert(has_addr(s, b));
                if has_addr(s, b) {
                    let i = idx_of(s, b);
                    assert(0 <= i < s.len() && s[i].address@ == b);
                    lemma_index_unique(s, i, j);
                    assert(t[j] == s[i]);
                }
            }
        }
    });
}

/// Appending an entry with a fresh address is, at the map level, an
/// insert for that address.
proof fn lemma_map_push(s: Seq<Entry>, e: Entry)
    requires
        distinct_addrs(s),
        !has_addr(s, e.address@),
    ensures
        distinct_addrs(s.push(e)),
        map_of(s.push(e)) == map_of(s).insert(e.address@, e.record),
{
    let t = s.push(e);
    let n = s.len() as int;
    assert forall|i: int, j: int| 0 <= i < j < t.len() implies t[i].address@ != t[j].address@ by {
        if j < n {
            assert(t[i] == s[i] && t[j] == s[j]);
        } else {
            assert(t[j] == e);
            assert(t[i] == s[i]);
            if s[i].address@ == e.address@ {
                assert(has_addr(s, e.address@));
            }
        }
    }
    assert_maps_equal!(map_of(t), map_of(s).insert(e.address@, e.record), b => {
        if b == e.address@ {
            assert(t[n] == e);
            assert(0 <= n < t.len() && t[n].address@ == b);
            assert(has_addr(t, b));
            let i = idx_of(t, b);
            assert(0 <= i < t.len() && t[i].address@ == b);
            lemma_index_unique(t, i, n);
        } else {
            if has_addr(s, b) {
                let i = idx_of(s, b);
                assert(0 <= i < s.len() && s[i].address@ == b);
                assert(t[i] == s[i]);
                assert(has_addr(t, b));
            }
            if has_addr(t, b) {
                let j = idx_of(t, b);
                assert(0 <= j < t.len() && t[j].address@ == b);
                assert(j != n);
                assert(t[j] == s[j]);
                assert(has_addr(s, b));
                let i = idx_of(s, b);
                assert(0 <= i < s.len() && s[i].address@ == b);
                lemma_index_unique(s, i, j);
            }
        }
    });
}

/// Deleting the slot at index `k` is, at the map level, a remove of
/// that slot's address.
proof fn lemma_map_remove(s: Seq<Entry>, k: int)
    requires
        distinct_addrs(s),
        0 <= k < s.len(),
    ensures
        distinct_addrs(s.remove(k)),
        map_of(s.remove(k)) == map_of(s).remove(s[k].address@),
{
    let t = s.remove(k);
    let a = s[k].address@;
    s.remove_ensures(k);
    assert forall|i: int, j: int| 0 <= i < j < t.len() implies t[i].address@ != t[j].address@ by {
        let i0: int = if i < k { i } else { i + 1 };
        let j0: int = if j < k { j } else { j + 1 };
        assert(t[i] == s[i0]);
        assert(t[j] == s[j0]);
    }
    assert_maps_equal!(map_of(t), map_of(s).remove(a), b => {
        if b == a {
            if has_addr(t, b) {
                let i = idx_of(t, b);
                assert(0 <= i < t.len() && t[i].address@ == b);
                let i0: int = if i < k { i } else { i + 1 };
                assert(t[i] == s[i0]);
                lemma_index_unique(s, i0, k);
            }
        } else {
            if has_addr(s, b) {
                let i = idx_of(s, b);
                assert(0 <= i < s.len() && s[i].address@ == b);
                assert(i != k);
                let i1: int = if i < k { i } else { i - 1 };
                assert(t[i1] == s[i]);
                assert(0 <= i1 < t.len() && t[i1].address@ == b);
                assert(has_addr(t, b));
            }
            if has_addr(t, b) {
                let j = idx_of(t, b);
                assert(0 <= j < t.len() && t[j].address@ == b);
                let j0: int = if j < k { j } else { j + 1 };
                assert(t[j] == s[j0]);
                assert(has_addr(s, b));
                let i = idx_of(s, b);
                assert(0 <= i < s.len() && s[i].address@ == b);
                lemma_index_unique(s, i, j0);
            }
        }
    });
}

/// Removing an address that no entry holds leaves the map abstraction
/// unchanged.
proof fn lemma_map_remove_absent(s: Seq<Entry>, a: Seq<char>)
    requires
        !has_addr(s, a),
    ensures
        map_of(s).remove(a) == map_of(s),
{
    assert_maps_equal!(map_of(s).remove(a), map_of(s), b => {});
}

impl TrayState {
    /// Well-formedness: no two entries share an address.
    pub open spec fn wf(self) -> bool {
        distinct_addrs(self.entries@)
    }

    /// The entry sequence behind the state, for order statements.
    pub open spec fn entry_seq(self) -> Seq<Entry> {
        self.entries@
    }

    /// An empty state.
    pub fn new() -> (s: Self)
        ensures
            s.wf(),
            s@ == Map::<Seq<char>, TrayItemRecord>::empty(),
            s.entry_seq() == Seq::<Entry>::empty(),
    {
        let s = TrayState { entries: Vec::new() };
        proof {
            assert_maps_equal!(map_of(s.entries@), Map::<Seq<char>, TrayItemRecord>::empty(),
                b => {});
        }
        s
    }

    /// How many items the state holds.
    pub fn len(&self) -> (n: usize)
        ensures
            n == self.entry_seq().len(),
    {
        self.entries.len()
    }

    /// Borrow the entry at position `i` of the iteration order.
    pub fn entry_at(&self, i: usize) -> (e: &Entry)
        requires
            i < self.entry_seq().len(),
        ensures
            *e == self.entry_seq()[i as int],
    {
        &self.entries[i]
    }

    /// The index holding `address`, if any entry does.
    fn find_index(&self, address: &String) -> (r: Option<usize>)
        ensures
            match r {
                Some(i) => 0 <= i < self.entries@.len() && self.entries@[i as int].address@
                    == address@,
                None => !has_addr(self.entries@, address@),
            },
    {
        let n = self.entries.len();
        for i in 0..n
            invariant
                n == self.entries@.len(),
                forall|j: int| 0 <= j < i ==> self.entries@[j].address@ != address@,
            decreases n - i,
        {
            if self.entries[i].address == *address {
                return Some(i);
            }
        }
        None
    }

    /// Whether the state holds a record for `address`.
    pub fn contains(&self, address: &String) -> (b: bool)
        requires
            self.wf(),
        ensures
            b == self@.contains_key(address@),
    {
        self.find_index(address).is_some()
    }

    /// Borrow the record for `address`, if present.
    pub fn get(&self, address: &String) -> (r: Option<&TrayItemRecord>)
        requires
            self.wf(),
        ensures
            match r {
                Some(rec) => self@.contains_key(address@) && *rec == self@[address@],
                None => !self@.contains_key(address@),
            },
    {
        match self.find_index(address) {
            Some(i) => {
                proof {
                    let j = idx_of(self.entries@, address@);
                    assert(0 <= j < self.entries@.len() && self.entries@[j].address@ == address@);
                    lemma_index_unique(self.entries@, i as int, j);
                }
                Some(&self.entries[i].record)
            },
            None => None,
        }
    }

    /// Apply one inbound event inside the critical section: an update
    /// replaces (inserts or overwrites) the whole record for its
    /// address; a remove deletes the record if present, and removing an
    /// absent address leaves the state exactly as it was.
    pub fn apply(&mut self, event: InboundEvent)
        requires
            old(self).wf(),
        ensures
            final(self).wf(),
            final(self)@ == event_model(old(self)@, event),
            final(self).entry_seq() == entry_event_model(old(self).entry_seq(), event),
            (event matches InboundEvent::Remove { address } && !has_addr(
                old(self).entry_seq(),
                address@,
            )) ==> final(self).entry_seq() == old(self).entry_seq(),
    {
        let ghost s0 = self.entries@;
        let ghost ev0 = event;
        match event {
            InboundEvent::Update { address, item } => {
                match self.find_index(&address) {
                    Some(i) => {
                        self.entries[i] = Entry { address, record: item };
                        proof {
                            lemma_map_update_at(s0, self.entries@, i as int, event_addr(ev0));
                            let j = idx_of(s0, event_addr(ev0));
                            assert(0 <= j < s0.len() && s0[j].address@ == event_addr(ev0));
                            lemma_index_unique(s0, i as int, j);
                            assert(self.entries@ =~= entry_event_model(s0, ev0));
                        }
                    },
                    None => {
                        self.entries.push(Entry { address, record: item });
                        proof {
                            lemma_map_push(s0, self.entries@[s0.len() as int]);
                            assert(self.entries@ =~= entry_event_model(s0, ev0));
                        }
                    },
                }
            },
            InboundEvent::Remove { address } => {
                match self.find_index(&address) {
                    Some(i) => {
                        self.entries.remove(i);
                        proof {
                            lemma_map_remove(s0, i as int);
                            let j = idx_of(s0, event_addr(ev0));
                            assert(0 <= j < s0.len() && s0[j].address@ == event_addr(ev0));
                            lemma_index_unique(s0, i as int, j);
                            assert(self.entries@ =~= entry_event_model(s0, ev0));
                        }
                    },
                    None => {
                        proof {
                            lemma_map_remove_absent(s0, event_addr(ev0));
                        }
                    },
                }
            },
        }
    }

    /// Apply a whole batch of events, in arrival order. The result is
    /// exactly the sequential fold of the events over the old state.
    pub fn apply_all(&mut self, events: Vec<InboundEvent>)
        requires
            old(self).wf(),
        ensures
            final(self).wf(),
            final(self)@ == events_model(old(self)@, events@),
            final(self).entry_seq() == entries_model(old(self).entry_seq(), events@),
    {
        let ghost evs0 = events@;
        let ghost m0 = self@;
        let ghost e0 = self.entries@;
        let mut events = events;
        while events.len() > 0
            invariant
                self.wf(),
                events_model(self@, events@) == events_model(m0, evs0),
                entries_model(self.entry_seq(), events@) == entries_model(e0, evs0),
            decreases events@.len(),
        {
            let ghost pending = events@;
            let e = events.remove(0);
            proof {
                assert(events@ =~= pending.drop_first());
            }
            self.apply(e);
        }
    }
}

} // verus!
