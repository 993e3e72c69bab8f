//! The live servers that a tracker lists, keyed by the id each chose, and
//! their expiry.
use vstd::prelude::*;

use tokio::time::Instant;

use crate::header::TRACKER_VERSION;
use crate::registration_record::RegistrationRecord;
use crate::server_record::{ServerRecord, ServerView};
use crate::update_record::UpdateRecord;

verus! {

/// tokio::time::Instant, a point on the monotonic clock: the origin of the
/// registry's clock. Nothing inside it is read here.
#[verifier::external_type_specification]
#[verifier::external_body]
pub struct ExInstant(tokio::time::Instant);

/// Relies on tokio::time::Instant::now: a reading of the monotonic clock.
pub assume_specification[ tokio::time::Instant::now ]() -> tokio::time::Instant;

/// Relies on tokio::time::Instant::elapsed: the time since `start` on the
/// monotonic clock, which is never negative; here in whole milliseconds.
#[verifier::external_body]
fn millis_since(start: &Instant) -> u64 {
    start.elapsed().as_millis() as u64
}

/// How long a registration stays listed unless renewed: five minutes.
pub const DEFAULT_SERVER_EXPIRY_MS: u64 = 300_000;

/// A listed server and when it last registered, in milliseconds on the
/// registry's clock.
#[derive(Debug)]
pub struct ServerEntry {
    pub datestamp: u64,
    pub server: ServerRecord,
}

/// A registry entry as plain values.
pub struct EntryView {
    pub datestamp: u64,
    pub server: ServerView,
}

impl View for ServerEntry {
    type V = EntryView;

    open spec fn view(&self) -> EntryView {
        EntryView { datestamp: self.datestamp, server: self.server@ }
    }
}

impl ServerEntry {
    pub fn new(server: ServerRecord, datestamp: u64) -> (r: Self)
        ensures
            r@ == (EntryView { datestamp, server: server@ }),
    {
        ServerEntry { datestamp, server }
    }
}

/// No id occurs twice.
pub open spec fn unique_ids(s: Seq<(u32, EntryView)>) -> bool {
    forall|i: int, j: int| 0 <= i < j < s.len() ==> #[trigger] s[i].0 != #[trigger] s[j].0
}

/// The first index at or after `i` that holds `id`, or -1.
pub open spec fn position_of(s: Seq<(u32, EntryView)>, id: u32, i: int) -> int
    decreases s.len() - i,
{
    if i < 0 || i >= s.len() {
        -1
    } else if s[i].0 == id {
        i
    } else {
        position_of(s, id, i + 1)
    }
}

/// The entries after `id` registers `e`: an entry with that id is replaced
/// where it stands, and otherwise `e` joins at the end.
pub open spec fn registered(s: Seq<(u32, EntryView)>, id: u32, e: EntryView) -> Seq<(u32, EntryView)> {
    let p = position_of(s, id, 0);
    if p >= 0 {
        s.update(p, (id, e))
    } else {
        s.push((id, e))
    }
}

/// An entry has expired once more than `expiry` has passed since it
/// registered.
pub open spec fn expired(e: EntryView, expiry: u64, now: u64) -> bool {
    e.datestamp + expiry < now
}

/// The entries that have not expired at `now`, in their order.
pub open spec fn live_entries(s: Seq<(u32, EntryView)>, expiry: u64, now: u64) -> Seq<(u32, EntryView)> {
    s.filter(|e: (u32, EntryView)| !expired(e.1, expiry, now))
}

/// The servers of the entries, in their order.
pub open spec fn servers_of(s: Seq<(u32, EntryView)>) -> Seq<ServerView> {
    s.map_values(|e: (u32, EntryView)| e.1.server)
}

/// The size of a server record on the wire.
pub open spec fn record_size(s: ServerView) -> int {
    (12 + s.name.len() + s.description.len()) as int
}

/// The total size of server records on the wire.
pub open spec fn records_size(s: Seq<ServerView>) -> int
    decreases s.len(),
{
    if s.len() == 0 {
        0
    } else {
        records_size(s.drop_last()) + record_size(s.last())
    }
}

/// The update record that announces `servers`: the counts and the byte size
/// as 16-bit fields, which keep them modulo 2^16.
pub open spec fn update_for(servers: Seq<ServerView>) -> UpdateRecord {
    UpdateRecord {
        version: TRACKER_VERSION,
        remaining_data_size: (records_size(servers) % 0x1_0000) as u16,
        total_servers: (servers.len() % 0x1_0000) as u16,
        remaining_servers: (servers.len() % 0x1_0000) as u16,
    }
}

/// The views of a sequence of server records.
pub open spec fn views_of(r: Seq<ServerRecord>) -> Seq<ServerView> {
    r.map_values(|x: ServerRecord| x@)
}

/// The servers that have registered, each under the id it chose, with when
/// each last did so.
pub struct ServerRegistry {
    epoch: Instant,
    server_expiry: u64,
    servers: Vec<(u32, ServerEntry)>,
}

impl View for ServerRegistry {
    type V = Seq<(u32, EntryView)>;

    closed spec fn view(&self) -> Seq<(u32, EntryView)> {
        self.servers@.map_values(|e: (u32, ServerEntry)| (e.0, e.1@))
    }
}

proof fn lemma_filter_one(x: (u32, EntryView), pred: spec_fn((u32, EntryView)) -> bool)
    ensures
        seq![x].filter(pred) == if pred(x) {
            seq![x]
        } else {
            Seq::<(u32, EntryView)>::empty()
        },
{
    reveal(Seq::filter);
    assert(seq![x].drop_last() =~= Seq::<(u32, EntryView)>::empty());
    assert(Seq::<(u32, EntryView)>::empty().filter(pred) == Seq::<(u32, EntryView)>::empty());
    assert(Seq::<(u32, EntryView)>::empty().push(x) =~= seq![x]);
}

proof fn lemma_position_of(s: Seq<(u32, EntryView)>, id: u32, i: int)
    requires
        0 <= i,
    ensures
        position_of(s, id, i) == -1 || (i <= position_of(s, id, i) < s.len() && s[position_of(
            s,
            id,
            i,
        )].0 == id),
        position_of(s, id, i) == -1 ==> forall|j: int| i <= j < s.len() ==> #[trigger] s[j].0 != id,
        forall|j: int| i <= j < position_of(s, id, i) ==> #[trigger] s[j].0 != id,
    decreases s.len() - i,
{
    if i < s.len() && s[i].0 != id {
        lemma_position_of(s, id, i + 1);
    }
}

/// Registering keeps ids unique, and afterwards the id holds just the new
/// entry.
pub proof fn lemma_registered(s: Seq<(u32, EntryView)>, id: u32, e: EntryView)
    requires
        unique_ids(s),
    ensures
        unique_ids(registered(s, id, e)),
        registered(s, id, e).contains((id, e)),
        forall|f: EntryView| #[trigger] registered(s, id, e).contains((id, f)) ==> f == e,
        position_of(s, id, 0) >= 0 ==> registered(s, id, e).len() == s.len(),
        position_of(s, id, 0) < 0 ==> registered(s, id, e).len() == s.len() + 1,
{
    lemma_position_of(s, id, 0);
    let p = position_of(s, id, 0);
    let t = registered(s, id, e);
    if p >= 0 {
        assert(t[p] == (id, e));
    } else {
        assert(t[s.len() as int] == (id, e));
    }
    assert forall|f: EntryView| #[trigger] t.contains((id, f)) implies f == e by {
        let k = choose|k: int| 0 <= k < t.len() && t[k] == (id, f);
        if p >= 0 {
            if k != p {
                assert(s[k].0 == id && s[p].0 == id);
            }
        } else {
            if k < s.len() {
                assert(s[k].0 == id);
            }
        }
    }
}

/// Registering again under the same id replaces the entry: the number of
/// entries stays as it was, and the id holds the newer entry only.
pub proof fn lemma_reregistration_overwrites(
    s: Seq<(u32, EntryView)>,
    id: u32,
    first: EntryView,
    second: EntryView,
)
    requires
        unique_ids(s),
    ensures
        registered(registered(s, id, first), id, second).len() == registered(s, id, first).len(),
        registered(registered(s, id, first), id, second).contains((id, second)),
        forall|f: EntryView| #[trigger]
            registered(registered(s, id, first), id, second).contains((id, f)) ==> f == second,
{
    lemma_registered(s, id, first);
    let s1 = registered(s, id, first);
    lemma_position_of(s1, id, 0);
    let k = choose|k: int| 0 <= k < s1.len() && s1[k] == (id, first);
    assert(s1[k].0 == id);
    lemma_registered(s1, id, second);
}

/// An entry stays listed while no more than the expiry has passed since it
/// registered, and is gone once more has.
pub proof fn lemma_expiry(s: Seq<(u32, EntryView)>, id: u32, e: EntryView, expiry: u64, now: u64)
    requires
        unique_ids(s),
        s.contains((id, e)),
    ensures
        now <= e.datestamp + expiry ==> live_entries(s, expiry, now).contains((id, e)),
        now > e.datestamp + expiry ==> forall|f: EntryView| !#[trigger] live_entries(
            s,
            expiry,
            now,
        ).contains((id, f)),
{
    let pred = |x: (u32, EntryView)| !expired(x.1, expiry, now);
    let k = choose|k: int| 0 <= k < s.len() && s[k] == (id, e);
    if now <= e.datestamp + expiry {
        s.lemma_filter_contains(pred, k);
    } else {
        assert forall|f: EntryView| !#[trigger] live_entries(s, expiry, now).contains((id, f)) by {
            if live_entries(s, expiry, now).contains((id, f)) {
                s.lemma_filter_contains_rev(pred, (id, f));
                let m = choose|m: int| 0 <= m < s.len() && s[m] == (id, f);
                assert(s[m].0 == s[k].0);
                let t = s.filter(pred);
                let q = choose|q: int| 0 <= q < t.len() && t[q] == (id, f);
                s.lemma_filter_pred(pred, q);
            }
        }
    }
}

impl ServerRegistry {
    /// The entries' ids are unique.
    pub closed spec fn wf(&self) -> bool {
        unique_ids(self@)
    }

    /// How long an entry stays listed after it registers, in milliseconds.
    pub closed spec fn expiry(&self) -> u64 {
        self.server_expiry
    }

    /// An empty registry whose entries expire after five minutes.
    pub fn new() -> (r: Self)
        ensures
            r.wf(),
            r@ == Seq::<(u32, EntryView)>::empty(),
            r.expiry() == DEFAULT_SERVER_EXPIRY_MS,
    {
        Self::with_expiry(DEFAULT_SERVER_EXPIRY_MS)
    }

    /// An empty registry whose entries expire after `expiry_ms` milliseconds.
    pub fn with_expiry(expiry_ms: u64) -> (r: Self)
        ensures
            r.wf(),
            r@ == Seq::<(u32, EntryView)>::empty(),
            r.expiry() == expiry_ms,
    {
        let r = ServerRegistry { epoch: Instant::now(), server_expiry: expiry_ms, servers: Vec::new() };
        assert(r@ =~= Seq::<(u32, EntryView)>::empty());
        r
    }

    /// Lists the server of `record` at `address` as seen at time `now`,
    /// replacing any entry with the same id.
    pub fn register_at(&mut self, address: [u8; 4], record: RegistrationRecord, now: u64)
        requires
            old(self).wf(),
        ensures
            final(self).wf(),
            final(self).expiry() == old(self).expiry(),
            final(self)@ == registered(
                old(self)@,
                record.id,
                EntryView {
                    datestamp: now,
                    server: ServerView {
                        address: address@,
                        port: record.port,
                        users_online: record.users_online,
                        reserved: record.reserved,
                        name: record@.name,
                        description: record@.description,
                    },
                },
            ),
    {
        let ghost s = self@;
        let id = record.id;
        let entry = ServerEntry::new(record.to_server_record(address), now);
        let ghost ev = entry@;
        proof {
            lemma_registered(s, id, ev);
            lemma_position_of(s, id, 0);
        }
        let mut i: usize = 0;
        while i < self.servers.len()
            invariant
                self@ == s,
                s == old(self)@,
                self.server_expiry == old(self).server_expiry,
                ev == entry@,
                ev == (EntryView {
                    datestamp: now,
                    server: ServerView {
                        address: address@,
                        port: record.port,
                        users_online: record.users_online,
                        reserved: record.reserved,
                        name: record@.name,
                        description: record@.description,
                    },
                }),
                unique_ids(registered(s, id, ev)),
                i <= s.len(),
                self.servers@.len() == s.len(),
                position_of(s, id, 0) == position_of(s, id, i as int),
            ensures
                i <= s.len(),
                i < s.len() ==> position_of(s, id, 0) == i,
                i == s.len() ==> position_of(s, id, 0) == -1,
            decreases s.len() - i,
        {
            assert(self@[i as int].0 == self.servers@[i as int].0);
            if self.servers[i].0 == id {
                assert(position_of(s, id, i as int) == i);
                break;
            }
            i = i + 1;
        }
        if i < self.servers.len() {
            self.servers.set(i, (id, entry));
        } else {
            self.servers.push((id, entry));
        }
        assert(self@ =~= registered(s, id, ev));
    }

    /// Lists the server of `record` at `address` as of now on the registry's
    /// clock, replacing any entry with the same id.
    pub fn register(&mut self, address: [u8; 4], record: RegistrationRecord)
        requires
            old(self).wf(),
        ensures
            final(self).wf(),
            final(self).expiry() == old(self).expiry(),
            exists|now: u64|
                final(self)@ == registered(
                    old(self)@,
                    record.id,
                    EntryView {
                        datestamp: now,
                        server: ServerView {
                            address: address@,
                            port: record.port,
                            users_online: record.users_online,
                            reserved: record.reserved,
                            name: record@.name,
                            description: record@.description,
                        },
                    },
                ),
    {
        let now = millis_since(&self.epoch);
        self.register_at(address, record, now);
    }

    /// Removes the entries that have expired at time `now`.
    pub fn expire_at(&mut self, now: u64)
        requires
            old(self).wf(),
        ensures
            final(self).wf(),
            final(self).expiry() == old(self).expiry(),
            final(self)@ == live_entries(old(self)@, old(self).expiry(), now),
    {
        let ghost s = self@;
        let ghost pred = |x: (u32, EntryView)| !expired(x.1, self.server_expiry, now);
        let mut i: usize = 0;
        let ghost mut j: int = 0;
        proof {
            assert(s.subrange(0, 0).filter(pred) =~= Seq::<(u32, EntryView)>::empty()) by {
                reveal(Seq::filter);
            }
            assert(self@.subrange(0, 0) =~= Seq::<(u32, EntryView)>::empty());
            assert(self@.subrange(0, self@.len() as int) =~= s.subrange(0, s.len() as int));
        }
        while i < self.servers.len()
            invariant
                0 <= i <= j <= s.len(),
                self.server_expiry == old(self).server_expiry,
                pred == (|x: (u32, EntryView)| !expired(x.1, self.server_expiry, now)),
                self@.len() == i + (s.len() - j),
                self.servers@.len() == self@.len(),
                self@.subrange(0, i as int) == s.subrange(0, j).filter(pred),
                self@.subrange(i as int, self@.len() as int) == s.subrange(j, s.len() as int),
                unique_ids(self@),
            decreases self@.len() - i,
        {
            let ghost before = self@;
            assert(before[i as int] == s[j]) by {
                assert(before.subrange(i as int, before.len() as int)[0] == s.subrange(j, s.len() as int)[0]);
            }
            proof {
                assert(s.subrange(0, j + 1) =~= s.subrange(0, j) + seq![s[j]]);
                Seq::filter_distributes_over_add(s.subrange(0, j), seq![s[j]], pred);
                lemma_filter_one(s[j], pred);
            }
            let stamp = self.servers[i].1.datestamp;
            let gone = now > stamp && now - stamp > self.server_expiry;
            if gone {
                assert(!pred(s[j]));
                assert(seq![s[j]].filter(pred) =~= Seq::<(u32, EntryView)>::empty());
                self.servers.remove(i);
                assert(self@ =~= before.remove(i as int));
                assert(self@.subrange(0, i as int) =~= before.subrange(0, i as int));
                assert forall|k: int| 0 <= k < self@.len() - i implies #[trigger] self@.subrange(
                    i as int,
                    self@.len() as int,
                )[k] == s.subrange(j + 1, s.len() as int)[k] by {
                    assert(self@[i + k] == before[i + k + 1]);
                    assert(before.subrange(i as int, before.len() as int)[k + 1] == s.subrange(
                        j,
                        s.len() as int,
                    )[k + 1]);
                }
                assert(self@.subrange(i as int, self@.len() as int) =~= s.subrange(j + 1, s.len() as int));
                assert forall|a: int, b: int| 0 <= a < b < self@.len() implies #[trigger] self@[a].0
                    != #[trigger] self@[b].0 by {
                    let a2 = if a < i { a } else { a + 1 };
                    let b2 = if b < i { b } else { b + 1 };
                    assert(self@[a] == before[a2]);
                    assert(self@[b] == before[b2]);
                }
            } else {
                assert(pred(s[j]));
                assert(seq![s[j]].filter(pred) =~= seq![s[j]]);
                assert(self@.subrange(0, i + 1) =~= self@.subrange(0, i as int) + seq![s[j]]);
                assert forall|k: int| 0 <= k < self@.len() - i - 1 implies #[trigger] self@.subrange(
                    i + 1,
                    self@.len() as int,
                )[k] == s.subrange(j + 1, s.len() as int)[k] by {
                    assert(self@.subrange(i as int, self@.len() as int)[k + 1] == s.subrange(
                        j,
                        s.len() as int,
                    )[k + 1]);
                }
                assert(self@.subrange(i + 1, self@.len() as int) =~= s.subrange(j + 1, s.len() as int));
                i = i + 1;
            }
            proof {
                j = j + 1;
            }
        }
        assert(self@ =~= self@.subrange(0, i as int));
        assert(s.subrange(0, j) =~= s);
    }

    /// Removes the entries that have expired as of now on the registry's
    /// clock.
    pub fn expire(&mut self)
        requires
            old(self).wf(),
        ensures
            final(self).wf(),
            final(self).expiry() == old(self).expiry(),
            exists|now: u64| final(self)@ == live_entries(old(self)@, old(self).expiry(), now),
    {
        let now = millis_since(&self.epoch);
        self.expire_at(now);
    }

    /// Copies of the listed server records, in the order of the entries.
    pub fn server_records(&self) -> (r: Vec<ServerRecord>)
        ensures
            views_of(r@) == servers_of(self@),
    {
        let mut r: Vec<ServerRecord> = Vec::new();
        let mut i: usize = 0;
        while i < self.servers.len()
            invariant
                i <= self.servers@.len(),
                self@.len() == self.servers@.len(),
                r@.len() == i,
                views_of(r@) == servers_of(self@).subrange(0, i as int),
            decreases self.servers@.len() - i,
        {
            let copy = self.servers[i].1.server.clone();
            assert(copy@ == servers_of(self@)[i as int]);
            let ghost r0 = r@;
            r.push(copy);
            assert(r@ == r0.push(copy));
            assert forall|k: int| 0 <= k < i + 1 implies #[trigger] views_of(r@)[k] == servers_of(
                self@,
            ).subrange(0, i + 1)[k] by {
                if k < i {
                    assert(views_of(r0)[k] == servers_of(self@).subrange(0, i as int)[k]);
                }
            }
            assert(views_of(r@) =~= servers_of(self@).subrange(0, i + 1));
            i = i + 1;
        }
        assert(servers_of(self@).subrange(0, i as int) =~= servers_of(self@));
        r
    }

    /// Drops what has expired at time `now`, then announces what is left.
    pub fn create_update_record_at(&mut self, now: u64) -> (r: UpdateRecord)
        requires
            old(self).wf(),
        ensures
            final(self).wf(),
            final(self).expiry() == old(self).expiry(),
            final(self)@ == live_entries(old(self)@, old(self).expiry(), now),
            r == update_for(servers_of(final(self)@)),
    {
        self.expire_at(now);
        let ghost servers = servers_of(self@);
        let mut size: u16 = 0;
        let mut i: usize = 0;
        while i < self.servers.len()
            invariant
                i <= self.servers@.len(),
                self@.len() == self.servers@.len(),
                servers == servers_of(self@),
                size == records_size(servers.subrange(0, i as int)) % 0x1_0000,
            decreases self.servers@.len() - i,
        {
            let n = self.servers[i].1.server.data_size();
            proof {
                assert(servers.subrange(0, i + 1).drop_last() =~= servers.subrange(0, i as int));
                assert(servers[i as int] == self.servers@[i as int].1.server@);
                vstd::arithmetic::div_mod::lemma_add_mod_noop(
                    records_size(servers.subrange(0, i as int)),
                    n as int,
                    0x1_0000,
                );
                vstd::arithmetic::div_mod::lemma_small_mod(n as nat, 0x1_0000);
            }
            size = ((size as usize + n) % 0x1_0000) as u16;
            i = i + 1;
        }
        assert(servers.subrange(0, i as int) =~= servers);
        let count = (self.servers.len() % 0x1_0000) as u16;
        UpdateRecord {
            version: TRACKER_VERSION,
            remaining_data_size: size,
            total_servers: count,
            remaining_servers: count,
        }
    }

    /// Drops what has expired as of now on the registry's clock, then
    /// announces what is left.
    pub fn create_update_record(&mut self) -> (r: UpdateRecord)
        requires
            old(self).wf(),
        ensures
            final(self).wf(),
            final(self).expiry() == old(self).expiry(),
            exists|now: u64| final(self)@ == live_entries(old(self)@, old(self).expiry(), now),
            r == update_for(servers_of(final(self)@)),
    {
        let now = millis_since(&self.epoch);
        self.create_update_record_at(now)
    }

    /// Drops what has expired at time `now`, then takes the listing of what
    /// is left: an update record and the records it announces, from one and
    /// the same state.
    pub fn snapshot_at(&mut self, now: u64) -> (r: (UpdateRecord, Vec<ServerRecord>))
        requires
            old(self).wf(),
        ensures
            final(self).wf(),
            final(self).expiry() == old(self).expiry(),
            final(self)@ == live_entries(old(self)@, old(self).expiry(), now),
            views_of(r.1@) == servers_of(final(self)@),
            r.0 == update_for(views_of(r.1@)),
    {
        let update = self.create_update_record_at(now);
        let servers = self.server_records();
        (update, servers)
    }

    /// As `snapshot_at`, as of now on the registry's clock.
    pub fn snapshot(&mut self) -> (r: (UpdateRecord, Vec<ServerRecord>))
        requires
            old(self).wf(),
        ensures
            final(self).wf(),
            final(self).expiry() == old(self).expiry(),
            exists|now: u64| final(self)@ == live_entries(old(self)@, old(self).expiry(), now),
            views_of(r.1@) == servers_of(final(self)@),
            r.0 == update_for(views_of(r.1@)),
    {
        let now = millis_since(&self.epoch);
        self.snapshot_at(now)
    }
}

impl Default for ServerRegistry {
    fn default() -> (r: Self)
        ensures
            r.wf(),
            r@ == Seq::<(u32, EntryView)>::empty(),
            r.expiry() == DEFAULT_SERVER_EXPIRY_MS,
    {
        Self::new()
    }
}

} // verus!
