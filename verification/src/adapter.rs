//! The adapter registry: the canonical, insert-or-update store of peripheral
//! records for one radio, the identity map that names them, and the
//! multi-subscriber event stream that announces their lifecycle.
//!
//! The reconciliation entry point is [`Adapter::on_sighting`]: one raw
//! sighting either refreshes an existing record and announces
//! `DeviceUpdated`, or creates a record and announces `DeviceDiscovered` —
//! exactly one event either way, so replaying a batch never floods the
//! stream or duplicates records.

use vstd::prelude::*;

use crate::errors::Error;
use crate::events::{event_views, CentralEvent, EventModel};
use crate::identity::{no_entries, resolve_post, IdentityMap};
use crate::models::{
    bledevice_wf, copy_vec, device_views, BleDevice, BleDeviceModel, ScanFilter, ScanFilterModel,
};
use crate::peripheral::{
    peripheral_wf, refreshed_properties, sighted_peripheral, Peripheral, PeripheralId,
    PeripheralModel,
};

verus! {

/// The views of a sequence of records.
pub open spec fn record_views(s: Seq<Peripheral>) -> Seq<PeripheralModel> {
    s.map_values(|p: Peripheral| p@)
}

/// Whether some record carries the given stable id.
pub open spec fn has_record(rs: Seq<PeripheralModel>, id: u128) -> bool {
    exists|i: int| 0 <= i < rs.len() && rs[i].id == id
}

/// No two records carry the same stable id.
pub open spec fn records_unique(rs: Seq<PeripheralModel>) -> bool {
    forall|i: int, j: int| 0 <= i < j < rs.len() ==> rs[i].id != rs[j].id
}

/// How many undelivered events a subscription may hold before it turns
/// lossy and the oldest are dropped.
pub const EVENT_BUFFER: usize = 1024;

/// Where a subscription actually reads, given its cursor and the event
/// count: its cursor, or the start of the bounded buffer when it has
/// fallen behind by more than [`EVENT_BUFFER`].
pub open spec fn read_position(cursor: int, event_count: int) -> int {
    if event_count - cursor > EVENT_BUFFER {
        event_count - EVENT_BUFFER
    } else {
        cursor
    }
}

/// The position of the first record carrying the given stable id.
pub open spec fn record_position(rs: Seq<PeripheralModel>, id: u128) -> int
    decreases rs.len(),
{
    if rs.len() == 0 {
        0
    } else if rs[0].id == id {
        0
    } else {
        1 + record_position(rs.drop_first(), id)
    }
}

/// `record_position` finds exactly the first matching index.
pub proof fn lemma_record_position(rs: Seq<PeripheralModel>, id: u128, i: int)
    requires
        0 <= i < rs.len(),
        rs[i].id == id,
        forall|k: int| 0 <= k < i ==> rs[k].id != id,
    ensures
        record_position(rs, id) == i,
    decreases rs.len(),
{
    if i == 0 {
    } else {
        assert forall|k: int| 0 <= k < i - 1 implies rs.drop_first()[k].id != id by {
            assert(rs.drop_first()[k] == rs[k + 1]);
        }
        assert(rs.drop_first()[i - 1] == rs[i]);
        lemma_record_position(rs.drop_first(), id, i - 1);
    }
}

/// The mathematical value of an [`Adapter`].
#[verifier::ext_equal]
pub struct AdapterModel {
    /// The identity map: native identifier to stable id.
    pub identity: Map<Seq<char>, u128>,
    /// The records, indexed by position; ids unique.
    pub records: Seq<PeripheralModel>,
    /// Every event emitted so far, in emission order.
    pub events: Seq<EventModel>,
    /// One read position per subscription, at most the event count.
    pub cursors: Seq<usize>,
    /// Whether the event stream was torn down.
    pub closed: bool,
    /// Whether a scan is running.
    pub scanning: bool,
    /// The filter the running (or last) scan threads through to the
    /// backend.
    pub filter: ScanFilterModel,
}

/// Validity of the registry: a well-formed identity map, unique record
/// ids, well-formed records, and cursors within the event log.
pub open spec fn adapter_wf(m: AdapterModel) -> bool {
    &&& m.identity.dom().finite()
    &&& m.identity.is_injective()
    &&& records_unique(m.records)
    &&& forall|i: int| 0 <= i < m.records.len() ==> peripheral_wf(#[trigger] m.records[i])
    &&& forall|k: int| 0 <= k < m.cursors.len() ==> #[trigger] m.cursors[k] <= m.events.len()
}

/// What reconciling one sighting promises: the native identifier is
/// resolved to `id` (minted if unseen), and then either the existing
/// record with that id has exactly its properties refreshed and one
/// `DeviceUpdated` event is appended, or — when no record carries the id —
/// one record seeded from the sighting and one `DeviceDiscovered` event
/// are appended. Nothing else of the registry changes.
pub open spec fn sighting_post(
    pre: AdapterModel,
    post: AdapterModel,
    d: BleDeviceModel,
    id: PeripheralId,
) -> bool {
    &&& resolve_post(pre.identity, post.identity, d.address, id.0)
    &&& (has_record(pre.records, id.0) ==> exists|i: int|
        {
            &&& 0 <= i < pre.records.len()
            &&& pre.records[i].id == id.0
            &&& post == (AdapterModel {
                identity: post.identity,
                records: pre.records.update(
                    i,
                    (PeripheralModel {
                        properties: refreshed_properties(pre.records[i].properties, d),
                        ..pre.records[i]
                    }),
                ),
                events: pre.events.push(EventModel::DeviceUpdated(id)),
                ..pre
            })
        })
    &&& (!has_record(pre.records, id.0) ==> post == (AdapterModel {
        identity: post.identity,
        records: pre.records.push(sighted_peripheral(id.0, d)),
        events: pre.events.push(EventModel::DeviceDiscovered(id)),
        ..pre
    }))
}

/// What reconciling a whole batch, sighting by sighting and in order,
/// promises: a chain of single-sighting steps through intermediate
/// registry states, handing back one stable id per sighting.
pub open spec fn batch_post(
    pre: AdapterModel,
    post: AdapterModel,
    ds: Seq<BleDeviceModel>,
    ids: Seq<PeripheralId>,
) -> bool
    decreases ds.len(),
{
    if ds.len() == 0 {
        &&& post == pre
        &&& ids.len() == 0
    } else {
        &&& ids.len() == ds.len()
        &&& exists|mid: AdapterModel|
            {
                &&& batch_post(pre, mid, ds.drop_last(), ids.drop_last())
                &&& #[trigger] sighting_post(mid, post, ds.last(), ids.last())
            }
    }
}

/// One more reconciled sighting extends a batch chain by one step.
pub proof fn lemma_batch_post_step(
    pre: AdapterModel,
    mid: AdapterModel,
    post: AdapterModel,
    ds: Seq<BleDeviceModel>,
    ids: Seq<PeripheralId>,
    d: BleDeviceModel,
    id: PeripheralId,
)
    requires
        batch_post(pre, mid, ds, ids),
        sighting_post(mid, post, d, id),
    ensures
        batch_post(pre, post, ds.push(d), ids.push(id)),
{
    assert(ds.push(d).drop_last() =~= ds);
    assert(ids.push(id).drop_last() =~= ids);
    assert(ds.push(d).last() == d);
    assert(ids.push(id).last() == id);
    assert(batch_post(pre, mid, ds.push(d).drop_last(), ids.push(id).drop_last()));
    assert(sighting_post(mid, post, ds.push(d).last(), ids.push(id).last()));
    assert(ids.push(id).len() == ds.push(d).len());
}

/// The model of a registry fresh from construction.
pub open spec fn empty_adapter() -> AdapterModel {
    AdapterModel {
        identity: no_entries(),
        records: Seq::empty(),
        events: Seq::empty(),
        cursors: Seq::empty(),
        closed: false,
        scanning: false,
        filter: ScanFilterModel::Unfiltered,
    }
}

/// One adapter: the shared collection of peripheral records for one radio,
/// with insert-or-update reconciliation and a broadcast event stream.
#[derive(Debug)]
pub struct Adapter {
    identity: IdentityMap,
    records: Vec<Peripheral>,
    events: Vec<CentralEvent>,
    cursors: Vec<usize>,
    closed: bool,
    scanning: bool,
    filter: ScanFilter,
}

impl View for Adapter {
    type V = AdapterModel;

    closed spec fn view(&self) -> AdapterModel {
        AdapterModel {
            identity: self.identity.entries(),
            records: record_views(self.records@),
            events: event_views(self.events@),
            cursors: self.cursors@,
            closed: self.closed,
            scanning: self.scanning,
            filter: self.filter@,
        }
    }
}

impl Adapter {
    /// A fresh registry: no identities, no records, no events, no
    /// subscribers.
    pub fn new() -> (a: Adapter)
        ensures
            a@ == empty_adapter(),
            adapter_wf(a@),
    {
        let a = Adapter {
            identity: IdentityMap::new(),
            records: Vec::new(),
            events: Vec::new(),
            cursors: Vec::new(),
            closed: false,
            scanning: false,
            filter: ScanFilter::Unfiltered,
        };
        proof {
            assert(a@ =~= empty_adapter());
        }
        a
    }

    /// The position of the record with the given stable id.
    fn index_of_record(&self, id: u128) -> (r: Option<usize>)
        ensures
            match r {
                Option::Some(i) => i < self@.records.len() && self@.records[i as int].id == id
                    && (forall|k: int| 0 <= k < i ==> self@.records[k].id != id),
                Option::None => !has_record(self@.records, id),
            },
    {
        let mut i: usize = 0;
        while i < self.records.len()
            invariant
                i <= self@.records.len(),
                forall|k: int| 0 <= k < i ==> self@.records[k].id != id,
            decreases self@.records.len() - i,
        {
            if self.records[i].id().0 == id {
                return Option::Some(i);
            }
            i = i + 1;
        }
        Option::None
    }

    /// A snapshot of the record with the given stable id; nothing when the
    /// registry holds none. Never an error: callers decide whether absence
    /// is exceptional.
    pub fn peripheral(&self, id: &PeripheralId) -> (r: Option<Peripheral>)
        ensures
            match r {
                Option::Some(p) => has_record(self@.records, id.0) && exists|i: int|
                    0 <= i < self@.records.len() && self@.records[i].id == id.0 && p@
                        == self@.records[i],
                Option::None => !has_record(self@.records, id.0),
            },
    {
        match self.index_of_record(id.0) {
            Option::Some(i) => Option::Some(self.records[i].clone()),
            Option::None => Option::None,
        }
    }

    /// An exclusive mutation handle on the record with the given stable
    /// id, if present. While the borrow lives no other mutator can touch
    /// the registry; the registry's state afterwards carries exactly the
    /// mutation made through the handle.
    pub fn peripheral_mut(&mut self, id: &PeripheralId) -> (r: Option<&mut Peripheral>)
        ensures
            match r {
                Option::Some(p) => {
                    &&& has_record(old(self)@.records, id.0)
                    &&& (*p)@ == old(self)@.records[record_position(old(self)@.records, id.0)]
                    &&& final(self)@ == (AdapterModel {
                        records: old(self)@.records.update(
                            record_position(old(self)@.records, id.0),
                            (*final(p))@,
                        ),
                        ..old(self)@
                    })
                },
                Option::None => !has_record(old(self)@.records, id.0) && final(self)@ == old(
                    self,
                )@,
            },
    {
        match self.index_of_record(id.0) {
            Option::Some(i) => {
                proof {
                    lemma_record_position(self@.records, id.0, i as int);
                }
                Option::Some(&mut self.records[i])
            },
            Option::None => Option::None,
        }
    }

    /// Snapshots of every record.
    pub fn peripherals(&self) -> (r: Vec<Peripheral>)
        ensures
            record_views(r@) == self@.records,
    {
        let mut r: Vec<Peripheral> = Vec::new();
        let mut i: usize = 0;
        while i < self.records.len()
            invariant
                i <= self@.records.len(),
                r@.len() == i,
                record_views(r@) =~= self@.records.take(i as int),
            decreases self@.records.len() - i,
        {
            r.push(self.records[i].clone());
            i = i + 1;
        }
        proof {
            assert(self@.records.take(self@.records.len() as int) =~= self@.records);
        }
        r
    }

    /// Insert a record under its stable id. Inserting an id the registry
    /// already holds is a caller's logic error: it is signalled, never
    /// silently overwritten, because an overwrite would race the update
    /// path.
    pub fn add_peripheral(&mut self, p: Peripheral) -> (r: Result<(), Error>)
        ensures
            match r {
                Result::Ok(u) => !has_record(old(self)@.records, p@.id) && final(self)@
                    == (AdapterModel { records: old(self)@.records.push(p@), ..old(self)@ }),
                Result::Err(e) => e is RuntimeError && has_record(old(self)@.records, p@.id)
                    && final(self)@ == old(self)@,
            },
    {
        match self.index_of_record(p.id().0) {
            Option::Some(_) => Result::Err(
                Error::RuntimeError(String::from_str("duplicate peripheral id")),
            ),
            Option::None => {
                self.records.push(p);
                proof {
                    assert(record_views(self.records@) =~= old(self)@.records.push(
                        self.records@[self.records@.len() - 1]@,
                    ));
                    assert(self@ =~= (AdapterModel {
                        records: old(self)@.records.push(self.records@[self.records@.len() - 1]@),
                        ..old(self)@
                    }));
                }
                Result::Ok(())
            },
        }
    }

    /// Append one event to the stream. Delivery to any single subscriber
    /// matches emission order; emission itself never blocks on a slow
    /// subscriber.
    pub fn emit(&mut self, event: CentralEvent)
        ensures
            final(self)@ == (AdapterModel {
                events: old(self)@.events.push(event@),
                ..old(self)@
            }),
    {
        let ghost ev = event@;
        self.events.push(event);
        proof {
            assert(event_views(self.events@) =~= old(self)@.events.push(ev));
            assert(self@ =~= (AdapterModel { events: old(self)@.events.push(ev), ..old(self)@ }));
        }
    }

    /// Open a new, independent subscription to the event stream. The
    /// subscriber receives only events emitted from now on; existing
    /// subscriptions are untouched.
    pub fn events(&mut self) -> (sub: usize)
        ensures
            sub == old(self)@.cursors.len(),
            final(self)@ == (AdapterModel {
                cursors: old(self)@.cursors.push((old(self)@.events.len()) as usize),
                ..old(self)@
            }),
    {
        let sub = self.cursors.len();
        let here = self.events.len();
        self.cursors.push(here);
        proof {
            assert(self@ =~= (AdapterModel {
                cursors: old(self)@.cursors.push((old(self)@.events.len()) as usize),
                ..old(self)@
            }));
        }
        sub
    }

    /// The next event of one subscription: the oldest not yet delivered to
    /// it, in emission order. A subscriber that has fallen more than
    /// [`EVENT_BUFFER`] events behind is lossy: the oldest events are
    /// dropped and delivery resumes that many before the newest. Nothing
    /// pending gives `Ok(None)` on a live stream and `ChannelClosed` on a
    /// torn-down one.
    pub fn next_event(&mut self, sub: usize) -> (r: Result<Option<CentralEvent>, Error>)
        requires
            sub < old(self)@.cursors.len(),
            adapter_wf(old(self)@),
        ensures
            adapter_wf(final(self)@),
            ({
                let at = read_position(
                    old(self)@.cursors[sub as int] as int,
                    old(self)@.events.len() as int,
                );
                if at < old(self)@.events.len() {
                    r matches Result::Ok(o) && o matches Option::Some(e) && e@
                        == old(self)@.events[at] && final(self)@ == (AdapterModel {
                        cursors: old(self)@.cursors.update(sub as int, (at + 1) as usize),
                        ..old(self)@
                    })
                } else if old(self)@.closed {
                    r matches Result::Err(e) && e is ChannelClosed && final(self)@ == old(self)@
                } else {
                    r matches Result::Ok(o) && o is None && final(self)@ == old(self)@
                }
            }),
    {
        let behind = self.cursors[sub];
        let here = self.events.len();
        let at = if here - behind > EVENT_BUFFER {
            here - EVENT_BUFFER
        } else {
            behind
        };
        if at < here {
            let e = self.events[at].clone();
            self.cursors.set(sub, at + 1);
            proof {
                assert(self@ =~= (AdapterModel {
                    cursors: old(self)@.cursors.update(sub as int, (at + 1) as usize),
                    ..old(self)@
                }));
            }
            Result::Ok(Option::Some(e))
        } else if self.closed {
            Result::Err(Error::ChannelClosed)
        } else {
            Result::Ok(Option::None)
        }
    }

    /// Tear the event stream down: no further event is deliverable, and a
    /// drained subscriber gets the stream-closed signal from now on.
    pub fn close(&mut self)
        ensures
            final(self)@ == (AdapterModel { closed: true, ..old(self)@ }),
    {
        self.closed = true;
        proof {
            assert(self@ =~= (AdapterModel { closed: true, ..old(self)@ }));
        }
    }

    /// Start a scan: remember the filter for the backend to match. The
    /// scan itself runs in the external transport collaborator, which
    /// hands each resulting sighting to `on_sighting`.
    pub fn start_scan(&mut self, filter: ScanFilter)
        ensures
            final(self)@ == (AdapterModel { scanning: true, filter: filter@, ..old(self)@ }),
    {
        let ghost f = filter@;
        self.filter = filter;
        self.scanning = true;
        proof {
            assert(self@ =~= (AdapterModel { scanning: true, filter: f, ..old(self)@ }));
        }
    }

    /// Stop the scan: no further sighting batches are processed. An
    /// in-flight reconciliation of an already-delivered batch completes.
    pub fn stop_scan(&mut self)
        ensures
            final(self)@ == (AdapterModel { scanning: false, ..old(self)@ }),
    {
        self.scanning = false;
        proof {
            assert(self@ =~= (AdapterModel { scanning: false, ..old(self)@ }));
        }
    }

    /// Whether a scan is running.
    pub fn is_scanning(&self) -> (r: bool)
        ensures
            r == self@.scanning,
    {
        self.scanning
    }

    /// The filter the running (or last) scan threads through.
    pub fn scan_filter(&self) -> (r: &ScanFilter)
        ensures
            r@ == self@.filter,
    {
        &self.filter
    }

    /// A label for the backend this registry fronts.
    pub fn adapter_info(&self) -> (r: String)
        ensures
            r@ == "WebBluetooth"@,
    {
        String::from_str("WebBluetooth")
    }

    /// Reconcile one raw sighting. The native identifier is resolved to
    /// its stable id — minted now if this is the first sighting ever — and
    /// then exactly one of two things happens: an existing record has its
    /// properties refreshed and `DeviceUpdated` is emitted, or a record is
    /// created, seeded from the sighting, and `DeviceDiscovered` is
    /// emitted. Exactly one event per call either way.
    pub fn on_sighting(&mut self, sighting: &BleDevice) -> (id: PeripheralId)
        requires
            adapter_wf(old(self)@),
            bledevice_wf(sighting@),
            sighting@.address.len() > 0,
        ensures
            adapter_wf(final(self)@),
            sighting_post(old(self)@, final(self)@, sighting@, id),
    {
        let id_bits = self.identity.resolve(&sighting.address);
        let id = PeripheralId(id_bits);
        match self.index_of_record(id_bits) {
            Option::Some(i) => {
                let ghost mid = self@;
                let ghost before = self@.records[i as int];
                let rec = &mut self.records[i];
                rec.update_properties(sighting);
                proof {
                    assert(record_views(self.records@) =~= mid.records.update(
                        i as int,
                        (PeripheralModel {
                            properties: refreshed_properties(before.properties, sighting@),
                            ..before
                        }),
                    ));
                }
                self.emit(CentralEvent::DeviceUpdated(id));
                proof {
                    let fin = self@;
                    assert(fin =~= (AdapterModel {
                        identity: fin.identity,
                        records: old(self)@.records.update(
                            i as int,
                            (PeripheralModel {
                                properties: refreshed_properties(before.properties, sighting@),
                                ..before
                            }),
                        ),
                        events: old(self)@.events.push(EventModel::DeviceUpdated(id)),
                        ..old(self)@
                    }));
                    assert(has_record(old(self)@.records, id.0));
                    assert forall|a: int, b: int| 0 <= a < b < fin.records.len() implies fin.records[a].id
                        != fin.records[b].id by {
                        assert(old(self)@.records[a].id == fin.records[a].id);
                        assert(old(self)@.records[b].id == fin.records[b].id);
                    }
                    assert forall|k: int| 0 <= k < fin.records.len() implies peripheral_wf(
                        #[trigger] fin.records[k],
                    ) by {
                        if k != i as int {
                            assert(fin.records[k] == old(self)@.records[k]);
                        }
                    }
                }
                id
            },
            Option::None => {
                let mut p = Peripheral::new(
                    id,
                    sighting.address.clone(),
                    Option::Some(sighting.name.clone()),
                    copy_vec(&sighting.services),
                );
                p.update_properties(sighting);
                proof {
                    assert(p@ =~= sighted_peripheral(id_bits, sighting@));
                }
                let ghost mid = self@;
                self.records.push(p);
                proof {
                    assert(record_views(self.records@) =~= mid.records.push(
                        sighted_peripheral(id_bits, sighting@),
                    ));
                }
                self.emit(CentralEvent::DeviceDiscovered(id));
                proof {
                    let fin = self@;
                    assert(fin =~= (AdapterModel {
                        identity: fin.identity,
                        records: old(self)@.records.push(sighted_peripheral(id_bits, sighting@)),
                        events: old(self)@.events.push(EventModel::DeviceDiscovered(id)),
                        ..old(self)@
                    }));
                    assert forall|a: int, b: int| 0 <= a < b < fin.records.len() implies fin.records[a].id
                        != fin.records[b].id by {
                        if b == fin.records.len() - 1 {
                            assert(fin.records[a] == old(self)@.records[a]);
                            assert(!has_record(old(self)@.records, id.0));
                        } else {
                            assert(fin.records[a] == old(self)@.records[a]);
                            assert(fin.records[b] == old(self)@.records[b]);
                        }
                    }
                    assert forall|k: int| 0 <= k < fin.records.len() implies peripheral_wf(
                        #[trigger] fin.records[k],
                    ) by {
                        if k < fin.records.len() - 1 {
                            assert(fin.records[k] == old(self)@.records[k]);
                        }
                    }
                }
                id
            },
        }
    }
}

impl Adapter {
    /// Reconcile one scan batch, sighting by sighting and in order: the
    /// body of a scan round. Replaying the identical batch reconciles to
    /// byte-for-byte equal records, with one event per sighting.
    #[verifier::loop_isolation(false)]
    pub fn on_sightings(&mut self, batch: &Vec<BleDevice>) -> (ids: Vec<PeripheralId>)
        requires
            adapter_wf(old(self)@),
            forall|i: int|
                0 <= i < batch@.len() ==> bledevice_wf(#[trigger] device_views(batch@)[i])
                    && device_views(batch@)[i].address.len() > 0,
        ensures
            adapter_wf(final(self)@),
            ids@.len() == batch@.len(),
            batch_post(old(self)@, final(self)@, device_views(batch@), ids@),
    {
        let ghost ds = device_views(batch@);
        let mut ids: Vec<PeripheralId> = Vec::new();
        proof {
            assert(ds.take(0) =~= Seq::<BleDeviceModel>::empty());
        }
        let mut i: usize = 0;
        while i < batch.len()
            invariant
                i <= batch@.len(),
                ids@.len() == i,
                adapter_wf(self@),
                batch_post(old(self)@, self@, ds.take(i as int), ids@),
            decreases batch@.len() - i,
        {
            let ghost mid = self@;
            let ghost ids0 = ids@;
            proof {
                assert(ds[i as int] == batch@[i as int]@);
            }
            let id = self.on_sighting(&batch[i]);
            ids.push(id);
            proof {
                lemma_batch_post_step(
                    old(self)@,
                    mid,
                    self@,
                    ds.take(i as int),
                    ids0,
                    ds[i as int],
                    id,
                );
                assert(ds.take(i as int + 1) =~= ds.take(i as int).push(ds[i as int]));
                assert(ids@ =~= ids0.push(id));
            }
            i = i + 1;
        }
        proof {
            assert(ds.take(batch@.len() as int) =~= ds);
        }
        ids
    }
}

/// Refreshing a record's properties from one sighting is idempotent: a
/// second refresh from the same sighting changes nothing.
pub proof fn lemma_refresh_idempotent(
    p: crate::peripheral::PropertiesModel,
    d: BleDeviceModel,
)
    ensures
        refreshed_properties(refreshed_properties(p, d), d) == refreshed_properties(p, d),
{
    assert(refreshed_properties(refreshed_properties(p, d), d) =~= refreshed_properties(p, d));
}

/// Replaying an identical sighting for an existing record leaves the
/// stored record unchanged: the update that reconciliation applies to it
/// is the identity. Together with `on_sighting`'s contract, the replay
/// emits exactly one `DeviceUpdated` event and stores equal state.
pub proof fn lemma_replay_leaves_record(m: PeripheralModel, d: BleDeviceModel)
    requires
        m.properties == refreshed_properties(m.properties, d),
    ensures
        (PeripheralModel { properties: refreshed_properties(m.properties, d), ..m }) == m,
{
    assert((PeripheralModel { properties: refreshed_properties(m.properties, d), ..m }) =~= m);
}

/// A record freshly created from a sighting already carries that
/// sighting's data: the follow-up refresh that a replay applies is the
/// identity. This is why a first sighting followed by a replay stores
/// byte-for-byte equal state.
pub proof fn lemma_sighted_record_is_refreshed(id: u128, d: BleDeviceModel)
    ensures
        sighted_peripheral(id, d).properties == refreshed_properties(
            sighted_peripheral(id, d).properties,
            d,
        ),
{
    assert(sighted_peripheral(id, d).properties =~= refreshed_properties(
        sighted_peripheral(id, d).properties,
        d,
    ));
}

/// A first-time sighting creates exactly one record and emits exactly one
/// `DeviceDiscovered` event: the registry after it holds one more record —
/// the seeded one, at the end — and one more event.
pub proof fn lemma_first_sighting(
    pre: AdapterModel,
    post: AdapterModel,
    d: BleDeviceModel,
    id: PeripheralId,
)
    requires
        post.records == pre.records.push(sighted_peripheral(id.0, d)),
        post.events == pre.events.push(EventModel::DeviceDiscovered(id)),
    ensures
        post.records.len() == pre.records.len() + 1,
        post.records.last() == sighted_peripheral(id.0, d),
        post.events.len() == pre.events.len() + 1,
        post.events.last() == EventModel::DeviceDiscovered(id),
{
}

} // verus!
