//! The reconciliation engine: a store of business records that takes feed
//! candidates through an upsert guarded by the registration flag, and user
//! registrations through an unconditional upsert keyed on the id.
use vstd::prelude::*;

use crate::business::{
    copy_opt_text, copy_opt_texts, copy_texts, opt_text, opt_texts, Business,
    BusinessInsert, BusinessView, InsertView,
};
use crate::category::{
    canonical_categories, canonical_form, classify, is_car_related, lemma_canonical_form_of_canonical,
    lemma_canonical_members, lemma_classify_canonical, BusinessCategory,
};
use crate::overpass::{candidate_of, ElementView, OverpassElement};

verus! {

/// What an upsert keyed on the feed id did to the record with that id.
#[derive(Clone, Copy, Debug, PartialEq, Eq, Structural)]
pub enum UpsertOutcome {
    /// A new record with this id was written.
    Inserted(u128),
    /// The unregistered record with this id took the candidate's fields.
    Updated(u128),
    /// The record with this id is registered and was left as it was.
    Unchanged(u128),
}

/// Why a write did not take place.
#[derive(Clone, Copy, Debug, PartialEq, Eq, Structural)]
pub enum StoreError {
    /// The id chosen for a new record already belongs to another record.
    DuplicateId,
    /// A record that was just written could not be read back.
    NotFound,
}

/// A registration of a business by a user, with its own id and an explicit
/// category list. Coordinates are in units of 1e-7 degree.
#[derive(Clone, Debug)]
pub struct CreateUserBusinessRequest {
    pub id: u128,
    pub name: Option<String>,
    pub name_en: Option<String>,
    pub address: Option<String>,
    pub latitude_e7: i32,
    pub longitude_e7: i32,
    pub categories: Vec<BusinessCategory>,
    pub specializations: Option<Vec<String>>,
    pub city: Option<String>,
    pub logo_map_url: Option<String>,
}

/// The mathematical content of a registration.
pub struct RequestView {
    pub id: u128,
    pub name: Option<Seq<char>>,
    pub name_en: Option<Seq<char>>,
    pub address: Option<Seq<char>>,
    pub latitude_e7: i32,
    pub longitude_e7: i32,
    pub categories: Seq<BusinessCategory>,
    pub specializations: Option<Seq<Seq<char>>>,
    pub city: Option<Seq<char>>,
    pub logo_map_url: Option<Seq<char>>,
}

impl View for CreateUserBusinessRequest {
    type V = RequestView;

    open spec fn view(&self) -> RequestView {
        RequestView {
            id: self.id,
            name: opt_text(self.name),
            name_en: opt_text(self.name_en),
            address: opt_text(self.address),
            latitude_e7: self.latitude_e7,
            longitude_e7: self.longitude_e7,
            categories: self.categories@,
            specializations: opt_texts(self.specializations),
            city: opt_text(self.city),
            logo_map_url: opt_text(self.logo_map_url),
        }
    }
}

/// No two records share an id.
pub open spec fn ids_unique(s: Seq<BusinessView>) -> bool {
    forall|i: int, j: int| 0 <= i < j < s.len() ==> s[i].id != s[j].id
}

/// No two records share a feed id.
pub open spec fn osm_ids_unique(s: Seq<BusinessView>) -> bool {
    forall|i: int, j: int|
        0 <= i < j < s.len() && s[i].osm_id is Some ==> s[i].osm_id != s[j].osm_id
}

/// The invariant of the stored records.
pub open spec fn records_wf(s: Seq<BusinessView>) -> bool {
    &&& ids_unique(s)
    &&& osm_ids_unique(s)
    &&& forall|i: int| 0 <= i < s.len() ==> (#[trigger] s[i]).well_formed()
}

/// Some record has feed id `x`.
pub open spec fn has_osm_id(s: Seq<BusinessView>, x: i64) -> bool {
    exists|i: int| 0 <= i < s.len() && (#[trigger] s[i]).osm_id == Some(x)
}

/// The position of the record with feed id `x`.
pub open spec fn osm_position(s: Seq<BusinessView>, x: i64) -> int {
    choose|i: int| 0 <= i < s.len() && (#[trigger] s[i]).osm_id == Some(x)
}

/// Some record has id `id`.
pub open spec fn has_id(s: Seq<BusinessView>, id: u128) -> bool {
    exists|i: int| 0 <= i < s.len() && (#[trigger] s[i]).id == id
}

/// The position of the record with id `id`.
pub open spec fn id_position(s: Seq<BusinessView>, id: u128) -> int {
    choose|i: int| 0 <= i < s.len() && (#[trigger] s[i]).id == id
}

/// The update time of a record last written at `previous` and written
/// again at `now`: never before its previous update, even when the clock
/// went back.
pub open spec fn update_time(previous: i64, now: i64) -> i64 {
    if now >= previous {
        now
    } else {
        previous
    }
}

/// The unregistered record that a candidate becomes under a new id.
pub open spec fn inserted_record(c: InsertView, id: u128, now: i64) -> BusinessView {
    BusinessView {
        id,
        osm_id: Some(c.osm_id),
        name: c.name,
        name_en: c.name_en,
        address: c.address,
        latitude_e7: c.latitude_e7,
        longitude_e7: c.longitude_e7,
        categories: canonical_form(c.categories),
        specializations: None,
        created_at: now,
        updated_at: now,
        logo_map_url: None,
        is_registered: false,
        city: c.city,
        average_reviews_x100: 0,
        review_count: 0,
    }
}

/// An unregistered record after it takes a candidate's fields.
pub open spec fn refreshed_record(b: BusinessView, c: InsertView, now: i64) -> BusinessView {
    BusinessView {
        name: c.name,
        name_en: c.name_en,
        address: c.address,
        latitude_e7: c.latitude_e7,
        longitude_e7: c.longitude_e7,
        categories: canonical_form(c.categories),
        city: c.city,
        updated_at: update_time(b.updated_at, now),
        ..b
    }
}

/// The records and the outcome after upserting candidate `c` keyed on its
/// feed id, with `fresh` as the id of a new record: a registered record is
/// left alone, an unregistered one takes the candidate's fields, and a
/// missing one is inserted unless `fresh` is taken.
pub open spec fn upsert_result(s: Seq<BusinessView>, c: InsertView, fresh: u128, now: i64) -> (
    Seq<BusinessView>,
    Result<UpsertOutcome, StoreError>,
) {
    if has_osm_id(s, c.osm_id) {
        let i = osm_position(s, c.osm_id);
        if s[i].is_registered {
            (s, Ok(UpsertOutcome::Unchanged(s[i].id)))
        } else {
            (s.update(i, refreshed_record(s[i], c, now)), Ok(UpsertOutcome::Updated(s[i].id)))
        }
    } else if has_id(s, fresh) {
        (s, Err(StoreError::DuplicateId))
    } else {
        (s.push(inserted_record(c, fresh, now)), Ok(UpsertOutcome::Inserted(fresh)))
    }
}

/// An upsert that wrote something.
pub open spec fn wrote(o: Result<UpsertOutcome, StoreError>) -> bool {
    ||| o matches Ok(UpsertOutcome::Inserted(_))
    ||| o matches Ok(UpsertOutcome::Updated(_))
}

/// One element of a sync pass: the records after it, and whether it counts.
pub open spec fn sync_step(s: Seq<BusinessView>, e: ElementView, fresh: u128, now: i64) -> (
    Seq<BusinessView>,
    bool,
) {
    match candidate_of(e) {
        None => (s, false),
        Some(c) => {
            let (s2, o) = upsert_result(s, c, fresh, now);
            (s2, wrote(o))
        },
    }
}

/// A sync pass over `es`, element by element, with the new ids and clock
/// readings used for each: the records after it and the count of writes.
pub open spec fn sync_all(
    s: Seq<BusinessView>,
    es: Seq<ElementView>,
    ids: Seq<u128>,
    times: Seq<i64>,
) -> (Seq<BusinessView>, nat)
    decreases es.len(),
{
    if es.len() == 0 {
        (s, 0)
    } else {
        let (s1, n1) = sync_all(s, es.drop_last(), ids.drop_last(), times.drop_last());
        let (s2, b) = sync_step(s1, es.last(), ids.last(), times.last());
        (s2, n1 + if b {
            1nat
        } else {
            0nat
        })
    }
}

/// The categories a registration stores: its list, each once, in canonical order.
pub open spec fn requested_categories(r: RequestView) -> Seq<BusinessCategory> {
    canonical_form(r.categories)
}

/// The specializations a registration stores: an absent list is stored empty.
pub open spec fn requested_specializations(r: RequestView) -> Option<Seq<Seq<char>>> {
    match r.specializations {
        Some(v) => Some(v),
        None => Some(Seq::empty()),
    }
}

/// The fields of `b` that a registration sets hold what `r` gave.
pub open spec fn holds_registration(b: BusinessView, r: RequestView) -> bool {
    &&& b.id == r.id
    &&& b.name == r.name
    &&& b.name_en == r.name_en
    &&& b.address == r.address
    &&& b.latitude_e7 == r.latitude_e7
    &&& b.longitude_e7 == r.longitude_e7
    &&& b.categories == requested_categories(r)
    &&& b.specializations == requested_specializations(r)
    &&& b.city == r.city
    &&& b.logo_map_url == r.logo_map_url
    &&& b.is_registered
}

/// A record after registration `r` overwrites it.
pub open spec fn overwritten_record(b: BusinessView, r: RequestView, now: i64) -> BusinessView {
    BusinessView {
        name: r.name,
        name_en: r.name_en,
        address: r.address,
        latitude_e7: r.latitude_e7,
        longitude_e7: r.longitude_e7,
        categories: requested_categories(r),
        specializations: requested_specializations(r),
        city: r.city,
        logo_map_url: r.logo_map_url,
        is_registered: true,
        updated_at: update_time(b.updated_at, now),
        ..b
    }
}

/// The record a registration creates when its id is new.
pub open spec fn registered_record(r: RequestView, now: i64) -> BusinessView {
    BusinessView {
        id: r.id,
        osm_id: None,
        name: r.name,
        name_en: r.name_en,
        address: r.address,
        latitude_e7: r.latitude_e7,
        longitude_e7: r.longitude_e7,
        categories: requested_categories(r),
        specializations: requested_specializations(r),
        created_at: now,
        updated_at: now,
        logo_map_url: r.logo_map_url,
        is_registered: true,
        city: r.city,
        average_reviews_x100: 0,
        review_count: 0,
    }
}

/// The records after registration `r` at time `now`.
pub open spec fn register_result(s: Seq<BusinessView>, r: RequestView, now: i64) -> Seq<
    BusinessView,
> {
    if has_id(s, r.id) {
        let i = id_position(s, r.id);
        s.update(i, overwritten_record(s[i], r, now))
    } else {
        s.push(registered_record(r, now))
    }
}

/// The records after deleting the record with id `id`, which only an
/// unregistered record allows.
pub open spec fn delete_result(s: Seq<BusinessView>, id: u128) -> (Seq<BusinessView>, bool) {
    if has_id(s, id) && !s[id_position(s, id)].is_registered {
        (s.remove(id_position(s, id)), true)
    } else {
        (s, false)
    }
}

/// An element without a latitude or a longitude counts for nothing and
/// leaves the records as they were.
pub proof fn lemma_unpositioned_element_is_skipped(
    s: Seq<BusinessView>,
    e: ElementView,
    fresh: u128,
    now: i64,
)
    requires
        e.lat_e7 is None || e.lon_e7 is None,
    ensures
        sync_step(s, e, fresh, now) == (s, false),
{
}

/// A sync pass over elements that all lack a position writes nothing and
/// counts zero.
pub proof fn lemma_unpositioned_pass_writes_nothing(
    s: Seq<BusinessView>,
    es: Seq<ElementView>,
    ids: Seq<u128>,
    times: Seq<i64>,
)
    requires
        forall|i: int| 0 <= i < es.len() ==> (#[trigger] es[i]).lat_e7 is None || es[i].lon_e7 is None,
    ensures
        sync_all(s, es, ids, times) == (s, 0nat),
    decreases es.len(),
{
    if es.len() > 0 {
        lemma_unpositioned_pass_writes_nothing(s, es.drop_last(), ids.drop_last(), times.drop_last());
        assert(es.last() == es[es.len() - 1]);
    }
}

/// A positioned, car-related element whose feed id is not stored yet, with
/// a fresh id that is not taken, is inserted as an unregistered record that
/// holds the element's classification, and counts.
pub proof fn lemma_new_element_is_inserted(
    s: Seq<BusinessView>,
    e: ElementView,
    fresh: u128,
    now: i64,
)
    requires
        e.lat_e7 is Some,
        e.lon_e7 is Some,
        is_car_related(e.tags),
        !has_osm_id(s, e.id),
        !has_id(s, fresh),
    ensures
        sync_step(s, e, fresh, now).1,
        sync_step(s, e, fresh, now).0.len() == s.len() + 1,
        sync_step(s, e, fresh, now).0.subrange(0, s.len() as int) == s,
        ({
            let b = sync_step(s, e, fresh, now).0.last();
            &&& b.id == fresh
            &&& b.osm_id == Some(e.id)
            &&& !b.is_registered
            &&& b.categories == classify(e.tags)
            &&& b.latitude_e7 == e.lat_e7->0
            &&& b.longitude_e7 == e.lon_e7->0
        }),
{
    lemma_classify_canonical(e.tags);
    lemma_canonical_form_of_canonical(classify(e.tags));
    let t = sync_step(s, e, fresh, now).0;
    assert(t.subrange(0, s.len() as int) =~= s);
}

/// An element without a latitude or a longitude, anywhere in a sync pass,
/// has no effect: the pass leaves the same records and the same count as
/// the pass without it.
pub proof fn lemma_unpositioned_element_changes_nothing(
    s: Seq<BusinessView>,
    es: Seq<ElementView>,
    ids: Seq<u128>,
    times: Seq<i64>,
    k: int,
)
    requires
        0 <= k < es.len(),
        ids.len() == es.len(),
        times.len() == es.len(),
        es[k].lat_e7 is None || es[k].lon_e7 is None,
    ensures
        sync_all(s, es, ids, times) == sync_all(s, es.remove(k), ids.remove(k), times.remove(k)),
    decreases es.len(),
{
    if k == es.len() - 1 {
        assert(es.drop_last() =~= es.remove(k));
        assert(ids.drop_last() =~= ids.remove(k));
        assert(times.drop_last() =~= times.remove(k));
        let prior = sync_all(s, es.drop_last(), ids.drop_last(), times.drop_last()).0;
        lemma_unpositioned_element_is_skipped(prior, es.last(), ids.last(), times.last());
    } else {
        lemma_unpositioned_element_changes_nothing(
            s,
            es.drop_last(),
            ids.drop_last(),
            times.drop_last(),
            k,
        );
        assert(es.remove(k).drop_last() =~= es.drop_last().remove(k));
        assert(ids.remove(k).drop_last() =~= ids.drop_last().remove(k));
        assert(times.remove(k).drop_last() =~= times.drop_last().remove(k));
        assert(es.remove(k).last() == es.last());
        assert(ids.remove(k).last() == ids.last());
        assert(times.remove(k).last() == times.last());
    }
}

/// A registered record is never written by sync: an element with its feed
/// id leaves the records as they were and does not count.
pub proof fn lemma_registered_record_blocks_sync(
    s: Seq<BusinessView>,
    e: ElementView,
    fresh: u128,
    now: i64,
)
    requires
        has_osm_id(s, e.id),
        s[osm_position(s, e.id)].is_registered,
    ensures
        sync_step(s, e, fresh, now) == (s, false),
{
}

/// Sync never takes a record away, never changes a record's id, feed id or
/// creation time, never moves its update time back, and never writes a
/// registered record: registration is never undone.
pub proof fn lemma_sync_keeps_identity_and_claims(
    s: Seq<BusinessView>,
    e: ElementView,
    fresh: u128,
    now: i64,
)
    ensures
        s.len() <= sync_step(s, e, fresh, now).0.len(),
        forall|i: int|
            0 <= i < s.len() ==> {
                let t = #[trigger] sync_step(s, e, fresh, now).0[i];
                &&& t.id == s[i].id
                &&& t.osm_id == s[i].osm_id
                &&& t.is_registered == s[i].is_registered
                &&& t.created_at == s[i].created_at
                &&& t.updated_at >= s[i].updated_at
                &&& s[i].is_registered ==> t == s[i]
            },
{
}

/// Registration keeps the invariant, and afterwards the record with the
/// request's id holds what the request gave, whatever the record held before.
pub proof fn lemma_registration_takes_effect(s: Seq<BusinessView>, r: RequestView, now: i64)
    requires
        records_wf(s),
    ensures
        records_wf(register_result(s, r, now)),
        has_id(register_result(s, r, now), r.id),
        holds_registration(
            register_result(s, r, now)[id_position(register_result(s, r, now), r.id)],
            r,
        ),
{
    let t = register_result(s, r, now);
    lemma_canonical_members(|c: BusinessCategory| r.categories.contains(c));
    let p = if has_id(s, r.id) {
        id_position(s, r.id)
    } else {
        s.len() as int
    };
    if !has_id(s, r.id) {
        assert forall|j: int| 0 <= j < s.len() implies (#[trigger] s[j]).id != r.id by {
            if s[j].id == r.id {
                assert(has_id(s, r.id));
            }
        }
    }
    assert forall|j: int| 0 <= j < t.len() && j != p implies #[trigger] t[j] == s[j] by {}
    assert(t[p].id == r.id);
    assert forall|j: int| 0 <= j < t.len() implies (#[trigger] t[j]).well_formed() by {
        if j != p {
            assert(t[j] == s[j]);
        }
    }
    assert(ids_unique(t)) by {
        assert forall|i: int, j: int| 0 <= i < j < t.len() implies t[i].id != t[j].id by {
            if i != p && j != p {
                assert(t[i] == s[i] && t[j] == s[j]);
            } else if i == p {
                assert(t[j] == s[j]);
            } else {
                assert(t[i] == s[i]);
            }
        }
    }
    assert(osm_ids_unique(t)) by {
        assert forall|i: int, j: int|
            0 <= i < j < t.len() && t[i].osm_id is Some implies t[i].osm_id != t[j].osm_id by {
            if i != p && j != p {
                assert(t[i] == s[i] && t[j] == s[j]);
            } else if i == p {
                assert(t[j] == s[j]);
            } else {
                assert(t[i] == s[i]);
            }
        }
    }
    let k = id_position(t, r.id);
    assert(k == p) by {
        if k != p {
            assert(t[k].id == r.id);
        }
    }
}

/// Registering the same id twice leaves the record holding the second
/// request's fields alone, registered.
pub proof fn lemma_second_registration_wins(
    s: Seq<BusinessView>,
    r1: RequestView,
    t1: i64,
    r2: RequestView,
    t2: i64,
)
    requires
        records_wf(s),
        r1.id == r2.id,
    ensures
        has_id(register_result(register_result(s, r1, t1), r2, t2), r2.id),
        holds_registration(
            register_result(register_result(s, r1, t1), r2, t2)[id_position(
                register_result(register_result(s, r1, t1), r2, t2),
                r2.id,
            )],
            r2,
        ),
{
    lemma_registration_takes_effect(s, r1, t1);
    lemma_registration_takes_effect(register_result(s, r1, t1), r2, t2);
}

/// A record that a first sync pass created and a registration then claimed
/// is left as the registration wrote it by a second pass over the same
/// element, which does not count it.
pub proof fn lemma_registration_survives_resync(
    s0: Seq<BusinessView>,
    e: ElementView,
    id1: u128,
    t1: i64,
    r: RequestView,
    t2: i64,
    id3: u128,
    t3: i64,
)
    requires
        records_wf(s0),
        candidate_of(e) is Some,
        !has_osm_id(s0, e.id),
        !has_id(s0, id1),
        r.id == id1,
    ensures
        sync_step(
            register_result(sync_step(s0, e, id1, t1).0, r, t2),
            e,
            id3,
            t3,
        ) == (register_result(sync_step(s0, e, id1, t1).0, r, t2), false),
{
    let c = candidate_of(e)->0;
    let s1 = sync_step(s0, e, id1, t1).0;
    let n = s0.len() as int;
    assert(s1 == s0.push(inserted_record(c, id1, t1)));
    assert forall|j: int| 0 <= j < s0.len() implies (#[trigger] s0[j]).osm_id != Some(e.id) && s0[j].id != id1 by {
        if s0[j].osm_id == Some(e.id) {
            assert(has_osm_id(s0, e.id));
        }
        if s0[j].id == id1 {
            assert(has_id(s0, id1));
        }
    }
    assert(s1[n].id == id1);
    let k = id_position(s1, id1);
    assert(k == n) by {
        if k != n {
            assert(s1[k] == s0[k]);
        }
    }
    let s2 = register_result(s1, r, t2);
    assert(s2 == s1.update(n, overwritten_record(s1[n], r, t2)));
    assert(s2[n].osm_id == Some(e.id));
    let m = osm_position(s2, e.id);
    assert(m == n) by {
        if m != n {
            assert(s2[m] == s0[m]);
        }
    }
    lemma_registered_record_blocks_sync(s2, e, id3, t3);
}

/// Whether an upsert wrote a record, which is what a sync pass counts.
pub fn wrote_record(o: &Result<UpsertOutcome, StoreError>) -> (r: bool)
    ensures
        r == wrote(*o),
{
    match o {
        Ok(UpsertOutcome::Inserted(_)) => true,
        Ok(UpsertOutcome::Updated(_)) => true,
        _ => false,
    }
}

/// The views of a list of feed elements.
pub open spec fn element_views(es: Seq<OverpassElement>) -> Seq<ElementView> {
    Seq::new(es.len(), |i: int| es[i]@)
}

/// Relies on `uuid::Uuid::new_v4`: a random version-4 UUID, taken as its
/// 128 bits. It panics only when the operating system has no randomness to give.
#[verifier::external_body]
fn new_business_id() -> u128 {
    uuid::Uuid::new_v4().as_u128()
}

/// Relies on chrono's `From<SystemTime> for DateTime<Utc>`: the wall clock
/// in milliseconds since the Unix epoch, negative before it. The clock may
/// stand still or go back between readings. It panics only for a clock
/// outside chrono's range of about 262,000 years around the epoch.
#[verifier::external_body]
fn now_millis() -> i64 {
    chrono::DateTime::<chrono::Utc>::from(std::time::SystemTime::now()).timestamp_millis()
}

/// The stored business records, in the order they were first written; the
/// datastore that reconciliation writes to.
pub struct BusinessRepository {
    records: Vec<Business>,
}

impl View for BusinessRepository {
    type V = Seq<BusinessView>;

    closed spec fn view(&self) -> Seq<BusinessView> {
        Seq::new(self.records@.len(), |i: int| self.records@[i]@)
    }
}

impl BusinessRepository {
    /// The invariant of the store.
    pub open spec fn well_formed(&self) -> bool {
        records_wf(self@)
    }

    /// An empty store.
    pub fn new() -> (r: BusinessRepository)
        ensures
            r@ == Seq::<BusinessView>::empty(),
            r.well_formed(),
    {
        let r = BusinessRepository { records: Vec::new() };
        assert(r@ =~= Seq::<BusinessView>::empty());
        r
    }

    /// How many records there are.
    pub fn len(&self) -> (r: usize)
        ensures
            r == self@.len(),
    {
        self.records.len()
    }

    /// The position of the record with feed id `x`, if any.
    fn find_osm_id(&self, x: i64) -> (r: Option<usize>)
        requires
            self.well_formed(),
        ensures
            match r {
                Some(i) => has_osm_id(self@, x) && osm_position(self@, x) == i,
                None => !has_osm_id(self@, x),
            },
    {
        let mut i: usize = 0;
        while i < self.records.len()
            invariant
                self.well_formed(),
                i <= self@.len(),
                self@.len() == self.records@.len(),
                forall|j: int| 0 <= j < i ==> (#[trigger] self@[j]).osm_id != Some(x),
            decreases self@.len() - i,
        {
            let hit = match self.records[i].osm_id {
                Some(y) => y == x,
                None => false,
            };
            if hit {
                proof {
                    assert(self@[i as int].osm_id == Some(x));
                    let k = osm_position(self@, x);
                    assert(self@[k].osm_id == Some(x));
                    assert(k == i) by {
                        if k < i {
                            assert(self@[k].osm_id != self@[i as int].osm_id);
                        } else if k > i {
                            assert(self@[i as int].osm_id != self@[k].osm_id);
                        }
                    }
                }
                return Some(i);
            }
            assert(self@[i as int].osm_id != Some(x));
            i = i + 1;
        }
        None
    }

    /// The position of the record with id `id`, if any.
    fn find_id(&self, id: u128) -> (r: Option<usize>)
        requires
            self.well_formed(),
        ensures
            match r {
                Some(i) => has_id(self@, id) && id_position(self@, id) == i,
                None => !has_id(self@, id),
            },
    {
        let mut i: usize = 0;
        while i < self.records.len()
            invariant
                self.well_formed(),
                i <= self@.len(),
                self@.len() == self.records@.len(),
                forall|j: int| 0 <= j < i ==> (#[trigger] self@[j]).id != id,
            decreases self@.len() - i,
        {
            if self.records[i].id == id {
                proof {
                    assert(self@[i as int].id == id);
                    let k = id_position(self@, id);
                    assert(self@[k].id == id);
                    assert(k == i) by {
                        if k < i {
                            assert(self@[k].id != self@[i as int].id);
                        } else if k > i {
                            assert(self@[i as int].id != self@[k].id);
                        }
                    }
                }
                return Some(i);
            }
            assert(self@[i as int].id != id);
            i = i + 1;
        }
        None
    }

    /// A copy of the record with id `id`, if any.
    pub fn get_business_by_id(&self, id: u128) -> (r: Option<Business>)
        requires
            self.well_formed(),
        ensures
            match r {
                Some(b) => has_id(self@, id) && b@ == self@[id_position(self@, id)],
                None => !has_id(self@, id),
            },
    {
        match self.find_id(id) {
            Some(i) => Some(self.records[i].duplicate()),
            None => None,
        }
    }

    /// A copy of the record with feed id `x`, if any.
    pub fn get_business_by_osm_id(&self, x: i64) -> (r: Option<Business>)
        requires
            self.well_formed(),
        ensures
            match r {
                Some(b) => has_osm_id(self@, x) && b@ == self@[osm_position(self@, x)],
                None => !has_osm_id(self@, x),
            },
    {
        match self.find_osm_id(x) {
            Some(i) => Some(self.records[i].duplicate()),
            None => None,
        }
    }

    /// Upserts a candidate keyed on its feed id, as one step: a registered
    /// record is left unchanged, an unregistered one takes the candidate's
    /// name, names, address, position, categories and city, and a missing one
    /// is inserted as unregistered under `fresh_id`, unless that id is taken.
    pub fn upsert_business(&mut self, c: &BusinessInsert, fresh_id: u128, now: i64) -> (r: Result<
        UpsertOutcome,
        StoreError,
    >)
        requires
            old(self).well_formed(),
        ensures
            final(self).well_formed(),
            (final(self)@, r) == upsert_result(old(self)@, c@, fresh_id, now),
    {
        let ghost s = self@;
        let categories = canonical_categories(&c.categories);
        match self.find_osm_id(c.osm_id) {
            Some(i) => {
                let id = self.records[i].id;
                if self.records[i].is_registered {
                    return Ok(UpsertOutcome::Unchanged(id));
                }
                let old_b = &self.records[i];
                let created = old_b.created_at;
                let previous = old_b.updated_at;
                let b = Business {
                    id: old_b.id,
                    osm_id: old_b.osm_id,
                    name: copy_opt_text(&c.name),
                    name_en: copy_opt_text(&c.name_en),
                    address: copy_opt_text(&c.address),
                    latitude_e7: c.latitude_e7,
                    longitude_e7: c.longitude_e7,
                    categories,
                    specializations: copy_opt_texts(&old_b.specializations),
                    created_at: created,
                    updated_at: if now >= previous {
                        now
                    } else {
                        previous
                    },
                    logo_map_url: copy_opt_text(&old_b.logo_map_url),
                    is_registered: false,
                    city: copy_opt_text(&c.city),
                    average_reviews_x100: old_b.average_reviews_x100,
                    review_count: old_b.review_count,
                };
                assert(b@ == refreshed_record(s[i as int], c@, now));
                self.records.set(i, b);
                proof {
                    assert(self@ =~= s.update(i as int, refreshed_record(s[i as int], c@, now)));
                    assert forall|j: int| 0 <= j < self@.len() implies (#[trigger] self@[j]).well_formed() by {
                        if j != i {
                            assert(self@[j] == s[j]);
                        }
                    }
                }
                Ok(UpsertOutcome::Updated(id))
            },
            None => {
                if self.find_id(fresh_id).is_some() {
                    return Err(StoreError::DuplicateId);
                }
                let b = Business {
                    id: fresh_id,
                    osm_id: Some(c.osm_id),
                    name: copy_opt_text(&c.name),
                    name_en: copy_opt_text(&c.name_en),
                    address: copy_opt_text(&c.address),
                    latitude_e7: c.latitude_e7,
                    longitude_e7: c.longitude_e7,
                    categories,
                    specializations: None,
                    created_at: now,
                    updated_at: now,
                    logo_map_url: None,
                    is_registered: false,
                    city: copy_opt_text(&c.city),
                    average_reviews_x100: 0,
                    review_count: 0,
                };
                self.records.push(b);
                proof {
                    assert(self@ =~= s.push(inserted_record(c@, fresh_id, now)));
                    assert forall|j: int| 0 <= j < s.len() implies (#[trigger] s[j]).id != fresh_id by {
                        if s[j].id == fresh_id {
                            assert(has_id(s, fresh_id));
                        }
                    }
                    assert forall|j: int| 0 <= j < s.len() implies (#[trigger] s[j]).osm_id != Some(
                        c.osm_id,
                    ) by {
                        if s[j].osm_id == Some(c.osm_id) {
                            assert(has_osm_id(s, c.osm_id));
                        }
                    }
                    assert forall|j: int| 0 <= j < self@.len() implies (#[trigger] self@[j]).well_formed() by {
                        if j < s.len() {
                            assert(self@[j] == s[j]);
                        }
                    }
                }
                Ok(UpsertOutcome::Inserted(fresh_id))
            },
        }
    }

    /// Runs a sync pass over feed elements, in order, with `ids[i]` as the
    /// id of a new record and `times[i]` as the time of element `i`. An
    /// element without a position, or whose tags are not car-related, is
    /// skipped; every other element is upserted. The result counts the
    /// upserts that wrote a record; one that met a registered record, or
    /// whose new id was taken, does not count.
    pub fn sync_elements_with(
        &mut self,
        elements: Vec<OverpassElement>,
        ids: &Vec<u128>,
        times: &Vec<i64>,
    ) -> (r: usize)
        requires
            old(self).well_formed(),
            ids@.len() == elements@.len(),
            times@.len() == elements@.len(),
        ensures
            final(self).well_formed(),
            sync_all(old(self)@, element_views(elements@), ids@, times@) == (final(self)@, r as nat),
    {
        let ghost s0 = self@;
        let mut count: usize = 0;
        let mut i: usize = 0;
        while i < elements.len()
            invariant
                self.well_formed(),
                i <= elements@.len(),
                ids@.len() == elements@.len(),
                times@.len() == elements@.len(),
                count <= i,
                sync_all(
                    s0,
                    element_views(elements@).subrange(0, i as int),
                    ids@.subrange(0, i as int),
                    times@.subrange(0, i as int),
                ) == (self@, count as nat),
            decreases elements@.len() - i,
        {
            let ghost before = self@;
            let ghost before_count = count;
            let ghost e = elements@[i as int]@;
            match elements[i].to_candidate() {
                Some(c) => {
                    let outcome = self.upsert_business(&c, ids[i], times[i]);
                    if wrote_record(&outcome) {
                        count = count + 1;
                    }
                },
                None => {},
            }
            i = i + 1;
            proof {
                let es = element_views(elements@).subrange(0, i as int);
                assert(es.drop_last() =~= element_views(elements@).subrange(0, i - 1));
                assert(es.last() == e);
                assert(ids@.subrange(0, i as int).drop_last() =~= ids@.subrange(0, i - 1));
                assert(times@.subrange(0, i as int).drop_last() =~= times@.subrange(0, i - 1));
                assert(sync_step(before, e, ids@[i - 1], times@[i - 1]) == (
                    self@,
                    count > before_count,
                ));
            }
        }
        assert(element_views(elements@).subrange(0, i as int) =~= element_views(elements@));
        assert(ids@.subrange(0, i as int) =~= ids@);
        assert(times@.subrange(0, i as int) =~= times@);
        count
    }

    /// Runs a sync pass over feed elements with a freshly drawn id and a
    /// clock reading for each element; see `sync_elements_with`.
    pub fn sync_from_overpass_elements(&mut self, elements: Vec<OverpassElement>) -> (r: usize)
        requires
            old(self).well_formed(),
        ensures
            final(self).well_formed(),
            exists|ids: Seq<u128>, times: Seq<i64>|
                ids.len() == elements@.len() && times.len() == elements@.len() && #[trigger] sync_all(
                    old(self)@,
                    element_views(elements@),
                    ids,
                    times,
                ) == (final(self)@, r as nat),
    {
        let mut ids: Vec<u128> = Vec::new();
        let mut times: Vec<i64> = Vec::new();
        let mut i: usize = 0;
        while i < elements.len()
            invariant
                i <= elements@.len(),
                ids@.len() == i,
                times@.len() == i,
            decreases elements@.len() - i,
        {
            ids.push(new_business_id());
            times.push(now_millis());
            i = i + 1;
        }
        self.sync_elements_with(elements, &ids, &times)
    }

    /// Registers a business at time `now`: the record with the request's id
    /// takes every field the request sets and becomes registered, or a new
    /// registered record is written. The record is then read back.
    pub fn sync_user_business_at(&mut self, req: &CreateUserBusinessRequest, now: i64) -> (r:
        Result<Business, StoreError>)
        requires
            old(self).well_formed(),
        ensures
            final(self).well_formed(),
            final(self)@ == register_result(old(self)@, req@, now),
            r is Ok,
            r matches Ok(b) ==> has_id(final(self)@, req.id) && b@ == final(self)@[id_position(
                final(self)@,
                req.id,
            )],
    {
        let ghost s = self@;
        let categories = canonical_categories(&req.categories);
        let specializations = match &req.specializations {
            Some(v) => copy_texts(v),
            None => Vec::new(),
        };
        assert(opt_texts(Some(specializations)) == requested_specializations(req@));
        match self.find_id(req.id) {
            Some(i) => {
                let old_b = &self.records[i];
                let created = old_b.created_at;
                let previous = old_b.updated_at;
                let b = Business {
                    id: old_b.id,
                    osm_id: old_b.osm_id,
                    name: copy_opt_text(&req.name),
                    name_en: copy_opt_text(&req.name_en),
                    address: copy_opt_text(&req.address),
                    latitude_e7: req.latitude_e7,
                    longitude_e7: req.longitude_e7,
                    categories,
                    specializations: Some(specializations),
                    created_at: created,
                    updated_at: if now >= previous {
                        now
                    } else {
                        previous
                    },
                    logo_map_url: copy_opt_text(&req.logo_map_url),
                    is_registered: true,
                    city: copy_opt_text(&req.city),
                    average_reviews_x100: old_b.average_reviews_x100,
                    review_count: old_b.review_count,
                };
                assert(b@ == overwritten_record(s[i as int], req@, now));
                self.records.set(i, b);
                proof {
                    assert(self@ =~= s.update(i as int, overwritten_record(s[i as int], req@, now)));
                    assert forall|j: int| 0 <= j < self@.len() implies (#[trigger] self@[j]).well_formed() by {
                        if j != i {
                            assert(self@[j] == s[j]);
                        }
                    }
                }
            },
            None => {
                let b = Business {
                    id: req.id,
                    osm_id: None,
                    name: copy_opt_text(&req.name),
                    name_en: copy_opt_text(&req.name_en),
                    address: copy_opt_text(&req.address),
                    latitude_e7: req.latitude_e7,
                    longitude_e7: req.longitude_e7,
                    categories,
                    specializations: Some(specializations),
                    created_at: now,
                    updated_at: now,
                    logo_map_url: copy_opt_text(&req.logo_map_url),
                    is_registered: true,
                    city: copy_opt_text(&req.city),
                    average_reviews_x100: 0,
                    review_count: 0,
                };
                self.records.push(b);
                proof {
                    assert(self@ =~= s.push(registered_record(req@, now)));
                    assert forall|j: int| 0 <= j < s.len() implies (#[trigger] s[j]).id != req.id by {
                        if s[j].id == req.id {
                            assert(has_id(s, req.id));
                        }
                    }
                    assert forall|j: int| 0 <= j < self@.len() implies (#[trigger] self@[j]).well_formed() by {
                        if j < s.len() {
                            assert(self@[j] == s[j]);
                        }
                    }
                }
            },
        }
        match self.get_business_by_id(req.id) {
            Some(b) => Ok(b),
            None => {
                proof {
                    let j = id_position(s, req.id);
                    if has_id(s, req.id) {
                        assert(self@[j].id == req.id);
                    } else {
                        assert(self@[s.len() as int].id == req.id);
                    }
                }
                Err(StoreError::NotFound)
            },
        }
    }

    /// Registers a business at the current time; see `sync_user_business_at`.
    pub fn sync_user_business(&mut self, req: CreateUserBusinessRequest) -> (r: Result<
        Business,
        StoreError,
    >)
        requires
            old(self).well_formed(),
        ensures
            final(self).well_formed(),
            exists|now: i64| final(self)@ == #[trigger] register_result(old(self)@, req@, now),
            r matches Ok(b) ==> has_id(final(self)@, req.id) && b@ == final(self)@[id_position(
                final(self)@,
                req.id,
            )],
            r is Ok,
    {
        let now = now_millis();
        self.sync_user_business_at(&req, now)
    }

    /// Deletes the record with id `id` when it is not registered; reports
    /// whether a record was deleted.
    pub fn delete_business(&mut self, id: u128) -> (r: bool)
        requires
            old(self).well_formed(),
        ensures
            final(self).well_formed(),
            (final(self)@, r) == delete_result(old(self)@, id),
    {
        let ghost s = self@;
        match self.find_id(id) {
            Some(i) => {
                if self.records[i].is_registered {
                    false
                } else {
                    self.records.remove(i);
                    proof {
                        let t = s.remove(i as int);
                        assert(self@ =~= t);
                        assert forall|j: int| 0 <= j < t.len() implies t[j] == s[if j < i {
                            j
                        } else {
                            j + 1
                        }] by {}
                        assert forall|j: int, k: int| 0 <= j < k < t.len() implies t[j].id
                            != t[k].id by {
                            let jj = if j < i { j } else { j + 1 };
                            let kk = if k < i { k } else { k + 1 };
                            assert(t[j] == s[jj] && t[k] == s[kk]);
                        }
                        assert forall|j: int, k: int|
                            0 <= j < k < t.len() && t[j].osm_id is Some implies t[j].osm_id
                            != t[k].osm_id by {
                            let jj = if j < i { j } else { j + 1 };
                            let kk = if k < i { k } else { k + 1 };
                            assert(t[j] == s[jj] && t[k] == s[kk]);
                        }
                        assert forall|j: int| 0 <= j < t.len() implies (#[trigger] t[j]).well_formed() by {
                            let jj = if j < i { j } else { j + 1 };
                            assert(t[j] == s[jj]);
                        }
                    }
                    true
                }
            },
            None => false,
        }
    }
}

} // verus!
