//! The reconciler: diffing a freshly fetched snapshot against the
//! previously known active units, classifying every unit as added,
//! removed, changed or unchanged, and carrying lifecycle metadata
//! forward.

use vstd::prelude::*;

use crate::api::Apartment;
use crate::api::ApartmentData;
use crate::api::ApartmentV;
use crate::api::ApiApartment;
use crate::api::ApiApartmentV;
use crate::api::apartments_view;
use crate::api::api_apartment_display;
use crate::api::api_apartment_serialized;
use crate::diff::diff_header;
use crate::diff::diff_header_str;

verus! {

/// Whether some unit in `s` carries the identifier `id`.
pub open spec fn has_id(s: Seq<ApartmentV>, id: Seq<char>) -> bool {
    exists|i: int| 0 <= i < s.len() && s[i].sid() == id
}

/// The index of the unit carrying `id`; meaningful when ids are distinct
/// and `has_id` holds.
pub open spec fn idx_of(s: Seq<ApartmentV>, id: Seq<char>) -> int {
    choose|i: int| 0 <= i < s.len() && s[i].sid() == id
}

/// No two units in `s` share an identifier.
pub open spec fn distinct_ids(s: Seq<ApartmentV>) -> bool {
    forall|i: int, j: int| 0 <= i < j < s.len() ==> s[i].sid() != s[j].sid()
}

pub proof fn lemma_idx_of_unique(s: Seq<ApartmentV>, id: Seq<char>, j: int)
    requires
        distinct_ids(s),
        0 <= j < s.len(),
        s[j].sid() == id,
    ensures
        has_id(s, id),
        idx_of(s, id) == j,
{
    assert(has_id(s, id));
    let k = idx_of(s, id);
    assert(0 <= k < s.len() && s[k].sid() == id);
    if k != j {
        if k < j {
            assert(s[k].sid() != s[j].sid());
        } else {
            assert(s[j].sid() != s[k].sid());
        }
    }
}

/// The tracked state a snapshot unit carries into the next active set:
/// a persisting unit keeps its `first seen` timestamp, a new one is
/// stamped with `now`; either way it is active.
pub open spec fn updated_unit(old: Seq<ApartmentV>, a: ApartmentV, now: u64) -> ApartmentV {
    if has_id(old, a.sid()) {
        ApartmentV { inner: a.inner, listed: old[idx_of(old, a.sid())].listed, unlisted: Option::None }
    } else {
        ApartmentV { inner: a.inner, listed: now, unlisted: Option::None }
    }
}

/// The next active set: exactly the snapshot units, in snapshot order,
/// each with its lifecycle metadata carried forward.
pub open spec fn new_known_spec(old: Seq<ApartmentV>, input: Seq<ApartmentV>, now: u64) -> Seq<
    ApartmentV,
> {
    Seq::new(input.len(), |i: int| updated_unit(old, input[i], now))
}

/// The payloads of the snapshot units whose identifier was not active
/// before, in snapshot order.
pub open spec fn added_spec(old: Seq<ApartmentV>, input: Seq<ApartmentV>) -> Seq<ApiApartmentV>
    decreases input.len(),
{
    if input.len() == 0 {
        Seq::empty()
    } else {
        added_spec(old, input.drop_last()) + if !has_id(old, input.last().sid()) {
            seq![input.last().inner]
        } else {
            Seq::empty()
        }
    }
}

#[verifier::ext_equal]
pub struct ChangedApartmentV {
    pub old: ApiApartmentV,
    pub new: ApiApartmentV,
}

/// The `(old payload, new payload)` pairs of the snapshot units whose
/// identifier was already active with a structurally different payload,
/// in snapshot order.
pub open spec fn changed_spec(old: Seq<ApartmentV>, input: Seq<ApartmentV>) -> Seq<
    ChangedApartmentV,
>
    decreases input.len(),
{
    if input.len() == 0 {
        Seq::empty()
    } else {
        changed_spec(old, input.drop_last()) + {
            let a = input.last();
            if has_id(old, a.sid()) && old[idx_of(old, a.sid())].inner != a.inner {
                seq![ChangedApartmentV { old: old[idx_of(old, a.sid())].inner, new: a.inner }]
            } else {
                Seq::empty()
            }
        }
    }
}

/// The previously active units whose identifier is absent from the
/// snapshot, in prior insertion order, each stamped unlisted at `now`.
pub open spec fn removed_spec(old: Seq<ApartmentV>, input: Seq<ApartmentV>, now: u64) -> Seq<
    ApartmentV,
>
    decreases old.len(),
{
    if old.len() == 0 {
        Seq::empty()
    } else {
        removed_spec(old.drop_last(), input, now) + {
            let o = old.last();
            if !has_id(input, o.sid()) {
                seq![ApartmentV { inner: o.inner, listed: o.listed, unlisted: Option::Some(now) }]
            } else {
                Seq::empty()
            }
        }
    }
}

/// One reclassified pair: the payload a unit had, and the payload it has
/// now.
#[derive(Debug)]
pub struct ChangedApartment {
    pub old: ApiApartment,
    pub new: ApiApartment,
}

impl ChangedApartment {
    pub open spec fn v(self) -> ChangedApartmentV {
        ChangedApartmentV { old: self.old.v(), new: self.new.v() }
    }

    /// Renders the change as a headed diff of the two serialized
    /// payload forms, labelled with the two one-line display forms.
    pub fn render(&self) -> (r: String)
        requires
            self.old.v().wf(),
            self.new.v().wf(),
        ensures
            r@ == diff_header_str(
                api_apartment_serialized(self.old.v()),
                api_apartment_serialized(self.new.v()),
                api_apartment_display(self.old.v()),
                api_apartment_display(self.new.v()),
                Seq::<char>::empty(),
                Seq::<char>::empty(),
            ),
    {
        let old_text = self.old.serialize_lines();
        let new_text = self.new.serialize_lines();
        let old_label = self.old.display_line();
        let new_label = self.new.display_line();
        diff_header(old_text.as_str(), new_text.as_str(), old_label.as_str(), new_label.as_str())
    }
}

pub open spec fn payload_views(s: Seq<ApiApartment>) -> Seq<ApiApartmentV> {
    s.map_values(|a: ApiApartment| a.v())
}

pub open spec fn changed_views(s: Seq<ChangedApartment>) -> Seq<ChangedApartmentV> {
    s.map_values(|c: ChangedApartment| c.v())
}

/// The outcome of one reconciliation: three disjoint buckets; unchanged
/// units appear in none of them.
#[derive(Debug)]
pub struct ApartmentsDiff {
    pub added: Vec<ApiApartment>,
    pub removed: Vec<Apartment>,
    pub changed: Vec<ChangedApartment>,
}

impl ApartmentsDiff {
    /// Whether the reconciliation found no difference at all.
    pub fn is_empty(&self) -> (r: bool)
        ensures
            r == (self.added@.len() == 0 && self.removed@.len() == 0 && self.changed@.len() == 0),
    {
        self.added.len() == 0 && self.removed.len() == 0 && self.changed.len() == 0
    }
}

fn find_by_id(list: &Vec<Apartment>, id: &String) -> (r: Option<usize>)
    ensures
        match r {
            Option::Some(j) => j < list@.len() && apartments_view(list@)[j as int].sid() == id@,
            Option::None => !has_id(apartments_view(list@), id@),
        },
{
    let ghost s = apartments_view(list@);
    let mut k: usize = 0;
    while k < list.len()
        invariant
            k <= list.len(),
            s == apartments_view(list@),
            s.len() == list@.len(),
            forall|m: int| 0 <= m < k ==> (#[trigger] s[m]).sid() != id@,
        decreases list.len() - k,
    {
        if list[k].inner.unit_id == *id {
            assert(s[k as int].sid() == id@);
            return Option::Some(k);
        }
        assert(s[k as int].sid() != id@);
        k = k + 1;
    }
    Option::None
}

fn contains_id(list: &Vec<Apartment>, id: &String) -> (r: bool)
    ensures
        r == has_id(apartments_view(list@), id@),
{
    let found = find_by_id(list, id);
    match found {
        Option::Some(_) => {
            assert(has_id(apartments_view(list@), id@));
            true
        },
        Option::None => false,
    }
}

proof fn lemma_added_spec_step(old: Seq<ApartmentV>, input: Seq<ApartmentV>, i: int)
    requires
        0 <= i < input.len(),
    ensures
        added_spec(old, input.take(i + 1)) == added_spec(old, input.take(i)) + (if !has_id(
            old,
            input[i].sid(),
        ) {
            seq![input[i].inner]
        } else {
            Seq::empty()
        }),
{
    assert(input.take(i + 1).drop_last() =~= input.take(i));
    assert(input.take(i + 1).last() == input[i]);
}

proof fn lemma_changed_spec_step(old: Seq<ApartmentV>, input: Seq<ApartmentV>, i: int)
    requires
        0 <= i < input.len(),
    ensures
        changed_spec(old, input.take(i + 1)) == changed_spec(old, input.take(i)) + (if has_id(
            old,
            input[i].sid(),
        ) && old[idx_of(old, input[i].sid())].inner != input[i].inner {
            seq![
                ChangedApartmentV {
                    old: old[idx_of(old, input[i].sid())].inner,
                    new: input[i].inner,
                },
            ]
        } else {
            Seq::empty()
        }),
{
    assert(input.take(i + 1).drop_last() =~= input.take(i));
    assert(input.take(i + 1).last() == input[i]);
}

proof fn lemma_removed_spec_step(old: Seq<ApartmentV>, input: Seq<ApartmentV>, now: u64, j: int)
    requires
        0 <= j < old.len(),
    ensures
        removed_spec(old.take(j + 1), input, now) == removed_spec(old.take(j), input, now) + (
        if !has_id(input, old[j].sid()) {
            seq![ApartmentV { inner: old[j].inner, listed: old[j].listed, unlisted: Option::Some(now) }]
        } else {
            Seq::empty()
        }),
{
    assert(old.take(j + 1).drop_last() =~= old.take(j));
    assert(old.take(j + 1).last() == old[j]);
}

pub proof fn lemma_new_known_same_ids(
    old: Seq<ApartmentV>,
    input: Seq<ApartmentV>,
    now: u64,
    id: Seq<char>,
)
    ensures
        has_id(new_known_spec(old, input, now), id) == has_id(input, id),
{
    let nk = new_known_spec(old, input, now);
    assert(forall|k: int| 0 <= k < input.len() ==> (#[trigger] nk[k]).sid() == input[k].sid());
    if has_id(nk, id) {
        let k = choose|k: int| 0 <= k < nk.len() && nk[k].sid() == id;
        assert(input[k].sid() == id);
        assert(has_id(input, id));
    }
    if has_id(input, id) {
        let k = choose|k: int| 0 <= k < input.len() && input[k].sid() == id;
        assert(nk[k].sid() == id);
        assert(has_id(nk, id));
    }
}

/// The whole tracked state: the active units, keyed by identifier, and
/// the append-only archive of unlisted units.
#[derive(Debug)]
pub struct App {
    pub known_apartments: Vec<Apartment>,
    pub unlisted_apartments: Vec<Apartment>,
}

impl App {
    /// The active units, as views.
    pub open spec fn known_v(self) -> Seq<ApartmentV> {
        apartments_view(self.known_apartments@)
    }

    /// The archived unlisted units, as views.
    pub open spec fn unlisted_v(self) -> Seq<ApartmentV> {
        apartments_view(self.unlisted_apartments@)
    }

    /// The store invariant: active units have distinct identifiers and
    /// no `unlisted` stamp; archived units all carry one, set no earlier
    /// than their `first seen` time.
    pub open spec fn wf(self) -> bool {
        &&& distinct_ids(self.known_v())
        &&& forall|i: int|
            0 <= i < self.known_v().len() ==> (#[trigger] self.known_v()[i]).unlisted is None
                && self.known_v()[i].wf()
        &&& forall|i: int|
            0 <= i < self.unlisted_v().len() ==> (#[trigger] self.unlisted_v()[i]).unlisted is Some
                && self.unlisted_v()[i].wf()
    }
}

impl Default for App {
    /// An empty store.
    fn default() -> (r: App)
        ensures
            r.wf(),
            r.known_v().len() == 0,
            r.unlisted_v().len() == 0,
    {
        App { known_apartments: Vec::new(), unlisted_apartments: Vec::new() }
    }
}

impl App {
    /// Reconciles a freshly fetched snapshot against the active units.
    ///
    /// Single pass over the snapshot in input order: a unit already
    /// active keeps its `first seen` time and yields a `changed` pair
    /// exactly when its payload differs structurally; a new identifier
    /// yields an `added` entry stamped at `now`. Every previously active
    /// identifier absent from the snapshot is stamped unlisted at `now`,
    /// yielded in `removed` in prior order, and moved to the archive.
    pub fn compute_diff(&mut self, new_data: &ApartmentData, now: u64) -> (diff: ApartmentsDiff)
        requires
            old(self).wf(),
            distinct_ids(apartments_view(new_data.apartments@)),
            forall|i: int|
                0 <= i < new_data.apartments@.len() ==> (#[trigger] apartments_view(
                    new_data.apartments@,
                )[i]).inner.wf(),
            forall|i: int|
                0 <= i < old(self).known_v().len() ==> (#[trigger] old(self).known_v()[i]).listed
                    <= now,
        ensures
            final(self).wf(),
            final(self).known_v() == new_known_spec(
                old(self).known_v(),
                apartments_view(new_data.apartments@),
                now,
            ),
            payload_views(diff.added@) == added_spec(
                old(self).known_v(),
                apartments_view(new_data.apartments@),
            ),
            changed_views(diff.changed@) == changed_spec(
                old(self).known_v(),
                apartments_view(new_data.apartments@),
            ),
            apartments_view(diff.removed@) == removed_spec(
                old(self).known_v(),
                apartments_view(new_data.apartments@),
                now,
            ),
            final(self).unlisted_v() == old(self).unlisted_v() + apartments_view(diff.removed@),
    {
        let ghost old_v = old(self).known_v();
        let ghost input_v = apartments_view(new_data.apartments@);
        let ghost old_unl = old(self).unlisted_v();
        let mut old_list: Vec<Apartment> = Vec::new();
        core::mem::swap(&mut self.known_apartments, &mut old_list);
        assert(apartments_view(old_list@) == old_v);
        assert(apartments_view(self.known_apartments@) =~= new_known_spec(
            old_v,
            input_v.take(0),
            now,
        ));
        let mut diff = ApartmentsDiff { added: Vec::new(), removed: Vec::new(), changed: Vec::new() };
        assert(payload_views(diff.added@) =~= added_spec(old_v, input_v.take(0)));
        assert(changed_views(diff.changed@) =~= changed_spec(old_v, input_v.take(0)));

        let mut i: usize = 0;
        while i < new_data.apartments.len()
            invariant
                i <= new_data.apartments.len(),
                input_v == apartments_view(new_data.apartments@),
                input_v.len() == new_data.apartments@.len(),
                apartments_view(old_list@) == old_v,
                old_list@.len() == old_v.len(),
                distinct_ids(old_v),
                distinct_ids(input_v),
                forall|k: int| 0 <= k < input_v.len() ==> (#[trigger] input_v[k]).inner.wf(),
                self.unlisted_apartments@ == old(self).unlisted_apartments@,
                apartments_view(self.known_apartments@) == new_known_spec(
                    old_v,
                    input_v.take(i as int),
                    now,
                ),
                payload_views(diff.added@) == added_spec(old_v, input_v.take(i as int)),
                changed_views(diff.changed@) == changed_spec(old_v, input_v.take(i as int)),
                diff.removed@.len() == 0,
            decreases new_data.apartments.len() - i,
        {
            let apt = &new_data.apartments[i];
            assert(apt.v() == input_v[i as int]);
            assert(apt.v().sid() == apt.inner.unit_id@);
            let found = find_by_id(&old_list, &apt.inner.unit_id);
            match found {
                Option::Some(j) => {
                    proof {
                        lemma_idx_of_unique(old_v, input_v[i as int].sid(), j as int);
                    }
                    let prev = &old_list[j];
                    assert(prev.v() == old_v[j as int]);
                    if !prev.inner.same_as(&apt.inner) {
                        let pair = ChangedApartment {
                            old: prev.inner.duplicate(),
                            new: apt.inner.duplicate(),
                        };
                        diff.changed.push(pair);
                    }
                    let upd = Apartment {
                        inner: apt.inner.duplicate(),
                        listed: prev.listed,
                        unlisted: Option::None,
                    };
                    proof {
                        assert(has_id(old_v, input_v[i as int].sid()));
                        assert(idx_of(old_v, input_v[i as int].sid()) == j as int);
                        assert(upd.v() =~= updated_unit(old_v, input_v[i as int], now));
                    }
                    self.known_apartments.push(upd);
                    assert(self.known_apartments@.last().v() == updated_unit(
                        old_v,
                        input_v[i as int],
                        now,
                    ));
                },
                Option::None => {
                    diff.added.push(apt.inner.duplicate());
                    let fresh = Apartment {
                        inner: apt.inner.duplicate(),
                        listed: now,
                        unlisted: Option::None,
                    };
                    proof {
                        assert(!has_id(old_v, input_v[i as int].sid()));
                        assert(fresh.v() =~= updated_unit(old_v, input_v[i as int], now));
                    }
                    self.known_apartments.push(fresh);
                    assert(self.known_apartments@.last().v() == updated_unit(
                        old_v,
                        input_v[i as int],
                        now,
                    ));
                },
            }
            proof {
                lemma_added_spec_step(old_v, input_v, i as int);
                lemma_changed_spec_step(old_v, input_v, i as int);
                assert(payload_views(diff.added@) =~= added_spec(old_v, input_v.take(i + 1)));
                assert(changed_views(diff.changed@) =~= changed_spec(old_v, input_v.take(i + 1)));
                let nk_prev = new_known_spec(old_v, input_v.take(i as int), now);
                let nk_new = apartments_view(self.known_apartments@);
                let target = new_known_spec(old_v, input_v.take(i + 1), now);
                assert(nk_prev.len() == i);
                assert(self.known_apartments@.len() == i + 1);
                assert(nk_new.len() == i + 1);
                assert(target.len() == i + 1);
                assert forall|k: int| 0 <= k < i + 1 implies nk_new[k] == target[k] by {
                    assert(input_v.take(i + 1)[k] == input_v[k]);
                    assert(nk_new[k] == self.known_apartments@[k].v());
                    if k < i {
                        assert(nk_new[k] == nk_prev[k]);
                        assert(input_v.take(i as int)[k] == input_v[k]);
                    } else {
                        assert(nk_new[k] == self.known_apartments@.last().v());
                    }
                };
                assert(nk_new =~= target);
            }
            i = i + 1;
        }
        proof {
            assert(input_v.take(input_v.len() as int) =~= input_v);
        }

        let mut j: usize = 0;
        while j < old_list.len()
            invariant
                j <= old_list.len(),
                input_v == apartments_view(new_data.apartments@),
                apartments_view(old_list@) == old_v,
                old_list@.len() == old_v.len(),
                forall|k: int| 0 <= k < old_v.len() ==> (#[trigger] old_v[k]).listed <= now,
                forall|k: int|
                    0 <= k < old_v.len() ==> (#[trigger] old_v[k]).unlisted is None
                        && old_v[k].wf(),
                forall|k: int|
                    0 <= k < old_unl.len() ==> (#[trigger] old_unl[k]).unlisted is Some
                        && old_unl[k].wf(),
                apartments_view(self.known_apartments@) == new_known_spec(old_v, input_v, now),
                payload_views(diff.added@) == added_spec(old_v, input_v),
                changed_views(diff.changed@) == changed_spec(old_v, input_v),
                apartments_view(diff.removed@) == removed_spec(old_v.take(j as int), input_v, now),
                self.unlisted_v() == old_unl + apartments_view(diff.removed@),
            decreases old_list.len() - j,
        {
            let ghost prev_ul = self.unlisted_v();
            let ghost prev_rem = apartments_view(diff.removed@);
            let o = &old_list[j];
            assert(o.v() == old_v[j as int]);
            let still_here = contains_id(&self.known_apartments, &o.inner.unit_id);
            proof {
                lemma_new_known_same_ids(old_v, input_v, now, o.v().sid());
            }
            if !still_here {
                let removed_apt = Apartment {
                    inner: o.inner.duplicate(),
                    listed: o.listed,
                    unlisted: Option::Some(now),
                };
                proof {
                    assert(removed_apt.v() =~= (ApartmentV {
                        inner: old_v[j as int].inner,
                        listed: old_v[j as int].listed,
                        unlisted: Option::Some(now),
                    }));
                }
                let ghost rv = removed_apt.v();
                let removed_copy = removed_apt.duplicate();
                diff.removed.push(removed_copy);
                self.unlisted_apartments.push(removed_apt);
                proof {
                    assert(self.unlisted_v() =~= prev_ul.push(rv));
                    assert(apartments_view(diff.removed@) =~= prev_rem.push(rv));
                    assert(old_unl + prev_rem.push(rv) =~= (old_unl + prev_rem).push(rv));
                    assert(self.unlisted_v() == old_unl + apartments_view(diff.removed@));
                }
            }
            proof {
                lemma_removed_spec_step(old_v, input_v, now, j as int);
                assert(apartments_view(diff.removed@) =~= removed_spec(
                    old_v.take(j + 1),
                    input_v,
                    now,
                ));
            }
            j = j + 1;
        }
        proof {
            assert(old_v.take(old_v.len() as int) =~= old_v);
        }

        proof {
            let nk = self.known_v();
            assert forall|a: int, b: int| 0 <= a < b < nk.len() implies nk[a].sid() != nk[b].sid() by {
                assert(nk[a].sid() == input_v[a].sid());
                assert(nk[b].sid() == input_v[b].sid());
            };
            assert forall|k: int|
                0 <= k < nk.len() implies (#[trigger] nk[k]).unlisted is None && nk[k].wf() by {
                assert(nk[k] == updated_unit(old_v, input_v[k], now));
                assert(input_v[k].inner.wf());
            };
            let ul = self.unlisted_v();
            let rem = apartments_view(diff.removed@);
            assert forall|k: int|
                0 <= k < ul.len() implies (#[trigger] ul[k]).unlisted is Some && ul[k].wf() by {
                if k < old_unl.len() {
                    assert(ul[k] == old_unl[k]);
                } else {
                    assert(ul[k] == rem[k - old_unl.len()]);
                    lemma_removed_entries_wf(old_v, input_v, now, k - old_unl.len());
                }
            };
        }
        diff
    }
}

// ---------------------------------------------------------------------
// Laws of reconciliation.
// ---------------------------------------------------------------------

/// Whether some added payload carries the identifier `id`.
pub open spec fn added_has(s: Seq<ApiApartmentV>, id: Seq<char>) -> bool {
    exists|k: int| 0 <= k < s.len() && s[k].unit_id == id
}

/// Whether some changed pair concerns the identifier `id`.
pub open spec fn changed_has(s: Seq<ChangedApartmentV>, id: Seq<char>) -> bool {
    exists|k: int| 0 <= k < s.len() && s[k].new.unit_id == id
}

/// The unit with identifier `id` persists unchanged: it is in both sets
/// with structurally equal payloads.
pub open spec fn unchanged_class(old: Seq<ApartmentV>, input: Seq<ApartmentV>, id: Seq<char>) -> bool {
    &&& has_id(old, id)
    &&& has_id(input, id)
    &&& old[idx_of(old, id)].inner == input[idx_of(input, id)].inner
}

pub open spec fn exactly_one(a: bool, b: bool, c: bool, d: bool) -> bool {
    &&& a || b || c || d
    &&& !(a && b)
    &&& !(a && c)
    &&& !(a && d)
    &&& !(b && c)
    &&& !(b && d)
    &&& !(c && d)
}

proof fn lemma_has_id_drop_last(s: Seq<ApartmentV>, id: Seq<char>)
    requires
        s.len() > 0,
    ensures
        has_id(s, id) == (has_id(s.drop_last(), id) || s.last().sid() == id),
{
    if has_id(s, id) {
        let i = choose|i: int| 0 <= i < s.len() && s[i].sid() == id;
        if i < s.len() - 1 {
            assert(s.drop_last()[i] == s[i]);
            assert(has_id(s.drop_last(), id));
        }
    }
    if has_id(s.drop_last(), id) {
        let i = choose|i: int| 0 <= i < s.drop_last().len() && s.drop_last()[i].sid() == id;
        assert(s[i] == s.drop_last()[i]);
        assert(has_id(s, id));
    }
    if s.last().sid() == id {
        assert(has_id(s, id));
    }
}

/// An identifier turns up among the added payloads exactly when it is in
/// the snapshot and was not active before.
pub proof fn lemma_added_iff(old: Seq<ApartmentV>, input: Seq<ApartmentV>, id: Seq<char>)
    ensures
        added_has(added_spec(old, input), id) == (has_id(input, id) && !has_id(old, id)),
    decreases input.len(),
{
    if input.len() == 0 {
        assert(!has_id(input, id));
        assert(!added_has(added_spec(old, input), id));
    } else {
        let prefix = input.drop_last();
        lemma_added_iff(old, prefix, id);
        lemma_has_id_drop_last(input, id);
        let a = input.last();
        let s = added_spec(old, input);
        let sp = added_spec(old, prefix);
        if added_has(s, id) {
            let k = choose|k: int| 0 <= k < s.len() && s[k].unit_id == id;
            if k < sp.len() {
                assert(sp[k] == s[k]);
                assert(added_has(sp, id));
            } else {
                assert(!has_id(old, a.sid()) && a.inner.unit_id == id);
                assert(a.sid() == id);
            }
            assert(has_id(input, id) && !has_id(old, id));
        }
        if has_id(input, id) && !has_id(old, id) {
            if has_id(prefix, id) {
                assert(added_has(sp, id));
                let k = choose|k: int| 0 <= k < sp.len() && sp[k].unit_id == id;
                assert(s[k] == sp[k]);
                assert(added_has(s, id));
            } else {
                assert(a.sid() == id);
                assert(s[sp.len() as int].unit_id == id);
                assert(added_has(s, id));
            }
        }
    }
}

/// An identifier turns up among the changed pairs exactly when it is in
/// both sets and the payloads differ structurally.
pub proof fn lemma_changed_iff(old: Seq<ApartmentV>, input: Seq<ApartmentV>, id: Seq<char>)
    requires
        distinct_ids(input),
    ensures
        changed_has(changed_spec(old, input), id) == (has_id(old, id) && has_id(input, id)
            && old[idx_of(old, id)].inner != input[idx_of(input, id)].inner),
    decreases input.len(),
{
    if input.len() == 0 {
        assert(!has_id(input, id));
        assert(!changed_has(changed_spec(old, input), id));
    } else {
        let prefix = input.drop_last();
        assert(distinct_ids(prefix)) by {
            assert(forall|i: int| 0 <= i < prefix.len() ==> prefix[i] == input[i]);
        };
        lemma_changed_iff(old, prefix, id);
        lemma_has_id_drop_last(input, id);
        let a = input.last();
        let s = changed_spec(old, input);
        let sp = changed_spec(old, prefix);
        if a.sid() == id {
            lemma_idx_of_unique(input, id, input.len() - 1);
            assert(!has_id(prefix, id)) by {
                if has_id(prefix, id) {
                    let i = choose|i: int| 0 <= i < prefix.len() && prefix[i].sid() == id;
                    assert(input[i].sid() == id);
                    assert(input[i].sid() != input[input.len() - 1].sid());
                }
            };
            assert(!changed_has(sp, id));
            if has_id(old, id) && old[idx_of(old, id)].inner != a.inner {
                assert(s[sp.len() as int].new.unit_id == id);
                assert(changed_has(s, id));
            } else {
                if changed_has(s, id) {
                    let k = choose|k: int| 0 <= k < s.len() && s[k].new.unit_id == id;
                    if k < sp.len() {
                        assert(sp[k] == s[k]);
                        assert(changed_has(sp, id));
                    }
                    assert(false);
                }
            }
        } else {
            if has_id(input, id) {
                lemma_idx_of_unique(input, id, idx_of(input, id));
                assert(idx_of(input, id) < input.len() - 1);
                assert(prefix[idx_of(input, id)] == input[idx_of(input, id)]);
                lemma_idx_of_unique(prefix, id, idx_of(input, id));
            }
            if changed_has(s, id) {
                let k = choose|k: int| 0 <= k < s.len() && s[k].new.unit_id == id;
                if k < sp.len() {
                    assert(sp[k] == s[k]);
                    assert(changed_has(sp, id));
                } else {
                    assert(s[k].new.unit_id == a.sid());
                    assert(false);
                }
            }
            if changed_has(sp, id) {
                let k = choose|k: int| 0 <= k < sp.len() && sp[k].new.unit_id == id;
                assert(s[k] == sp[k]);
                assert(changed_has(s, id));
            }
        }
    }
}

/// An identifier turns up among the removed units exactly when it was
/// active before and is absent from the snapshot; the archived record
/// keeps the payload and first-seen time and is stamped unlisted at
/// `now`.
pub proof fn lemma_removed_iff(old: Seq<ApartmentV>, input: Seq<ApartmentV>, now: u64, id: Seq<char>)
    requires
        distinct_ids(old),
    ensures
        has_id(removed_spec(old, input, now), id) == (has_id(old, id) && !has_id(input, id)),
        (has_id(old, id) && !has_id(input, id)) ==> exists|k: int|
            0 <= k < removed_spec(old, input, now).len() && removed_spec(old, input, now)[k]
                == (ApartmentV {
                inner: old[idx_of(old, id)].inner,
                listed: old[idx_of(old, id)].listed,
                unlisted: Option::Some(now),
            }),
    decreases old.len(),
{
    if old.len() == 0 {
        assert(!has_id(old, id));
        assert(!has_id(removed_spec(old, input, now), id));
    } else {
        let prefix = old.drop_last();
        assert(distinct_ids(prefix)) by {
            assert(forall|i: int| 0 <= i < prefix.len() ==> prefix[i] == old[i]);
        };
        lemma_removed_iff(prefix, input, now, id);
        lemma_has_id_drop_last(old, id);
        let o = old.last();
        let s = removed_spec(old, input, now);
        let sp = removed_spec(prefix, input, now);
        if o.sid() == id {
            lemma_idx_of_unique(old, id, old.len() - 1);
            assert(!has_id(prefix, id)) by {
                if has_id(prefix, id) {
                    let i = choose|i: int| 0 <= i < prefix.len() && prefix[i].sid() == id;
                    assert(old[i].sid() == id);
                    assert(old[i].sid() != old[old.len() - 1].sid());
                }
            };
            assert(!has_id(sp, id));
            if !has_id(input, id) {
                let rec = ApartmentV { inner: o.inner, listed: o.listed, unlisted: Option::Some(now) };
                assert(s[sp.len() as int] == rec);
                assert(s[sp.len() as int].sid() == id);
                assert(has_id(s, id));
            } else {
                if has_id(s, id) {
                    let k = choose|k: int| 0 <= k < s.len() && s[k].sid() == id;
                    if k < sp.len() {
                        assert(sp[k] == s[k]);
                        assert(has_id(sp, id));
                    }
                    assert(false);
                }
            }
        } else {
            if has_id(old, id) {
                lemma_idx_of_unique(old, id, idx_of(old, id));
                assert(idx_of(old, id) < old.len() - 1);
                assert(prefix[idx_of(old, id)] == old[idx_of(old, id)]);
                lemma_idx_of_unique(prefix, id, idx_of(old, id));
            }
            if has_id(s, id) {
                let k = choose|k: int| 0 <= k < s.len() && s[k].sid() == id;
                if k < sp.len() {
                    assert(sp[k] == s[k]);
                    assert(has_id(sp, id));
                } else {
                    assert(s[k].sid() == o.sid());
                    assert(false);
                }
            }
            if has_id(sp, id) {
                let k = choose|k: int| 0 <= k < sp.len() && sp[k].sid() == id;
                assert(s[k] == sp[k]);
                assert(has_id(s, id));
            }
            if has_id(old, id) && !has_id(input, id) {
                let k = choose|k: int|
                    0 <= k < sp.len() && sp[k] == (ApartmentV {
                        inner: prefix[idx_of(prefix, id)].inner,
                        listed: prefix[idx_of(prefix, id)].listed,
                        unlisted: Option::Some(now),
                    });
                assert(s[k] == sp[k]);
            }
        }
    }
}

/// Partition: with distinct identifiers on both sides, every identifier
/// appearing in the prior active set or in the snapshot is classified
/// into exactly one of added, removed, changed and unchanged.
pub proof fn lemma_partition(old: Seq<ApartmentV>, input: Seq<ApartmentV>, now: u64, id: Seq<char>)
    requires
        distinct_ids(old),
        distinct_ids(input),
        has_id(old, id) || has_id(input, id),
    ensures
        exactly_one(
            added_has(added_spec(old, input), id),
            has_id(removed_spec(old, input, now), id),
            changed_has(changed_spec(old, input), id),
            unchanged_class(old, input, id),
        ),
{
    lemma_added_iff(old, input, id);
    lemma_changed_iff(old, input, id);
    lemma_removed_iff(old, input, now, id);
}

proof fn lemma_added_empty(old: Seq<ApartmentV>, input: Seq<ApartmentV>)
    requires
        forall|i: int| 0 <= i < input.len() ==> has_id(old, (#[trigger] input[i]).sid()),
    ensures
        added_spec(old, input) == Seq::<ApiApartmentV>::empty(),
    decreases input.len(),
{
    if input.len() > 0 {
        let prefix = input.drop_last();
        assert(forall|i: int| 0 <= i < prefix.len() ==> prefix[i] == input[i]);
        lemma_added_empty(old, prefix);
        assert(input.last() == input[input.len() - 1]);
        assert(added_spec(old, input) =~= Seq::<ApiApartmentV>::empty());
    }
}

proof fn lemma_changed_empty(old: Seq<ApartmentV>, input: Seq<ApartmentV>)
    requires
        forall|i: int|
            0 <= i < input.len() ==> has_id(old, (#[trigger] input[i]).sid()) && old[idx_of(
                old,
                input[i].sid(),
            )].inner == input[i].inner,
    ensures
        changed_spec(old, input) == Seq::<ChangedApartmentV>::empty(),
    decreases input.len(),
{
    if input.len() > 0 {
        let prefix = input.drop_last();
        assert(forall|i: int| 0 <= i < prefix.len() ==> prefix[i] == input[i]);
        lemma_changed_empty(old, prefix);
        assert(input.last() == input[input.len() - 1]);
        assert(changed_spec(old, input) =~= Seq::<ChangedApartmentV>::empty());
    }
}

proof fn lemma_removed_empty(old: Seq<ApartmentV>, input: Seq<ApartmentV>, now: u64)
    requires
        forall|k: int| 0 <= k < old.len() ==> has_id(input, (#[trigger] old[k]).sid()),
    ensures
        removed_spec(old, input, now) == Seq::<ApartmentV>::empty(),
    decreases old.len(),
{
    if old.len() > 0 {
        let prefix = old.drop_last();
        assert(forall|i: int| 0 <= i < prefix.len() ==> prefix[i] == old[i]);
        lemma_removed_empty(prefix, input, now);
        assert(old.last() == old[old.len() - 1]);
        assert(removed_spec(old, input, now) =~= Seq::<ApartmentV>::empty());
    }
}

/// Idempotence: reconciling the same snapshot again, against the active
/// set the first reconciliation produced, yields an empty diff.
pub proof fn lemma_idempotent(old: Seq<ApartmentV>, input: Seq<ApartmentV>, now1: u64, now2: u64)
    requires
        distinct_ids(input),
    ensures
        added_spec(new_known_spec(old, input, now1), input) == Seq::<ApiApartmentV>::empty(),
        changed_spec(new_known_spec(old, input, now1), input) == Seq::<ChangedApartmentV>::empty(),
        removed_spec(new_known_spec(old, input, now1), input, now2) == Seq::<ApartmentV>::empty(),
{
    let nk = new_known_spec(old, input, now1);
    assert(forall|k: int| 0 <= k < nk.len() ==> (#[trigger] nk[k]).sid() == input[k].sid());
    assert(distinct_ids(nk));
    assert forall|i: int| 0 <= i < input.len() implies has_id(nk, (#[trigger] input[i]).sid()) by {
        assert(nk[i].sid() == input[i].sid());
    };
    assert forall|i: int|
        0 <= i < input.len() implies has_id(nk, (#[trigger] input[i]).sid()) && nk[idx_of(
        nk,
        input[i].sid(),
    )].inner == input[i].inner by {
        assert(nk[i].sid() == input[i].sid());
        lemma_idx_of_unique(nk, input[i].sid(), i);
        assert(nk[i].inner == input[i].inner);
    };
    lemma_added_empty(nk, input);
    lemma_changed_empty(nk, input);
    assert forall|k: int| 0 <= k < nk.len() implies has_id(input, (#[trigger] nk[k]).sid()) by {
        assert(nk[k].sid() == input[k].sid());
        assert(has_id(input, input[k].sid()));
    };
    lemma_removed_empty(nk, input, now2);
}

/// Unlisted accounting: a unit active with `first seen = T0` and absent
/// from the snapshot taken at `now` is yielded in `removed` as an
/// archived record with `first seen = T0`, payload intact, stamped
/// unlisted at `now` -- and its identifier is no longer in the next
/// active set.
pub proof fn lemma_unlisted_accounting(
    old: Seq<ApartmentV>,
    input: Seq<ApartmentV>,
    now: u64,
    id: Seq<char>,
)
    requires
        distinct_ids(old),
        has_id(old, id),
        !has_id(input, id),
    ensures
        exists|k: int|
            0 <= k < removed_spec(old, input, now).len() && removed_spec(old, input, now)[k]
                == (ApartmentV {
                inner: old[idx_of(old, id)].inner,
                listed: old[idx_of(old, id)].listed,
                unlisted: Option::Some(now),
            }),
        !has_id(new_known_spec(old, input, now), id),
{
    lemma_removed_iff(old, input, now, id);
    lemma_new_known_same_ids(old, input, now, id);
}

/// Structural-equality sensitivity: a snapshot carrying the same
/// identifiers in the same order, with exactly one payload changed,
/// yields exactly that one changed pair and nothing added or removed.
pub proof fn lemma_single_change(
    old: Seq<ApartmentV>,
    input: Seq<ApartmentV>,
    now: u64,
    j0: int,
)
    requires
        distinct_ids(old),
        distinct_ids(input),
        input.len() == old.len(),
        0 <= j0 < input.len(),
        forall|i: int| 0 <= i < input.len() ==> (#[trigger] input[i]).sid() == old[i].sid(),
        forall|i: int| 0 <= i < input.len() && i != j0 ==> (#[trigger] input[i]).inner == old[i].inner,
        input[j0].inner != old[j0].inner,
    ensures
        added_spec(old, input) == Seq::<ApiApartmentV>::empty(),
        removed_spec(old, input, now) == Seq::<ApartmentV>::empty(),
        changed_spec(old, input) == seq![
            ChangedApartmentV { old: old[j0].inner, new: input[j0].inner },
        ],
{
    assert forall|i: int| 0 <= i < input.len() implies has_id(old, (#[trigger] input[i]).sid()) by {
        assert(old[i].sid() == input[i].sid());
    };
    lemma_added_empty(old, input);
    assert forall|k: int| 0 <= k < old.len() implies has_id(input, (#[trigger] old[k]).sid()) by {
        assert(input[k].sid() == old[k].sid());
        assert(has_id(input, input[k].sid()));
    };
    lemma_removed_empty(old, input, now);
    lemma_changed_single_prefix(old, input, j0, input.len() as int);
    assert(input.take(input.len() as int) =~= input);
}

proof fn lemma_changed_single_prefix(old: Seq<ApartmentV>, input: Seq<ApartmentV>, j0: int, m: int)
    requires
        distinct_ids(old),
        distinct_ids(input),
        input.len() == old.len(),
        0 <= j0 < input.len(),
        forall|i: int| 0 <= i < input.len() ==> (#[trigger] input[i]).sid() == old[i].sid(),
        forall|i: int| 0 <= i < input.len() && i != j0 ==> (#[trigger] input[i]).inner == old[i].inner,
        input[j0].inner != old[j0].inner,
        0 <= m <= input.len(),
    ensures
        changed_spec(old, input.take(m)) == if m <= j0 {
            Seq::<ChangedApartmentV>::empty()
        } else {
            seq![ChangedApartmentV { old: old[j0].inner, new: input[j0].inner }]
        },
    decreases m,
{
    if m > 0 {
        lemma_changed_single_prefix(old, input, j0, m - 1);
        assert(input.take(m).drop_last() =~= input.take(m - 1));
        assert(input.take(m).last() == input[m - 1]);
        let a = input[m - 1];
        lemma_idx_of_unique(old, a.sid(), m - 1);
        if m - 1 == j0 {
            assert(changed_spec(old, input.take(m)) =~= seq![
                ChangedApartmentV { old: old[j0].inner, new: input[j0].inner },
            ]);
        } else {
            assert(old[idx_of(old, a.sid())].inner == a.inner);
            assert(changed_spec(old, input.take(m)) == changed_spec(old, input.take(m - 1)) + Seq::<
                ChangedApartmentV,
            >::empty());
            if m - 1 < j0 {
                assert(changed_spec(old, input.take(m)) =~= Seq::<ChangedApartmentV>::empty());
            } else {
                assert(changed_spec(old, input.take(m)) =~= seq![
                    ChangedApartmentV { old: old[j0].inner, new: input[j0].inner },
                ]);
            }
        }
    } else {
        assert(input.take(0) =~= Seq::<ApartmentV>::empty());
        assert(changed_spec(old, input.take(0)) =~= Seq::<ChangedApartmentV>::empty());
    }
}

/// Every entry of `removed_spec` is a well-formed archived unit: it is
/// stamped unlisted at `now`, no earlier than its `first seen` time.
proof fn lemma_removed_entries_wf(old: Seq<ApartmentV>, input: Seq<ApartmentV>, now: u64, k: int)
    requires
        forall|i: int| 0 <= i < old.len() ==> (#[trigger] old[i]).listed <= now,
        forall|i: int| 0 <= i < old.len() ==> (#[trigger] old[i]).wf(),
        0 <= k < removed_spec(old, input, now).len(),
    ensures
        removed_spec(old, input, now)[k].unlisted is Some,
        removed_spec(old, input, now)[k].wf(),
    decreases old.len(),
{
    if old.len() > 0 {
        let prefix = removed_spec(old.drop_last(), input, now);
        if k < prefix.len() {
            lemma_removed_entries_wf(old.drop_last(), input, now, k);
        }
    }
}

} // verus!
