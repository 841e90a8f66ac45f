use vstd::prelude::*;

use crate::device::{
    all_usages, element_of, first_at, fold_interface, grouped, id_of_digits, open_outcome,
    readable_usages, record_of, ElementView, report_buffer, report_outcome, with_element, InfoView,
    Interface,
};
use crate::error::{Error, IO_RETURN_SUCCESS};
use crate::text::decimal;

verus! {

/// Folding an interface into well-formed records keeps every record
/// non-empty.
proof fn lemma_fold_keeps_elements<H>(infos: Seq<InfoView<H>>, i: Interface<H>)
    requires
        forall|k: int| 0 <= k < infos.len() ==> infos[k].elements.len() > 0,
    ensures
        forall|k: int|
            0 <= k < fold_interface(infos, i).len() ==> fold_interface(infos, i)[k].elements.len()
                > 0,
{
}

/// Every record that grouping makes has at least one element, so that its
/// metadata and its opening can always go through the first one.
pub proof fn lemma_grouped_records_nonempty<H>(ifaces: Seq<Interface<H>>)
    ensures
        forall|k: int|
            0 <= k < grouped(ifaces).len() ==> (#[trigger] grouped(ifaces)[k]).elements.len() > 0,
    decreases ifaces.len(),
{
    if ifaces.len() > 0 {
        lemma_grouped_records_nonempty(ifaces.drop_last());
        lemma_fold_keeps_elements(grouped(ifaces.drop_last()), ifaces.last());
    }
}

/// No two records that grouping makes share a location.
pub proof fn lemma_grouped_locations_distinct<H>(ifaces: Seq<Interface<H>>)
    ensures
        forall|a: int, b: int|
            0 <= a < b < grouped(ifaces).len() ==> (#[trigger] grouped(ifaces)[a]).location
                != (#[trigger] grouped(ifaces)[b]).location,
    decreases ifaces.len(),
{
    if ifaces.len() > 0 {
        let before = grouped(ifaces.drop_last());
        lemma_grouped_locations_distinct(ifaces.drop_last());
        let i = ifaces.last();
        if let Some(id) = i.location_id {
            let loc = decimal(id as int);
            if exists|j: int| first_at(before, loc, j) {
                let j = choose|j: int| first_at(before, loc, j);
                let after = before.update(j, with_element(before[j], element_of(i)));
                assert forall|a: int, b: int| 0 <= a < b < after.len() implies (#[trigger] after[a]).location
                    != (#[trigger] after[b]).location by {
                    assert(before[a].location != before[b].location);
                }
            } else {
                let after = before.push(record_of(i, loc));
                assert forall|a: int, b: int| 0 <= a < b < after.len() implies (#[trigger] after[a]).location
                    != (#[trigger] after[b]).location by {
                    if b < before.len() {
                        assert(before[a].location != before[b].location);
                    } else {
                        assert(!first_at(before, loc, a));
                    }
                }
            }
        }
    }
}

/// Every record's location is the decimal notation of the location id of
/// some enumerated interface.
pub proof fn lemma_grouped_locations_readable<H>(ifaces: Seq<Interface<H>>)
    ensures
        forall|k: int|
            0 <= k < grouped(ifaces).len() ==> exists|m: int|
                0 <= m < ifaces.len() && (#[trigger] ifaces[m]).location_id is Some
                    && (#[trigger] grouped(ifaces)[k]).location == decimal(
                    ifaces[m].location_id->Some_0 as int,
                ),
    decreases ifaces.len(),
{
    if ifaces.len() > 0 {
        let front = ifaces.drop_last();
        let before = grouped(front);
        lemma_grouped_locations_readable(front);
        let last = ifaces.len() - 1;
        assert forall|k: int| 0 <= k < grouped(ifaces).len() implies exists|m: int|
            0 <= m < ifaces.len() && (#[trigger] ifaces[m]).location_id is Some
                && (#[trigger] grouped(ifaces)[k]).location == decimal(
                ifaces[m].location_id->Some_0 as int,
            ) by {
            if k < before.len() && grouped(ifaces)[k].location == before[k].location {
                let m = choose|m: int|
                    0 <= m < front.len() && (#[trigger] front[m]).location_id is Some
                        && before[k].location == decimal(front[m].location_id->Some_0 as int);
                assert(ifaces[m] == front[m]);
            } else {
                assert(ifaces[last] == ifaces.last());
            }
        }
    }
}

/// Two interfaces at the same location fold into one record, whose usages
/// are those of the first interface followed by those of the second.
pub proof fn lemma_same_location_folds<H>(a: Interface<H>, b: Interface<H>)
    requires
        a.location_id is Some,
        b.location_id == a.location_id,
    ensures
        grouped(seq![a, b]).len() == 1,
        grouped(seq![a, b])[0].location == decimal(a.location_id->Some_0 as int),
        all_usages(grouped(seq![a, b])[0].elements) == readable_usages(a.usage_pairs@)
            + readable_usages(b.usage_pairs@),
{
    let s = seq![a, b];
    let loc = decimal(a.location_id->Some_0 as int);
    assert(s.drop_last() =~= seq![a]);
    assert(seq![a].drop_last() =~= Seq::<Interface<H>>::empty());
    let none = Seq::<InfoView<H>>::empty();
    assert(grouped(Seq::<Interface<H>>::empty()) == none);
    assert(seq![a].last() == a);
    assert(!exists|j: int| first_at(none, loc, j));
    let one = grouped(seq![a]);
    assert(one =~= seq![record_of(a, loc)]);
    assert(first_at(one, loc, 0));
    let j = choose|j: int| first_at(one, loc, j);
    assert(j == 0);
    let rec = with_element(one[0], element_of(b));
    assert(grouped(s) == one.update(0, rec));
    let els = rec.elements;
    assert(els =~= seq![element_of(a), element_of(b)]);
    assert(els.drop_last() =~= seq![element_of(a)]);
    assert(seq![element_of(a)].drop_last() =~= Seq::<ElementView<H>>::empty());
    assert(seq![element_of(a)].last() == element_of(a));
    assert(all_usages(Seq::<ElementView<H>>::empty()) =~= Seq::<(i32, i32)>::empty());
    assert(all_usages(seq![element_of(a)]) == all_usages(Seq::<ElementView<H>>::empty()) + element_of(a).usages);
    assert(all_usages(seq![element_of(a)]) =~= readable_usages(a.usage_pairs@));
    assert(els.last() == element_of(b));
}

/// A record started by an interface that has no product id reports `0`
/// for it, and so does a device path without a usable `PID_` part.
pub proof fn lemma_missing_product_id_is_zero<H>(infos: Seq<InfoView<H>>, i: Interface<H>)
    requires
        i.location_id is Some,
        i.product_id is None,
        forall|k: int|
            0 <= k < infos.len() ==> infos[k].location != decimal(i.location_id->Some_0 as int),
    ensures
        fold_interface(infos, i).len() == infos.len() + 1,
        fold_interface(infos, i).last().product_id == 0,
        id_of_digits(None) == 0,
{
    let loc = decimal(i.location_id->Some_0 as int);
    assert(!exists|j: int| first_at(infos, loc, j));
}

/// When the OS call that opens the interface fails, `open` (through
/// `DeviceInfo::finish_open`) hands back that status as an error and no
/// device.
pub proof fn lemma_open_failure_propagates<H, S>(info: InfoView<H>, status: i32)
    ensures
        open_outcome::<H, S>(info, Err(status)) == Err::<InfoView<H>, Error>(Error::IOReturn(status)),
{
}

/// An input report that the OS fills with `payload` after the report id
/// (reporting that length) comes back as the id followed by `payload`: one
/// byte longer than the payload, and starting with the id.
pub proof fn lemma_input_report_shape(report_id: u8, size: nat, payload: Seq<u8>)
    requires
        payload.len() <= size,
    ensures
        ({
            let filled = seq![report_id] + payload + report_buffer(report_id, size).skip(
                payload.len() + 1 as int,
            );
            &&& filled.len() == report_buffer(report_id, size).len()
            &&& report_outcome(filled, IO_RETURN_SUCCESS, payload.len() + 1, size + 1) == Ok::<
                Seq<u8>,
                Error,
            >(seq![report_id] + payload)
            &&& (seq![report_id] + payload).len() == payload.len() + 1
            &&& (seq![report_id] + payload)[0] == report_id
        }),
{
    let filled = seq![report_id] + payload + report_buffer(report_id, size).skip(payload.len() + 1 as int);
    assert(filled.take(payload.len() + 1 as int) =~= seq![report_id] + payload);
}

} // verus!
