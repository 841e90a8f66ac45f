use vstd::prelude::*;

use crate::error::{status_result, Error, IO_RETURN_SUCCESS};
use crate::handle::{requested_report_id, requested_report_id_of, HidHandle, HidSession};
use crate::laws::lemma_grouped_records_nonempty;
use crate::text::{
    decimal, decimal_string, decode_utf16_lossy, first_capture, first_group, hex_u16,
    parse_hex_u16, utf16_lossy,
};

verus! {

/// What the OS backend read from one HID interface during enumeration.
/// A property that could not be read is `None`.
pub struct Interface<H> {
    /// The location id (the grouping key).
    pub location_id: Option<i32>,
    /// The `(usage, usage_page)` entries, each part as far as it was readable.
    pub usage_pairs: Vec<(Option<i32>, Option<i32>)>,
    pub product_string: Option<String>,
    pub product_id: Option<i32>,
    pub vendor_id: Option<i32>,
    /// The native handle of the interface, owned from here on.
    pub handle: H,
}

/// One OS interface that contributes to a physical device.
pub struct Element<H> {
    usages: Vec<(i32, i32)>,
    handle: H,
}

/// Mathematical model of an [`Element`].
pub struct ElementView<H> {
    pub usages: Seq<(i32, i32)>,
    pub handle: H,
}

impl<H> View for Element<H> {
    type V = ElementView<H>;

    closed spec fn view(&self) -> ElementView<H> {
        ElementView { usages: self.usages@, handle: self.handle }
    }
}

/// Enumeration-time snapshot of one physical HID device.
pub struct DeviceInfo<H> {
    location: String,
    product_string: Option<String>,
    product_id: u16,
    vendor_id: u16,
    elements: Vec<Element<H>>,
}

/// Mathematical model of a [`DeviceInfo`].
pub struct InfoView<H> {
    pub location: Seq<char>,
    pub product_string: Option<Seq<char>>,
    pub product_id: u16,
    pub vendor_id: u16,
    pub elements: Seq<ElementView<H>>,
}

pub open spec fn opt_view(s: Option<String>) -> Option<Seq<char>> {
    match s {
        Some(s) => Some(s@),
        None => None,
    }
}

impl<H> View for DeviceInfo<H> {
    type V = InfoView<H>;

    closed spec fn view(&self) -> InfoView<H> {
        InfoView {
            location: self.location@,
            product_string: opt_view(self.product_string),
            product_id: self.product_id,
            vendor_id: self.vendor_id,
            elements: self.elements@.map_values(|e: Element<H>| e@),
        }
    }
}

/// The models of a sequence of records.
pub open spec fn views<H>(s: Seq<DeviceInfo<H>>) -> Seq<InfoView<H>> {
    s.map_values(|d: DeviceInfo<H>| d@)
}

/// An identifier property as a 16-bit id: `0` where it is missing.
pub open spec fn id_or_zero(v: Option<i32>) -> u16 {
    match v {
        Some(x) => x as u16,
        None => 0,
    }
}

/// The usage entries whose two parts were both readable, in order.
pub open spec fn readable_usages(pairs: Seq<(Option<i32>, Option<i32>)>) -> Seq<(i32, i32)>
    decreases pairs.len(),
{
    if pairs.len() == 0 {
        seq![]
    } else {
        let rest = readable_usages(pairs.drop_last());
        match pairs.last() {
            (Some(u), Some(p)) => rest.push((u, p)),
            _ => rest,
        }
    }
}

/// The element that an interface contributes.
pub open spec fn element_of<H>(i: Interface<H>) -> ElementView<H> {
    ElementView { usages: readable_usages(i.usage_pairs@), handle: i.handle }
}

/// The record that an interface starts when its location is new: metadata
/// comes from this first element.
pub open spec fn record_of<H>(i: Interface<H>, location: Seq<char>) -> InfoView<H> {
    InfoView {
        location,
        product_string: opt_view(i.product_string),
        product_id: id_or_zero(i.product_id),
        vendor_id: id_or_zero(i.vendor_id),
        elements: seq![element_of(i)],
    }
}

/// `j` is the first record at `location`.
pub open spec fn first_at<H>(infos: Seq<InfoView<H>>, location: Seq<char>, j: int) -> bool {
    &&& 0 <= j < infos.len()
    &&& infos[j].location == location
    &&& forall|k: int| 0 <= k < j ==> infos[k].location != location
}

/// The record `info` with one more element.
pub open spec fn with_element<H>(info: InfoView<H>, e: ElementView<H>) -> InfoView<H> {
    InfoView { elements: info.elements.push(e), ..info }
}

/// Folds one interface into the records found so far: skipped without a
/// location, appended to the first record at its location, else a new record
/// at the end.
pub open spec fn fold_interface<H>(infos: Seq<InfoView<H>>, i: Interface<H>) -> Seq<InfoView<H>> {
    match i.location_id {
        None => infos,
        Some(id) => {
            let loc = decimal(id as int);
            if exists|j: int| first_at(infos, loc, j) {
                let j = choose|j: int| first_at(infos, loc, j);
                infos.update(j, with_element(infos[j], element_of(i)))
            } else {
                infos.push(record_of(i, loc))
            }
        },
    }
}

/// The records that enumeration makes of the interfaces `ifaces`, in order.
pub open spec fn grouped<H>(ifaces: Seq<Interface<H>>) -> Seq<InfoView<H>>
    decreases ifaces.len(),
{
    if ifaces.len() == 0 {
        seq![]
    } else {
        fold_interface(grouped(ifaces.drop_last()), ifaces.last())
    }
}

/// All usage pairs of the elements, element by element.
pub open spec fn all_usages<H>(elements: Seq<ElementView<H>>) -> Seq<(i32, i32)>
    decreases elements.len(),
{
    if elements.len() == 0 {
        seq![]
    } else {
        all_usages(elements.drop_last()) + elements.last().usages
    }
}

fn readable_usage_pairs(pairs: &Vec<(Option<i32>, Option<i32>)>) -> (r: Vec<(i32, i32)>)
    ensures
        r@ == readable_usages(pairs@),
{
    let mut r: Vec<(i32, i32)> = Vec::new();
    let mut i: usize = 0;
    while i < pairs.len()
        invariant
            0 <= i <= pairs.len(),
            r@ == readable_usages(pairs@.take(i as int)),
        decreases pairs.len() - i,
    {
        assert(pairs@.take(i + 1).drop_last() =~= pairs@.take(i as int));
        match pairs[i] {
            (Some(u), Some(p)) => r.push((u, p)),
            _ => {},
        }
        i = i + 1;
    }
    assert(pairs@.take(i as int) =~= pairs@);
    r
}

fn id_value(v: Option<i32>) -> (r: u16)
    ensures
        r == id_or_zero(v),
{
    match v {
        Some(x) => x as u16,
        None => 0,
    }
}

impl<H> DeviceInfo<H> {
    /// Every record has at least one element.
    pub open spec fn wf(&self) -> bool {
        self@.elements.len() > 0
    }

    /// The grouping key: a stable-for-the-session location identifier.
    pub fn location(&self) -> (r: &str)
        ensures
            r@ == self@.location,
    {
        self.location.as_str()
    }

    /// The product name, if the OS had one.
    pub fn product_string(&self) -> (r: Option<&str>)
        ensures
            r matches Some(s) ==> self@.product_string == Some(s@),
            r is None ==> self@.product_string is None,
    {
        match &self.product_string {
            Some(s) => Some(s.as_str()),
            None => None,
        }
    }

    /// The product id; `0` where the OS did not give it.
    pub fn product_id(&self) -> (r: u16)
        ensures
            r == self@.product_id,
    {
        self.product_id
    }

    /// The vendor id; `0` where the OS did not give it.
    pub fn vendor_id(&self) -> (r: u16)
        ensures
            r == self@.vendor_id,
    {
        self.vendor_id
    }

    /// The `(usage, usage_page)` pairs of all elements, in element order
    /// and then pair order.
    pub fn usages(&self) -> (r: Vec<(i32, i32)>)
        ensures
            r@ == all_usages(self@.elements),
    {
        let ghost els = self@.elements;
        let mut r: Vec<(i32, i32)> = Vec::new();
        let mut i: usize = 0;
        while i < self.elements.len()
            invariant
                els == self@.elements,
                els.len() == self.elements.len(),
                0 <= i <= els.len(),
                r@ == all_usages(els.take(i as int)),
            decreases self.elements.len() - i,
        {
            let us = &self.elements[i].usages;
            assert(us@ == els[i as int].usages);
            let mut j: usize = 0;
            while j < us.len()
                invariant
                    0 <= j <= us.len(),
                    r@ == all_usages(els.take(i as int)) + us@.take(j as int),
                decreases us.len() - j,
            {
                r.push(us[j]);
                j = j + 1;
                assert(r@ =~= all_usages(els.take(i as int)) + us@.take(j as int));
            }
            assert(els.take(i + 1).drop_last() =~= els.take(i as int));
            assert(us@.take(j as int) =~= us@);
            i = i + 1;
        }
        assert(els.take(i as int) =~= els);
        r
    }
}

impl<H> DeviceInfo<H> {
    /// Index of the first record at `location`, if any (linear scan).
    fn find_location(infos: &Vec<DeviceInfo<H>>, location: &String) -> (r: Option<usize>)
        ensures
            r matches Some(j) ==> first_at(views(infos@), location@, j as int),
            r is None ==> forall|k: int| 0 <= k < infos@.len() ==> views(infos@)[k].location != location@,
    {
        let mut i: usize = 0;
        while i < infos.len()
            invariant
                0 <= i <= infos.len(),
                forall|k: int| 0 <= k < i ==> views(infos@)[k].location != location@,
            decreases infos.len() - i,
        {
            if infos[i].location.eq(location) {
                return Some(i);
            }
            i = i + 1;
        }
        None
    }

    /// Folds one enumerated interface into the records found so far: an
    /// interface without a location is skipped; one whose location is known
    /// joins that record as a further element; any other starts a new record
    /// at the end, whose metadata comes from this interface.
    pub fn add_interface(infos: &mut Vec<DeviceInfo<H>>, iface: Interface<H>)
        ensures
            views(final(infos)@) == fold_interface(views(old(infos)@), iface),
    {
        let ghost old_infos = views(infos@);
        let ghost spec_iface = iface;
        let Interface { location_id, usage_pairs, product_string, product_id, vendor_id, handle } =
            iface;
        let id = match location_id {
            Some(id) => id,
            None => {
                return;
            },
        };
        let location = decimal_string(id);
        let usages = readable_usage_pairs(&usage_pairs);
        let element = Element { usages, handle };
        assert(element@ == element_of(spec_iface));
        match Self::find_location(infos, &location) {
            Some(j) => {
                assert(first_at(old_infos, location@, j as int));
                let mut info = infos.remove(j);
                assert(info@ == old_infos[j as int]);
                info.elements.push(element);
                assert(info.elements@.map_values(|e: Element<H>| e@) =~= old_infos[j as int].elements.push(element_of(spec_iface)));
                infos.insert(j, info);
                proof {
                    let jj = choose|k: int| first_at(old_infos, location@, k);
                    assert(jj == j) by {
                        if jj < j {
                            assert(!first_at(old_infos, location@, jj));
                        } else if jj > j {
                            assert(old_infos[j as int].location == location@);
                        }
                    }
                    assert(views(infos@) =~= old_infos.update(j as int, with_element(old_infos[j as int], element_of(spec_iface))));
                }
            },
            None => {
                let info = DeviceInfo {
                    location,
                    product_string,
                    product_id: id_value(product_id),
                    vendor_id: id_value(vendor_id),
                    elements: vec![element],
                };
                assert(info.elements@.map_values(|e: Element<H>| e@) =~= seq![element_of(spec_iface)]);
                infos.push(info);
                assert(!exists|j: int| first_at(old_infos, location@, j));
                assert(views(infos@) =~= old_infos.push(record_of(spec_iface, location@)));
            },
        }
    }

    /// Groups the interfaces that enumeration found, in their order, into
    /// one record per physical device.
    pub fn from_interfaces(ifaces: Vec<Interface<H>>) -> (r: Vec<DeviceInfo<H>>)
        ensures
            views(r@) == grouped(ifaces@),
            forall|k: int| 0 <= k < r@.len() ==> (#[trigger] r@[k]).wf(),
    {
        let ghost all = ifaces@;
        let mut rest = ifaces;
        let mut infos: Vec<DeviceInfo<H>> = Vec::new();
        let ghost k: int = 0;
        while rest.len() > 0
            invariant
                0 <= k <= all.len(),
                rest@ == all.skip(k),
                views(infos@) == grouped(all.take(k)),
            decreases rest.len(),
        {
            let iface = rest.remove(0);
            assert(all.take(k + 1).drop_last() =~= all.take(k));
            Self::add_interface(&mut infos, iface);
            proof {
                k = k + 1;
            }
            assert(rest@ =~= all.skip(k));
        }
        assert(all.take(k) =~= all);
        proof {
            lemma_grouped_records_nonempty(all);
            assert forall|k: int| 0 <= k < infos@.len() implies (#[trigger] infos@[k]).wf() by {
                assert(views(infos@)[k] == infos@[k]@);
            }
        }
        infos
    }
}

/// Pattern of the product id in a device path; group 1 holds the digits.
pub const PRODUCT_ID_PATTERN: &'static str = "[Pp][Ii][Dd]_([A-Fa-f0-9]+)";

/// Pattern of the vendor id in a device path; group 1 holds the digits.
pub const VENDOR_ID_PATTERN: &'static str = "[Vv][Ii][Dd]_([A-Fa-f0-9]+)";

/// The id that captured hex digits give: `0` where nothing was captured or
/// the digits do not make a 16-bit number.
pub open spec fn id_of_digits(digits: Option<Seq<char>>) -> u16 {
    match digits {
        Some(d) => match hex_u16(d) {
            Some(v) => v,
            None => 0,
        },
        None => 0,
    }
}

/// The id that `pattern` finds in the device path `path`.
pub open spec fn id_in_path(pattern: Seq<char>, path: Seq<char>) -> u16 {
    id_of_digits(first_group(pattern, path))
}

/// Reads an id from the digits that a pattern captured.
pub fn id_from_digits(digits: Option<String>) -> (r: u16)
    ensures
        r == id_of_digits(opt_view(digits)),
{
    match digits {
        Some(d) => match parse_hex_u16(d.as_str()) {
            Some(v) => v,
            None => 0,
        },
        None => 0,
    }
}

/// Reads the id that `pattern` finds in the device path `path`.
pub fn id_in_location(pattern: &str, path: &str) -> (r: u16)
    ensures
        r == id_in_path(pattern@, path@),
{
    id_from_digits(first_capture(pattern, path))
}

/// `end` is where a NUL-terminated name in `units` ends: the first NUL, or
/// the end of the buffer where there is none.
pub open spec fn is_name_end(units: Seq<u16>, end: int) -> bool {
    &&& 0 <= end <= units.len()
    &&& forall|k: int| 0 <= k < end ==> units[k] != 0
    &&& end < units.len() ==> units[end] == 0
}

/// The units of a NUL-terminated name in `units`.
pub open spec fn name_units(units: Seq<u16>) -> Seq<u16> {
    units.take(choose|e: int| is_name_end(units, e))
}

proof fn lemma_name_end_unique(units: Seq<u16>, a: int, b: int)
    requires
        is_name_end(units, a),
        is_name_end(units, b),
    ensures
        a == b,
{
    if a < b {
        assert(units[a] != 0);
    } else if b < a {
        assert(units[b] != 0);
    }
}

fn name_end(units: &Vec<u16>) -> (r: usize)
    ensures
        is_name_end(units@, r as int),
        units@.take(r as int) == name_units(units@),
{
    let mut i: usize = 0;
    while i < units.len() && units[i] != 0
        invariant
            0 <= i <= units.len(),
            forall|k: int| 0 <= k < i ==> units@[k] != 0,
        decreases units.len() - i,
    {
        i = i + 1;
    }
    proof {
        assert(is_name_end(units@, i as int));
        let e = choose|e: int| is_name_end(units@, e);
        lemma_name_end_unique(units@, e, i as int);
    }
    i
}

/// The model of the record made of one interface that a device path names.
pub open spec fn path_record<H>(path: Seq<u16>, name: Option<Seq<u16>>, handle: H) -> InfoView<H> {
    let location = utf16_lossy(path);
    InfoView {
        location,
        product_string: match name {
            Some(n) => Some(utf16_lossy(name_units(n))),
            None => None,
        },
        product_id: id_in_path(PRODUCT_ID_PATTERN@, location),
        vendor_id: id_in_path(VENDOR_ID_PATTERN@, location),
        elements: seq![ElementView { usages: seq![], handle }],
    }
}

pub open spec fn opt_units(name: Option<Vec<u16>>) -> Option<Seq<u16>> {
    match name {
        Some(n) => Some(n@),
        None => None,
    }
}

impl<H> DeviceInfo<H> {
    /// The record of one interface known by its device path (UTF-16), as on
    /// a platform that does not group interfaces: the location is the path,
    /// the ids are read from its `VID_`/`PID_` parts, and `product_name` is
    /// the NUL-terminated name buffer the OS filled, if it did.
    pub fn from_device_path(path: &Vec<u16>, product_name: Option<Vec<u16>>, handle: H) -> (r: DeviceInfo<H>)
        ensures
            r@ == path_record(path@, opt_units(product_name), handle),
            r.wf(),
    {
        let location = decode_utf16_lossy(path.as_slice());
        let product_id = id_in_location(PRODUCT_ID_PATTERN, location.as_str());
        let vendor_id = id_in_location(VENDOR_ID_PATTERN, location.as_str());
        let product_string = match product_name {
            Some(units) => {
                let end = name_end(&units);
                let mut units = units;
                units.truncate(end);
                Some(decode_utf16_lossy(units.as_slice()))
            },
            None => None,
        };
        let element = Element { usages: Vec::new(), handle };
        let r = DeviceInfo { location, product_string, product_id, vendor_id, elements: vec![element] };
        assert(r.elements@.map_values(|e: Element<H>| e@) =~= seq![ElementView { usages: seq![], handle }]);
        r
    }
}

/// An opened session over one [`DeviceInfo`]. It owns the record, so the
/// unopened form is gone; dropping it closes the interface through the
/// session's own teardown.
pub struct Device<H: HidHandle> {
    parent: DeviceInfo<H>,
    session: H::Session,
}

impl<H: HidHandle> View for Device<H> {
    type V = InfoView<H>;

    closed spec fn view(&self) -> InfoView<H> {
        self.parent@
    }
}

/// What `open` makes of the outcome of the OS open call.
pub open spec fn open_outcome<H, S>(info: InfoView<H>, outcome: Result<S, i32>) -> Result<InfoView<H>, Error> {
    match outcome {
        Ok(_) => Ok(info),
        Err(status) => Err(Error::IOReturn(status)),
    }
}

/// The buffer handed to the OS for an input report: the report id, then
/// `size` zero bytes.
pub open spec fn report_buffer(report_id: u8, size: nat) -> Seq<u8> {
    seq![report_id] + Seq::new(size, |k: int| 0u8)
}

/// What becomes of the buffer after the OS call: an error on a failure
/// status, else the buffer cut to the reported length and to `capacity`.
pub open spec fn report_outcome(buffer: Seq<u8>, status: i32, len: nat, capacity: nat) -> Result<Seq<u8>, Error> {
    if status != IO_RETURN_SUCCESS {
        Err(Error::IOReturn(status))
    } else {
        let n = if len < capacity { len } else { capacity };
        Ok(buffer.take(if n < buffer.len() { n as int } else { buffer.len() as int }))
    }
}

pub open spec fn bytes_view(r: Result<Vec<u8>, Error>) -> Result<Seq<u8>, Error> {
    match r {
        Ok(b) => Ok(b@),
        Err(e) => Err(e),
    }
}

/// The buffer handed to the OS for an input report of `size` payload bytes.
pub fn new_report_buffer(report_id: u8, size: usize) -> (r: Vec<u8>)
    requires
        size < usize::MAX,
    ensures
        r@ == report_buffer(report_id, size as nat),
{
    let mut r: Vec<u8> = Vec::with_capacity(size + 1);
    r.push(report_id);
    let mut i: usize = 0;
    while i < size
        invariant
            0 <= i <= size,
            r@ == report_buffer(report_id, i as nat),
        decreases size - i,
    {
        r.push(0u8);
        i = i + 1;
        assert(r@ =~= report_buffer(report_id, i as nat));
    }
    r
}

/// Turns the filled buffer and the OS status of an input-report call into
/// the result of [`Device::get_input_report`].
pub fn input_report_result(buffer: Vec<u8>, status: i32, len: usize, capacity: usize) -> (r: Result<Vec<u8>, Error>)
    ensures
        bytes_view(r) == report_outcome(buffer@, status, len as nat, capacity as nat),
{
    if status != IO_RETURN_SUCCESS {
        return Err(Error::IOReturn(status));
    }
    let n = if len < capacity { len } else { capacity };
    let ghost before = buffer@;
    let mut buffer = buffer;
    buffer.truncate(n);
    assert(n >= before.len() ==> buffer@ =~= before.take(before.len() as int));
    assert(n < before.len() ==> buffer@ =~= before.take(n as int));
    Ok(buffer)
}

impl<H> DeviceInfo<H> {
    /// The handle of the first element, through which the device is opened.
    pub fn primary_handle(&self) -> (r: &H)
        requires
            self.wf(),
        ensures
            *r == self@.elements[0].handle,
    {
        &self.elements[0].handle
    }
}

impl<H: HidHandle> DeviceInfo<H> {
    /// Turns the outcome of the OS open call into the result of `open`: a
    /// session gives the device over this record, a failure status gives
    /// `Error::IOReturn` with that status and no device.
    pub fn finish_open(self, outcome: Result<H::Session, i32>) -> (r: Result<Device<H>, Error>)
        ensures
            match r {
                Ok(d) => open_outcome(self@, outcome) == Ok::<InfoView<H>, Error>(d@),
                Err(e) => open_outcome(self@, outcome) == Err::<InfoView<H>, Error>(e),
            },
            outcome is Ok <==> r is Ok,
            outcome matches Err(status) ==> r == Err::<Device<H>, Error>(Error::IOReturn(status)),
    {
        match outcome {
            Ok(session) => Ok(Device { parent: self, session }),
            Err(status) => Err(Error::IOReturn(status)),
        }
    }

    /// Opens the device for report I/O through its first element, consuming
    /// the record. On failure the record is dropped and the OS status comes
    /// back as `Error::IOReturn`.
    pub fn open(self) -> (r: Result<Device<H>, Error>)
        requires
            self.wf(),
        ensures
            r matches Ok(d) ==> d@ == self@,
            r matches Err(e) ==> e is IOReturn,
    {
        let outcome = self.primary_handle().open_interface();
        self.finish_open(outcome)
    }
}

impl<H: HidHandle> Device<H> {
    /// The record this device was opened from.
    pub fn info(&self) -> (r: &DeviceInfo<H>)
        ensures
            r@ == self@,
    {
        &self.parent
    }

    /// Reads the input report `report_id` with room for `size` payload
    /// bytes: the buffer handed to the OS holds the id and then `size`
    /// zeros, and comes back cut to the length the OS reports.
    pub fn get_input_report(&self, report_id: u8, size: usize) -> (r: Result<Vec<u8>, Error>)
        requires
            size < usize::MAX,
        ensures
            r matches Ok(b) ==> b@.len() <= size + 1,
            r matches Err(e) ==> e is IOReturn && e->IOReturn_0 != IO_RETURN_SUCCESS,
    {
        let mut buffer = new_report_buffer(report_id, size);
        let (status, len) = self.session.get_report(report_id, &mut buffer);
        input_report_result(buffer, status, len, size + 1)
    }

    /// Reads an input report into `buffer` in place: byte 0 names the
    /// report id (`0` for an empty buffer), and the OS overwrites the buffer
    /// with up to its length, which the buffer keeps.
    pub fn get_input_report_into(&self, buffer: &mut Vec<u8>) -> (r: Result<(), Error>)
        ensures
            final(buffer)@.len() == old(buffer)@.len(),
            r matches Err(e) ==> e is IOReturn && e->IOReturn_0 != IO_RETURN_SUCCESS,
    {
        let report_id = requested_report_id(buffer.as_slice());
        let capacity = buffer.len();
        let (status, _len) = self.session.get_report(report_id, buffer);
        buffer.resize(capacity, 0);
        status_result(status)
    }

    /// Sends the output report `buffer`, whose byte 0 is the report id.
    pub fn set_output_report(&self, buffer: &[u8]) -> (r: Result<(), Error>)
        ensures
            r matches Err(e) ==> e is IOReturn && e->IOReturn_0 != IO_RETURN_SUCCESS,
    {
        let status = self.session.set_report(buffer);
        status_result(status)
    }
}

} // verus!
