//! The battery-extraction core: given a snapshot of the daemon's object
//! tree and the outcomes of the targeted value reads, locate every
//! battery service under a device, decode the level from the matched
//! characteristic's read value, and resolve a friendly name from the
//! user-description descriptor where one is present and readable.
//!
//! Scoping to "descendants of a path" is a raw lexical prefix test, not
//! a path-segment comparison: a sibling path that happens to extend the
//! parent's text without a separator is also matched. The daemon's path
//! naming avoids such collisions in practice, and the contracts here
//! state the lexical rule deliberately rather than a segment-aware one.

use vstd::prelude::*;
use vstd::utf8::{decode_utf8, valid_utf8};
use crate::strings::{push_char, str_eq, str_is_prefix, utf8_to_string};
use crate::tree::{ManagedObjectTree, ObjectEntry, spec_has_text_property};
use crate::tree::object_has_text_property;

verus! {

/// One battery reading: a human-readable label and a percentage level.
#[derive(Debug, Clone)]
pub struct BatteryInfo {
    pub name: String,
    pub level: u8,
}

/// A mandatory remote read could not be completed. Absence of a device,
/// service, characteristic or descriptor is never this error: absence
/// is an empty result or a fallback name.
#[derive(Debug, Clone, Copy, PartialEq, Eq, Structural)]
pub enum TransportError {
    ReadFailed,
}

/// The outcome of one targeted "read the current value" call.
pub enum ReadOutcome {
    Value(Vec<u8>),
    Failure,
}

/// One recorded read outcome, keyed by the object path it was issued
/// against.
pub struct ReadEntry {
    pub path: String,
    pub outcome: ReadOutcome,
}

/// The recorded outcomes of the value reads made for one query. A path
/// with no entry counts as a failed read: no value ever came back.
pub struct GattReads {
    pub entries: Vec<ReadEntry>,
}

/// UUID of the standard Battery Service.
pub open spec fn battery_service_uuid() -> Seq<char> {
    "0000180f-0000-1000-8000-00805f9b34fb"@
}

/// UUID of the standard Battery Level characteristic.
pub open spec fn battery_level_uuid() -> Seq<char> {
    "00002a19-0000-1000-8000-00805f9b34fb"@
}

/// UUID of the standard Characteristic User Description descriptor.
pub open spec fn user_description_uuid() -> Seq<char> {
    "00002901-0000-1000-8000-00805f9b34fb"@
}

/// Interface under which the daemon exposes a GATT service.
pub open spec fn gatt_service_interface() -> Seq<char> {
    "org.bluez.GattService1"@
}

/// Interface under which the daemon exposes a GATT characteristic.
pub open spec fn gatt_characteristic_interface() -> Seq<char> {
    "org.bluez.GattCharacteristic1"@
}

/// Interface under which the daemon exposes a GATT descriptor.
pub open spec fn gatt_descriptor_interface() -> Seq<char> {
    "org.bluez.GattDescriptor1"@
}

/// Placeholder label used when no user-description descriptor is
/// present or its value cannot be decoded.
pub open spec fn default_battery_name() -> Seq<char> {
    "Battery"@
}

/// The device address with every colon or hyphen separator replaced by
/// an underscore.
pub open spec fn normalized_address(addr: Seq<char>) -> Seq<char> {
    addr.map_values(|c: char| if c == ':' || c == '-' { '_' } else { c })
}

/// The object path of the device with the given address: the adapter
/// root followed by the normalized address.
pub open spec fn spec_device_path(addr: Seq<char>) -> Seq<char> {
    "/org/bluez/hci0/dev_"@ + normalized_address(addr)
}

/// Builds the object path of the device with the given address.
pub fn device_path_for(address: &str) -> (r: String)
    ensures
        r@ == spec_device_path(address@),
{
    let mut out: String = "/org/bluez/hci0/dev_".to_owned();
    let n = address.unicode_len();
    let mut i: usize = 0;
    while i < n
        invariant
            i <= n,
            n == address@.len(),
            out@ == "/org/bluez/hci0/dev_"@ + normalized_address(address@.take(i as int)),
        decreases n - i,
    {
        let c = address.get_char(i);
        let mapped: char = if c == ':' || c == '-' {
            '_'
        } else {
            c
        };
        push_char(&mut out, mapped);
        proof {
            assert(normalized_address(address@.take(i + 1 as int)) =~= normalized_address(
                address@.take(i as int),
            ).push(mapped));
            assert(out@ =~= "/org/bluez/hci0/dev_"@ + normalized_address(
                address@.take(i + 1 as int),
            ));
        }
        i = i + 1;
    }
    proof {
        assert(address@.take(n as int) =~= address@);
    }
    out
}

/// The battery level decoded from a read value: its first byte, or 0
/// when the value is empty.
pub open spec fn spec_level_of(value: Seq<u8>) -> u8 {
    if value.len() == 0 {
        0
    } else {
        value[0]
    }
}

/// Decodes a battery level from a characteristic's read value.
pub fn decode_level(value: &Vec<u8>) -> (r: u8)
    ensures
        r == spec_level_of(value@),
        value@.len() == 0 ==> r == 0,
{
    if value.len() == 0 {
        0
    } else {
        value[0]
    }
}

/// `value` with every trailing NUL byte removed.
pub open spec fn strip_trailing_nuls(value: Seq<u8>) -> Seq<u8>
    decreases value.len(),
{
    if value.len() > 0 && value.last() == 0 {
        strip_trailing_nuls(value.drop_last())
    } else {
        value
    }
}

/// The name resolved from a descriptor's read value: the value with
/// trailing NUL bytes stripped, decoded as UTF-8; or the placeholder
/// when the stripped value is not valid UTF-8.
pub open spec fn spec_name_of_read(value: Seq<u8>) -> Seq<char> {
    if valid_utf8(strip_trailing_nuls(value)) {
        decode_utf8(strip_trailing_nuls(value))
    } else {
        default_battery_name()
    }
}

/// Decodes a descriptor's read value into a name: strips trailing NUL
/// bytes, then decodes the rest as UTF-8. Returns nothing when the
/// stripped value is not valid UTF-8.
pub fn decode_descriptor_name(value: &Vec<u8>) -> (r: Option<String>)
    ensures
        match r {
            Some(s) => valid_utf8(strip_trailing_nuls(value@)) && s@ == decode_utf8(
                strip_trailing_nuls(value@),
            ),
            None => !valid_utf8(strip_trailing_nuls(value@)),
        },
{
    let mut k = value.len();
    proof {
        assert(value@.take(k as int) =~= value@);
    }
    while k > 0 && value[k - 1] == 0
        invariant
            k <= value@.len(),
            strip_trailing_nuls(value@.take(k as int)) == strip_trailing_nuls(value@),
        decreases k,
    {
        proof {
            assert(value@.take(k as int).drop_last() =~= value@.take(k - 1 as int));
        }
        k = k - 1;
    }
    let ghost stripped = strip_trailing_nuls(value@);
    proof {
        assert(value@.take(k as int) == stripped);
    }
    let mut b: Vec<u8> = Vec::new();
    let mut i: usize = 0;
    while i < k
        invariant
            i <= k <= value@.len(),
            b@ == value@.take(i as int),
        decreases k - i,
    {
        b.push(value[i]);
        proof {
            assert(value@.take(i + 1 as int) =~= value@.take(i as int).push(value@[i as int]));
        }
        i = i + 1;
    }
    utf8_to_string(b)
}

/// Is `obj` a Battery Service object at or below the device path?
/// Scoping is a raw lexical prefix test on the object path.
pub open spec fn is_battery_service_under(obj: ObjectEntry, device_path: Seq<char>) -> bool {
    &&& device_path.is_prefix_of(obj.path@)
    &&& spec_has_text_property(obj, gatt_service_interface(), "UUID"@, battery_service_uuid())
}

/// Is `obj` a Battery Level characteristic strictly below the service
/// path?
pub open spec fn is_battery_level_char_under(obj: ObjectEntry, service_path: Seq<char>) -> bool {
    &&& service_path.is_prefix_of(obj.path@)
    &&& obj.path@ != service_path
    &&& spec_has_text_property(
        obj,
        gatt_characteristic_interface(),
        "UUID"@,
        battery_level_uuid(),
    )
}

/// Is `obj` a User Description descriptor strictly below the
/// characteristic path?
pub open spec fn is_user_description_under(obj: ObjectEntry, char_path: Seq<char>) -> bool {
    &&& char_path.is_prefix_of(obj.path@)
    &&& obj.path@ != char_path
    &&& spec_has_text_property(obj, gatt_descriptor_interface(), "UUID"@, user_description_uuid())
}

/// Index of the first Battery Level characteristic strictly below
/// `service_path`, at or after position `i`.
pub open spec fn first_char_index(
    objects: Seq<ObjectEntry>,
    service_path: Seq<char>,
    i: int,
) -> Option<int>
    decreases objects.len() - i,
{
    if i < 0 || i >= objects.len() {
        None
    } else if is_battery_level_char_under(objects[i], service_path) {
        Some(i)
    } else {
        first_char_index(objects, service_path, i + 1)
    }
}

/// Index of the first User Description descriptor strictly below
/// `char_path`, at or after position `i`.
pub open spec fn first_desc_index(
    objects: Seq<ObjectEntry>,
    char_path: Seq<char>,
    i: int,
) -> Option<int>
    decreases objects.len() - i,
{
    if i < 0 || i >= objects.len() {
        None
    } else if is_user_description_under(objects[i], char_path) {
        Some(i)
    } else {
        first_desc_index(objects, char_path, i + 1)
    }
}

/// Index of the first recorded read outcome for `path`, at or after
/// position `i`.
pub open spec fn first_read_index(entries: Seq<ReadEntry>, path: Seq<char>, i: int) -> Option<int>
    decreases entries.len() - i,
{
    if i < 0 || i >= entries.len() {
        None
    } else if entries[i].path@ == path {
        Some(i)
    } else {
        first_read_index(entries, path, i + 1)
    }
}

/// The recorded outcome of the read against `path`, if one was made.
pub open spec fn spec_read(reads: GattReads, path: Seq<char>) -> Option<ReadOutcome> {
    match first_read_index(reads.entries@, path, 0) {
        Some(i) => Some(reads.entries@[i].outcome),
        None => None,
    }
}

/// The name resolved for the characteristic at `char_path`: the decoded
/// value of the first matching descriptor's read, or the placeholder
/// when no descriptor matches, its read failed, or its value does not
/// decode. The descriptor read is best-effort: nothing here is an
/// error.
pub open spec fn spec_descriptor_name(
    tree: ManagedObjectTree,
    reads: GattReads,
    char_path: Seq<char>,
) -> Seq<char> {
    match first_desc_index(tree.objects@, char_path, 0) {
        None => default_battery_name(),
        Some(j) => match spec_read(reads, tree.objects@[j].path@) {
            Some(ReadOutcome::Value(v)) => spec_name_of_read(v@),
            _ => default_battery_name(),
        },
    }
}

/// The battery record extracted from the service at `service_path`:
/// nothing when no characteristic matches; an error when the matched
/// characteristic's mandatory read did not return a value; otherwise
/// the resolved name and the decoded level.
pub open spec fn spec_service_battery(
    tree: ManagedObjectTree,
    reads: GattReads,
    service_path: Seq<char>,
) -> Result<Option<(Seq<char>, u8)>, TransportError> {
    match first_char_index(tree.objects@, service_path, 0) {
        None => Ok(None),
        Some(j) => match spec_read(reads, tree.objects@[j].path@) {
            Some(ReadOutcome::Value(v)) => Ok(
                Some(
                    (
                        spec_descriptor_name(tree, reads, tree.objects@[j].path@),
                        spec_level_of(v@),
                    ),
                ),
            ),
            _ => Err(TransportError::ReadFailed),
        },
    }
}

/// The battery records of every matched service from position `i` on,
/// in snapshot order; an error as soon as any matched service's
/// mandatory read failed.
pub open spec fn spec_batteries_from(
    tree: ManagedObjectTree,
    reads: GattReads,
    device_path: Seq<char>,
    i: int,
) -> Result<Seq<(Seq<char>, u8)>, TransportError>
    decreases tree.objects@.len() - i,
{
    if i < 0 || i >= tree.objects@.len() {
        Ok(Seq::empty())
    } else {
        let head = if is_battery_service_under(tree.objects@[i], device_path) {
            spec_service_battery(tree, reads, tree.objects@[i].path@)
        } else {
            Ok(None)
        };
        match head {
            Err(e) => Err(e),
            Ok(opt) => match spec_batteries_from(tree, reads, device_path, i + 1) {
                Err(e) => Err(e),
                Ok(rest) => match opt {
                    Some(b) => Ok(seq![b] + rest),
                    None => Ok(rest),
                },
            },
        }
    }
}

/// What `find_battery_levels` returns, over the snapshot, the recorded
/// reads and the device address.
pub open spec fn spec_find_battery_levels(
    tree: ManagedObjectTree,
    reads: GattReads,
    addr: Seq<char>,
) -> Result<Seq<(Seq<char>, u8)>, TransportError> {
    spec_batteries_from(tree, reads, spec_device_path(addr), 0)
}

/// The battery records as plain name and level pairs.
pub open spec fn batteries_view(s: Seq<BatteryInfo>) -> Seq<(Seq<char>, u8)> {
    s.map_values(|b: BatteryInfo| (b.name@, b.level))
}

/// Is `obj` a Battery Service object at or below `device_path`?
pub fn is_battery_service_obj(obj: &ObjectEntry, device_path: &str) -> (r: bool)
    ensures
        r == is_battery_service_under(*obj, device_path@),
{
    str_is_prefix(device_path, obj.path.as_str()) && object_has_text_property(
        obj,
        "org.bluez.GattService1",
        "UUID",
        "0000180f-0000-1000-8000-00805f9b34fb",
    )
}

/// Is `obj` a Battery Level characteristic strictly below
/// `service_path`?
pub fn is_battery_level_char_obj(obj: &ObjectEntry, service_path: &str) -> (r: bool)
    ensures
        r == is_battery_level_char_under(*obj, service_path@),
{
    str_is_prefix(service_path, obj.path.as_str()) && !str_eq(obj.path.as_str(), service_path)
        && object_has_text_property(
        obj,
        "org.bluez.GattCharacteristic1",
        "UUID",
        "00002a19-0000-1000-8000-00805f9b34fb",
    )
}

/// Is `obj` a User Description descriptor strictly below `char_path`?
pub fn is_user_description_obj(obj: &ObjectEntry, char_path: &str) -> (r: bool)
    ensures
        r == is_user_description_under(*obj, char_path@),
{
    str_is_prefix(char_path, obj.path.as_str()) && !str_eq(obj.path.as_str(), char_path)
        && object_has_text_property(
        obj,
        "org.bluez.GattDescriptor1",
        "UUID",
        "00002901-0000-1000-8000-00805f9b34fb",
    )
}

/// Finds the first Battery Level characteristic strictly below
/// `service_path`.
pub fn find_first_char(tree: &ManagedObjectTree, service_path: &str) -> (r: Option<usize>)
    ensures
        match r {
            Some(j) => j < tree.objects@.len() && first_char_index(
                tree.objects@,
                service_path@,
                0,
            ) == Some(j as int),
            None => first_char_index(tree.objects@, service_path@, 0) is None,
        },
{
    let mut i: usize = 0;
    while i < tree.objects.len()
        invariant
            i <= tree.objects@.len(),
            first_char_index(tree.objects@, service_path@, 0) == first_char_index(
                tree.objects@,
                service_path@,
                i as int,
            ),
        decreases tree.objects@.len() - i,
    {
        if is_battery_level_char_obj(&tree.objects[i], service_path) {
            return Some(i);
        }
        i = i + 1;
    }
    None
}

/// Finds the first User Description descriptor strictly below
/// `char_path`.
pub fn find_first_desc(tree: &ManagedObjectTree, char_path: &str) -> (r: Option<usize>)
    ensures
        match r {
            Some(j) => j < tree.objects@.len() && first_desc_index(tree.objects@, char_path@, 0)
                == Some(j as int),
            None => first_desc_index(tree.objects@, char_path@, 0) is None,
        },
{
    let mut i: usize = 0;
    while i < tree.objects.len()
        invariant
            i <= tree.objects@.len(),
            first_desc_index(tree.objects@, char_path@, 0) == first_desc_index(
                tree.objects@,
                char_path@,
                i as int,
            ),
        decreases tree.objects@.len() - i,
    {
        if is_user_description_obj(&tree.objects[i], char_path) {
            return Some(i);
        }
        i = i + 1;
    }
    None
}

/// Finds the recorded read outcome for `path`.
pub fn find_read_index(reads: &GattReads, path: &str) -> (r: Option<usize>)
    ensures
        match r {
            Some(k) => k < reads.entries@.len() && first_read_index(reads.entries@, path@, 0)
                == Some(k as int),
            None => first_read_index(reads.entries@, path@, 0) is None,
        },
{
    let mut i: usize = 0;
    while i < reads.entries.len()
        invariant
            i <= reads.entries@.len(),
            first_read_index(reads.entries@, path@, 0) == first_read_index(
                reads.entries@,
                path@,
                i as int,
            ),
        decreases reads.entries@.len() - i,
    {
        if str_eq(reads.entries[i].path.as_str(), path) {
            return Some(i);
        }
        i = i + 1;
    }
    None
}

/// Resolves the friendly name for the characteristic at `char_path`
/// from the first matching descriptor's recorded read, falling back to
/// the placeholder on any failure.
pub fn resolve_descriptor_name(tree: &ManagedObjectTree, reads: &GattReads, char_path: &str) -> (r:
    String)
    ensures
        r@ == spec_descriptor_name(*tree, *reads, char_path@),
{
    match find_first_desc(tree, char_path) {
        None => "Battery".to_owned(),
        Some(j) => {
            match find_read_index(reads, tree.objects[j].path.as_str()) {
                Some(k) => {
                    match &reads.entries[k].outcome {
                        ReadOutcome::Value(v) => {
                            match decode_descriptor_name(v) {
                                Some(s) => s,
                                None => "Battery".to_owned(),
                            }
                        },
                        ReadOutcome::Failure => "Battery".to_owned(),
                    }
                },
                None => "Battery".to_owned(),
            }
        },
    }
}

/// Extracts the battery record of the service at `service_path`: the
/// first matching characteristic's level and name, nothing when no
/// characteristic matches, and an error when the mandatory level read
/// did not return a value.
pub fn read_battery_from_service(
    tree: &ManagedObjectTree,
    reads: &GattReads,
    service_path: &str,
) -> (r: Result<Option<BatteryInfo>, TransportError>)
    ensures
        ({
            let s = spec_service_battery(*tree, *reads, service_path@);
            match r {
                Ok(Some(b)) => s == Ok::<Option<(Seq<char>, u8)>, TransportError>(
                    Some((b.name@, b.level)),
                ),
                Ok(None) => s matches Ok(o) && o is None,
                Err(e) => s matches Err(e2) && e == e2,
            }
        }),
{
    match find_first_char(tree, service_path) {
        None => Ok(None),
        Some(j) => {
            let char_path = &tree.objects[j].path;
            match find_read_index(reads, char_path.as_str()) {
                Some(k) => {
                    match &reads.entries[k].outcome {
                        ReadOutcome::Value(v) => {
                            let level = decode_level(v);
                            let name = resolve_descriptor_name(tree, reads, char_path.as_str());
                            Ok(Some(BatteryInfo { name, level }))
                        },
                        ReadOutcome::Failure => Err(TransportError::ReadFailed),
                    }
                },
                None => Err(TransportError::ReadFailed),
            }
        },
    }
}

/// Walks the snapshot for every Battery Service under the device with
/// the given address and assembles one record per matched service from
/// the recorded reads. Absence of the device or of any match is the
/// empty list, never an error; a matched characteristic whose mandatory
/// read did not return a value is an error for the whole query.
pub fn find_battery_levels(
    tree: &ManagedObjectTree,
    reads: &GattReads,
    device_address: &str,
) -> (r: Result<Vec<BatteryInfo>, TransportError>)
    ensures
        ({
            let s = spec_find_battery_levels(*tree, *reads, device_address@);
            match r {
                Ok(v) => s == Ok::<Seq<(Seq<char>, u8)>, TransportError>(batteries_view(v@)),
                Err(e) => s matches Err(e2) && e == e2,
            }
        }),
{
    let device_path = device_path_for(device_address);
    let ghost dev = device_path@;
    let mut out: Vec<BatteryInfo> = Vec::new();
    proof {
        assert(batteries_view(out@) =~= Seq::<(Seq<char>, u8)>::empty());
    }
    let mut i: usize = 0;
    while i < tree.objects.len()
        invariant
            i <= tree.objects@.len(),
            dev == device_path@,
            dev == spec_device_path(device_address@),
            ({
                match spec_batteries_from(*tree, *reads, dev, i as int) {
                    Ok(rest) => spec_batteries_from(*tree, *reads, dev, 0) == Ok::<
                        Seq<(Seq<char>, u8)>,
                        TransportError,
                    >(batteries_view(out@) + rest),
                    Err(e) => spec_batteries_from(*tree, *reads, dev, 0) == Err::<
                        Seq<(Seq<char>, u8)>,
                        TransportError,
                    >(e),
                }
            }),
        decreases tree.objects@.len() - i,
    {
        let ghost prev = out@;
        let obj = &tree.objects[i];
        if is_battery_service_obj(obj, device_path.as_str()) {
            match read_battery_from_service(tree, reads, obj.path.as_str()) {
                Ok(Some(b)) => {
                    let ghost bm = (b.name@, b.level);
                    out.push(b);
                    proof {
                        assert(batteries_view(out@) =~= batteries_view(prev).push(bm));
                        match spec_batteries_from(*tree, *reads, dev, i + 1) {
                            Ok(rest) => {
                                assert(batteries_view(prev) + (seq![bm] + rest) =~= batteries_view(
                                    out@,
                                ) + rest);
                            },
                            Err(_) => {},
                        }
                    }
                },
                Ok(None) => {},
                Err(e) => {
                    return Err(e);
                },
            }
        }
        i = i + 1;
    }
    proof {
        assert(spec_batteries_from(*tree, *reads, dev, tree.objects@.len() as int) == Ok::<
            Seq<(Seq<char>, u8)>,
            TransportError,
        >(Seq::empty()));
        assert(batteries_view(out@) + Seq::<(Seq<char>, u8)>::empty() =~= batteries_view(out@));
    }
    Ok(out)
}

/// The read calls one query must issue: for each matched service, the
/// path of its first Battery Level characteristic (a mandatory read)
/// and, where one matches below it, the path of the first User
/// Description descriptor (a best-effort read).
pub struct BatteryProbe {
    pub char_path: String,
    pub desc_path: Option<String>,
}

/// The probe of one matched service: the first matching characteristic
/// path and the first matching descriptor path below it, if any.
pub open spec fn spec_probe_of_service(tree: ManagedObjectTree, service_path: Seq<char>) -> Option<
    (Seq<char>, Option<Seq<char>>),
> {
    match first_char_index(tree.objects@, service_path, 0) {
        None => None,
        Some(j) => Some(
            (
                tree.objects@[j].path@,
                match first_desc_index(tree.objects@, tree.objects@[j].path@, 0) {
                    None => None,
                    Some(k) => Some(tree.objects@[k].path@),
                },
            ),
        ),
    }
}

/// The probes of every matched service from position `i` on, in
/// snapshot order.
pub open spec fn spec_probes_from(
    tree: ManagedObjectTree,
    device_path: Seq<char>,
    i: int,
) -> Seq<(Seq<char>, Option<Seq<char>>)>
    decreases tree.objects@.len() - i,
{
    if i < 0 || i >= tree.objects@.len() {
        Seq::empty()
    } else {
        let rest = spec_probes_from(tree, device_path, i + 1);
        if is_battery_service_under(tree.objects@[i], device_path) {
            match spec_probe_of_service(tree, tree.objects@[i].path@) {
                Some(p) => seq![p] + rest,
                None => rest,
            }
        } else {
            rest
        }
    }
}

/// What `battery_probe_paths` returns for a device address.
pub open spec fn spec_battery_probes(tree: ManagedObjectTree, addr: Seq<char>) -> Seq<
    (Seq<char>, Option<Seq<char>>),
> {
    spec_probes_from(tree, spec_device_path(addr), 0)
}

/// A probe as plain path values.
pub open spec fn probe_view(p: BatteryProbe) -> (Seq<char>, Option<Seq<char>>) {
    (
        p.char_path@,
        match p.desc_path {
            Some(d) => Some(d@),
            None => None,
        },
    )
}

/// The probes as plain path values.
pub open spec fn probes_view(s: Seq<BatteryProbe>) -> Seq<(Seq<char>, Option<Seq<char>>)> {
    s.map_values(|p: BatteryProbe| probe_view(p))
}

/// Plans the read calls for one query: one probe per matched Battery
/// Service under the device with the given address, in snapshot order.
pub fn battery_probe_paths(tree: &ManagedObjectTree, device_address: &str) -> (r: Vec<BatteryProbe>)
    ensures
        probes_view(r@) == spec_battery_probes(*tree, device_address@),
{
    let device_path = device_path_for(device_address);
    let ghost dev = device_path@;
    let mut out: Vec<BatteryProbe> = Vec::new();
    proof {
        assert(probes_view(out@) + spec_probes_from(*tree, dev, 0) =~= spec_probes_from(
            *tree,
            dev,
            0,
        ));
    }
    let mut i: usize = 0;
    while i < tree.objects.len()
        invariant
            i <= tree.objects@.len(),
            dev == device_path@,
            dev == spec_device_path(device_address@),
            spec_probes_from(*tree, dev, 0) == probes_view(out@) + spec_probes_from(
                *tree,
                dev,
                i as int,
            ),
        decreases tree.objects@.len() - i,
    {
        let ghost prev = out@;
        let obj = &tree.objects[i];
        if is_battery_service_obj(obj, device_path.as_str()) {
            match find_first_char(tree, obj.path.as_str()) {
                None => {},
                Some(j) => {
                    let char_path = tree.objects[j].path.clone();
                    let desc_path = match find_first_desc(tree, char_path.as_str()) {
                        None => None,
                        Some(k) => Some(tree.objects[k].path.clone()),
                    };
                    let probe = BatteryProbe { char_path, desc_path };
                    let ghost pv = probe_view(probe);
                    out.push(probe);
                    proof {
                        assert(probes_view(out@) =~= probes_view(prev).push(pv));
                        assert(probes_view(prev) + (seq![pv] + spec_probes_from(
                            *tree,
                            dev,
                            i + 1,
                        )) =~= probes_view(out@) + spec_probes_from(*tree, dev, i + 1));
                    }
                },
            }
        }
        i = i + 1;
    }
    proof {
        assert(spec_probes_from(*tree, dev, tree.objects@.len() as int) == Seq::<
            (Seq<char>, Option<Seq<char>>),
        >::empty());
        assert(probes_view(out@) + Seq::<(Seq<char>, Option<Seq<char>>)>::empty() =~= probes_view(
            out@,
        ));
    }
    out
}

proof fn lemma_first_desc_index_none(objects: Seq<ObjectEntry>, char_path: Seq<char>, i: int)
    requires
        forall|j: int|
            i <= j < objects.len() ==> !is_user_description_under(#[trigger] objects[j], char_path),
    ensures
        first_desc_index(objects, char_path, i) is None,
    decreases objects.len() - i,
{
    if 0 <= i < objects.len() {
        lemma_first_desc_index_none(objects, char_path, i + 1);
    }
}

/// Law: when no object in the snapshot is a matching descriptor below
/// the characteristic, the resolved name is the placeholder.
pub proof fn lemma_no_descriptor_default_name(
    tree: ManagedObjectTree,
    reads: GattReads,
    char_path: Seq<char>,
)
    requires
        forall|j: int|
            0 <= j < tree.objects@.len() ==> !is_user_description_under(
                #[trigger] tree.objects@[j],
                char_path,
            ),
    ensures
        spec_descriptor_name(tree, reads, char_path) == default_battery_name(),
{
    lemma_first_desc_index_none(tree.objects@, char_path, 0);
}

/// Law: a matched service whose characteristic read returned a value,
/// with no matching descriptor anywhere in the snapshot, yields exactly
/// the placeholder name and the decoded first byte of that value.
pub proof fn lemma_service_no_descriptor(
    tree: ManagedObjectTree,
    reads: GattReads,
    service_path: Seq<char>,
    j: int,
    v: Vec<u8>,
)
    requires
        first_char_index(tree.objects@, service_path, 0) == Some(j),
        spec_read(reads, tree.objects@[j].path@) == Some(ReadOutcome::Value(v)),
        forall|k: int|
            0 <= k < tree.objects@.len() ==> !is_user_description_under(
                #[trigger] tree.objects@[k],
                tree.objects@[j].path@,
            ),
    ensures
        spec_service_battery(tree, reads, service_path) == Ok::<
            Option<(Seq<char>, u8)>,
            TransportError,
        >(Some((default_battery_name(), spec_level_of(v@)))),
{
    lemma_no_descriptor_default_name(tree, reads, tree.objects@[j].path@);
}

proof fn lemma_batteries_from_all_skipped(
    tree: ManagedObjectTree,
    reads: GattReads,
    device_path: Seq<char>,
    i: int,
)
    requires
        forall|j: int|
            0 <= j < tree.objects@.len() ==> !device_path.is_prefix_of(
                #[trigger] tree.objects@[j].path@,
            ),
    ensures
        spec_batteries_from(tree, reads, device_path, i) == Ok::<
            Seq<(Seq<char>, u8)>,
            TransportError,
        >(Seq::empty()),
    decreases tree.objects@.len() - i,
{
    if 0 <= i < tree.objects@.len() {
        lemma_batteries_from_all_skipped(tree, reads, device_path, i + 1);
    }
}

/// Law: for a device whose path is below no object path in the
/// snapshot, the query yields the empty list, never an error, whatever
/// reads were recorded.
pub proof fn lemma_absent_device_empty(tree: ManagedObjectTree, reads: GattReads, addr: Seq<char>)
    requires
        forall|j: int|
            0 <= j < tree.objects@.len() ==> !spec_device_path(addr).is_prefix_of(
                #[trigger] tree.objects@[j].path@,
            ),
    ensures
        spec_find_battery_levels(tree, reads, addr) == Ok::<Seq<(Seq<char>, u8)>, TransportError>(
            Seq::empty(),
        ),
{
    lemma_batteries_from_all_skipped(tree, reads, spec_device_path(addr), 0);
}

/// Law: every trailing NUL byte, and nothing else, is removed: the
/// stripped value is the longest prefix of the value that does not end
/// in a NUL byte, and everything after it in the value is NUL.
pub proof fn lemma_strip_trailing_nuls(value: Seq<u8>)
    ensures
        strip_trailing_nuls(value).len() <= value.len(),
        strip_trailing_nuls(value) == value.take(strip_trailing_nuls(value).len() as int),
        strip_trailing_nuls(value).len() > 0 ==> strip_trailing_nuls(value).last() != 0,
        forall|i: int| strip_trailing_nuls(value).len() <= i < value.len() ==> value[i] == 0,
    decreases value.len(),
{
    if value.len() > 0 && value.last() == 0 {
        lemma_strip_trailing_nuls(value.drop_last());
        assert(value.drop_last().take(strip_trailing_nuls(value).len() as int) =~= value.take(
            strip_trailing_nuls(value).len() as int,
        ));
        assert forall|i: int|
            strip_trailing_nuls(value).len() <= i < value.len() implies value[i] == 0 by {
            if i < value.len() - 1 {
                assert(value.drop_last()[i] == value[i]);
            } else {
                assert(value[i] == value.last());
            }
        }
    } else {
        assert(value.take(value.len() as int) =~= value);
    }
}

/// Law: two addresses of the same length that differ only in which
/// separator they use, colon or hyphen, give the same device path.
pub proof fn lemma_device_path_separator_insensitive(a: Seq<char>, b: Seq<char>)
    requires
        a.len() == b.len(),
        forall|i: int|
            0 <= i < a.len() ==> (a[i] == b[i] || ((a[i] == ':' || a[i] == '-') && (b[i] == ':'
                || b[i] == '-'))),
    ensures
        spec_device_path(a) == spec_device_path(b),
{
    assert(normalized_address(a) =~= normalized_address(b));
}

/// Do two read tables record the same outcome for a probe's mandatory
/// path and, where one is planned, its best-effort path?
pub open spec fn reads_agree_on_probe(
    r1: GattReads,
    r2: GattReads,
    p: (Seq<char>, Option<Seq<char>>),
) -> bool {
    &&& spec_read(r1, p.0) == spec_read(r2, p.0)
    &&& match p.1 {
        Some(d) => spec_read(r1, d) == spec_read(r2, d),
        None => true,
    }
}

proof fn lemma_batteries_from_reads_agree(
    tree: ManagedObjectTree,
    r1: GattReads,
    r2: GattReads,
    dev: Seq<char>,
    i: int,
)
    requires
        forall|p: (Seq<char>, Option<Seq<char>>)|
            #[trigger] spec_probes_from(tree, dev, i).contains(p) ==> reads_agree_on_probe(
                r1,
                r2,
                p,
            ),
    ensures
        spec_batteries_from(tree, r1, dev, i) == spec_batteries_from(tree, r2, dev, i),
    decreases tree.objects@.len() - i,
{
    let objects = tree.objects@;
    if 0 <= i < objects.len() {
        let rest = spec_probes_from(tree, dev, i + 1);
        let cur = spec_probes_from(tree, dev, i);
        assert forall|p: (Seq<char>, Option<Seq<char>>)| rest.contains(p) implies cur.contains(
            p,
        ) by {
            let k = choose|k: int| 0 <= k < rest.len() && rest[k] == p;
            if is_battery_service_under(objects[i], dev) {
                match spec_probe_of_service(tree, objects[i].path@) {
                    Some(q) => {
                        assert(cur == seq![q] + rest);
                        assert(cur[k + 1] == p);
                    },
                    None => {
                        assert(cur == rest);
                    },
                }
            } else {
                assert(cur == rest);
            }
        }
        lemma_batteries_from_reads_agree(tree, r1, r2, dev, i + 1);
        if is_battery_service_under(objects[i], dev) {
            match first_char_index(objects, objects[i].path@, 0) {
                None => {},
                Some(j) => {
                    let cpath = objects[j].path@;
                    let dopt: Option<Seq<char>> = match first_desc_index(objects, cpath, 0) {
                        None => None,
                        Some(k) => Some(objects[k].path@),
                    };
                    let q = (cpath, dopt);
                    assert(spec_probe_of_service(tree, objects[i].path@) == Some(q));
                    assert(cur == seq![q] + rest);
                    assert(cur[0] == q);
                    assert(cur.contains(q));
                    assert(reads_agree_on_probe(r1, r2, q));
                    assert(spec_descriptor_name(tree, r1, cpath) == spec_descriptor_name(
                        tree,
                        r2,
                        cpath,
                    ));
                    assert(spec_service_battery(tree, r1, objects[i].path@)
                        == spec_service_battery(tree, r2, objects[i].path@));
                },
            }
        }
    }
}

/// Law: the query consults no read outside its plan. Two read tables
/// that record the same outcome for every planned path give the same
/// query result, whatever else they hold.
pub proof fn lemma_query_reads_only_probed_paths(
    tree: ManagedObjectTree,
    r1: GattReads,
    r2: GattReads,
    addr: Seq<char>,
)
    requires
        forall|p: (Seq<char>, Option<Seq<char>>)|
            #[trigger] spec_battery_probes(tree, addr).contains(p) ==> reads_agree_on_probe(
                r1,
                r2,
                p,
            ),
    ensures
        spec_find_battery_levels(tree, r1, addr) == spec_find_battery_levels(tree, r2, addr),
{
    assert forall|p: (Seq<char>, Option<Seq<char>>)|
        #[trigger] spec_probes_from(tree, spec_device_path(addr), 0).contains(
            p,
        ) implies reads_agree_on_probe(r1, r2, p) by {
        assert(spec_battery_probes(tree, addr).contains(p));
    }
    lemma_batteries_from_reads_agree(tree, r1, r2, spec_device_path(addr), 0);
}

proof fn lemma_batteries_from_err_at(
    tree: ManagedObjectTree,
    reads: GattReads,
    device_path: Seq<char>,
    k: int,
    i: int,
)
    requires
        0 <= k <= i < tree.objects@.len(),
        is_battery_service_under(tree.objects@[i], device_path),
        spec_service_battery(tree, reads, tree.objects@[i].path@) is Err,
    ensures
        spec_batteries_from(tree, reads, device_path, k) is Err,
    decreases i - k,
{
    if k < i {
        lemma_batteries_from_err_at(tree, reads, device_path, k + 1, i);
    }
}

/// Law: a matched service whose first matching characteristic has no
/// recorded value, because the read failed or was never answered, fails
/// the whole query with an error, never an empty or partial list.
pub proof fn lemma_mandatory_read_failure_fails(
    tree: ManagedObjectTree,
    reads: GattReads,
    addr: Seq<char>,
    i: int,
)
    requires
        0 <= i < tree.objects@.len(),
        is_battery_service_under(tree.objects@[i], spec_device_path(addr)),
        ({
            match first_char_index(tree.objects@, tree.objects@[i].path@, 0) {
                Some(j) => !(spec_read(reads, tree.objects@[j].path@) matches Some(
                    ReadOutcome::Value(_),
                )),
                None => false,
            }
        }),
    ensures
        spec_find_battery_levels(tree, reads, addr) is Err,
{
    assert(spec_service_battery(tree, reads, tree.objects@[i].path@) is Err);
    lemma_batteries_from_err_at(tree, reads, spec_device_path(addr), 0, i);
}

} // verus!
