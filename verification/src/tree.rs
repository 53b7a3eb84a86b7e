//! Model of the managed-object snapshot exposed by the host Bluetooth
//! daemon: a list of object paths, each with its interfaces and their
//! loosely-typed properties. The snapshot is read once per query and is
//! immutable while it is walked; the daemon's iteration order is
//! unspecified, so the list order here is simply the order in which the
//! entries were handed over.

use vstd::prelude::*;
use crate::strings::str_eq;

verus! {

/// A property value as the daemon exposes it: a string, a byte
/// sequence, or some other primitive the traversal never reads.
pub enum PropValue {
    Text(String),
    Bytes(Vec<u8>),
    Other,
}

/// One named property of an interface.
pub struct Property {
    pub name: String,
    pub value: PropValue,
}

/// One interface exposed at an object path, with its properties.
pub struct Interface {
    pub name: String,
    pub properties: Vec<Property>,
}

/// One object path and the interfaces it exposes.
pub struct ObjectEntry {
    pub path: String,
    pub interfaces: Vec<Interface>,
}

/// The full snapshot: every exposed object path with its data.
pub struct ManagedObjectTree {
    pub objects: Vec<ObjectEntry>,
}

/// Index of the first property named `name` at or after position `i`.
pub open spec fn first_property_index(props: Seq<Property>, name: Seq<char>, i: int) -> Option<int>
    decreases props.len() - i,
{
    if i < 0 || i >= props.len() {
        None
    } else if props[i].name@ == name {
        Some(i)
    } else {
        first_property_index(props, name, i + 1)
    }
}

/// Index of the first interface named `name` at or after position `i`.
pub open spec fn first_interface_index(ifaces: Seq<Interface>, name: Seq<char>, i: int) -> Option<
    int,
>
    decreases ifaces.len() - i,
{
    if i < 0 || i >= ifaces.len() {
        None
    } else if ifaces[i].name@ == name {
        Some(i)
    } else {
        first_interface_index(ifaces, name, i + 1)
    }
}

/// The text value of the first property named `name`, if that property
/// exists and holds a string.
pub open spec fn spec_text_property(props: Seq<Property>, name: Seq<char>) -> Option<Seq<char>> {
    match first_property_index(props, name, 0) {
        Some(i) => match props[i].value {
            PropValue::Text(s) => Some(s@),
            _ => None,
        },
        None => None,
    }
}

/// The properties of the first interface named `name` on `obj`, if any.
pub open spec fn spec_interface_properties(obj: ObjectEntry, name: Seq<char>) -> Option<
    Seq<Property>,
> {
    match first_interface_index(obj.interfaces@, name, 0) {
        Some(i) => Some(obj.interfaces@[i].properties@),
        None => None,
    }
}

/// The text value of property `prop` on interface `iface` of `obj`.
pub open spec fn spec_object_text_property(
    obj: ObjectEntry,
    iface: Seq<char>,
    prop: Seq<char>,
) -> Option<Seq<char>> {
    match spec_interface_properties(obj, iface) {
        Some(props) => spec_text_property(props, prop),
        None => None,
    }
}

/// Does `obj` expose interface `iface` whose property `prop` is the
/// text `val`?
pub open spec fn spec_has_text_property(
    obj: ObjectEntry,
    iface: Seq<char>,
    prop: Seq<char>,
    val: Seq<char>,
) -> bool {
    spec_object_text_property(obj, iface, prop) == Some(val)
}

/// Finds the first property named `name`.
pub fn find_property_index(props: &Vec<Property>, name: &str) -> (r: Option<usize>)
    ensures
        match r {
            Some(i) => i < props@.len() && first_property_index(props@, name@, 0) == Some(i as int),
            None => first_property_index(props@, name@, 0) is None,
        },
{
    let mut i: usize = 0;
    while i < props.len()
        invariant
            i <= props@.len(),
            first_property_index(props@, name@, 0) == first_property_index(
                props@,
                name@,
                i as int,
            ),
        decreases props@.len() - i,
    {
        if str_eq(props[i].name.as_str(), name) {
            return Some(i);
        }
        i = i + 1;
    }
    None
}

/// Finds the first interface named `name`.
pub fn find_interface_index(ifaces: &Vec<Interface>, name: &str) -> (r: Option<usize>)
    ensures
        match r {
            Some(i) => i < ifaces@.len() && first_interface_index(ifaces@, name@, 0) == Some(
                i as int,
            ),
            None => first_interface_index(ifaces@, name@, 0) is None,
        },
{
    let mut i: usize = 0;
    while i < ifaces.len()
        invariant
            i <= ifaces@.len(),
            first_interface_index(ifaces@, name@, 0) == first_interface_index(
                ifaces@,
                name@,
                i as int,
            ),
        decreases ifaces@.len() - i,
    {
        if str_eq(ifaces[i].name.as_str(), name) {
            return Some(i);
        }
        i = i + 1;
    }
    None
}

/// The text value of property `prop` on interface `iface` of `obj`,
/// when that interface exists, the property exists and it holds a
/// string.
pub fn object_text_property<'a>(obj: &'a ObjectEntry, iface: &str, prop: &str) -> (r: Option<
    &'a String,
>)
    ensures
        match r {
            Some(s) => spec_object_text_property(*obj, iface@, prop@) == Some(s@),
            None => spec_object_text_property(*obj, iface@, prop@) is None,
        },
{
    match find_interface_index(&obj.interfaces, iface) {
        Some(i) => {
            match find_property_index(&obj.interfaces[i].properties, prop) {
                Some(j) => {
                    match &obj.interfaces[i].properties[j].value {
                        PropValue::Text(s) => Some(s),
                        _ => None,
                    }
                },
                None => None,
            }
        },
        None => None,
    }
}

/// Does `obj` expose interface `iface` whose property `prop` is the
/// text `val`?
pub fn object_has_text_property(obj: &ObjectEntry, iface: &str, prop: &str, val: &str) -> (r: bool)
    ensures
        r == spec_has_text_property(*obj, iface@, prop@, val@),
{
    match object_text_property(obj, iface, prop) {
        Some(s) => str_eq(s.as_str(), val),
        None => false,
    }
}

/// The name and address of one device object, when the device interface
/// exposes both as text.
pub open spec fn spec_device_entry(obj: ObjectEntry) -> Option<(Seq<char>, Seq<char>)> {
    match (
        spec_object_text_property(obj, "org.bluez.Device1"@, "Name"@),
        spec_object_text_property(obj, "org.bluez.Device1"@, "Address"@),
    ) {
        (Some(n), Some(a)) => Some((n, a)),
        _ => None,
    }
}

/// The name and address pairs of every device object in the snapshot,
/// in snapshot order.
pub open spec fn spec_list_devices(objects: Seq<ObjectEntry>) -> Seq<(Seq<char>, Seq<char>)>
    decreases objects.len(),
{
    if objects.len() == 0 {
        Seq::empty()
    } else {
        let rest = spec_list_devices(objects.drop_last());
        match spec_device_entry(objects.last()) {
            Some(e) => rest.push(e),
            None => rest,
        }
    }
}

/// The pairs as plain character sequences.
pub open spec fn name_address_view(s: Seq<(String, String)>) -> Seq<(Seq<char>, Seq<char>)> {
    s.map_values(|p: (String, String)| (p.0@, p.1@))
}

/// Scans the snapshot for every device object exposing both a name and
/// an address as text, and returns the pairs in snapshot order.
pub fn list_devices(tree: &ManagedObjectTree) -> (r: Vec<(String, String)>)
    ensures
        name_address_view(r@) == spec_list_devices(tree.objects@),
{
    let mut out: Vec<(String, String)> = Vec::new();
    proof {
        assert(name_address_view(out@) =~= spec_list_devices(tree.objects@.take(0)));
    }
    let mut i: usize = 0;
    while i < tree.objects.len()
        invariant
            i <= tree.objects@.len(),
            name_address_view(out@) == spec_list_devices(tree.objects@.take(i as int)),
        decreases tree.objects@.len() - i,
    {
        let ghost prev = out@;
        let obj = &tree.objects[i];
        match object_text_property(obj, "org.bluez.Device1", "Name") {
            Some(n) => {
                match object_text_property(obj, "org.bluez.Device1", "Address") {
                    Some(a) => {
                        let pair = (n.clone(), a.clone());
                        out.push(pair);
                        proof {
                            assert(name_address_view(out@) =~= name_address_view(prev).push(
                                (n@, a@),
                            ));
                        }
                    },
                    None => {},
                }
            },
            None => {},
        }
        proof {
            assert(tree.objects@.take(i + 1 as int).drop_last() =~= tree.objects@.take(i as int));
            assert(tree.objects@.take(i + 1 as int).last() == tree.objects@[i as int]);
        }
        i = i + 1;
    }
    proof {
        assert(tree.objects@.take(tree.objects@.len() as int) =~= tree.objects@);
    }
    out
}

} // verus!
