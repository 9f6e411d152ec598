use vstd::prelude::*;
use vstd::string::StringSliceAdditionalSpecFns;

verus! {

/// Capacity of the device-name table.
pub const DEVICE_MAP_CAPACITY: usize = 64;

/// Length of a device name as the tables store it.
pub const DEVICE_NAME_LEN: usize = 16;

/// Direction code of traffic entering a device.
pub const DIRECTION_INGRESS: u32 = 0;

/// Direction code of traffic leaving a device.
pub const DIRECTION_EGRESS: u32 = 1;

/// A device name, zero-padded to its fixed length, and its numeric id.
#[derive(Clone, Copy, Debug)]
pub struct DeviceMapping {
    pub name: [u8; 16],
    pub id: u32,
}

/// The name starts with "veth", the prefix of virtual paired devices.
pub open spec fn has_veth_prefix(name: [u8; 16]) -> bool {
    name@[0] == 0x76u8 && name@[1] == 0x65u8 && name@[2] == 0x74u8 && name@[3] == 0x68u8
}

/// The first sixteen bytes of `b`, padded with zeros to sixteen.
pub open spec fn padded_name(b: Seq<u8>) -> Seq<u8> {
    Seq::new(
        16,
        |j: int|
            if j < b.len() {
                b[j]
            } else {
                0u8
            },
    )
}

/// The fixed-length key of the device name `name`.
pub fn device_name_key(name: &str) -> (r: [u8; 16])
    ensures
        r@ == padded_name(name.spec_bytes()),
{
    let bytes = name.as_bytes();
    let mut key: [u8; 16] = [0u8; 16];
    let n: usize = if bytes.len() < DEVICE_NAME_LEN {
        bytes.len()
    } else {
        DEVICE_NAME_LEN
    };
    let mut i: usize = 0;
    while i < n
        invariant
            n <= 16,
            n <= bytes@.len(),
            bytes@ == name.spec_bytes(),
            i <= n,
            forall|j: int|
                0 <= j < 16 ==> key@[j] == (if j < i {
                    bytes@[j]
                } else {
                    0u8
                }),
        decreases n - i,
    {
        key[i] = bytes[i];
        i += 1;
    }
    assert(key@ =~= padded_name(name.spec_bytes()));
    key
}

/// Whether two device names are the same bytes.
pub fn names_equal(a: &[u8; 16], b: &[u8; 16]) -> (r: bool)
    ensures
        r == (a@ == b@),
{
    let mut i: usize = 0;
    while i < DEVICE_NAME_LEN
        invariant
            i <= 16,
            forall|j: int| 0 <= j < i ==> a@[j] == b@[j],
        decreases 16 - i,
    {
        if a[i] != b[i] {
            return false;
        }
        i += 1;
    }
    assert(a@ =~= b@);
    true
}

/// The device-name table: each name at most once, at most
/// `DEVICE_MAP_CAPACITY` entries, in the order they were added.
pub struct DeviceMap {
    entries: Vec<DeviceMapping>,
}

impl View for DeviceMap {
    type V = Seq<DeviceMapping>;

    closed spec fn view(&self) -> Seq<DeviceMapping> {
        self.entries@
    }
}

/// `s` has an entry named `name`, at `i`.
pub open spec fn named_at(s: Seq<DeviceMapping>, name: Seq<u8>, i: int) -> bool {
    0 <= i < s.len() && s[i].name@ == name
}

/// `new` is `old` after `name` is mapped to `id`: an entry with that name
/// takes the new id in place and every other entry stays; a new name is
/// appended while there is room; otherwise nothing changes.
pub open spec fn set_outcome(
    old: Seq<DeviceMapping>,
    new: Seq<DeviceMapping>,
    name: Seq<u8>,
    id: u32,
) -> bool {
    if exists|i: int| named_at(old, name, i) {
        &&& new.len() == old.len()
        &&& forall|j: int|
            0 <= j < old.len() ==> if old[j].name@ == name {
                new[j].name@ == name && new[j].id == id
            } else {
                new[j] == old[j]
            }
    } else if old.len() < DEVICE_MAP_CAPACITY {
        &&& new.len() == old.len() + 1
        &&& new.drop_last() == old
        &&& new.last().name@ == name
        &&& new.last().id == id
    } else {
        new == old
    }
}

/// Some entry of `s` maps a name with the veth prefix to `id`.
pub open spec fn is_veth_id(s: Seq<DeviceMapping>, id: u32) -> bool {
    exists|i: int| 0 <= i < s.len() && s[i].id == id && #[trigger] has_veth_prefix(s[i].name)
}

impl DeviceMap {
    /// Names are unique and the table is within its capacity.
    pub open spec fn wf(&self) -> bool {
        &&& self@.len() <= DEVICE_MAP_CAPACITY
        &&& forall|i: int, j: int|
            0 <= i < j < self@.len() ==> #[trigger] self@[i].name@ != #[trigger] self@[j].name@
    }

    /// An empty table.
    pub fn new() -> (r: Self)
        ensures
            r.wf(),
            r@ == Seq::<DeviceMapping>::empty(),
    {
        DeviceMap { entries: Vec::new() }
    }

    /// Maps `name` to `id`. An existing name takes the new id in place; a new
    /// name is appended while there is room. The result says whether the
    /// mapping was stored.
    pub fn set(&mut self, name: [u8; 16], id: u32) -> (stored: bool)
        requires
            old(self).wf(),
        ensures
            final(self).wf(),
            forall|i: int|
                named_at(old(self)@, name@, i) ==> final(self)@ == old(self)@.update(
                    i,
                    DeviceMapping { name, id },
                ),
            (forall|i: int| !named_at(old(self)@, name@, i)) ==> final(self)@ == (if old(self)@.len()
                < DEVICE_MAP_CAPACITY {
                old(self)@.push(DeviceMapping { name, id })
            } else {
                old(self)@
            }),
            stored == ((exists|i: int| named_at(old(self)@, name@, i)) || old(self)@.len()
                < DEVICE_MAP_CAPACITY),
            set_outcome(old(self)@, final(self)@, name@, id),
    {
        let mut i: usize = 0;
        while i < self.entries.len()
            invariant
                self.wf(),
                self@ == old(self)@,
                i <= self@.len(),
                forall|j: int| 0 <= j < i ==> !named_at(self@, name@, j),
            decreases self@.len() - i,
        {
            if names_equal(&self.entries[i].name, &name) {
                assert(named_at(old(self)@, name@, i as int));
                self.entries.set(i, DeviceMapping { name, id });
                assert forall|a: int, b: int| 0 <= a < b < self@.len() implies #[trigger] self@[a].name@
                    != #[trigger] self@[b].name@ by {
                    assert(old(self)@[a].name@ != old(self)@[b].name@);
                }
                assert forall|j: int| 0 <= j < old(self)@.len() && j != i implies old(
                    self,
                )@[j].name@ != name@ by {
                    if j < i {
                        assert(old(self)@[j].name@ != old(self)@[i as int].name@);
                    } else {
                        assert(old(self)@[i as int].name@ != old(self)@[j].name@);
                    }
                }
                return true;
            }
            assert(self.entries@[i as int].name@ != name@);
            i += 1;
        }
        if self.entries.len() < DEVICE_MAP_CAPACITY {
            self.entries.push(DeviceMapping { name, id });
            assert forall|a: int, b: int| 0 <= a < b < self@.len() implies #[trigger] self@[a].name@
                != #[trigger] self@[b].name@ by {
                assert(self@[a] == old(self)@[a]);
                if b == self@.len() - 1 {
                    assert(!named_at(old(self)@, name@, a));
                } else {
                    assert(self@[b] == old(self)@[b]);
                    assert(old(self)@[a].name@ != old(self)@[b].name@);
                }
            }
            assert(self@.drop_last() =~= old(self)@);
            true
        } else {
            false
        }
    }

    /// The name of the first entry mapped to `device_id`, if any.
    pub fn get_device_name_from_id(&self, device_id: u32) -> (r: Option<[u8; 16]>)
        ensures
            r is None <==> forall|i: int| 0 <= i < self@.len() ==> self@[i].id != device_id,
            r matches Some(n) ==> exists|i: int|
                0 <= i < self@.len() && self@[i].id == device_id && self@[i].name == n && forall|
                    j: int,
                | 0 <= j < i ==> self@[j].id != device_id,
    {
        let mut i: usize = 0;
        while i < self.entries.len()
            invariant
                i <= self@.len(),
                forall|j: int| 0 <= j < i ==> self@[j].id != device_id,
            decreases self@.len() - i,
        {
            if self.entries[i].id == device_id {
                return Some(self.entries[i].name);
            }
            i += 1;
        }
        None
    }

    /// Whether `device_id` is a virtual paired device: some name with the
    /// veth prefix is mapped to it. A bounded scan of the table.
    pub fn is_veth_device(&self, device_id: u32) -> (r: bool)
        ensures
            r == is_veth_id(self@, device_id),
    {
        let mut i: usize = 0;
        while i < self.entries.len()
            invariant
                i <= self@.len(),
                forall|j: int|
                    0 <= j < i ==> !(self@[j].id == device_id && #[trigger] has_veth_prefix(
                        self@[j].name,
                    )),
            decreases self@.len() - i,
        {
            let e = self.entries[i];
            if e.id == device_id && e.name[0] == 0x76u8 && e.name[1] == 0x65u8 && e.name[2] == 0x74u8
                && e.name[3] == 0x68u8 {
                assert(has_veth_prefix(self@[i as int].name));
                return true;
            }
            i += 1;
        }
        false
    }
}

/// The direction code of a packet seen on the hook `is_ingress`, on a
/// device that is (or is not) a virtual paired device, whose directions are
/// inverted.
pub open spec fn effective_direction(veth: bool, is_ingress: bool) -> u32 {
    if is_ingress != veth {
        DIRECTION_INGRESS
    } else {
        DIRECTION_EGRESS
    }
}

/// The direction code of a packet seen on the hook `is_ingress` of device
/// `device_id`: inverted on virtual paired devices, unchanged elsewhere.
pub fn adjust_direction_for_device(devices: &DeviceMap, device_id: u32, is_ingress: bool) -> (r: u32)
    ensures
        r == effective_direction(is_veth_id(devices@, device_id), is_ingress),
{
    if devices.is_veth_device(device_id) {
        if is_ingress {
            DIRECTION_EGRESS
        } else {
            DIRECTION_INGRESS
        }
    } else {
        if is_ingress {
            DIRECTION_INGRESS
        } else {
            DIRECTION_EGRESS
        }
    }
}

/// The device-statistics key: `2 * device_id` for ingress and one more for
/// egress, modulo 2^32.
pub open spec fn device_key(device_id: u32, is_ingress: bool) -> u32 {
    ((2 * device_id + (if is_ingress {
        0int
    } else {
        1int
    })) % 0x1_0000_0000) as u32
}

/// The device-statistics key of `device_id` in a direction.
pub fn generate_device_key(device_id: u32, is_ingress: bool) -> (r: u32)
    ensures
        r == device_key(device_id, is_ingress),
{
    let bit: u64 = if is_ingress {
        0
    } else {
        1
    };
    ((device_id as u64 * 2 + bit) % 0x1_0000_0000u64) as u32
}

/// The device-connection key: the sum of the device id, the source port,
/// the destination port shifted by 16, the direction shifted by 24 and the
/// protocol shifted by 28, modulo 2^32.
pub open spec fn device_connection_key(
    device_id: u32,
    src_port: u16,
    dst_port: u16,
    direction: u32,
    protocol: u32,
) -> u32 {
    ((device_id + src_port + dst_port * 0x1_0000int + direction * 0x100_0000int + protocol
        * 0x1000_0000int) % 0x1_0000_0000) as u32
}

/// The device-connection key of a connection on a device.
pub fn generate_connection_key(
    device_id: u32,
    src_port: u16,
    dst_port: u16,
    direction: u32,
    protocol: u32,
) -> (r: u32)
    ensures
        r == device_connection_key(device_id, src_port, dst_port, direction, protocol),
{
    let sum: u64 = device_id as u64 + src_port as u64 + dst_port as u64 * 0x1_0000u64
        + direction as u64 * 0x100_0000u64 + protocol as u64 * 0x1000_0000u64;
    (sum % 0x1_0000_0000u64) as u32
}

/// The device-context value that records `device_id` with a direction:
/// the id, with bit 16 set for egress.
pub open spec fn context_value(device_id: u32, is_ingress: bool) -> u32 {
    device_id | ((if is_ingress {
        0u32
    } else {
        1u32
    }) << 16u32)
}

/// The device-context value of `device_id` in a direction.
pub fn encode_device_context(device_id: u32, is_ingress: bool) -> (r: u32)
    ensures
        r == context_value(device_id, is_ingress),
{
    let bit: u32 = if is_ingress {
        0
    } else {
        1
    };
    device_id | (bit << 16u32)
}

/// Whether a device-context value records the ingress direction (bit 16
/// clear).
pub fn context_is_ingress(value: u32) -> (r: bool)
    ensures
        r == ((value >> 16u32) & 1u32 == 0u32),
{
    (value >> 16u32) & 1u32 == 0
}

} // verus!
