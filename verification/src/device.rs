//! Device discovery policy: filtering an enumerated device list by the
//! requested class and picking one by ordinal index.
//!
//! The engine works on plain descriptors; whoever talks to the platform
//! layer enumerates the devices once, converts each to a `DeviceDesc`, and
//! hands the list in.

use vstd::prelude::*;

use crate::args::DeviceType;
use crate::error::MulError;

verus! {

/// The broad class a device reports.
#[derive(Copy, Clone, Debug, PartialEq, Eq, Structural)]
pub enum DeviceClass {
    /// A cpu device.
    Cpu,
    /// A gpu device.
    Gpu,
    /// Anything else the platform exposes.
    Other,
}

/// What the selection policy and the reporting read of one device: its
/// class, whether it shares the host's memory, and its names. Fetched once
/// at enumeration time and never mutated.
#[derive(Debug)]
pub struct DeviceDesc {
    /// The broad device class.
    pub class: DeviceClass,
    /// Whether the device reports unified host memory.
    pub unified_memory: bool,
    /// The human-readable device name.
    pub name: String,
    /// The human-readable name of the device's platform.
    pub platform_name: String,
}

impl DeviceDesc {
    /// Two descriptors carry the same attributes and names.
    pub open spec fn eqv(self, other: Self) -> bool {
        &&& self.class == other.class
        &&& self.unified_memory == other.unified_memory
        &&& self.name@ == other.name@
        &&& self.platform_name@ == other.platform_name@
    }
}

impl Clone for DeviceDesc {
    /// An attribute-for-attribute copy.
    fn clone(&self) -> (res: Self)
        ensures
            res.eqv(*self),
    {
        DeviceDesc {
            class: self.class,
            unified_memory: self.unified_memory,
            name: self.name.clone(),
            platform_name: self.platform_name.clone(),
        }
    }
}

/// Whether the requested class keeps this device. `All` keeps everything;
/// `Cpu` and `Gpu` filter on the broad class alone; the dedicated and
/// integrated classes additionally split gpu devices on the unified-memory
/// flag, dedicated keeping the devices that report it true.
pub open spec fn keeps(device_type: DeviceType, d: DeviceDesc) -> bool {
    match device_type {
        DeviceType::All => true,
        DeviceType::Cpu => d.class == DeviceClass::Cpu,
        DeviceType::Gpu => d.class == DeviceClass::Gpu,
        DeviceType::DGpu => d.class == DeviceClass::Gpu && d.unified_memory,
        DeviceType::IGpu => d.class == DeviceClass::Gpu && !d.unified_memory,
    }
}

/// The kept devices among the first `n`, in enumeration order.
pub open spec fn filtered_prefix(
    devs: Seq<DeviceDesc>,
    device_type: DeviceType,
    n: int,
) -> Seq<DeviceDesc>
    decreases n,
{
    if n <= 0 {
        Seq::empty()
    } else {
        let rest = filtered_prefix(devs, device_type, n - 1);
        if keeps(device_type, devs[n - 1]) {
            rest.push(devs[n - 1])
        } else {
            rest
        }
    }
}

/// The kept devices of the whole enumeration, in enumeration order.
pub open spec fn filtered(devs: Seq<DeviceDesc>, device_type: DeviceType) -> Seq<DeviceDesc> {
    filtered_prefix(devs, device_type, devs.len() as int)
}

/// Growing the scanned prefix never disturbs the devices already kept.
proof fn lemma_filtered_prefix_extends(
    devs: Seq<DeviceDesc>,
    device_type: DeviceType,
    n: int,
    m: int,
)
    requires
        0 <= n <= m,
    ensures
        filtered_prefix(devs, device_type, n).len() <= filtered_prefix(devs, device_type, m).len(),
        forall|k: int|
            0 <= k < filtered_prefix(devs, device_type, n).len()
                ==> filtered_prefix(devs, device_type, m)[k] == filtered_prefix(
                devs,
                device_type,
                n,
            )[k],
    decreases m - n,
{
    if n < m {
        lemma_filtered_prefix_extends(devs, device_type, n, m - 1);
    }
}

/// Law: for the class that accepts every device, filtering is the identity,
/// so index `i` picks the `i`-th device of the full unfiltered enumeration.
pub proof fn lemma_filtered_all_is_identity(devs: Seq<DeviceDesc>)
    ensures
        filtered(devs, DeviceType::All) == devs,
    decreases devs.len(),
{
    if devs.len() > 0 {
        lemma_filtered_all_prefix(devs, devs.len() as int);
    }
    assert(filtered(devs, DeviceType::All) =~= devs);
}

/// Every prefix filtered with `All` is that prefix itself.
proof fn lemma_filtered_all_prefix(devs: Seq<DeviceDesc>, n: int)
    requires
        0 <= n <= devs.len(),
    ensures
        filtered_prefix(devs, DeviceType::All, n) =~= devs.take(n),
    decreases n,
{
    if n > 0 {
        lemma_filtered_all_prefix(devs, n - 1);
    }
}

/// Whether the requested class keeps this device; the executable twin of
/// `keeps`.
fn matches_filter(device_type: DeviceType, d: &DeviceDesc) -> (res: bool)
    ensures
        res == keeps(device_type, *d),
{
    match device_type {
        DeviceType::All => true,
        DeviceType::Cpu => d.class == DeviceClass::Cpu,
        DeviceType::Gpu => d.class == DeviceClass::Gpu,
        DeviceType::DGpu => d.class == DeviceClass::Gpu && d.unified_memory,
        DeviceType::IGpu => d.class == DeviceClass::Gpu && !d.unified_memory,
    }
}

/// Select a device's position: filter the enumeration by the requested
/// class, then locate the device at the zero-based `device_index` within
/// the filtered list, returned as its position in the full enumeration so
/// that a caller holding the native handles can pick the same device.
/// Fails with `DeviceNotFound`, carrying the index and the number of
/// devices that survived the filter, exactly when the index is out of
/// range.
pub fn get_device_index(
    devices: &Vec<DeviceDesc>,
    device_type: DeviceType,
    device_index: usize,
) -> (res: Result<usize, MulError>)
    ensures
        match res {
            Ok(i) => {
                &&& i < devices@.len()
                &&& device_index < filtered(devices@, device_type).len()
                &&& devices@[i as int] == filtered(devices@, device_type)[device_index as int]
            },
            Err(e) => {
                &&& device_index >= filtered(devices@, device_type).len()
                &&& e == (MulError::DeviceNotFound {
                    index: device_index,
                    available: filtered(devices@, device_type).len() as usize,
                })
            },
        },
{
    let ghost all = devices@;
    let mut count: usize = 0;
    let mut i: usize = 0;
    while i < devices.len()
        invariant
            i <= all.len(),
            all == devices@,
            count == filtered_prefix(all, device_type, i as int).len(),
            count <= device_index,
        decreases all.len() - i,
    {
        if matches_filter(device_type, &devices[i]) {
            proof {
                assert(filtered_prefix(all, device_type, i + 1) == filtered_prefix(
                    all,
                    device_type,
                    i as int,
                ).push(all[i as int]));
            }
            if count == device_index {
                proof {
                    lemma_filtered_prefix_extends(all, device_type, i + 1, all.len() as int);
                    assert(filtered(all, device_type)[device_index as int] == all[i as int]);
                }
                return Ok(i);
            }
            count = count + 1;
        }
        i = i + 1;
    }
    Err(MulError::DeviceNotFound { index: device_index, available: count })
}

/// Select a device: filter the enumeration by the requested class, then
/// take the device at the zero-based `device_index` within the filtered
/// list. Fails with `DeviceNotFound`, carrying the index and the number of
/// devices that survived the filter, exactly when the index is out of
/// range.
pub fn get_device(
    devices: &Vec<DeviceDesc>,
    device_type: DeviceType,
    device_index: usize,
) -> (res: Result<DeviceDesc, MulError>)
    ensures
        match res {
            Ok(d) => {
                &&& device_index < filtered(devices@, device_type).len()
                &&& d.eqv(filtered(devices@, device_type)[device_index as int])
            },
            Err(e) => {
                &&& device_index >= filtered(devices@, device_type).len()
                &&& e == (MulError::DeviceNotFound {
                    index: device_index,
                    available: filtered(devices@, device_type).len() as usize,
                })
            },
        },
{
    match get_device_index(devices, device_type, device_index) {
        Ok(i) => Ok(devices[i].clone()),
        Err(e) => Err(e),
    }
}

} // verus!
