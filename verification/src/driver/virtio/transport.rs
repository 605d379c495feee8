//! The VirtIO MMIO transport: what is checked when a device is found, what is written to
//! its registers and what its registers mean.
use vstd::prelude::*;
use crate::arch::mm::PAGE_SIZE;

verus! {

/// The magic value at offset 0 of every VirtIO MMIO device ("virt").
pub const MAGIC_VALUE: u32 = 0x7472_6976;
pub const LEGACY_VERSION: u32 = 1;
pub const MODERN_VERSION: u32 = 2;
/// The device's configuration space starts at this offset of its MMIO region.
pub const CONFIG_SPACE_OFFSET: usize = 0x100;

/// The interrupt status register.
#[derive(Clone, Copy, Debug, PartialEq, Eq, Structural)]
pub struct InterruptStatus(pub u32);

impl InterruptStatus {
    /// A virtqueue buffer was used.
    pub const QUEUE_INTERRUPT: u32 = 1;
    /// The device's configuration changed.
    pub const DEVICE_CONFIGURATION_INTERRUPT: u32 = 2;

    pub fn empty() -> (r: Self)
        ensures
            r.0 == 0,
    {
        InterruptStatus(0)
    }

    /// Keeps only the bits that have a meaning.
    pub fn from_bits_truncate(bits: u32) -> (r: Self)
        ensures
            r.0 == bits & 3,
    {
        InterruptStatus(bits & 3)
    }
}

/// The device status field. Writing 0 resets the device.
#[derive(Clone, Copy, Debug, PartialEq, Eq, Structural)]
pub struct DeviceStatus(pub u32);

impl DeviceStatus {
    /// The guest has found the device and recognised it as a VirtIO device.
    pub const ACKNOWLEDGE: u32 = 1;
    /// The guest knows how to drive the device.
    pub const DRIVER: u32 = 2;
    /// The guest has given up on the device.
    pub const FAILED: u32 = 128;
    /// Feature negotiation is complete.
    pub const FEATURES_OK: u32 = 8;
    /// The driver is ready to drive the device.
    pub const DRIVER_OK: u32 = 4;
    /// The device has met an error it cannot recover from.
    pub const DEVICE_NEEDS_RESET: u32 = 64;

    pub fn empty() -> (r: Self)
        ensures
            r.0 == 0,
    {
        DeviceStatus(0)
    }

    pub fn bits(&self) -> (r: u32)
        ensures
            r == self.0,
    {
        self.0
    }
}

/// Types of VirtIO devices that this kernel drives.
#[derive(Clone, Copy, Debug, PartialEq, Eq, Structural)]
pub enum DeviceType {
    Block,
}

impl DeviceType {
    /// The device type with id `value`, or `value` back when it is not known.
    pub fn try_from(value: u32) -> (r: Result<DeviceType, u32>)
        ensures
            value == 2 ==> r == Ok::<DeviceType, u32>(DeviceType::Block),
            value != 2 ==> r == Err::<DeviceType, u32>(value),
    {
        if value == 2 {
            Ok(DeviceType::Block)
        } else {
            Err(value)
        }
    }
}

/// The version of the VirtIO MMIO transport that a device offers.
#[derive(Clone, Copy, Debug, PartialEq, Eq, Structural)]
pub enum MmioVersion {
    /// Legacy MMIO transport with page-based addressing.
    Legacy,
    /// Modern MMIO transport.
    Modern,
}

impl MmioVersion {
    /// The transport version with number `value`, or `value` back when it is not known.
    pub fn try_from(value: u32) -> (r: Result<MmioVersion, u32>)
        ensures
            value == LEGACY_VERSION ==> r == Ok::<MmioVersion, u32>(MmioVersion::Legacy),
            value == MODERN_VERSION ==> r == Ok::<MmioVersion, u32>(MmioVersion::Modern),
            value != LEGACY_VERSION && value != MODERN_VERSION ==> r == Err::<MmioVersion, u32>(value),
    {
        if value == LEGACY_VERSION {
            Ok(MmioVersion::Legacy)
        } else if value == MODERN_VERSION {
            Ok(MmioVersion::Modern)
        } else {
            Err(value)
        }
    }
}

/// What the kernel keeps of a VirtIO MMIO device found at some address.
#[derive(Clone, Copy, Debug, PartialEq, Eq, Structural)]
pub struct MmioTransport {
    version: MmioVersion,
    device_type: DeviceType,
    /// Size of the configuration space in bytes.
    config_space_size: usize,
}

/// The writes to the queue registers that set up a queue: the queue selector, the queue
/// size, the used ring's alignment and the page number of the descriptor table.
#[derive(Clone, Copy, Debug, PartialEq, Eq, Structural)]
pub struct QueueSetup {
    pub queue_sel: u32,
    pub queue_num: u32,
    pub queue_align: u32,
    pub queue_pfn: u32,
}

impl MmioTransport {
    pub closed spec fn spec_version(&self) -> MmioVersion {
        self.version
    }

    pub closed spec fn spec_device_type(&self) -> DeviceType {
        self.device_type
    }

    pub closed spec fn spec_config_space_size(&self) -> usize {
        self.config_space_size
    }

    /// The transport of a device whose MMIO region of `mmio_size` bytes holds the
    /// registers read here: the region must hold the configuration space, the magic value
    /// must be right, and the device id and the version must be known.
    pub fn new(magic: u32, device_id: u32, version: u32, mmio_size: usize) -> (r: Self)
        requires
            mmio_size >= CONFIG_SPACE_OFFSET,
            magic == MAGIC_VALUE,
            device_id == 2,
            version == LEGACY_VERSION || version == MODERN_VERSION,
        ensures
            r.spec_device_type() == DeviceType::Block,
            r.spec_config_space_size() == mmio_size - CONFIG_SPACE_OFFSET,
            version == LEGACY_VERSION ==> r.spec_version() == MmioVersion::Legacy,
            version == MODERN_VERSION ==> r.spec_version() == MmioVersion::Modern,
    {
        let config_space_size = mmio_size - CONFIG_SPACE_OFFSET;
        // device id 2, the only one admitted, is a block device
        let device_type = DeviceType::Block;
        let version = if version == LEGACY_VERSION { MmioVersion::Legacy } else { MmioVersion::Modern };
        MmioTransport { version, device_type, config_space_size }
    }

    pub fn version(&self) -> (r: MmioVersion)
        ensures
            r == self.spec_version(),
    {
        self.version
    }

    pub fn device_type(&self) -> (r: DeviceType)
        ensures
            r == self.spec_device_type(),
    {
        self.device_type
    }

    /// The value to write to the guest page size register: only legacy devices have it.
    pub fn set_guest_page_size(&self, guest_page_size: u32) -> (r: Option<u32>)
        ensures
            self.spec_version() == MmioVersion::Legacy ==> r == Some(guest_page_size),
            self.spec_version() == MmioVersion::Modern ==> r.is_none(),
    {
        match self.version {
            MmioVersion::Legacy => Some(guest_page_size),
            MmioVersion::Modern => None,
        }
    }

    /// The register writes that place queue `queue` of `size` entries, whose descriptor
    /// table starts at physical address `descriptors`, with pages of `page_size` bytes.
    pub fn queue_set(&self, queue: u16, size: u32, descriptors: usize, page_size: u32) -> (r: QueueSetup)
        requires
            page_size > 0,
        ensures
            r == (QueueSetup {
                queue_sel: queue as u32,
                queue_num: size,
                queue_align: page_size,
                queue_pfn: (descriptors as nat / (page_size as nat)) as u32,
            }),
    {
        let pfn = descriptors / page_size as usize;
        QueueSetup {
            queue_sel: queue as u32,
            queue_num: size,
            queue_align: page_size,
            queue_pfn: #[verifier::truncate] (pfn as u32),
        }
    }

    /// Given the interrupt status register `interrupt`, the value to write back to the
    /// interrupt acknowledge register (none when nothing is pending) and the pending
    /// interrupts.
    pub fn ack_interrupt(&self, interrupt: u32) -> (r: (Option<u32>, InterruptStatus))
        ensures
            interrupt != 0 ==> r == (Some(interrupt), InterruptStatus(interrupt & 3)),
            interrupt == 0 ==> r == (None::<u32>, InterruptStatus(0)),
    {
        if interrupt != 0 {
            (Some(interrupt), InterruptStatus::from_bits_truncate(interrupt))
        } else {
            (None, InterruptStatus::empty())
        }
    }

    /// Whether a value of `size` bytes and alignment `align` can be read at `offset` of
    /// the configuration space: VirtIO aligns it only to 4 bytes, the offset must be
    /// aligned and the value must lie within the space.
    pub fn config_read_ok(&self, offset: usize, size: usize, align: usize) -> (r: bool)
        requires
            align > 0,
        ensures
            r == (align <= 4 && offset % align == 0 && offset + size <= self.spec_config_space_size()),
    {
        align <= 4 && offset % align == 0 && offset <= self.config_space_size
            && size <= self.config_space_size - offset
    }
}

/// The status written at the start of device initialisation, after the reset: the guest
/// has found the device and knows how to drive it.
pub fn begin_init_status() -> (r: DeviceStatus)
    ensures
        r.0 == DeviceStatus::ACKNOWLEDGE | DeviceStatus::DRIVER,
{
    DeviceStatus(DeviceStatus::ACKNOWLEDGE | DeviceStatus::DRIVER)
}

/// The status written once features are negotiated.
pub fn features_ok_status() -> (r: DeviceStatus)
    ensures
        r.0 == DeviceStatus::ACKNOWLEDGE | DeviceStatus::DRIVER | DeviceStatus::FEATURES_OK,
{
    DeviceStatus(DeviceStatus::ACKNOWLEDGE | DeviceStatus::DRIVER | DeviceStatus::FEATURES_OK)
}

/// The status written when initialisation finishes.
pub fn finish_init_status() -> (r: DeviceStatus)
    ensures
        r.0 == DeviceStatus::ACKNOWLEDGE | DeviceStatus::DRIVER | DeviceStatus::FEATURES_OK
            | DeviceStatus::DRIVER_OK,
{
    DeviceStatus(
        DeviceStatus::ACKNOWLEDGE | DeviceStatus::DRIVER | DeviceStatus::FEATURES_OK
            | DeviceStatus::DRIVER_OK,
    )
}

/// The features that driver and device agree on: those the driver supports and the
/// device offers, among the `known` ones.
pub fn negotiate_features(supported: u64, device_features: u64, known: u64) -> (r: u64)
    ensures
        r == supported & (device_features & known),
{
    supported & (device_features & known)
}

/// One call on a device's transport, as the driver's initialisation makes them.
#[derive(Clone, Copy, Debug, PartialEq, Eq, Structural)]
pub enum TransportStep {
    /// Write the device status.
    SetStatus(u32),
    /// Read the features that the device offers.
    ReadDeviceFeatures,
    /// Write the features that the driver accepts.
    WriteDriverFeatures(u64),
    /// Tell the device the guest's page size.
    SetGuestPageSize(u32),
}

/// The first calls of device initialisation, in order: reset the device (status 0), say
/// that the guest found it and can drive it, then read the features it offers. The caller
/// hands the features read to `begin_init_finish`.
pub fn begin_init_start() -> (r: Vec<TransportStep>)
    ensures
        r@ == seq![
            TransportStep::SetStatus(0),
            TransportStep::SetStatus(DeviceStatus::ACKNOWLEDGE | DeviceStatus::DRIVER),
            TransportStep::ReadDeviceFeatures,
        ],
{
    let mut r: Vec<TransportStep> = Vec::new();
    r.push(TransportStep::SetStatus(DeviceStatus::empty().bits()));
    r.push(TransportStep::SetStatus(begin_init_status().bits()));
    r.push(TransportStep::ReadDeviceFeatures);
    assert(r@ =~= seq![
        TransportStep::SetStatus(0),
        TransportStep::SetStatus(DeviceStatus::ACKNOWLEDGE | DeviceStatus::DRIVER),
        TransportStep::ReadDeviceFeatures,
    ]);
    r
}

/// The rest of the start of device initialisation, once the device offered
/// `device_features`: the features negotiated (those of `supported` that the device
/// offers, among the `known` ones), and the calls that follow, in order: write them, say
/// that features are settled, and give the page size.
pub fn begin_init_finish(supported: u64, device_features: u64, known: u64) -> (r: (u64, Vec<TransportStep>))
    ensures
        r.0 == supported & (device_features & known),
        r.1@ == seq![
            TransportStep::WriteDriverFeatures(r.0),
            TransportStep::SetStatus(DeviceStatus::ACKNOWLEDGE | DeviceStatus::DRIVER | DeviceStatus::FEATURES_OK),
            TransportStep::SetGuestPageSize(PAGE_SIZE as u32),
        ],
{
    let negotiated = negotiate_features(supported, device_features, known);
    let mut steps: Vec<TransportStep> = Vec::new();
    steps.push(TransportStep::WriteDriverFeatures(negotiated));
    steps.push(TransportStep::SetStatus(features_ok_status().bits()));
    steps.push(TransportStep::SetGuestPageSize(PAGE_SIZE as u32));
    assert(steps@ =~= seq![
        TransportStep::WriteDriverFeatures(negotiated),
        TransportStep::SetStatus(DeviceStatus::ACKNOWLEDGE | DeviceStatus::DRIVER | DeviceStatus::FEATURES_OK),
        TransportStep::SetGuestPageSize(PAGE_SIZE as u32),
    ]);
    (negotiated, steps)
}

/// The last call of device initialisation: the driver is ready.
pub fn finish_init() -> (r: Vec<TransportStep>)
    ensures
        r@ == seq![TransportStep::SetStatus(
            DeviceStatus::ACKNOWLEDGE | DeviceStatus::DRIVER | DeviceStatus::FEATURES_OK | DeviceStatus::DRIVER_OK,
        )],
{
    let mut r: Vec<TransportStep> = Vec::new();
    r.push(TransportStep::SetStatus(finish_init_status().bits()));
    assert(r@ =~= seq![TransportStep::SetStatus(
        DeviceStatus::ACKNOWLEDGE | DeviceStatus::DRIVER | DeviceStatus::FEATURES_OK | DeviceStatus::DRIVER_OK,
    )]);
    r
}

} // verus!
