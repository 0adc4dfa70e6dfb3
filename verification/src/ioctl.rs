//! The argument blocks of the kernel driver's requests, as plain values.
//! Each `Default` fills in the sizes the driver checks.
use vstd::prelude::*;
use crate::kmd::NocTlbConfig;

verus! {

/// Request number family of the driver.
pub const TENSTORRENT_IOCTL_MAGIC: usize = 0xFA;

/// Bytes of `GetDeviceInfoOut` as the driver lays it out.
pub const GET_DEVICE_INFO_OUT_SIZE: u32 = 20;

/// Bytes of `GetDriverInfoOut` as the driver lays it out.
pub const GET_DRIVER_INFO_OUT_SIZE: u32 = 8;

/// Bytes of `ResetDeviceIn` as the driver lays it out.
pub const RESET_DEVICE_IN_SIZE: u32 = 8;

/// Restore the device's state after a reset.
pub const RESET_DEVICE_RESTORE_STATE: u32 = 0;
/// Reset the PCIe link.
pub const RESET_DEVICE_RESET_PCIE_LINK: u32 = 1;
/// Reset by a configuration write.
pub const RESET_DEVICE_RESET_CONFIG_WRITE: u32 = 2;

/// Input of the device-information request.
#[derive(Clone, Copy, Debug)]
pub struct GetDeviceInfoIn {
    pub output_size_bytes: u32,
}

impl GetDeviceInfoIn {
    /// Whether every field holds what `default` puts there.
    pub open spec fn is_default(&self) -> bool {
        self.output_size_bytes == GET_DEVICE_INFO_OUT_SIZE
    }
}

impl Default for GetDeviceInfoIn {
    fn default() -> (r: Self)
        ensures
            r.is_default(),
    {
        GetDeviceInfoIn {
            output_size_bytes: GET_DEVICE_INFO_OUT_SIZE,
        }
    }
}

/// Output of the device-information request; `bus_dev_fn` packs function (bits 0..3), device (3..8) and bus (8..16).
#[derive(Clone, Copy, Debug)]
pub struct GetDeviceInfoOut {
    pub output_size_bytes: u32,
    pub vendor_id: u16,
    pub device_id: u16,
    pub subsystem_vendor_id: u16,
    pub subsystem_id: u16,
    pub bus_dev_fn: u16,
    pub max_dma_buf_size_log2: u16,
    pub pci_domain: u16,
}

impl GetDeviceInfoOut {
    /// Whether every field holds what `default` puts there.
    pub open spec fn is_default(&self) -> bool {
        self.output_size_bytes == 0
        && self.vendor_id == 0
        && self.device_id == 0
        && self.subsystem_vendor_id == 0
        && self.subsystem_id == 0
        && self.bus_dev_fn == 0
        && self.max_dma_buf_size_log2 == 0
        && self.pci_domain == 0
    }
}

impl Default for GetDeviceInfoOut {
    fn default() -> (r: Self)
        ensures
            r.is_default(),
    {
        GetDeviceInfoOut {
            output_size_bytes: 0,
            vendor_id: 0,
            device_id: 0,
            subsystem_vendor_id: 0,
            subsystem_id: 0,
            bus_dev_fn: 0,
            max_dma_buf_size_log2: 0,
            pci_domain: 0,
        }
    }
}

/// The device-information request.
#[derive(Clone, Copy, Debug)]
pub struct GetDeviceInfo {
    pub input: GetDeviceInfoIn,
    pub output: GetDeviceInfoOut,
}

impl GetDeviceInfo {
    /// Whether every field holds what `default` puts there.
    pub open spec fn is_default(&self) -> bool {
        self.input.is_default()
        && self.output.is_default()
    }
}

impl Default for GetDeviceInfo {
    fn default() -> (r: Self)
        ensures
            r.is_default(),
    {
        GetDeviceInfo {
            input: GetDeviceInfoIn::default(),
            output: GetDeviceInfoOut::default(),
        }
    }
}

/// One memory mapping the driver offers.
#[derive(Clone, Copy, Debug)]
pub struct Mapping {
    pub mapping_id: u32,
    pub reserved: u32,
    pub mapping_base: u64,
    pub mapping_size: u64,
}

impl Mapping {
    /// Whether every field holds what `default` puts there.
    pub open spec fn is_default(&self) -> bool {
        self.mapping_id == 0
        && self.reserved == 0
        && self.mapping_base == 0
        && self.mapping_size == 0
    }
}

impl Default for Mapping {
    fn default() -> (r: Self)
        ensures
            r.is_default(),
    {
        Mapping {
            mapping_id: 0,
            reserved: 0,
            mapping_base: 0,
            mapping_size: 0,
        }
    }
}

/// Input of the mapping query.
#[derive(Clone, Copy, Debug)]
pub struct QueryMappingsIn {
    pub output_mapping_count: u32,
    pub reserved: u32,
}

impl QueryMappingsIn {
    /// Whether every field holds what `default` puts there.
    pub open spec fn is_default(&self) -> bool {
        self.output_mapping_count == 0
        && self.reserved == 0
    }
}

impl Default for QueryMappingsIn {
    fn default() -> (r: Self)
        ensures
            r.is_default(),
    {
        QueryMappingsIn {
            output_mapping_count: 0,
            reserved: 0,
        }
    }
}

/// Input of a DMA buffer allocation.
#[derive(Clone, Copy, Debug)]
pub struct AllocateDmaBufferIn {
    pub requested_size: u32,
    pub buf_index: u8,
    pub reserved0: [u8; 3],
    pub reserved1: [u64; 2],
}

impl AllocateDmaBufferIn {
    /// Whether every field holds what `default` puts there.
    pub open spec fn is_default(&self) -> bool {
        self.requested_size == 0
        && self.buf_index == 0
        && (forall|i: int| 0 <= i < 3 ==> #[trigger] self.reserved0@[i] == 0)
        && (forall|i: int| 0 <= i < 2 ==> #[trigger] self.reserved1@[i] == 0)
    }
}

impl Default for AllocateDmaBufferIn {
    fn default() -> (r: Self)
        ensures
            r.is_default(),
    {
        AllocateDmaBufferIn {
            requested_size: 0,
            buf_index: 0,
            reserved0: [0u8; 3],
            reserved1: [0u64; 2],
        }
    }
}

/// Output of a DMA buffer allocation.
#[derive(Clone, Copy, Debug)]
pub struct AllocateDmaBufferOut {
    pub physical_address: u64,
    pub mapping_offset: u64,
    pub size: u32,
    pub reserved0: u32,
    pub reserved1: [u64; 2],
}

impl AllocateDmaBufferOut {
    /// Whether every field holds what `default` puts there.
    pub open spec fn is_default(&self) -> bool {
        self.physical_address == 0
        && self.mapping_offset == 0
        && self.size == 0
        && self.reserved0 == 0
        && (forall|i: int| 0 <= i < 2 ==> #[trigger] self.reserved1@[i] == 0)
    }
}

impl Default for AllocateDmaBufferOut {
    fn default() -> (r: Self)
        ensures
            r.is_default(),
    {
        AllocateDmaBufferOut {
            physical_address: 0,
            mapping_offset: 0,
            size: 0,
            reserved0: 0,
            reserved1: [0u64; 2],
        }
    }
}

/// A DMA buffer allocation request.
#[derive(Clone, Copy, Debug)]
pub struct AllocateDmaBuffer {
    pub input: AllocateDmaBufferIn,
    pub output: AllocateDmaBufferOut,
}

impl AllocateDmaBuffer {
    /// Whether every field holds what `default` puts there.
    pub open spec fn is_default(&self) -> bool {
        self.input.is_default()
        && self.output.is_default()
    }
}

impl Default for AllocateDmaBuffer {
    fn default() -> (r: Self)
        ensures
            r.is_default(),
    {
        AllocateDmaBuffer {
            input: AllocateDmaBufferIn::default(),
            output: AllocateDmaBufferOut::default(),
        }
    }
}

/// Input of a DMA buffer release (empty).
#[derive(Clone, Copy, Debug)]
pub struct FreeDmaBufferIn {}

impl FreeDmaBufferIn {
    /// Whether every field holds what `default` puts there.
    pub open spec fn is_default(&self) -> bool {
        true
    }
}

impl Default for FreeDmaBufferIn {
    fn default() -> (r: Self)
        ensures
            r.is_default(),
    {
        FreeDmaBufferIn {}
    }
}

/// Output of a DMA buffer release (empty).
#[derive(Clone, Copy, Debug)]
pub struct FreeDmaBufferOut {}

impl FreeDmaBufferOut {
    /// Whether every field holds what `default` puts there.
    pub open spec fn is_default(&self) -> bool {
        true
    }
}

impl Default for FreeDmaBufferOut {
    fn default() -> (r: Self)
        ensures
            r.is_default(),
    {
        FreeDmaBufferOut {}
    }
}

/// A DMA buffer release request.
#[derive(Clone, Copy, Debug)]
pub struct FreeDmaBuffer {
    pub input: FreeDmaBufferIn,
    pub output: FreeDmaBufferOut,
}

impl FreeDmaBuffer {
    /// Whether every field holds what `default` puts there.
    pub open spec fn is_default(&self) -> bool {
        self.input.is_default()
        && self.output.is_default()
    }
}

impl Default for FreeDmaBuffer {
    fn default() -> (r: Self)
        ensures
            r.is_default(),
    {
        FreeDmaBuffer {
            input: FreeDmaBufferIn::default(),
            output: FreeDmaBufferOut::default(),
        }
    }
}

/// Input of the driver-information request.
#[derive(Clone, Copy, Debug)]
pub struct GetDriverInfoIn {
    pub output_size_bytes: u32,
}

impl GetDriverInfoIn {
    /// Whether every field holds what `default` puts there.
    pub open spec fn is_default(&self) -> bool {
        self.output_size_bytes == GET_DRIVER_INFO_OUT_SIZE
    }
}

impl Default for GetDriverInfoIn {
    fn default() -> (r: Self)
        ensures
            r.is_default(),
    {
        GetDriverInfoIn {
            output_size_bytes: GET_DRIVER_INFO_OUT_SIZE,
        }
    }
}

/// Output of the driver-information request.
#[derive(Clone, Copy, Debug)]
pub struct GetDriverInfoOut {
    pub output_size_bytes: u32,
    pub driver_version: u32,
}

impl GetDriverInfoOut {
    /// Whether every field holds what `default` puts there.
    pub open spec fn is_default(&self) -> bool {
        self.output_size_bytes == 0
        && self.driver_version == 0
    }
}

impl Default for GetDriverInfoOut {
    fn default() -> (r: Self)
        ensures
            r.is_default(),
    {
        GetDriverInfoOut {
            output_size_bytes: 0,
            driver_version: 0,
        }
    }
}

/// The driver-information request.
#[derive(Clone, Copy, Debug)]
pub struct GetDriverInfo {
    pub input: GetDriverInfoIn,
    pub output: GetDriverInfoOut,
}

impl GetDriverInfo {
    /// Whether every field holds what `default` puts there.
    pub open spec fn is_default(&self) -> bool {
        self.input.is_default()
        && self.output.is_default()
    }
}

impl Default for GetDriverInfo {
    fn default() -> (r: Self)
        ensures
            r.is_default(),
    {
        GetDriverInfo {
            input: GetDriverInfoIn::default(),
            output: GetDriverInfoOut::default(),
        }
    }
}

/// Input of a device reset; `flags` is one of the `RESET_DEVICE_*` values.
#[derive(Clone, Copy, Debug)]
pub struct ResetDeviceIn {
    pub output_size_bytes: u32,
    pub flags: u32,
}

impl ResetDeviceIn {
    /// Whether every field holds what `default` puts there.
    pub open spec fn is_default(&self) -> bool {
        self.output_size_bytes == RESET_DEVICE_IN_SIZE
        && self.flags == 0
    }
}

impl Default for ResetDeviceIn {
    fn default() -> (r: Self)
        ensures
            r.is_default(),
    {
        ResetDeviceIn {
            output_size_bytes: RESET_DEVICE_IN_SIZE,
            flags: 0,
        }
    }
}

/// Output of a device reset.
#[derive(Clone, Copy, Debug)]
pub struct ResetDeviceOut {
    pub output_size_bytes: u32,
    pub result: u32,
}

impl ResetDeviceOut {
    /// Whether every field holds what `default` puts there.
    pub open spec fn is_default(&self) -> bool {
        self.output_size_bytes == 0
        && self.result == 0
    }
}

impl Default for ResetDeviceOut {
    fn default() -> (r: Self)
        ensures
            r.is_default(),
    {
        ResetDeviceOut {
            output_size_bytes: 0,
            result: 0,
        }
    }
}

/// A device reset request.
#[derive(Clone, Copy, Debug)]
pub struct ResetDevice {
    pub input: ResetDeviceIn,
    pub output: ResetDeviceOut,
}

impl ResetDevice {
    /// Whether every field holds what `default` puts there.
    pub open spec fn is_default(&self) -> bool {
        self.input.is_default()
        && self.output.is_default()
    }
}

impl Default for ResetDevice {
    fn default() -> (r: Self)
        ensures
            r.is_default(),
    {
        ResetDevice {
            input: ResetDeviceIn::default(),
            output: ResetDeviceOut::default(),
        }
    }
}

/// Input of a TLB window allocation.
#[derive(Clone, Copy, Debug)]
pub struct AllocateTlbIn {
    pub size: u64,
    pub reserved: u64,
}

impl AllocateTlbIn {
    /// Whether every field holds what `default` puts there.
    pub open spec fn is_default(&self) -> bool {
        self.size == 0
        && self.reserved == 0
    }
}

impl Default for AllocateTlbIn {
    fn default() -> (r: Self)
        ensures
            r.is_default(),
    {
        AllocateTlbIn {
            size: 0,
            reserved: 0,
        }
    }
}

/// Output of a TLB window allocation: its id and where to map it uncached and write-combined.
#[derive(Clone, Copy, Debug)]
pub struct AllocateTlbOut {
    pub id: u32,
    pub reserved0: u32,
    pub mmap_offset_uc: u64,
    pub mmap_offset_wc: u64,
    pub reserved1: u64,
}

impl AllocateTlbOut {
    /// Whether every field holds what `default` puts there.
    pub open spec fn is_default(&self) -> bool {
        self.id == 0
        && self.reserved0 == 0
        && self.mmap_offset_uc == 0
        && self.mmap_offset_wc == 0
        && self.reserved1 == 0
    }
}

impl Default for AllocateTlbOut {
    fn default() -> (r: Self)
        ensures
            r.is_default(),
    {
        AllocateTlbOut {
            id: 0,
            reserved0: 0,
            mmap_offset_uc: 0,
            mmap_offset_wc: 0,
            reserved1: 0,
        }
    }
}

/// A TLB window allocation request.
#[derive(Clone, Copy, Debug)]
pub struct AllocateTlb {
    pub input: AllocateTlbIn,
    pub output: AllocateTlbOut,
}

impl AllocateTlb {
    /// Whether every field holds what `default` puts there.
    pub open spec fn is_default(&self) -> bool {
        self.input.is_default()
        && self.output.is_default()
    }
}

impl Default for AllocateTlb {
    fn default() -> (r: Self)
        ensures
            r.is_default(),
    {
        AllocateTlb {
            input: AllocateTlbIn::default(),
            output: AllocateTlbOut::default(),
        }
    }
}

/// Input of a TLB window release.
#[derive(Clone, Copy, Debug)]
pub struct FreeTlbIn {
    pub id: u32,
}

impl FreeTlbIn {
    /// Whether every field holds what `default` puts there.
    pub open spec fn is_default(&self) -> bool {
        self.id == 0
    }
}

impl Default for FreeTlbIn {
    fn default() -> (r: Self)
        ensures
            r.is_default(),
    {
        FreeTlbIn {
            id: 0,
        }
    }
}

/// Output of a TLB window release (empty).
#[derive(Clone, Copy, Debug)]
pub struct FreeTlbOut {}

impl FreeTlbOut {
    /// Whether every field holds what `default` puts there.
    pub open spec fn is_default(&self) -> bool {
        true
    }
}

impl Default for FreeTlbOut {
    fn default() -> (r: Self)
        ensures
            r.is_default(),
    {
        FreeTlbOut {}
    }
}

/// A TLB window release request.
#[derive(Clone, Copy, Debug)]
pub struct FreeTlb {
    pub input: FreeTlbIn,
    pub output: FreeTlbOut,
}

impl FreeTlb {
    /// Whether every field holds what `default` puts there.
    pub open spec fn is_default(&self) -> bool {
        self.input.is_default()
        && self.output.is_default()
    }
}

impl Default for FreeTlb {
    fn default() -> (r: Self)
        ensures
            r.is_default(),
    {
        FreeTlb {
            input: FreeTlbIn::default(),
            output: FreeTlbOut::default(),
        }
    }
}

/// Input of a TLB window configuration.
#[derive(Clone, Copy, Debug)]
pub struct ConfigureTlbIn {
    pub id: u32,
    pub config: NocTlbConfig,
}

impl ConfigureTlbIn {
    /// Whether every field holds what `default` puts there.
    pub open spec fn is_default(&self) -> bool {
        self.id == 0
        && self.config.is_default()
    }
}

impl Default for ConfigureTlbIn {
    fn default() -> (r: Self)
        ensures
            r.is_default(),
    {
        ConfigureTlbIn {
            id: 0,
            config: NocTlbConfig::default(),
        }
    }
}

/// Output of a TLB window configuration.
#[derive(Clone, Copy, Debug)]
pub struct ConfigureTlbOut {
    pub reserved: u64,
}

impl ConfigureTlbOut {
    /// Whether every field holds what `default` puts there.
    pub open spec fn is_default(&self) -> bool {
        self.reserved == 0
    }
}

impl Default for ConfigureTlbOut {
    fn default() -> (r: Self)
        ensures
            r.is_default(),
    {
        ConfigureTlbOut {
            reserved: 0,
        }
    }
}

/// A TLB window configuration request.
#[derive(Clone, Copy, Debug)]
pub struct ConfigureTlb {
    pub input: ConfigureTlbIn,
    pub output: ConfigureTlbOut,
}

impl ConfigureTlb {
    /// Whether every field holds what `default` puts there.
    pub open spec fn is_default(&self) -> bool {
        self.input.is_default()
        && self.output.is_default()
    }
}

impl Default for ConfigureTlb {
    fn default() -> (r: Self)
        ensures
            r.is_default(),
    {
        ConfigureTlb {
            input: ConfigureTlbIn::default(),
            output: ConfigureTlbOut::default(),
        }
    }
}

/// The input of a mapping query for up to `N` mappings.
pub fn query_mappings_in(n: u32) -> (r: QueryMappingsIn)
    ensures
        r.output_mapping_count == n,
        r.reserved == 0,
{
    QueryMappingsIn { output_mapping_count: n, reserved: 0 }
}

/// The output of a mapping query: room for `N` mappings.
#[derive(Debug)]
pub struct QueryMappingsOut<const N: usize> {
    pub mappings: [Mapping; N],
}

/// A mapping query for up to `N` mappings.
#[derive(Debug)]
pub struct QueryMappings<const N: usize> {
    pub input: QueryMappingsIn,
    pub output: QueryMappingsOut<N>,
}

} // verus!
