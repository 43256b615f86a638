//! Information on chip, memory and flash, for `/espinfo` and `/partition`.
//!
//! A chip tells its clock, revision, MAC address, last reset and uptime; the firmware tells its
//! free heap and PSRAM. What nothing tells is reported as `"n/a"` or zero, or left out.

use crate::capabilities::Chip;
use crate::fixed;
use crate::fixed::FixedVec;
use crate::protocol;
use crate::protocol::{EspInfo, PartitionInfo};
use vstd::prelude::*;

verus! {

/// What the firmware is built on.
pub const SDK_VERSION: &'static str = "esp-hal 1.0";

/// What a chip tells of itself at one moment.
#[derive(Debug, Clone, Copy, PartialEq, Eq, Structural)]
pub struct Hardware {
    /// Clock of the processor in MHz.
    pub cpu_frequency: u32,
    /// Chip revision, one hundred times the major number plus the minor number.
    pub chip_revision: u32,
    /// Base MAC address, see [`pack_mac`].
    pub mac: u64,
    /// Raw code of the last reset, or zero if it is not known.
    pub reset_code: i32,
    /// Seconds since the start.
    pub up_time: u32,
    /// Microseconds since the start.
    pub uptime_us: u64,
}

/// Where there is no chip, nothing is known.
pub open spec fn unknown_hardware() -> Hardware {
    Hardware {
        cpu_frequency: 0,
        chip_revision: 0,
        mac: 0,
        reset_code: 0,
        up_time: 0,
        uptime_us: 0,
    }
}

impl Hardware {
    /// Where there is no chip, nothing is known.
    pub fn unknown() -> (r: Self)
        ensures
            r == unknown_hardware(),
    {
        Hardware {
            cpu_frequency: 0,
            chip_revision: 0,
            mac: 0,
            reset_code: 0,
            up_time: 0,
            uptime_us: 0,
        }
    }
}

/// The number that bytes stand for, the most significant first.
pub open spec fn big_endian(bytes: Seq<u8>) -> nat
    decreases bytes.len(),
{
    if bytes.len() == 0 {
        0
    } else {
        big_endian(bytes.drop_last()) * 256 + bytes.last() as nat
    }
}

/// A number of `count` bytes is below the power of 256 with that exponent.
proof fn lemma_big_endian_bound(bytes: Seq<u8>)
    requires
        bytes.len() <= 6,
    ensures
        big_endian(bytes) < (if bytes.len() == 0 {
            1int
        } else if bytes.len() == 1 {
            0x100
        } else if bytes.len() == 2 {
            0x1_0000
        } else if bytes.len() == 3 {
            0x100_0000
        } else if bytes.len() == 4 {
            0x1_0000_0000
        } else if bytes.len() == 5 {
            0x100_0000_0000
        } else {
            0x1_0000_0000_0000
        }),
    decreases bytes.len(),
{
    if bytes.len() > 0 {
        lemma_big_endian_bound(bytes.drop_last());
    }
}

/// The first six bytes as one number, the most significant first.
pub fn pack_mac(bytes: &[u8]) -> (r: u64)
    ensures
        r == big_endian(fixed::first_items(bytes@, 6)),
{
    let mut mac: u64 = 0;
    let count: usize = if bytes.len() < 6 {
        bytes.len()
    } else {
        6
    };
    for index in 0..count
        invariant
            count <= 6,
            count <= bytes@.len(),
            mac == big_endian(bytes@.take(index as int)),
    {
        proof {
            lemma_big_endian_bound(bytes@.take(index as int));
            assert(bytes@.take(index + 1).drop_last() =~= bytes@.take(index as int));
        }
        mac = mac * 256 + bytes[index] as u64;
    }
    assert(bytes@.len() <= 6 ==> bytes@.take(count as int) =~= bytes@);
    mac
}

/// The name of a raw reset code.
pub open spec fn reset_name(code: i32) -> Seq<char> {
    if code == 0x01 {
        "POWERON_RESET"@
    } else if code == 0x03 {
        "SW_RESET"@
    } else if code == 0x05 {
        "DEEPSLEEP_RESET"@
    } else if code == 0x06 {
        "SDIO_RESET"@
    } else if code == 0x07 {
        "TG0WDT_SYS_RESET"@
    } else if code == 0x08 {
        "TG1WDT_SYS_RESET"@
    } else if code == 0x09 {
        "RTCWDT_SYS_RESET"@
    } else if code == 0x0B {
        "TG0WDT_CPU_RESET"@
    } else if code == 0x0C {
        "SW_CPU_RESET"@
    } else if code == 0x0D {
        "RTCWDT_CPU_RESET"@
    } else if code == 0x0E {
        "EXT_CPU_RESET"@
    } else if code == 0x0F {
        "BROWNOUT_RESET"@
    } else if code == 0x10 {
        "RTCWDT_RTC_RESET"@
    } else if code == 0x11 {
        "TG1WDT_CPU_RESET"@
    } else if code == 0x12 {
        "SUPER_WDT_RESET"@
    } else if code == 0x13 {
        "CLK_GLITCH_RESET"@
    } else if code == 0x14 {
        "EFUSE_RESET"@
    } else {
        "UNKNOWN"@
    }
}

/// The name of a raw reset code of the RTC, or `"UNKNOWN"`.
pub fn reset_reason_name(code: i32) -> (r: &'static str)
    ensures
        r@ == reset_name(code),
{
    match code {
        0x01 => "POWERON_RESET",
        0x03 => "SW_RESET",
        0x05 => "DEEPSLEEP_RESET",
        0x06 => "SDIO_RESET",
        0x07 => "TG0WDT_SYS_RESET",
        0x08 => "TG1WDT_SYS_RESET",
        0x09 => "RTCWDT_SYS_RESET",
        0x0B => "TG0WDT_CPU_RESET",
        0x0C => "SW_CPU_RESET",
        0x0D => "RTCWDT_CPU_RESET",
        0x0E => "EXT_CPU_RESET",
        0x0F => "BROWNOUT_RESET",
        0x10 => "RTCWDT_RTC_RESET",
        0x11 => "TG1WDT_CPU_RESET",
        0x12 => "SUPER_WDT_RESET",
        0x13 => "CLK_GLITCH_RESET",
        0x14 => "EFUSE_RESET",
        _ => "UNKNOWN",
    }
}

/// Whether `info` is the information on a chip with these readings.
pub open spec fn informs_on(
    info: EspInfo,
    chip: Chip,
    hardware: Hardware,
    free_heap: u32,
    free_psram: Option<u32>,
) -> bool {
    &&& info.chip_model@ == chip.spec_model()
    &&& info.cores_count == chip.spec_cores()
    &&& info.chip_revision == hardware.chip_revision
    &&& info.cpu_frequency == hardware.cpu_frequency
    &&& info.cycle_count == 0
    &&& info.mac == hardware.mac
    &&& info.flash_mode@ == "n/a"@
    &&& info.flash_chip_size == 0
    &&& info.flash_chip_speed == 0
    &&& info.heap_size == 0
    &&& info.heap_max_alloc == 0
    &&& info.psram_size == 0
    &&& info.free_psram == (match free_psram {
        Some(bytes) => bytes,
        None => 0,
    })
    &&& info.psram_max_alloc == 0
    &&& info.free_heap == free_heap
    &&& info.heap_free_8bit == 0
    &&& info.heap_free_32bit == 0
    &&& info.heap_largest_free_block == 0
    &&& info.up_time == hardware.up_time
    &&& info.uptime_us == hardware.uptime_us
    &&& info.sketch_size == 0
    &&& info.free_sketch == 0
    &&& info.arduino_core_version@ == "n/a"@
    &&& info.sdk_version@ == SDK_VERSION@
    &&& info.idf_version is None
    &&& info.sketch_md5 is None
    &&& info.chip_features@.map_values(|name: &str| name@) == chip.spec_features()
    &&& info.reset_reason_code == hardware.reset_code
    &&& info.reset_reason@ == reset_name(hardware.reset_code)
    &&& info.temperature_c is None
}

/// The information on a chip with these readings.
pub fn espinfo_of(
    chip: Chip,
    hardware: Hardware,
    free_heap: u32,
    free_psram: Option<u32>,
) -> (r: EspInfo<'static>)
    ensures
        informs_on(r, chip, hardware, free_heap, free_psram),
{
    let free_psram_bytes: u32 = match free_psram {
        Some(bytes) => bytes,
        None => 0,
    };
    EspInfo {
        chip_model: chip.model(),
        cores_count: chip.cores(),
        chip_revision: hardware.chip_revision,
        cpu_frequency: hardware.cpu_frequency,
        cycle_count: 0,
        mac: hardware.mac,
        flash_mode: "n/a",
        flash_chip_size: 0,
        flash_chip_speed: 0,
        heap_size: 0,
        heap_max_alloc: 0,
        psram_size: 0,
        free_psram: free_psram_bytes,
        psram_max_alloc: 0,
        free_heap,
        heap_free_8bit: 0,
        heap_free_32bit: 0,
        heap_largest_free_block: 0,
        up_time: hardware.up_time,
        uptime_us: hardware.uptime_us,
        sketch_size: 0,
        free_sketch: 0,
        arduino_core_version: "n/a",
        sdk_version: SDK_VERSION,
        idf_version: None,
        sketch_md5: None,
        chip_features: chip.features(),
        reset_reason_code: hardware.reset_code,
        reset_reason: reset_reason_name(hardware.reset_code),
        temperature_c: None,
    }
}

/// The information where there is no chip: only the free heap and PSRAM are known.
pub fn espinfo(free_heap: u32, free_psram: Option<u32>) -> (r: EspInfo<'static>)
    ensures
        informs_on(r, Chip::Host, unknown_hardware(), free_heap, free_psram),
{
    espinfo_of(Chip::Host, Hardware::unknown(), free_heap, free_psram)
}

/// Why the flash partitions are not known.
#[derive(Debug, Clone, Copy, PartialEq, Eq, Structural)]
#[non_exhaustive]
pub enum PartitionReadError {
    /// The partition table could not be read from flash, or is not a partition table.
    ReadFailed,
}

/// Whether a partition holds data.
pub open spec fn is_data(partition: PartitionInfo) -> bool {
    partition.ptype == 1
}

/// The partitions of a table that hold data, or those that do not, in the order of the table.
pub open spec fn partitions_with<'a>(table: Seq<PartitionInfo<'a>>, data: bool) -> Seq<
    PartitionInfo<'a>,
> {
    table.filter(|partition: PartitionInfo<'a>| is_data(partition) == data)
}

/// The partitions in the order in which they are served: those that hold data first.
pub open spec fn data_first<'a>(table: Seq<PartitionInfo<'a>>) -> Seq<PartitionInfo<'a>> {
    partitions_with(table, true) + partitions_with(table, false)
}

/// Append the partitions that hold data, or those that do not, while there is room.
fn append_partitions<'a, const N: usize>(
    table: &[PartitionInfo<'a>],
    want_data: bool,
    out: &mut FixedVec<PartitionInfo<'a>, N>,
)
    ensures
        final(out)@ == fixed::first_items(
            old(out)@ + partitions_with(table@, want_data),
            N as nat,
        ),
{
    let ghost start = out@;
    let ghost wanted = |partition: PartitionInfo<'a>| is_data(partition) == want_data;
    // What is held already fits.
    let _held = out.as_slice();
    assert(start + table@.take(0).filter(wanted) =~= start) by {
        reveal(Seq::filter);
    }
    for index in 0..table.len()
        invariant
            wanted == (|partition: PartitionInfo<'a>| is_data(partition) == want_data),
            out@ == fixed::first_items(
                start + table@.take(index as int).filter(wanted),
                N as nat,
            ),
    {
        let partition = table[index];
        let ghost taken = table@.take(index as int).filter(wanted);
        proof {
            assert(table@.take(index + 1) =~= table@.take(index as int).push(partition));
            table@.take(index as int).lemma_filter_push(partition, wanted);
        }
        if (partition.ptype == 1) == want_data {
            let _ = out.push(partition);
            proof {
                let all = start + taken;
                assert(start + taken.push(partition) =~= all.push(partition));
                assert(all.len() >= N ==> fixed::first_items(all.push(partition), N as nat)
                    =~= fixed::first_items(all, N as nat));
            }
        }
    }
    assert(table@.take(table@.len() as int) =~= table@);
}

/// Take over the partitions of a table that was read from flash, in the order in which they are
/// served.
///
/// `table` is `None` if the table could not be read. `out` is emptied first; partitions that it
/// has no room for are dropped. Returns the number of partitions taken over.
pub fn read_partition_infos<'a, const N: usize>(
    table: Option<&[PartitionInfo<'a>]>,
    out: &mut FixedVec<PartitionInfo<'a>, N>,
) -> (r: Result<usize, PartitionReadError>)
    ensures
        table is None ==> r == Err::<usize, PartitionReadError>(PartitionReadError::ReadFailed)
            && final(out)@ == Seq::<PartitionInfo<'a>>::empty(),
        table matches Some(table) ==> {
            &&& r == Ok::<usize, PartitionReadError>(final(out)@.len() as usize)
            &&& final(out)@ == fixed::first_items(data_first(table@), N as nat)
        },
{
    out.clear();
    match table {
        None => Err(PartitionReadError::ReadFailed),
        Some(table) => {
            append_partitions(table, true, out);
            append_partitions(table, false, out);
            proof {
                let data = partitions_with(table@, true);
                let others = partitions_with(table@, false);
                let kept = fixed::first_items(data, N as nat);
                assert(Seq::empty() + data =~= data);
                assert(fixed::first_items(kept + others, N as nat) =~= fixed::first_items(
                    data + others,
                    N as nat,
                ));
            }
            Ok(out.len())
        },
    }
}

/// Ordering the partitions loses none of them, and puts none that holds data behind one that does
/// not.
pub proof fn ordering_keeps_every_partition<'a>(table: Seq<PartitionInfo<'a>>)
    ensures
        data_first(table).len() == table.len(),
        data_first(table).to_multiset() == table.to_multiset(),
        forall|i: int, j: int|
            0 <= i < j < table.len() && is_data(#[trigger] data_first(table)[j]) ==> is_data(
                #[trigger] data_first(table)[i],
            ),
{
    broadcast use vstd::seq_lib::group_to_multiset_ensures;

    let wanted = |partition: PartitionInfo<'a>| is_data(partition) == true;
    let others = |partition: PartitionInfo<'a>| is_data(partition) == false;
    lemma_parts_make_up_table(table);
    let ordered = data_first(table);
    vstd::seq_lib::lemma_multiset_commutative(
        partitions_with(table, true),
        partitions_with(table, false),
    );
    assert forall|i: int, j: int|
        0 <= i < j < table.len() && is_data(#[trigger] ordered[j]) implies is_data(
        #[trigger] ordered[i],
    ) by {
        let data = partitions_with(table, true);
        if j >= data.len() {
            table.lemma_filter_pred(others, j - data.len());
        } else {
            table.lemma_filter_pred(wanted, i);
        }
    }
}

/// The partitions that hold data and those that do not make up the table.
proof fn lemma_parts_make_up_table<'a>(table: Seq<PartitionInfo<'a>>)
    ensures
        partitions_with(table, true).len() + partitions_with(table, false).len() == table.len(),
        partitions_with(table, true).to_multiset().add(
            partitions_with(table, false).to_multiset(),
        ) == table.to_multiset(),
    decreases table.len(),
{
    broadcast use vstd::seq_lib::group_to_multiset_ensures;

    reveal(Seq::filter);
    if table.len() > 0 {
        let front = table.drop_last();
        lemma_parts_make_up_table(front);
        assert(table =~= front.push(table.last()));
        assert(partitions_with(table, true).to_multiset().add(
            partitions_with(table, false).to_multiset(),
        ) =~= table.to_multiset());
    } else {
        assert(partitions_with(table, true).to_multiset().add(
            partitions_with(table, false).to_multiset(),
        ) =~= table.to_multiset());
    }
}

/// What is served at `/espinfo` follows from the chip and its readings.
pub proof fn espinfo_is_determined(
    one: EspInfo,
    other: EspInfo,
    chip: Chip,
    hardware: Hardware,
    free_heap: u32,
    free_psram: Option<u32>,
)
    requires
        informs_on(one, chip, hardware, free_heap, free_psram),
        informs_on(other, chip, hardware, free_heap, free_psram),
    ensures
        protocol::espinfo_text(one) == protocol::espinfo_text(other),
{
    let names = one.chip_features@.map_values(|name: &str| name@);
    let other_names = other.chip_features@.map_values(|name: &str| name@);
    let entries = protocol::feature_entries(one.chip_features@);
    let other_entries = protocol::feature_entries(other.chip_features@);
    assert(names.len() == one.chip_features@.len());
    assert(other_names.len() == other.chip_features@.len());
    assert forall|i: int| 0 <= i < entries.len() implies #[trigger] entries[i]
        == other_entries[i] by {
        assert(names[i] == other_names[i]);
    }
    assert(entries =~= other_entries);
}

} // verus!
