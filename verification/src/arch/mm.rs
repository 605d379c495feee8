//! Parameters of RISC-V Sv39 paging as this kernel uses it.
use vstd::prelude::*;

verus! {

/// The memory-management architecture: RISC-V 64 with Sv39 paging.
pub struct RiscV64MMArch;

/// Pages are 4096 bytes.
pub const PAGE_SIZE_SHIFT: usize = 12;
pub const PAGE_SIZE: usize = 4096;
/// Three levels of page tables.
pub const PAGE_LEVELS: usize = 3;
/// Each page table holds 512 entries.
pub const PTE_COUNT_SHIFT: usize = 9;
/// The trampoline takes one page.
pub const TRAMPOLINE_PAGE_COUNT: usize = 1;
/// Virtual addresses have 39 bits, but Sv39 requires the bits above bit 38 to copy it;
/// for simplicity only 38 bits are used.
pub const VADDR_BITS_COUNT: usize = 38;

} // verus!

verus! {

/// The `satp` value that turns on Sv39 translation with ASID 0 and the root page table at
/// physical page `ppn`. Builds it with the `riscv` crate's `Satp` type: `from_bits(0)`,
/// then `set_mode(Sv39)`, `set_asid(0)` and `set_ppn(ppn)`, whose source writes mode 8 to
/// bits 60..63 and the low 44 bits of `ppn` to bits 0..43.
#[verifier::external_body]
pub(crate) fn satp_sv39(ppn: u64) -> (r: u64)
    ensures
        r == 0x8000_0000_0000_0000u64 | (ppn & 0xFFF_FFFF_FFFFu64),
{
    let mut reg = riscv::register::satp::Satp::from_bits(0);
    reg.set_mode(riscv::register::satp::Mode::Sv39);
    reg.set_asid(0);
    reg.set_ppn(ppn as usize);
    reg.bits() as u64
}

/// The `satp` value that selects the page table whose root is at `root_paddr`.
pub fn make_satp(root_paddr: u64) -> (r: u64)
    ensures
        r == 0x8000_0000_0000_0000u64 | ((root_paddr >> 12u64) & 0xFFF_FFFF_FFFFu64),
{
    satp_sv39(root_paddr >> 12)
}

/// A region of physical memory that the kernel maps.
#[derive(Clone, Copy, Debug, PartialEq, Eq, Structural)]
pub enum PhysMemoryAreaKind {
    Device,
    MainMemory,
}

/// How a memory area is mapped.
#[derive(Clone, Copy, Debug, PartialEq, Eq, Structural)]
pub enum MemoryAreaType {
    /// Virtual addresses equal physical ones.
    Identical,
}

/// One area of the kernel's address space: where it starts, how long it is, the rights
/// it is mapped with and its name.
#[derive(Clone, Copy, Debug)]
pub struct KernelArea {
    pub start: usize,
    pub size: usize,
    pub permission: u8,
    pub area_type: MemoryAreaType,
    pub name: &'static str,
}

/// Where the linker placed the kernel's sections.
#[derive(Clone, Copy, Debug, PartialEq, Eq, Structural)]
pub struct KernelSections {
    pub stext: usize,
    pub etext: usize,
    pub srodata: usize,
    pub erodata: usize,
    pub sdata: usize,
    pub edata: usize,
    pub sbss: usize,
    pub ebss: usize,
    pub ekernel: usize,
}

impl KernelSections {
    /// The sections lie in order, and the kernel ends before main memory does.
    pub open spec fn wf(&self, main_memory_end: usize) -> bool {
        &&& self.stext <= self.etext <= self.srodata <= self.erodata <= self.sdata <= self.edata
            <= self.sbss <= self.ebss <= self.ekernel <= main_memory_end
    }
}

/// A region of physical memory: where it starts, how long it is, what it holds and its
/// name.
#[derive(Clone, Copy, Debug)]
pub struct PhysMemoryArea {
    pub name: &'static str,
    pub base: usize,
    pub size: usize,
    pub kind: PhysMemoryAreaKind,
}

/// Where the first main memory area among `areas[i..]` ends, if there is one.
pub open spec fn main_memory_end(areas: Seq<PhysMemoryArea>, i: int) -> Option<int>
    decreases areas.len() - i,
{
    if i < 0 || i >= areas.len() {
        None
    } else if areas[i].kind == PhysMemoryAreaKind::MainMemory {
        Some(areas[i].base + areas[i].size)
    } else {
        main_memory_end(areas, i + 1)
    }
}

/// The identity mappings, readable and writable, of the device areas among the first `n`
/// of `areas`, in their order.
pub open spec fn device_areas(areas: Seq<PhysMemoryArea>, n: int) -> Seq<KernelArea>
    decreases n,
{
    if n <= 0 {
        Seq::empty()
    } else if areas[n - 1].kind == PhysMemoryAreaKind::Device {
        device_areas(areas, n - 1).push(KernelArea {
            start: areas[n - 1].base,
            size: areas[n - 1].size,
            permission: 3,
            area_type: MemoryAreaType::Identical,
            name: areas[n - 1].name,
        })
    } else {
        device_areas(areas, n - 1)
    }
}

/// Finds where main memory ends: at the end of the first main memory area of `areas`,
/// which must have one.
fn find_main_memory_end(areas: &Vec<PhysMemoryArea>) -> (r: usize)
    requires
        main_memory_end(areas@, 0) matches Some(e) && e <= usize::MAX,
    ensures
        main_memory_end(areas@, 0) == Some(r as int),
{
    let mut i: usize = 0;
    while i < areas.len()
        invariant
            i <= areas.len(),
            main_memory_end(areas@, 0) == main_memory_end(areas@, i as int),
            main_memory_end(areas@, 0) matches Some(e) && e <= usize::MAX,
        decreases areas.len() - i,
    {
        if areas[i].kind == PhysMemoryAreaKind::MainMemory {
            return areas[i].base + areas[i].size;
        }
        i = i + 1;
    }
    0
}

/// The physical memory that the frame allocator manages: from the end of the kernel image
/// to the end of main memory, the first main memory area of `areas`.
pub fn frame_allocator_range(areas: &Vec<PhysMemoryArea>, ekernel: usize) -> (r: (usize, usize))
    requires
        main_memory_end(areas@, 0) matches Some(e) && ekernel <= e <= usize::MAX,
    ensures
        r.0 == ekernel,
        main_memory_end(areas@, 0) == Some(r.1 as int),
{
    (ekernel, find_main_memory_end(areas))
}

/// The areas that make up the kernel's address space, in the order they are added: each
/// device area of `areas` (read and write), then text (read and execute), read-only data
/// (read and write, as the boot stack lives there), data, bss, and the rest of main memory
/// (read and write), all mapped identically. Main memory is the first main memory area of
/// `areas`. The sections are page-aligned by the linker script.
pub fn kernel_areas(s: KernelSections, areas: &Vec<PhysMemoryArea>) -> (r: Vec<KernelArea>)
    requires
        main_memory_end(areas@, 0) matches Some(e) && e <= usize::MAX && s.wf(e as usize),
    ensures
        ({
            let end = main_memory_end(areas@, 0)->0;
            r@ == device_areas(areas@, areas@.len() as int) + seq![
                KernelArea { start: s.stext, size: (s.etext - s.stext) as usize, permission: 5, area_type: MemoryAreaType::Identical, name: "kernel_text" },
                KernelArea { start: s.srodata, size: (s.erodata - s.srodata) as usize, permission: 3, area_type: MemoryAreaType::Identical, name: "kernel_rodata" },
                KernelArea { start: s.sdata, size: (s.edata - s.sdata) as usize, permission: 3, area_type: MemoryAreaType::Identical, name: "kernel_data" },
                KernelArea { start: s.sbss, size: (s.ebss - s.sbss) as usize, permission: 3, area_type: MemoryAreaType::Identical, name: "kernel_bss" },
                KernelArea { start: s.ekernel, size: (end - s.ekernel) as usize, permission: 3, area_type: MemoryAreaType::Identical, name: "kernel_phys_mem" },
            ]
        }),
{
    // readable | executable, readable | writable
    let rx: u8 = 5;
    let rw: u8 = 3;
    let memory_end = find_main_memory_end(areas);
    let mut r: Vec<KernelArea> = Vec::new();
    let mut i: usize = 0;
    while i < areas.len()
        invariant
            i <= areas.len(),
            rw == 3,
            r@ == device_areas(areas@, i as int),
        decreases areas.len() - i,
    {
        let area = areas[i];
        // main memory is mapped after the kernel's sections
        if area.kind == PhysMemoryAreaKind::Device {
            r.push(KernelArea { start: area.base, size: area.size, permission: rw, area_type: MemoryAreaType::Identical, name: area.name });
        }
        assert(r@ =~= device_areas(areas@, i + 1));
        i = i + 1;
    }
    let ghost devices = r@;
    r.push(KernelArea { start: s.stext, size: s.etext - s.stext, permission: rx, area_type: MemoryAreaType::Identical, name: "kernel_text" });
    r.push(KernelArea { start: s.srodata, size: s.erodata - s.srodata, permission: rw, area_type: MemoryAreaType::Identical, name: "kernel_rodata" });
    r.push(KernelArea { start: s.sdata, size: s.edata - s.sdata, permission: rw, area_type: MemoryAreaType::Identical, name: "kernel_data" });
    r.push(KernelArea { start: s.sbss, size: s.ebss - s.sbss, permission: rw, area_type: MemoryAreaType::Identical, name: "kernel_bss" });
    r.push(KernelArea { start: s.ekernel, size: memory_end - s.ekernel, permission: rw, area_type: MemoryAreaType::Identical, name: "kernel_phys_mem" });
    proof {
        let end = main_memory_end(areas@, 0)->0;
        assert(r@ =~= devices + seq![
            KernelArea { start: s.stext, size: (s.etext - s.stext) as usize, permission: 5, area_type: MemoryAreaType::Identical, name: "kernel_text" },
            KernelArea { start: s.srodata, size: (s.erodata - s.srodata) as usize, permission: 3, area_type: MemoryAreaType::Identical, name: "kernel_rodata" },
            KernelArea { start: s.sdata, size: (s.edata - s.sdata) as usize, permission: 3, area_type: MemoryAreaType::Identical, name: "kernel_data" },
            KernelArea { start: s.sbss, size: (s.ebss - s.sbss) as usize, permission: 3, area_type: MemoryAreaType::Identical, name: "kernel_bss" },
            KernelArea { start: s.ekernel, size: (end - s.ekernel) as usize, permission: 3, area_type: MemoryAreaType::Identical, name: "kernel_phys_mem" },
        ]);
    }
    r
}

} // verus!
