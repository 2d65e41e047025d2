use vstd::prelude::*;

verus! {

/// Number of entries of the kernel's descriptor table.
pub const GDT_SIZE: usize = 7;

/// Where the descriptor table is placed in memory.
pub const GDT_ADDRESS: u32 = 0x0000_0800;

/// Size of one descriptor in bytes.
pub const DESCRIPTOR_BYTES: usize = 8;

/// One x86 segment descriptor, field by field in table order.
#[derive(Clone, Copy, Debug, PartialEq, Eq, Structural)]
pub struct SegmentDescriptor {
    pub limit_low: u16,
    pub base_low: u16,
    pub base_middle: u8,
    pub access: u8,
    pub granularity: u8,
    pub base_high: u8,
}

impl SegmentDescriptor {
    /// The 32-bit base address that the descriptor holds.
    pub open spec fn base(&self) -> int {
        self.base_low + self.base_middle * 0x1_0000 + self.base_high * 0x100_0000
    }

    /// The 20-bit limit that the descriptor holds.
    pub open spec fn limit(&self) -> int {
        self.limit_low + (self.granularity % 16) * 0x1_0000
    }

    /// The flags nibble: 0xC means 4 KiB granularity and 32-bit segments.
    pub open spec fn flags(&self) -> int {
        self.granularity as int / 16
    }

    /// A descriptor for `base` and the low 20 bits of `limit`, with the given
    /// access byte, 4 KiB granularity and 32-bit segments.
    pub fn new(base: u32, limit: u32, access: u8) -> (d: SegmentDescriptor)
        ensures
            d.base() == base,
            d.limit() == limit % 0x10_0000,
            d.access == access,
            d.flags() == 0xc,
    {
        let d = SegmentDescriptor {
            limit_low: (limit & 0xffff) as u16,
            base_low: (base & 0xffff) as u16,
            base_middle: ((base >> 16) & 0xff) as u8,
            access,
            granularity: (((limit >> 16) & 0x0f) as u8) | 0xc0,
            base_high: ((base >> 24) & 0xff) as u8,
        };
        assert(base & 0xffff == base % 0x1_0000) by (bit_vector);
        assert((base >> 16) & 0xff == (base / 0x1_0000) % 0x100) by (bit_vector);
        assert(base >> 24 & 0xff == base / 0x100_0000) by (bit_vector);
        assert(limit & 0xffff == limit % 0x1_0000) by (bit_vector);
        assert((limit >> 16) & 0x0f == (limit / 0x1_0000) % 16) by (bit_vector);
        let g: u8 = ((limit >> 16) & 0x0f) as u8;
        assert(g < 16) by {
            assert((limit >> 16) & 0x0f < 16) by (bit_vector);
        }
        assert((g | 0xc0) % 16 == g && (g | 0xc0) / 16 == 0xc) by (bit_vector)
            requires
                g < 16,
        ;
        assert(base == base % 0x1_0000 + ((base / 0x1_0000) % 0x100) * 0x1_0000 + (base
            / 0x100_0000) * 0x100_0000) by (nonlinear_arith);
        assert(limit % 0x10_0000 == limit % 0x1_0000 + ((limit / 0x1_0000) % 16) * 0x1_0000)
            by (nonlinear_arith);
        d
    }

    /// The all-zero descriptor that opens every table.
    pub fn null() -> (d: SegmentDescriptor)
        ensures
            d.base() == 0,
            d.limit() == 0,
            d.access == 0,
            d.granularity == 0,
    {
        SegmentDescriptor {
            limit_low: 0,
            base_low: 0,
            base_middle: 0,
            access: 0,
            granularity: 0,
            base_high: 0,
        }
    }

    /// The eight bytes of the descriptor as the processor reads them, the
    /// 16-bit fields little-endian.
    pub fn to_bytes(&self) -> (b: [u8; DESCRIPTOR_BYTES])
        ensures
            b@ == seq![
                (self.limit_low % 0x100) as u8,
                (self.limit_low / 0x100) as u8,
                (self.base_low % 0x100) as u8,
                (self.base_low / 0x100) as u8,
                self.base_middle,
                self.access,
                self.granularity,
                self.base_high,
            ],
    {
        let b = [
            (self.limit_low % 0x100) as u8,
            (self.limit_low / 0x100) as u8,
            (self.base_low % 0x100) as u8,
            (self.base_low / 0x100) as u8,
            self.base_middle,
            self.access,
            self.granularity,
            self.base_high,
        ];
        assert(b@ =~= seq![
            (self.limit_low % 0x100) as u8,
            (self.limit_low / 0x100) as u8,
            (self.base_low % 0x100) as u8,
            (self.base_low / 0x100) as u8,
            self.base_middle,
            self.access,
            self.granularity,
            self.base_high,
        ]);
        b
    }
}

/// The access bytes of the kernel's segments after the null one: kernel
/// code, data and stack, then user code, data and stack.
pub open spec fn kernel_access(i: int) -> u8 {
    if i == 1 {
        0x9a
    } else if i == 2 {
        0x93
    } else if i == 3 {
        0x96
    } else if i == 4 {
        0xfa
    } else if i == 5 {
        0xf2
    } else {
        0xf6
    }
}

/// The kernel's descriptor table: the null descriptor, then six flat
/// segments over the whole 4 GiB space.
pub fn kernel_gdt() -> (t: [SegmentDescriptor; GDT_SIZE])
    ensures
        t@[0].base() == 0 && t@[0].limit() == 0 && t@[0].access == 0 && t@[0].granularity == 0,
        forall|i: int|
            1 <= i < GDT_SIZE ==> {
                &&& (#[trigger] t@[i]).base() == 0
                &&& t@[i].limit() == 0xf_ffff
                &&& t@[i].access == kernel_access(i)
                &&& t@[i].flags() == 0xc
            },
{
    let t = [
        SegmentDescriptor::null(),
        SegmentDescriptor::new(0, 0xfffff, 0x9a),
        SegmentDescriptor::new(0, 0xfffff, 0x93),
        SegmentDescriptor::new(0, 0xfffff, 0x96),
        SegmentDescriptor::new(0, 0xfffff, 0xfa),
        SegmentDescriptor::new(0, 0xfffff, 0xf2),
        SegmentDescriptor::new(0, 0xfffff, 0xf6),
    ];
    t
}

/// The limit field of the table register: the table's size in bytes less one.
pub fn gdt_limit() -> (l: u16)
    ensures
        l == GDT_SIZE * DESCRIPTOR_BYTES - 1,
{
    (GDT_SIZE * DESCRIPTOR_BYTES - 1) as u16
}

} // verus!
