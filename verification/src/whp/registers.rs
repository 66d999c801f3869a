//! Virtual processor registers and their form at the platform interface.
use vstd::prelude::*;

verus! {

/// Number of standard registers read or written in a batch.
pub const NUM_STANDARD_REGS: usize = 18;

/// Registers of a virtual processor.
#[derive(Debug, Clone, Copy, PartialEq, Eq, Structural)]
pub enum Register {
    Rax,
    Rbx,
    Rcx,
    Rdx,
    Rsi,
    Rdi,
    Rsp,
    Rbp,
    R8,
    R9,
    R10,
    R11,
    R12,
    R13,
    R14,
    R15,
    Rip,
    Rflags,
    Cr0,
    Cr2,
    Cr3,
    Cr4,
    Cr8,
    Efer,
    ApicBase,
    Cs,
    Ds,
    Es,
    Fs,
    Gs,
    Ss,
    Tr,
    Ldtr,
    Gdtr,
    Idtr,
}

// ─── Standard registers ──────────────────────────────────────────────────────

/// Standard x86_64 general-purpose registers.
#[derive(Debug, Clone, Copy, PartialEq, Eq, Structural)]
pub struct WhpStandardRegisters {
    pub rax: u64,
    pub rbx: u64,
    pub rcx: u64,
    pub rdx: u64,
    pub rsi: u64,
    pub rdi: u64,
    pub rsp: u64,
    pub rbp: u64,
    pub r8: u64,
    pub r9: u64,
    pub r10: u64,
    pub r11: u64,
    pub r12: u64,
    pub r13: u64,
    pub r14: u64,
    pub r15: u64,
    pub rip: u64,
    pub rflags: u64,
}

impl WhpStandardRegisters {
    /// The values of the registers in the order of a batch.
    pub open spec fn values(self) -> Seq<u64> {
        seq![
            self.rax,
            self.rbx,
            self.rcx,
            self.rdx,
            self.rsi,
            self.rdi,
            self.rsp,
            self.rbp,
            self.r8,
            self.r9,
            self.r10,
            self.r11,
            self.r12,
            self.r13,
            self.r14,
            self.r15,
            self.rip,
            self.rflags,
        ]
    }
}

impl Default for WhpStandardRegisters {
    fn default() -> (regs: Self)
        ensures
            forall|i: int| 0 <= i < NUM_STANDARD_REGS ==> regs.values()[i] == 0,
    {
        WhpStandardRegisters {
            rax: 0,
            rbx: 0,
            rcx: 0,
            rdx: 0,
            rsi: 0,
            rdi: 0,
            rsp: 0,
            rbp: 0,
            r8: 0,
            r9: 0,
            r10: 0,
            r11: 0,
            r12: 0,
            r13: 0,
            r14: 0,
            r15: 0,
            rip: 0,
            rflags: 0,
        }
    }
}

/// The standard registers in the order of a batch.
pub open spec fn standard_names() -> Seq<Register> {
    seq![
        Register::Rax,
        Register::Rbx,
        Register::Rcx,
        Register::Rdx,
        Register::Rsi,
        Register::Rdi,
        Register::Rsp,
        Register::Rbp,
        Register::R8,
        Register::R9,
        Register::R10,
        Register::R11,
        Register::R12,
        Register::R13,
        Register::R14,
        Register::R15,
        Register::Rip,
        Register::Rflags,
    ]
}

/// The names of the standard registers in the order of a batch.
pub fn standard_reg_names() -> (names: Vec<Register>)
    ensures
        names@ == standard_names(),
{
    let names: Vec<Register> = vec![
        Register::Rax,
        Register::Rbx,
        Register::Rcx,
        Register::Rdx,
        Register::Rsi,
        Register::Rdi,
        Register::Rsp,
        Register::Rbp,
        Register::R8,
        Register::R9,
        Register::R10,
        Register::R11,
        Register::R12,
        Register::R13,
        Register::R14,
        Register::R15,
        Register::Rip,
        Register::Rflags,
    ];
    assert(names@ =~= standard_names());
    names
}

/// The registers from their values in the order of a batch.
pub fn values_to_standard_regs(values: &[u64]) -> (regs: WhpStandardRegisters)
    requires
        values@.len() == NUM_STANDARD_REGS,
    ensures
        regs.values() == values@,
{
    let regs = WhpStandardRegisters {
        rax: values[0],
        rbx: values[1],
        rcx: values[2],
        rdx: values[3],
        rsi: values[4],
        rdi: values[5],
        rsp: values[6],
        rbp: values[7],
        r8: values[8],
        r9: values[9],
        r10: values[10],
        r11: values[11],
        r12: values[12],
        r13: values[13],
        r14: values[14],
        r15: values[15],
        rip: values[16],
        rflags: values[17],
    };
    assert(regs.values() =~= values@);
    regs
}

/// The values of the registers in the order of a batch.
pub fn standard_regs_to_values(regs: &WhpStandardRegisters) -> (values: [u64; 18])
    ensures
        values@ == regs.values(),
{
    let values: [u64; 18] = [
        regs.rax,
        regs.rbx,
        regs.rcx,
        regs.rdx,
        regs.rsi,
        regs.rdi,
        regs.rsp,
        regs.rbp,
        regs.r8,
        regs.r9,
        regs.r10,
        regs.r11,
        regs.r12,
        regs.r13,
        regs.r14,
        regs.r15,
        regs.rip,
        regs.rflags,
    ];
    assert(values@ =~= regs.values());
    values
}

/// Registers with the same values are the same, so that registers written in a
/// batch and read back in a batch are those that were written.
pub proof fn standard_registers_round_trip(a: WhpStandardRegisters, b: WhpStandardRegisters)
    requires
        a.values() == b.values(),
    ensures
        a == b,
{
    assert(forall|i: int| 0 <= i < 18 ==> a.values()[i] == b.values()[i]);
    assert(a.values()[0] == b.values()[0] && a.values()[1] == b.values()[1] && a.values()[2]
        == b.values()[2] && a.values()[3] == b.values()[3] && a.values()[4] == b.values()[4]
        && a.values()[5] == b.values()[5]);
    assert(a.values()[6] == b.values()[6] && a.values()[7] == b.values()[7] && a.values()[8]
        == b.values()[8] && a.values()[9] == b.values()[9] && a.values()[10] == b.values()[10]
        && a.values()[11] == b.values()[11]);
    assert(a.values()[12] == b.values()[12] && a.values()[13] == b.values()[13] && a.values()[14]
        == b.values()[14] && a.values()[15] == b.values()[15] && a.values()[16] == b.values()[16]
        && a.values()[17] == b.values()[17]);
}

/// Each value of a batch belongs to the register whose name stands at its
/// place: for each register there is one place, which holds its name among the
/// names and its value among the values.
pub proof fn batch_values_belong_to_their_names(r: WhpStandardRegisters, i: int)
    requires
        0 <= i < 18,
    ensures
        standard_names().len() == 18,
        r.values().len() == 18,
        forall|j: int| 0 <= j < 18 && j != i ==> standard_names()[j] != standard_names()[i],
        ({
            let value = r.values()[i];
            match standard_names()[i] {
                Register::Rax => value == r.rax,
                Register::Rbx => value == r.rbx,
                Register::Rcx => value == r.rcx,
                Register::Rdx => value == r.rdx,
                Register::Rsi => value == r.rsi,
                Register::Rdi => value == r.rdi,
                Register::Rsp => value == r.rsp,
                Register::Rbp => value == r.rbp,
                Register::R8 => value == r.r8,
                Register::R9 => value == r.r9,
                Register::R10 => value == r.r10,
                Register::R11 => value == r.r11,
                Register::R12 => value == r.r12,
                Register::R13 => value == r.r13,
                Register::R14 => value == r.r14,
                Register::R15 => value == r.r15,
                Register::Rip => value == r.rip,
                Register::Rflags => value == r.rflags,
                _ => false,
            }
        }),
{
    let k = i;
    assert(k == 0 || k == 1 || k == 2 || k == 3 || k == 4 || k == 5 || k == 6 || k == 7 || k == 8
        || k == 9 || k == 10 || k == 11 || k == 12 || k == 13 || k == 14 || k == 15 || k == 16
        || k == 17);
}

// ─── Segment and table registers ─────────────────────────────────────────────

/// Segment register.
#[derive(Debug, Clone, Copy, PartialEq, Eq, Structural)]
pub struct SegmentRegister {
    pub base: u64,
    pub limit: u32,
    pub selector: u16,
    pub type_: u8,
    pub present: u8,
    pub dpl: u8,
    pub db: u8,
    pub s: u8,
    pub l: u8,
    pub g: u8,
    pub avl: u8,
    pub unusable: u8,
}

/// Descriptor table register.
#[derive(Debug, Clone, Copy, PartialEq, Eq, Structural)]
pub struct DescriptorTable {
    pub base: u64,
    pub limit: u16,
}

/// A segment register at the platform interface: its attributes packed into
/// sixteen bits.
#[derive(Debug, Clone, Copy, PartialEq, Eq, Structural)]
pub struct SegmentValue {
    pub base: u64,
    pub limit: u32,
    pub selector: u16,
    pub attributes: u16,
}

/// The value of a register at the platform interface.
#[derive(Debug, Clone, Copy, PartialEq, Eq, Structural)]
pub enum RegisterValue {
    Reg64(u64),
    Segment(SegmentValue),
    Table(DescriptorTable),
}

impl SegmentRegister {
    /// A segment register of zeros.
    pub open spec fn zero() -> SegmentRegister {
        SegmentRegister {
            base: 0,
            limit: 0,
            selector: 0,
            type_: 0,
            present: 0,
            dpl: 0,
            db: 0,
            s: 0,
            l: 0,
            g: 0,
            avl: 0,
            unusable: 0,
        }
    }

    /// Every attribute fits its field, and the register is usable.
    pub open spec fn wf(self) -> bool {
        &&& self.type_ < 16
        &&& self.s < 2
        &&& self.dpl < 4
        &&& self.present < 2
        &&& self.avl < 2
        &&& self.l < 2
        &&& self.db < 2
        &&& self.g < 2
        &&& self.unusable == 0
    }

    /// The attributes: the type in bits 0 to 3, then S, the two bits of DPL,
    /// P, AVL, L, D/B and G, of each as many bits as its field has.
    pub open spec fn attributes(self) -> u16 {
        (self.type_ % 16 + self.s % 2 * 16 + self.dpl % 4 * 32 + self.present % 2 * 128 + self.avl
            % 2 * 256 + self.l % 2 * 512 + self.db % 2 * 1024 + self.g % 2 * 2048) as u16
    }

    /// The register at the platform interface.
    pub open spec fn packed(self) -> SegmentValue {
        SegmentValue {
            base: self.base,
            limit: self.limit,
            selector: self.selector,
            attributes: self.attributes(),
        }
    }

    /// Packs the attributes.
    pub fn to_value(&self) -> (v: SegmentValue)
        ensures
            v == self.packed(),
    {
        let attributes: u16 = (self.type_ % 16) as u16 + (self.s % 2) as u16 * 16 + (self.dpl
            % 4) as u16 * 32 + (self.present % 2) as u16 * 128 + (self.avl % 2) as u16 * 256 + (
        self.l % 2) as u16 * 512 + (self.db % 2) as u16 * 1024 + (self.g % 2) as u16 * 2048;
        SegmentValue {
            base: self.base,
            limit: self.limit,
            selector: self.selector,
            attributes,
        }
    }
}

impl Default for SegmentRegister {
    fn default() -> (r: Self)
        ensures
            r == SegmentRegister::zero(),
    {
        SegmentRegister {
            base: 0,
            limit: 0,
            selector: 0,
            type_: 0,
            present: 0,
            dpl: 0,
            db: 0,
            s: 0,
            l: 0,
            g: 0,
            avl: 0,
            unusable: 0,
        }
    }
}

impl SegmentValue {
    /// The segment register that a value stands for.
    pub open spec fn unpacked(self) -> SegmentRegister {
        let attr = self.attributes;
        SegmentRegister {
            base: self.base,
            limit: self.limit,
            selector: self.selector,
            type_: (attr % 16) as u8,
            s: (attr / 16 % 2) as u8,
            dpl: (attr / 32 % 4) as u8,
            present: (attr / 128 % 2) as u8,
            avl: (attr / 256 % 2) as u8,
            l: (attr / 512 % 2) as u8,
            db: (attr / 1024 % 2) as u8,
            g: (attr / 2048 % 2) as u8,
            unusable: 0,
        }
    }

    /// Unpacks the attributes.
    pub fn to_segment(&self) -> (r: SegmentRegister)
        ensures
            r == self.unpacked(),
    {
        let attr: u16 = self.attributes;
        SegmentRegister {
            base: self.base,
            limit: self.limit,
            selector: self.selector,
            type_: (attr % 16) as u8,
            s: (attr / 16 % 2) as u8,
            dpl: (attr / 32 % 4) as u8,
            present: (attr / 128 % 2) as u8,
            avl: (attr / 256 % 2) as u8,
            l: (attr / 512 % 2) as u8,
            db: (attr / 1024 % 2) as u8,
            g: (attr / 2048 % 2) as u8,
            unusable: 0,
        }
    }
}

/// A segment register whose attributes fit their fields is the one that its
/// packed form stands for.
#[verifier::rlimit(40)]
pub proof fn segments_round_trip(r: SegmentRegister)
    requires
        r.wf(),
    ensures
        r.packed().unpacked() == r,
{
    let a = r.attributes() as int;
    let rest1 = r.s + 2 * r.dpl + 8 * r.present + 16 * r.avl + 32 * r.l + 64 * r.db + 128 * r.g;
    assert(a == r.type_ + 16 * rest1);
    assert(a % 16 == r.type_);
    assert(a / 16 == rest1);
    assert(rest1 % 2 == r.s);
    assert(a / 32 == r.dpl + 4 * r.present + 8 * r.avl + 16 * r.l + 32 * r.db + 64 * r.g);
    assert(a / 32 % 4 == r.dpl);
    assert(a / 128 == r.present + 2 * r.avl + 4 * r.l + 8 * r.db + 16 * r.g);
    assert(a / 256 == r.avl + 2 * r.l + 4 * r.db + 8 * r.g);
    assert(a / 512 == r.l + 2 * r.db + 4 * r.g);
    assert(a / 1024 == r.db + 2 * r.g);
    assert(a / 2048 == r.g);
}

/// Each attribute has bits of its own in the packed form, whatever its other
/// bits hold: the type bits 0 to 3, S bit 4, DPL bits 5 and 6, P bit 7, AVL
/// bit 8, L bit 9, D/B bit 10 and G bit 11; the bits above are clear. Base,
/// limit and selector stay as they are.
pub proof fn attributes_have_their_bits(r: SegmentRegister)
    ensures
        ({
            let v = r.packed();
            let a = v.attributes as int;
            &&& a % 16 == r.type_ % 16
            &&& a / 16 % 2 == r.s % 2
            &&& a / 32 % 4 == r.dpl % 4
            &&& a / 128 % 2 == r.present % 2
            &&& a / 256 % 2 == r.avl % 2
            &&& a / 512 % 2 == r.l % 2
            &&& a / 1024 % 2 == r.db % 2
            &&& a / 2048 % 2 == r.g % 2
            &&& a < 4096
            &&& v.base == r.base && v.limit == r.limit && v.selector == r.selector
        }),
{
    let r2 = SegmentRegister {
        type_: (r.type_ % 16) as u8,
        s: (r.s % 2) as u8,
        dpl: (r.dpl % 4) as u8,
        present: (r.present % 2) as u8,
        avl: (r.avl % 2) as u8,
        l: (r.l % 2) as u8,
        db: (r.db % 2) as u8,
        g: (r.g % 2) as u8,
        unusable: 0,
        ..r
    };
    assert(r2.packed() == r.packed());
    segments_round_trip(r2);
    let a = r.packed().attributes as int;
    assert(r.packed().unpacked() == r2);
    assert(a % 16 == r2.type_ && a / 16 % 2 == r2.s && a / 32 % 4 == r2.dpl);
    assert(a / 128 % 2 == r2.present && a / 256 % 2 == r2.avl && a / 512 % 2 == r2.l);
    assert(a / 1024 % 2 == r2.db && a / 2048 % 2 == r2.g);
}

/// Each attribute is read from its own bits of a packed form, whatever the bits
/// above hold, and a register that was read is usable.
pub proof fn attributes_are_read_from_their_bits(v: SegmentValue)
    ensures
        ({
            let a = v.attributes as int;
            let r = v.unpacked();
            &&& r.type_ == a % 16
            &&& r.s == a / 16 % 2
            &&& r.dpl == a / 32 % 4
            &&& r.present == a / 128 % 2
            &&& r.avl == a / 256 % 2
            &&& r.l == a / 512 % 2
            &&& r.db == a / 1024 % 2
            &&& r.g == a / 2048 % 2
            &&& r.unusable == 0
            &&& r.base == v.base && r.limit == v.limit && r.selector == v.selector
        }),
{
}

// ─── Special registers ───────────────────────────────────────────────────────

/// Special registers of a virtual processor.
#[derive(Debug, Clone, Copy)]
pub struct SpecialRegisters {
    pub cs: SegmentRegister,
    pub ds: SegmentRegister,
    pub es: SegmentRegister,
    pub fs: SegmentRegister,
    pub gs: SegmentRegister,
    pub ss: SegmentRegister,
    pub tr: SegmentRegister,
    pub ldt: SegmentRegister,
    pub gdt: DescriptorTable,
    pub idt: DescriptorTable,
    pub cr0: u64,
    pub cr2: u64,
    pub cr3: u64,
    pub cr4: u64,
    pub cr8: u64,
    pub efer: u64,
    pub apic_base: u64,
    pub interrupt_bitmap: [u64; 4],
}

/// The segment and table registers are zeros, and so is the bitmap.
pub open spec fn no_segments(s: SpecialRegisters) -> bool {
    &&& s.cs == SegmentRegister::zero()
    &&& s.ds == SegmentRegister::zero()
    &&& s.es == SegmentRegister::zero()
    &&& s.fs == SegmentRegister::zero()
    &&& s.gs == SegmentRegister::zero()
    &&& s.ss == SegmentRegister::zero()
    &&& s.tr == SegmentRegister::zero()
    &&& s.ldt == SegmentRegister::zero()
    &&& s.gdt == (DescriptorTable { base: 0, limit: 0 })
    &&& s.idt == (DescriptorTable { base: 0, limit: 0 })
    &&& s.interrupt_bitmap@ == seq![0u64, 0, 0, 0]
}

impl Default for SpecialRegisters {
    fn default() -> (s: Self)
        ensures
            no_segments(s),
            s.cr0 == 0 && s.cr2 == 0 && s.cr3 == 0 && s.cr4 == 0 && s.cr8 == 0,
            s.efer == 0 && s.apic_base == 0,
    {
        let zero = SegmentRegister::default();
        let table = DescriptorTable { base: 0, limit: 0 };
        let interrupt_bitmap: [u64; 4] = [0u64; 4];
        assert(interrupt_bitmap@ =~= seq![0u64, 0, 0, 0]);
        SpecialRegisters {
            cs: zero,
            ds: zero,
            es: zero,
            fs: zero,
            gs: zero,
            ss: zero,
            tr: zero,
            ldt: zero,
            gdt: table,
            idt: table,
            cr0: 0,
            cr2: 0,
            cr3: 0,
            cr4: 0,
            cr8: 0,
            efer: 0,
            apic_base: 0,
            interrupt_bitmap,
        }
    }
}

/// The special registers in the order in which they are read.
pub open spec fn special_read_names() -> Seq<Register> {
    seq![
        Register::Cr0,
        Register::Cr2,
        Register::Cr3,
        Register::Cr4,
        Register::Cr8,
        Register::Efer,
        Register::ApicBase,
        Register::Cs,
        Register::Ds,
        Register::Es,
        Register::Fs,
        Register::Gs,
        Register::Ss,
        Register::Tr,
        Register::Ldtr,
        Register::Gdtr,
        Register::Idtr,
    ]
}

/// The names of the special registers in the order in which they are read.
pub fn special_reg_names() -> (names: Vec<Register>)
    ensures
        names@ == special_read_names(),
{
    let names: Vec<Register> = vec![
        Register::Cr0,
        Register::Cr2,
        Register::Cr3,
        Register::Cr4,
        Register::Cr8,
        Register::Efer,
        Register::ApicBase,
        Register::Cs,
        Register::Ds,
        Register::Es,
        Register::Fs,
        Register::Gs,
        Register::Ss,
        Register::Tr,
        Register::Ldtr,
        Register::Gdtr,
        Register::Idtr,
    ];
    assert(names@ =~= special_read_names());
    names
}

/// The values read are of the kinds of their registers.
pub open spec fn special_values_wf(v: Seq<RegisterValue>) -> bool {
    &&& v.len() == 17
    &&& forall|i: int| 0 <= i < 7 ==> #[trigger] v[i] is Reg64
    &&& forall|i: int| 7 <= i < 15 ==> #[trigger] v[i] is Segment
    &&& forall|i: int| 15 <= i < 17 ==> #[trigger] v[i] is Table
}

/// A control register's value.
fn reg64(v: &RegisterValue) -> (x: u64)
    requires
        *v is Reg64,
    ensures
        x == v->Reg64_0,
{
    match v {
        RegisterValue::Reg64(x) => *x,
        _ => 0,
    }
}

/// A segment register's value.
fn segment(v: &RegisterValue) -> (r: SegmentRegister)
    requires
        *v is Segment,
    ensures
        r == v->Segment_0.unpacked(),
{
    match v {
        RegisterValue::Segment(s) => s.to_segment(),
        _ => SegmentRegister::default(),
    }
}

/// A table register's value.
fn table(v: &RegisterValue) -> (t: DescriptorTable)
    requires
        *v is Table,
    ensures
        t == v->Table_0,
{
    match v {
        RegisterValue::Table(t) => *t,
        _ => DescriptorTable { base: 0, limit: 0 },
    }
}

/// The special registers from the values read for them.
pub fn get_sregs(values: &[RegisterValue]) -> (s: SpecialRegisters)
    requires
        special_values_wf(values@),
    ensures
        s.cr0 == values@[0]->Reg64_0,
        s.cr2 == values@[1]->Reg64_0,
        s.cr3 == values@[2]->Reg64_0,
        s.cr4 == values@[3]->Reg64_0,
        s.cr8 == values@[4]->Reg64_0,
        s.efer == values@[5]->Reg64_0,
        s.apic_base == values@[6]->Reg64_0,
        s.cs == values@[7]->Segment_0.unpacked(),
        s.ds == values@[8]->Segment_0.unpacked(),
        s.es == values@[9]->Segment_0.unpacked(),
        s.fs == values@[10]->Segment_0.unpacked(),
        s.gs == values@[11]->Segment_0.unpacked(),
        s.ss == values@[12]->Segment_0.unpacked(),
        s.tr == values@[13]->Segment_0.unpacked(),
        s.ldt == values@[14]->Segment_0.unpacked(),
        s.gdt == values@[15]->Table_0,
        s.idt == values@[16]->Table_0,
        s.interrupt_bitmap@ == seq![0u64, 0, 0, 0],
{
    let interrupt_bitmap: [u64; 4] = [0u64; 4];
    assert(interrupt_bitmap@ =~= seq![0u64, 0, 0, 0]);
    SpecialRegisters {
        cr0: reg64(&values[0]),
        cr2: reg64(&values[1]),
        cr3: reg64(&values[2]),
        cr4: reg64(&values[3]),
        cr8: reg64(&values[4]),
        efer: reg64(&values[5]),
        apic_base: reg64(&values[6]),
        cs: segment(&values[7]),
        ds: segment(&values[8]),
        es: segment(&values[9]),
        fs: segment(&values[10]),
        gs: segment(&values[11]),
        ss: segment(&values[12]),
        tr: segment(&values[13]),
        ldt: segment(&values[14]),
        gdt: table(&values[15]),
        idt: table(&values[16]),
        interrupt_bitmap,
    }
}

/// What is written for the special registers, in one call so that the platform
/// sees one consistent state: tables first, then segments, control registers
/// last. CR8 and the APIC base are not written.
pub open spec fn special_writes(s: SpecialRegisters) -> Seq<(Register, RegisterValue)> {
    seq![
        (Register::Gdtr, RegisterValue::Table(s.gdt)),
        (Register::Idtr, RegisterValue::Table(s.idt)),
        (Register::Cs, RegisterValue::Segment(s.cs.packed())),
        (Register::Ds, RegisterValue::Segment(s.ds.packed())),
        (Register::Es, RegisterValue::Segment(s.es.packed())),
        (Register::Fs, RegisterValue::Segment(s.fs.packed())),
        (Register::Gs, RegisterValue::Segment(s.gs.packed())),
        (Register::Ss, RegisterValue::Segment(s.ss.packed())),
        (Register::Tr, RegisterValue::Segment(s.tr.packed())),
        (Register::Ldtr, RegisterValue::Segment(s.ldt.packed())),
        (Register::Cr0, RegisterValue::Reg64(s.cr0)),
        (Register::Cr2, RegisterValue::Reg64(s.cr2)),
        (Register::Cr3, RegisterValue::Reg64(s.cr3)),
        (Register::Cr4, RegisterValue::Reg64(s.cr4)),
        (Register::Efer, RegisterValue::Reg64(s.efer)),
    ]
}

/// The registers to write for the special registers, and their values.
pub fn set_sregs(s: &SpecialRegisters) -> (writes: Vec<(Register, RegisterValue)>)
    ensures
        writes@ == special_writes(*s),
{
    let writes: Vec<(Register, RegisterValue)> = vec![
        (Register::Gdtr, RegisterValue::Table(s.gdt)),
        (Register::Idtr, RegisterValue::Table(s.idt)),
        (Register::Cs, RegisterValue::Segment(s.cs.to_value())),
        (Register::Ds, RegisterValue::Segment(s.ds.to_value())),
        (Register::Es, RegisterValue::Segment(s.es.to_value())),
        (Register::Fs, RegisterValue::Segment(s.fs.to_value())),
        (Register::Gs, RegisterValue::Segment(s.gs.to_value())),
        (Register::Ss, RegisterValue::Segment(s.ss.to_value())),
        (Register::Tr, RegisterValue::Segment(s.tr.to_value())),
        (Register::Ldtr, RegisterValue::Segment(s.ldt.to_value())),
        (Register::Cr0, RegisterValue::Reg64(s.cr0)),
        (Register::Cr2, RegisterValue::Reg64(s.cr2)),
        (Register::Cr3, RegisterValue::Reg64(s.cr3)),
        (Register::Cr4, RegisterValue::Reg64(s.cr4)),
        (Register::Efer, RegisterValue::Reg64(s.efer)),
    ];
    assert(writes@ =~= special_writes(*s));
    writes
}

/// A register file after the writes.
pub open spec fn registers_after(
    file: spec_fn(Register) -> RegisterValue,
    writes: Seq<(Register, RegisterValue)>,
) -> spec_fn(Register) -> RegisterValue
    decreases writes.len(),
{
    if writes.len() == 0 {
        file
    } else {
        let before = registers_after(file, writes.drop_last());
        |r: Register|
            if r == writes.last().0 {
                writes.last().1
            } else {
                before(r)
            }
    }
}

/// A register that occurs once among the writes holds what was written to it.
proof fn written_register_holds(
    file: spec_fn(Register) -> RegisterValue,
    writes: Seq<(Register, RegisterValue)>,
    i: int,
)
    requires
        0 <= i < writes.len(),
        forall|j: int| i < j < writes.len() ==> (#[trigger] writes[j]).0 != writes[i].0,
    ensures
        registers_after(file, writes)(writes[i].0) == writes[i].1,
    decreases writes.len(),
{
    if i < writes.len() - 1 {
        let front = writes.drop_last();
        assert forall|j: int| i < j < front.len() implies (#[trigger] front[j]).0 != front[i].0 by {
            assert(front[j] == writes[j]);
        }
        written_register_holds(file, front, i);
        assert(writes.last() == writes[writes.len() - 1]);
    }
}

/// The segment registers can be packed without loss.
pub open spec fn segments_wf(s: SpecialRegisters) -> bool {
    &&& s.cs.wf()
    &&& s.ds.wf()
    &&& s.es.wf()
    &&& s.fs.wf()
    &&& s.gs.wf()
    &&& s.ss.wf()
    &&& s.tr.wf()
    &&& s.ldt.wf()
}

/// Each special register but CR8 and the APIC base reads back as it was
/// written: the segments, whose attributes fit their fields, the tables and the
/// control registers.
pub proof fn special_registers_read_back(
    s: SpecialRegisters,
    file: spec_fn(Register) -> RegisterValue,
)
    requires
        segments_wf(s),
    ensures
        ({
            let after = registers_after(file, special_writes(s));
            &&& after(Register::Cr0) == RegisterValue::Reg64(s.cr0)
            &&& after(Register::Cr2) == RegisterValue::Reg64(s.cr2)
            &&& after(Register::Cr3) == RegisterValue::Reg64(s.cr3)
            &&& after(Register::Cr4) == RegisterValue::Reg64(s.cr4)
            &&& after(Register::Efer) == RegisterValue::Reg64(s.efer)
            &&& after(Register::Gdtr) == RegisterValue::Table(s.gdt)
            &&& after(Register::Idtr) == RegisterValue::Table(s.idt)
            &&& is_segment(after(Register::Cs), s.cs)
            &&& is_segment(after(Register::Ds), s.ds)
            &&& is_segment(after(Register::Es), s.es)
            &&& is_segment(after(Register::Fs), s.fs)
            &&& is_segment(after(Register::Gs), s.gs)
            &&& is_segment(after(Register::Ss), s.ss)
            &&& is_segment(after(Register::Tr), s.tr)
            &&& is_segment(after(Register::Ldtr), s.ldt)
        }),
{
    let w = special_writes(s);
    let after = registers_after(file, w);
    assert forall|i: int| 0 <= i < 15 implies after((#[trigger] w[i]).0) == w[i].1 by {
        special_names_differ(s);
        written_register_holds(file, w, i);
    }
    segments_round_trip(s.cs);
    segments_round_trip(s.ds);
    segments_round_trip(s.es);
    segments_round_trip(s.fs);
    segments_round_trip(s.gs);
    segments_round_trip(s.ss);
    segments_round_trip(s.tr);
    segments_round_trip(s.ldt);
    assert(w[0].0 == Register::Gdtr && w[1].0 == Register::Idtr && w[2].0 == Register::Cs && w[3].0
        == Register::Ds && w[4].0 == Register::Es);
    assert(w[5].0 == Register::Fs && w[6].0 == Register::Gs && w[7].0 == Register::Ss && w[8].0
        == Register::Tr && w[9].0 == Register::Ldtr);
    assert(w[10].0 == Register::Cr0 && w[11].0 == Register::Cr2 && w[12].0 == Register::Cr3
        && w[13].0 == Register::Cr4 && w[14].0 == Register::Efer);
}

/// No special register is written twice.
proof fn special_names_differ(s: SpecialRegisters)
    ensures
        forall|i: int, j: int|
            0 <= i < j < 15 ==> (#[trigger] special_writes(s)[j]).0 != (
            #[trigger] special_writes(s)[i]).0,
{
}

/// A value is that of a segment register.
pub open spec fn is_segment(v: RegisterValue, r: SegmentRegister) -> bool {
    v is Segment && v->Segment_0.unpacked() == r
}

/// The values that are read of a register file, under the names of the special
/// registers, are each in the place where its register is looked for: the seven
/// control registers, the eight segments and the two tables.
pub proof fn special_values_belong_to_their_names(
    file: spec_fn(Register) -> RegisterValue,
    values: Seq<RegisterValue>,
)
    requires
        values.len() == special_read_names().len(),
        forall|i: int| 0 <= i < values.len() ==> #[trigger] values[i] == file(special_read_names()[i]),
    ensures
        values.len() == 17,
        values[0] == file(Register::Cr0),
        values[1] == file(Register::Cr2),
        values[2] == file(Register::Cr3),
        values[3] == file(Register::Cr4),
        values[4] == file(Register::Cr8),
        values[5] == file(Register::Efer),
        values[6] == file(Register::ApicBase),
        values[7] == file(Register::Cs),
        values[8] == file(Register::Ds),
        values[9] == file(Register::Es),
        values[10] == file(Register::Fs),
        values[11] == file(Register::Gs),
        values[12] == file(Register::Ss),
        values[13] == file(Register::Tr),
        values[14] == file(Register::Ldtr),
        values[15] == file(Register::Gdtr),
        values[16] == file(Register::Idtr),
{
}

// ─── Processor state ─────────────────────────────────────────────────────────

/// Clock data (time-stamp counter).
#[derive(Debug, Clone, Copy, PartialEq, Eq, Structural)]
pub struct WhpClockData {
    pub tsc_value: u64,
    pub tsc_frequency: u64,
}

impl Default for WhpClockData {
    fn default() -> (c: Self)
        ensures
            c == (WhpClockData { tsc_value: 0, tsc_frequency: 0 }),
    {
        WhpClockData { tsc_value: 0, tsc_frequency: 0 }
    }
}

/// A model-specific register and its value.
#[derive(Debug, Clone, Copy, PartialEq, Eq, Structural)]
pub struct MsrEntry {
    pub index: u32,
    pub data: u64,
}

/// Complete processor state for snapshot and restore. Floating-point and local
/// APIC state have their defaults, which are not kept.
#[derive(Debug, Clone)]
pub struct VcpuWhpState {
    pub regs: WhpStandardRegisters,
    pub sregs: SpecialRegisters,
    pub msrs: Vec<MsrEntry>,
    pub clock: WhpClockData,
}

/// Two sets of special registers have the same control registers.
pub open spec fn same_control(a: SpecialRegisters, b: SpecialRegisters) -> bool {
    &&& a.cr0 == b.cr0
    &&& a.cr2 == b.cr2
    &&& a.cr3 == b.cr3
    &&& a.cr4 == b.cr4
    &&& a.cr8 == b.cr8
    &&& a.efer == b.efer
    &&& a.apic_base == b.apic_base
}

/// The control registers alone.
fn control_registers(s: &SpecialRegisters) -> (r: SpecialRegisters)
    ensures
        same_control(r, *s),
        no_segments(r),
{
    let base = SpecialRegisters::default();
    SpecialRegisters {
        cr0: s.cr0,
        cr2: s.cr2,
        cr3: s.cr3,
        cr4: s.cr4,
        cr8: s.cr8,
        efer: s.efer,
        apic_base: s.apic_base,
        ..base
    }
}

impl VcpuWhpState {
    /// The state of a processor with the given registers: the standard and the
    /// control registers.
    pub fn new(regs: &WhpStandardRegisters, sregs: &SpecialRegisters) -> (state: Self)
        ensures
            state.regs == *regs,
            same_control(state.sregs, *sregs),
            no_segments(state.sregs),
            state.msrs@.len() == 0,
            state.clock == (WhpClockData { tsc_value: 0, tsc_frequency: 0 }),
    {
        VcpuWhpState {
            regs: *regs,
            sregs: control_registers(sregs),
            msrs: Vec::new(),
            clock: WhpClockData::default(),
        }
    }

    /// The special registers to set when the state is restored: the control
    /// registers, with segments of zeros.
    pub fn restored_sregs(&self) -> (s: SpecialRegisters)
        ensures
            same_control(s, self.sregs),
            no_segments(s),
    {
        control_registers(&self.sregs)
    }
}

/// The values of model-specific registers after a read of each: zero where a
/// register could not be read.
pub fn get_msrs(msrs: &mut Vec<MsrEntry>, results: &[Option<u64>]) -> (count: usize)
    requires
        results@.len() == old(msrs)@.len(),
    ensures
        count == old(msrs)@.len(),
        final(msrs)@.len() == old(msrs)@.len(),
        forall|i: int|
            0 <= i < old(msrs)@.len() ==> #[trigger] final(msrs)@[i] == (MsrEntry {
                index: old(msrs)@[i].index,
                data: match results@[i] {
                    Some(v) => v,
                    None => 0,
                },
            }),
{
    let count: usize = msrs.len();
    let ghost before = msrs@;
    let mut i: usize = 0;
    while i < count
        invariant
            i <= count == msrs@.len(),
            before.len() == count,
            results@.len() == count,
            before == old(msrs)@,
            forall|k: int|
                0 <= k < i ==> #[trigger] msrs@[k] == (MsrEntry {
                    index: before[k].index,
                    data: match results@[k] {
                        Some(v) => v,
                        None => 0,
                    },
                }),
            forall|k: int| i <= k < count ==> #[trigger] msrs@[k] == before[k],
        decreases count - i,
    {
        let data: u64 = match results[i] {
            Some(v) => v,
            None => 0,
        };
        let index: u32 = msrs[i].index;
        msrs.set(i, MsrEntry { index, data });
        i += 1;
    }
    count
}

/// The number of successes.
pub open spec fn successes(results: Seq<bool>) -> int
    decreases results.len(),
{
    if results.len() == 0 {
        0
    } else {
        successes(results.drop_last()) + if results.last() {
            1int
        } else {
            0
        }
    }
}

/// The number of model-specific registers that could be written.
pub fn set_msrs(results: &[bool]) -> (count: usize)
    ensures
        count == successes(results@),
{
    let mut count: usize = 0;
    let mut i: usize = 0;
    assert(results@.take(0) =~= Seq::<bool>::empty());
    while i < results.len()
        invariant
            i <= results@.len(),
            count <= i,
            count == successes(results@.take(i as int)),
        decreases results@.len() - i,
    {
        assert(results@.take(i + 1).drop_last() =~= results@.take(i as int));
        if results[i] {
            count += 1;
        }
        i += 1;
    }
    assert(results@.take(i as int) =~= results@);
    count
}

// ─── Initial registers ───────────────────────────────────────────────────────

/// A real-mode code segment at address zero.
pub open spec fn real_mode_code_segment() -> SegmentRegister {
    SegmentRegister {
        base: 0,
        limit: 0xFFFF,
        selector: 0,
        type_: 0xB,
        s: 1,
        dpl: 0,
        present: 1,
        db: 0,
        g: 0,
        l: 0,
        avl: 0,
        unusable: 0,
    }
}

/// A real-mode data segment at address zero.
pub open spec fn real_mode_data_segment() -> SegmentRegister {
    SegmentRegister { type_: 0x3, ..real_mode_code_segment() }
}

/// The registers to start a processor with in real mode at `entry`, which is
/// below the segment limit; the other registers stay as they are.
pub fn setup_regs(
    regs: &WhpStandardRegisters,
    sregs: &SpecialRegisters,
    entry: u64,
) -> (r: (WhpStandardRegisters, SpecialRegisters))
    ensures
        r.0 == (WhpStandardRegisters { rip: entry, rflags: 0x2, ..*regs }),
        r.1 == (SpecialRegisters {
            cs: real_mode_code_segment(),
            ds: real_mode_data_segment(),
            es: real_mode_data_segment(),
            ss: real_mode_data_segment(),
            ..*sregs
        }),
{
    let code = SegmentRegister {
        base: 0,
        limit: 0xFFFF,
        selector: 0,
        type_: 0xB,
        s: 1,
        dpl: 0,
        present: 1,
        db: 0,
        g: 0,
        l: 0,
        avl: 0,
        unusable: 0,
    };
    let data = SegmentRegister { type_: 0x3, ..code };
    (
        WhpStandardRegisters { rip: entry, rflags: 0x2, ..*regs },
        SpecialRegisters { cs: code, ds: data, es: data, ss: data, ..*sregs },
    )
}

/// A processor starts in real mode at its entry: the code and the data segments
/// reach from address zero over 64 KiB, are present and of privilege zero, the
/// code segment is executable and the data segments writable, and the flags
/// hold nothing but their fixed bit.
pub proof fn processors_start_in_real_mode()
    ensures
        ({
            let code = real_mode_code_segment();
            let data = real_mode_data_segment();
            &&& code.base == 0 && data.base == 0
            &&& code.limit == 0xFFFF && data.limit == 0xFFFF
            &&& code.selector == 0 && data.selector == 0
            &&& code.packed().attributes == 0x9B
            &&& data.packed().attributes == 0x93
        }),
{
}

/// The model-specific registers that could be written are counted one by one.
pub proof fn successes_are_counted(results: Seq<bool>, counts: Seq<int>)
    requires
        counts.len() == results.len() + 1,
        counts[0] == 0,
        forall|k: int|
            0 <= k < results.len() ==> #[trigger] counts[k + 1] == if results[k] {
                counts[k] + 1
            } else {
                counts[k]
            },
    ensures
        successes(results) == counts.last(),
    decreases results.len(),
{
    if results.len() > 0 {
        let front = results.drop_last();
        let c = counts.drop_last();
        assert forall|k: int| 0 <= k < front.len() implies #[trigger] c[k + 1] == if front[k] {
            c[k] + 1
        } else {
            c[k]
        } by {
            assert(counts[k + 1] == if results[k] {
                counts[k] + 1
            } else {
                counts[k]
            });
        }
        successes_are_counted(front, c);
        let n = results.len() - 1;
        assert(counts[n + 1] == if results[n] {
            counts[n] + 1
        } else {
            counts[n]
        });
    }
}

/// A snapshot of a processor keeps its seven control registers, and of its segments,
/// its tables and its pending interrupts nothing.
pub proof fn snapshots_keep_the_control_registers(a: SpecialRegisters, b: SpecialRegisters)
    requires
        same_control(a, b),
        no_segments(a),
    ensures
        a.cr0 == b.cr0 && a.cr2 == b.cr2 && a.cr3 == b.cr3 && a.cr4 == b.cr4 && a.cr8 == b.cr8,
        a.efer == b.efer && a.apic_base == b.apic_base,
        a.cs.base == 0 && a.cs.limit == 0 && a.cs.packed().attributes == 0,
        a.ds == a.cs && a.es == a.cs && a.fs == a.cs && a.gs == a.cs && a.ss == a.cs,
        a.tr == a.cs && a.ldt == a.cs,
        a.gdt.base == 0 && a.gdt.limit == 0 && a.idt.base == 0 && a.idt.limit == 0,
        a.interrupt_bitmap@.len() == 4,
        forall|i: int| 0 <= i < 4 ==> a.interrupt_bitmap@[i] == 0,
{
}

} // verus!
