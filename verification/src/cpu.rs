use vstd::prelude::*;

use crate::alu::{
    add_bytes, alu_add, alu_and, alu_div, alu_mul, alu_not, alu_or, alu_rol, alu_ror, alu_shl,
    alu_shr, alu_sub, div_bytes, mul_bytes, rol_byte, ror_byte, shl_byte, shr_byte, sub_bytes,
    wrap8,
};
use crate::banker::{Banker, BankerView};
use crate::instruction::{spec_decode, Instruction};
use crate::{DeviceError, Fault, Halted};

verus! {

/// A memory-mapped external component, implemented by the host and driven
/// through the unified address space.
///
/// `spec_address` is the ghost view of the fixed address the device
/// declares; `address` must report exactly that, and no call may change it.
/// `dev_state` is a ghost abstraction of the device's current state, in a
/// representation the implementor chooses. `load_rel` and `push_rel` are the
/// device's own contract: they relate the device before a call, the call's
/// arguments and answer, and the abstract state after it. The engine's
/// contracts carry these relations through, so whatever a device promises of
/// itself holds of the byte the engine hands back.
pub trait Device {
    spec fn spec_address(&self) -> u8;

    /// Ghost abstraction of the device's current state.
    spec fn dev_state(&self) -> Seq<u8>;

    /// Whether a load at `addr` on this device (in its current state) may
    /// answer `r` and leave the device in a state abstracted by `post`.
    spec fn load_rel(&self, addr: u8, r: u8, post: Seq<u8>) -> bool;

    /// Whether a push of `data` at `addr` on this device (in its current
    /// state) may leave the device in a state abstracted by `post`.
    spec fn push_rel(&self, addr: u8, data: u8, post: Seq<u8>) -> bool;

    fn address(&self) -> (r: u8)
        ensures
            r == self.spec_address(),
    ;

    fn load(&mut self, addr: u8) -> (r: u8)
        ensures
            final(self).spec_address() == old(self).spec_address(),
            old(self).load_rel(addr, r, final(self).dev_state()),
    ;

    fn push(&mut self, addr: u8, data: u8)
        ensures
            final(self).spec_address() == old(self).spec_address(),
            old(self).push_rel(addr, data, final(self).dev_state()),
    ;
}

/// Ghost model of the machine's addressable state: register zero and the two
/// banked memories. Devices are external collaborators and are not part of
/// the model; the engine's contracts speak of them through the addresses
/// they declared, their own load/push relations, and existentially
/// quantified observed bytes.
pub ghost struct CpuView {
    pub reg_zero: u8,
    pub inst: BankerView,
    pub data: BankerView,
}

/// Width of one instruction bank.
pub const INST_BANK_WIDTH: u8 = 127;

/// Width of one data bank.
pub const DATA_BANK_WIDTH: u8 = 64;

/// Number of addresses in the device region (194 through 255).
pub const DEVICE_SLOTS: u8 = 62;

/// First address of the device region.
pub const DEVICE_BASE: u8 = 194;

/// Whether a unified address is served by the model alone, with no device
/// involved: register zero, an instruction-bank offset, a data-bank offset,
/// or a bank pointer. Address 127 is the one hole below the device region:
/// the partition assigns it instruction-bank offset 127, which is one past
/// the last offset of a 127-byte bank, so no load or store can serve it.
pub open spec fn mapped(addr: u8) -> bool {
    addr <= 193 && addr != 127
}

impl CpuView {
    /// Both memories have all 256 banks at their fixed widths.
    pub open spec fn wf(self) -> bool {
        &&& self.inst.wf(INST_BANK_WIDTH as nat)
        &&& self.data.wf(DATA_BANK_WIDTH as nat)
    }

    /// The byte a load returns for a mapped address: the unified partition of
    /// the 8-bit address space.
    pub open spec fn load_at(self, addr: u8) -> u8
        recommends
            mapped(addr),
    {
        if addr == 0 {
            self.reg_zero
        } else if addr <= 126 {
            self.inst.read_at(addr as int)
        } else if 128 <= addr && addr <= 191 {
            self.data.read_at(addr - 128)
        } else if addr == 192 {
            self.inst.pointer
        } else {
            self.data.pointer
        }
    }

    /// The model after a store to a mapped address, through the same
    /// partition.
    pub open spec fn push_at(self, addr: u8, data: u8) -> CpuView
        recommends
            mapped(addr),
    {
        if addr == 0 {
            CpuView { reg_zero: data, ..self }
        } else if addr <= 126 {
            CpuView { inst: self.inst.write_at(addr as int, data), ..self }
        } else if 128 <= addr && addr <= 191 {
            CpuView { data: self.data.write_at(addr - 128, data), ..self }
        } else if addr == 192 {
            CpuView { inst: self.inst.with_pointer(data), ..self }
        } else {
            CpuView { data: self.data.with_pointer(data), ..self }
        }
    }

    /// The model after the program pointer advances by `k` bytes, wrapping
    /// as the 8-bit register does.
    pub open spec fn advanced(self, k: int) -> CpuView {
        CpuView { reg_zero: wrap8(self.reg_zero + k), ..self }
    }
}

/// Whether an optional operand address is mapped (vacuously true when the
/// instruction has no such operand).
pub open spec fn opt_mapped(a: Option<u8>) -> bool {
    match a {
        Some(x) => mapped(x),
        None => true,
    }
}

/// Every operand address the instruction touches (loads and the write-back)
/// is mapped, so one step of the machine is a pure function of the model.
pub open spec fn inst_mapped(inst: Instruction) -> bool {
    &&& opt_mapped(inst.src1())
    &&& opt_mapped(inst.src2())
    &&& opt_mapped(inst.store_addr())
}

/// A store through the address space as the model sees it: mapped addresses
/// update the model, a store handed to a device leaves the model unchanged.
pub open spec fn eff_push(m: CpuView, addr: u8, data: u8) -> CpuView {
    if mapped(addr) {
        m.push_at(addr, data)
    } else {
        m
    }
}

/// The model after one non-faulting instruction, given the bytes `d1` and
/// `d2` that its (up to two) operand loads produced, in order. For `Div` the
/// divisor byte `d2` must be nonzero: the engine faults before this applies.
pub open spec fn eff(m: CpuView, inst: Instruction, d1: u8, d2: u8) -> CpuView {
    match inst {
        Instruction::NoOp(..) => m.advanced(3),
        Instruction::And(_, _, _, _, a1, _) => eff_push(m, a1, d1 & d2).advanced(3),
        Instruction::Or(_, _, _, _, a1, _) => eff_push(m, a1, d1 | d2).advanced(3),
        Instruction::Not(_, _, _, _, a1) => eff_push(m, a1, !d1).advanced(3),
        Instruction::Add(_, _, s1, s2, a1, _) => eff_push(
            m,
            a1,
            add_bytes(s1, s2, d1, d2),
        ).advanced(3),
        Instruction::Sub(_, _, s1, s2, a1, _) => eff_push(
            m,
            a1,
            sub_bytes(s1, s2, d1, d2),
        ).advanced(3),
        Instruction::Mul(_, _, s1, s2, a1, _) => eff_push(
            m,
            a1,
            mul_bytes(s1, s2, d1, d2),
        ).advanced(3),
        Instruction::Div(_, _, s1, s2, a1, _) => eff_push(
            m,
            a1,
            div_bytes(s1, s2, d1, d2),
        ).advanced(3),
        Instruction::SL(_, _, _, _, a1) => eff_push(m, a1, shl_byte(d1)).advanced(3),
        Instruction::SR(_, _, _, _, a1) => eff_push(m, a1, shr_byte(d1)).advanced(3),
        Instruction::RL(_, _, _, _, a1) => eff_push(m, a1, rol_byte(d1)).advanced(3),
        Instruction::RR(_, _, _, _, a1) => eff_push(m, a1, ror_byte(d1)).advanced(3),
        Instruction::Copy(_, _, _, _, _, a2) => eff_push(m, a2, d1).advanced(3),
        Instruction::CompEq(..) => m.advanced(
            if d1 != d2 {
                6
            } else {
                3
            },
        ),
        Instruction::CompGt(..) => m.advanced(
            if d1 <= d2 {
                6
            } else {
                3
            },
        ),
        Instruction::CompLt(..) => m.advanced(
            if d1 >= d2 {
                6
            } else {
                3
            },
        ),
    }
}

/// What one instruction did to the model, up to what the devices answered:
/// the observed bytes agree with the model wherever a loaded address is
/// mapped, a `Div` got a nonzero divisor, and the new model is `eff` of the
/// observed bytes. The engine's contracts quantify the observed bytes
/// existentially: a device may answer anything.
pub open spec fn obs_eff(m: CpuView, inst: Instruction, d1: u8, d2: u8, m2: CpuView) -> bool {
    &&& match inst.src1() {
        Some(a) => mapped(a) ==> d1 == m.load_at(a),
        None => true,
    }
    &&& match inst.src2() {
        Some(a) => mapped(a) ==> d2 == m.load_at(a),
        None => true,
    }
    &&& (inst is Div ==> d2 != 0)
    &&& m2 == eff(m, inst, d1, d2)
}

/// Whether the instruction names `addr` as an operand or as its write-back
/// destination: the only addresses whose device a step may touch.
pub open spec fn inst_reaches(inst: Instruction, addr: u8) -> bool {
    ||| inst.src1() == Some(addr)
    ||| inst.src2() == Some(addr)
    ||| inst.store_addr() == Some(addr)
}

/// Everything one call of the execution step promises, relating the engine
/// before (`pre`) and after (`post`) executing `inst` with result `r`:
/// well-formedness and the device table's shape are preserved; success is
/// always `Running`; a fault leaves the model exactly as it was; an address
/// fault names an address that cannot be served; a divide-by-zero fault can
/// only come from `Div`, and only when the divisor byte was zero as far as
/// the model can see it; when every touched address is served the only
/// possible fault is a `Div` by zero; on success the new model is `eff`
/// of the bytes the operand loads observed; every device at an address the
/// instruction does not name is untouched as a value; and an instruction
/// whose operands are all mapped leaves the whole device table unchanged.
pub open spec fn step_post(pre: CPU, post: CPU, inst: Instruction, r: Result<Halted, Fault>) -> bool {
    &&& post.wf()
    &&& post.same_devices(&pre)
    &&& (r is Ok ==> r == Ok::<Halted, Fault>(Halted::Running))
    &&& (r is Err ==> post@ == pre@)
    &&& (r matches Err(Fault::AddressFault(a)) ==> !pre.addr_ok(a))
    &&& (r == Err::<Halted, Fault>(Fault::DivideByZero) ==> inst is Div && (match inst.src2() {
        Some(a) => mapped(a) ==> pre@.load_at(a) == 0,
        None => true,
    }))
    &&& (pre.ops_ok(inst) ==> r is Ok || r == Err::<Halted, Fault>(Fault::DivideByZero))
    &&& (r is Ok ==> exists|d1: u8, d2: u8| obs_eff(pre@, inst, d1, d2, post@))
    &&& (forall|j: int|
        0 <= j < pre.devices@.len() && !inst_reaches(
            inst,
            (#[trigger] pre.devices@[j]).spec_address(),
        ) ==> post.devices@[j] == pre.devices@[j])
    &&& (inst_mapped(inst) ==> post.devices@ == pre.devices@)
}

/// One deterministic machine step: the instruction's semantics when every
/// operand address is mapped. A `Div` whose divisor byte is zero faults and
/// leaves the model unchanged.
pub open spec fn spec_step(m: CpuView, inst: Instruction) -> Result<CpuView, Fault>
    recommends
        inst_mapped(inst),
{
    let d1 = match inst.src1() {
        Some(a) => m.load_at(a),
        None => 0,
    };
    let d2 = match inst.src2() {
        Some(a) => m.load_at(a),
        None => 0,
    };
    if inst is Div && d2 == 0 {
        Err(Fault::DivideByZero)
    } else {
        Ok(eff(m, inst, d1, d2))
    }
}

/// Every device in the list declares an address inside the device region.
pub open spec fn addrs_valid(devices: Seq<Box<dyn Device>>) -> bool {
    forall|j: int|
        0 <= j < devices.len() ==> DEVICE_BASE <= (#[trigger] devices[j].spec_address())
}

/// No two devices in the list declare the same address.
pub open spec fn addrs_distinct(devices: Seq<Box<dyn Device>>) -> bool {
    forall|j: int, k: int|
        0 <= j < k < devices.len() ==> (#[trigger] devices[j].spec_address()) != (
        #[trigger] devices[k].spec_address())
}

/// After one device call at `addr`, dispatched to the device at index
/// `hit`, the device table keeps its shape: the same devices at the same
/// addresses, every untouched device unchanged as a value, and validity and
/// distinctness of the declared addresses preserved.
proof fn lemma_device_table_preserved(pre: &CPU, post: &CPU, hit: int, addr: u8)
    requires
        pre.wf(),
        0 <= hit < pre.devices@.len(),
        post.devices@.len() == pre.devices@.len(),
        pre.devices@[hit].spec_address() == addr,
        post.devices@[hit].spec_address() == addr,
        forall|k: int|
            0 <= k < post.devices@.len() && k != hit ==> post.devices@[k] == pre.devices@[k],
    ensures
        addrs_valid(post.devices@),
        addrs_distinct(post.devices@),
        post.same_devices(pre),
        post.devices_framed(pre, addr),
{
    assert forall|j: int|
        0 <= j < post.devices@.len() implies (#[trigger] post.devices@[j]).spec_address() == (
        #[trigger] pre.devices@[j]).spec_address() by {
        if j != hit {
            assert(post.devices@[j] == pre.devices@[j]);
        }
    }
}

/// The execution engine: register zero (doubling as the program pointer),
/// the banked instruction and data memories, and the registered devices.
/// Each device is addressed through the device region of the unified
/// address space by the address it declared; `wf` keeps those addresses
/// valid and distinct, so every device address names at most one device.
pub struct CPU {
    pub reg_zero: u8,
    pub inst_mem: Banker,
    pub data_mem: Banker,
    pub devices: Vec<Box<dyn Device>>,
}

impl View for CPU {
    type V = CpuView;

    open spec fn view(&self) -> CpuView {
        CpuView { reg_zero: self.reg_zero, inst: self.inst_mem@, data: self.data_mem@ }
    }
}

impl CPU {
    /// Memories are well formed, and the registered devices declare valid,
    /// pairwise distinct addresses: dispatch always reaches the one device
    /// that asked for the address.
    pub open spec fn wf(&self) -> bool {
        &&& self@.wf()
        &&& addrs_valid(self.devices@)
        &&& addrs_distinct(self.devices@)
    }

    /// Whether some registered device declared `addr` (under `wf`, at most
    /// one did).
    pub open spec fn device_present(&self, addr: u8) -> bool {
        exists|j: int|
            0 <= j < self.devices@.len() && (#[trigger] self.devices@[j]).spec_address() == addr
    }

    /// Whether the answer `b` of a load at device address `addr`, and the
    /// state change from `self` (before) to `post` (after), satisfy the
    /// relation of the device that declared `addr`.
    pub open spec fn dev_load_rel(&self, post: &CPU, addr: u8, b: u8) -> bool {
        exists|j: int|
            0 <= j < self.devices@.len() && (#[trigger] self.devices@[j]).spec_address() == addr
                && self.devices@[j].load_rel(addr, b, post.devices@[j].dev_state())
    }

    /// Whether the state change from `self` (before) to `post` (after) a
    /// push of `data` at device address `addr` satisfies the relation of
    /// the device that declared `addr`.
    pub open spec fn dev_push_rel(&self, post: &CPU, addr: u8, data: u8) -> bool {
        exists|j: int|
            0 <= j < self.devices@.len() && (#[trigger] self.devices@[j]).spec_address() == addr
                && self.devices@[j].push_rel(addr, data, post.devices@[j].dev_state())
    }

    /// Whether a load or store at `addr` can be served: either the model
    /// serves it, or a device declared it.
    pub open spec fn addr_ok(&self, addr: u8) -> bool {
        mapped(addr) || (DEVICE_BASE <= addr && self.device_present(addr))
    }

    /// Every device but the one that declared `addr` (none, when `addr` is
    /// mapped) is the very value it was before: untouched devices are
    /// preserved, not merely which addresses are served.
    pub open spec fn devices_framed(&self, other: &CPU, addr: u8) -> bool {
        &&& self.devices@.len() == other.devices@.len()
        &&& forall|j: int|
            0 <= j < self.devices@.len() && (#[trigger] other.devices@[j]).spec_address() != addr
                ==> self.devices@[j] == other.devices@[j]
    }

    /// The device table has the same shape as in `other`: the same number
    /// of devices, each declaring the same address (devices themselves may
    /// have changed internal state).
    pub open spec fn same_devices(&self, other: &CPU) -> bool {
        &&& self.devices@.len() == other.devices@.len()
        &&& forall|j: int|
            0 <= j < self.devices@.len() ==> (#[trigger] self.devices@[j]).spec_address() == (
            #[trigger] other.devices@[j]).spec_address()
    }

    /// Builds a machine from a 127-byte instruction image and a list of
    /// devices. The image is broadcast identically into all 256 instruction
    /// banks; all 256 data banks start zeroed; both bank pointers and the
    /// program pointer start at 0. The device list is kept exactly as given:
    /// each device serves the address it declared. Construction fails —
    /// before any tick can run — exactly when some device declares an
    /// address below 194 or two devices declare the same address.
    pub fn new(inst_mem: [u8; 127], devices: Vec<Box<dyn Device>>) -> (r: Result<
        CPU,
        DeviceError,
    >)
        ensures
            r is Ok <==> addrs_valid(devices@) && addrs_distinct(devices@),
            (r matches Ok(cpu) ==> {
                &&& cpu.wf()
                &&& cpu.reg_zero == 0
                &&& cpu@.reg_zero == 0
                &&& cpu@.inst.pointer == 0
                &&& cpu@.data.pointer == 0
                &&& forall|b: int| 0 <= b < 256 ==> #[trigger] cpu@.inst.banks[b] == inst_mem@
                &&& forall|b: int, o: int|
                    0 <= b < 256 && 0 <= o < DATA_BANK_WIDTH ==> #[trigger] cpu@.data.banks[b][o]
                        == 0
                &&& cpu.devices@ == devices@
            }),
            (r matches Err(DeviceError::AddressOutOfRange(a)) ==> a < DEVICE_BASE && exists|j: int|
                0 <= j < devices@.len() && (#[trigger] devices@[j].spec_address()) == a),
            (r matches Err(DeviceError::DuplicateAddress(a)) ==> exists|j: int, k: int|
                0 <= j < k < devices@.len() && (#[trigger] devices@[j].spec_address()) == a && (
                #[trigger] devices@[k].spec_address()) == a),
    {
        let device_count = devices.len();
        let mut checked: usize = 0;
        while checked < device_count
            invariant
                device_count == devices@.len(),
                checked <= device_count,
                forall|j: int|
                    0 <= j < checked ==> DEVICE_BASE <= (#[trigger] devices@[j].spec_address()),
                forall|j: int, k: int|
                    0 <= j < k < checked ==> (#[trigger] devices@[j].spec_address()) != (
                    #[trigger] devices@[k].spec_address()),
            decreases device_count - checked,
        {
            let a = devices[checked].address();
            if a < DEVICE_BASE {
                proof {
                    assert(devices@[checked as int].spec_address() == a && a < DEVICE_BASE);
                    assert(!addrs_valid(devices@));
                }
                return Err(DeviceError::AddressOutOfRange(a));
            }
            let mut earlier: usize = 0;
            while earlier < checked
                invariant
                    device_count == devices@.len(),
                    earlier <= checked < device_count,
                    a == devices@[checked as int].spec_address(),
                    forall|j: int|
                        0 <= j < earlier ==> (#[trigger] devices@[j].spec_address()) != a,
                decreases checked - earlier,
            {
                if devices[earlier].address() == a {
                    proof {
                        assert(devices@[earlier as int].spec_address() == a);
                        assert(!addrs_distinct(devices@));
                    }
                    return Err(DeviceError::DuplicateAddress(a));
                }
                earlier = earlier + 1;
            }
            checked = checked + 1;
        }
        let mut image: Vec<u8> = Vec::new();
        let mut i: usize = 0;
        while i < INST_BANK_WIDTH as usize
            invariant
                i <= INST_BANK_WIDTH as nat,
                image@.len() == i,
                forall|o: int| 0 <= o < i ==> #[trigger] image@[o] == inst_mem@[o],
            decreases INST_BANK_WIDTH as int - i,
        {
            image.push(inst_mem[i]);
            i = i + 1;
        }
        proof {
            assert(image@ =~= inst_mem@);
        }
        let mut zeroes: Vec<u8> = Vec::new();
        while zeroes.len() < DATA_BANK_WIDTH as usize
            invariant
                zeroes@.len() <= DATA_BANK_WIDTH as nat,
                forall|o: int| 0 <= o < zeroes@.len() ==> #[trigger] zeroes@[o] == 0,
            decreases DATA_BANK_WIDTH as int - zeroes@.len(),
        {
            zeroes.push(0);
        }
        Ok(
            CPU {
                reg_zero: 0,
                inst_mem: Banker::new(image),
                data_mem: Banker::new(zeroes),
                devices,
            },
        )
    }

    /// Loads one byte from the unified address space. Mapped addresses read
    /// the model and leave the whole machine — devices included — unchanged.
    /// A device address hands the load to the occupying device: the answered
    /// byte and the device's state afterwards satisfy that device's own load
    /// relation, and every other device is untouched as a value. Faults
    /// exactly on the unserved addresses: 127, and a device address no
    /// device declared.
    pub fn load(&mut self, addr: u8) -> (r: Result<u8, Fault>)
        requires
            old(self).wf(),
        ensures
            final(self).wf(),
            final(self)@ == old(self)@,
            final(self).same_devices(old(self)),
            final(self).devices_framed(old(self), addr),
            mapped(addr) ==> r == Ok::<u8, Fault>(old(self)@.load_at(addr)) && final(self).devices@
                == old(self).devices@,
            r is Ok <==> old(self).addr_ok(addr),
            r is Err ==> r == Err::<u8, Fault>(Fault::AddressFault(addr)) && final(self).devices@
                == old(self).devices@,
            DEVICE_BASE <= addr && old(self).device_present(addr) ==> (match r {
                Ok(b) => old(self).dev_load_rel(final(self), addr, b),
                Err(_) => false,
            }),
    {
        if addr == 0 {
            Ok(self.reg_zero)
        } else if addr <= 126 {
            Ok(self.inst_mem.read(addr))
        } else if addr == 127 {
            Err(Fault::AddressFault(addr))
        } else if addr <= 191 {
            Ok(self.data_mem.read(addr - 128))
        } else if addr == 192 {
            Ok(self.inst_mem.get_pointer())
        } else if addr == 193 {
            Ok(self.data_mem.get_pointer())
        } else {
            let device_count = self.devices.len();
            let mut answer: u8 = 0;
            let mut served = false;
            let mut i: usize = 0;
            let ghost mut hit: int = 0;
            while i < device_count && !served
                invariant
                    old(self).wf(),
                    DEVICE_BASE <= addr,
                    device_count == old(self).devices@.len(),
                    i <= device_count,
                    !served ==> self@ == old(self)@ && self.devices@ == old(self).devices@
                        && forall|j: int|
                        0 <= j < i ==> (#[trigger] self.devices@[j]).spec_address() != addr,
                    served ==> ({
                        &&& 0 <= hit < device_count
                        &&& old(self).devices@[hit].spec_address() == addr
                        &&& old(self).devices@[hit].load_rel(
                            addr,
                            answer,
                            self.devices@[hit].dev_state(),
                        )
                        &&& self.devices@.len() == old(self).devices@.len()
                        &&& self.devices@[hit].spec_address() == addr
                        &&& forall|k: int|
                            0 <= k < self.devices@.len() && k != hit ==> self.devices@[k]
                                == old(self).devices@[k]
                        &&& self@ == old(self)@
                    }),
                decreases device_count - i,
            {
                if self.devices[i].address() == addr {
                    let dev = &mut self.devices[i];
                    answer = dev.load(addr);
                    served = true;
                    proof {
                        hit = i as int;
                    }
                }
                i = i + 1;
            }
            if served {
                proof {
                    lemma_device_table_preserved(old(self), self, hit, addr);
                    assert(old(self).dev_load_rel(&*self, addr, answer));
                }
                Ok(answer)
            } else {
                proof {
                    assert(!old(self).device_present(addr));
                }
                Err(Fault::AddressFault(addr))
            }
        }
    }

    /// Stores one byte into the unified address space. Mapped addresses
    /// update the model exactly as `CpuView::push_at` says and leave every
    /// device untouched. A device address hands the store to the occupying
    /// device: the byte reaches that device, whose state afterwards
    /// satisfies its own push relation, and every other device is untouched
    /// as a value. Faults exactly on the unserved addresses, leaving
    /// everything unchanged.
    pub fn push(&mut self, addr: u8, data: u8) -> (r: Result<(), Fault>)
        requires
            old(self).wf(),
        ensures
            final(self).wf(),
            final(self).same_devices(old(self)),
            final(self).devices_framed(old(self), addr),
            mapped(addr) ==> final(self)@ == old(self)@.push_at(addr, data) && final(self).devices@
                == old(self).devices@,
            !mapped(addr) ==> final(self)@ == old(self)@,
            r is Ok <==> old(self).addr_ok(addr),
            r is Err ==> r == Err::<(), Fault>(Fault::AddressFault(addr)) && final(self).devices@
                == old(self).devices@,
            DEVICE_BASE <= addr && old(self).device_present(addr) ==> r is Ok
                && final(self).device_present(addr) && old(self).dev_push_rel(
                final(self),
                addr,
                data,
            ),
    {
        if addr == 0 {
            self.reg_zero = data;
            Ok(())
        } else if addr <= 126 {
            self.inst_mem.write(addr, data);
            Ok(())
        } else if addr == 127 {
            Err(Fault::AddressFault(addr))
        } else if addr <= 191 {
            self.data_mem.write(addr - 128, data);
            Ok(())
        } else if addr == 192 {
            self.inst_mem.set_pointer(data);
            Ok(())
        } else if addr == 193 {
            self.data_mem.set_pointer(data);
            Ok(())
        } else {
            let device_count = self.devices.len();
            let mut served = false;
            let mut i: usize = 0;
            let ghost mut hit: int = 0;
            while i < device_count && !served
                invariant
                    old(self).wf(),
                    DEVICE_BASE <= addr,
                    device_count == old(self).devices@.len(),
                    i <= device_count,
                    !served ==> self@ == old(self)@ && self.devices@ == old(self).devices@
                        && forall|j: int|
                        0 <= j < i ==> (#[trigger] self.devices@[j]).spec_address() != addr,
                    served ==> ({
                        &&& 0 <= hit < device_count
                        &&& old(self).devices@[hit].spec_address() == addr
                        &&& old(self).devices@[hit].push_rel(
                            addr,
                            data,
                            self.devices@[hit].dev_state(),
                        )
                        &&& self.devices@.len() == old(self).devices@.len()
                        &&& self.devices@[hit].spec_address() == addr
                        &&& forall|k: int|
                            0 <= k < self.devices@.len() && k != hit ==> self.devices@[k]
                                == old(self).devices@[k]
                        &&& self@ == old(self)@
                    }),
                decreases device_count - i,
            {
                if self.devices[i].address() == addr {
                    let dev = &mut self.devices[i];
                    dev.push(addr, data);
                    served = true;
                    proof {
                        hit = i as int;
                    }
                }
                i = i + 1;
            }
            if served {
                proof {
                    lemma_device_table_preserved(old(self), self, hit, addr);
                    assert(old(self).dev_push_rel(&*self, addr, data));
                }
                Ok(())
            } else {
                proof {
                    assert(!old(self).device_present(addr));
                }
                Err(Fault::AddressFault(addr))
            }
        }
    }


    /// Every address the instruction touches can be served: mapped, or a
    /// device declared the address.
    pub open spec fn ops_ok(&self, inst: Instruction) -> bool {
        &&& match inst.src1() {
            Some(a) => self.addr_ok(a),
            None => true,
        }
        &&& match inst.src2() {
            Some(a) => self.addr_ok(a),
            None => true,
        }
        &&& match inst.store_addr() {
            Some(a) => self.addr_ok(a),
            None => true,
        }
    }

    /// Executes one decoded instruction: loads its operands through the
    /// address space in order (first operand first — devices may be
    /// stateful), computes, writes the result back, and advances the program
    /// pointer by 3 (by 3 more when a comparison fails), wrapping at 8 bits.
    ///
    /// The whole outcome is stated by `step_post`: on a fault the model is
    /// left exactly as it was; when every touched address is served, the
    /// only possible fault is a `Div` by zero; and on success the new model
    /// is `eff` of the observed operand bytes.
    pub fn process(&mut self, inst: Instruction) -> (r: Result<Halted, Fault>)
        requires
            old(self).wf(),
        ensures
            step_post(*old(self), *final(self), inst, r),
    {
        match inst {
            Instruction::NoOp(_, _, _, _) => {
                self.reg_zero = self.reg_zero.wrapping_add(3);
                proof {
                    assert(obs_eff(old(self)@, inst, 0, 0, self@));
                }
                Ok(Halted::Running)
            }
            Instruction::And(..) => self.step_and(inst),
            Instruction::Or(..) => self.step_or(inst),
            Instruction::Not(..) => self.step_not(inst),
            Instruction::Add(..) => self.step_add(inst),
            Instruction::Sub(..) => self.step_sub(inst),
            Instruction::Mul(..) => self.step_mul(inst),
            Instruction::Div(..) => self.step_div(inst),
            Instruction::SL(..) => self.step_shift_left(inst),
            Instruction::SR(..) => self.step_shift_right(inst),
            Instruction::RL(..) => self.step_rotate_left(inst),
            Instruction::RR(..) => self.step_rotate_right(inst),
            Instruction::Copy(..) => self.step_copy(inst),
            Instruction::CompEq(..) => self.step_comp_eq(inst),
            Instruction::CompGt(..) => self.step_comp_gt(inst),
            Instruction::CompLt(..) => self.step_comp_lt(inst),
        }
    }

    /// One step for a decoded `And`.
    fn step_and(&mut self, inst: Instruction) -> (r: Result<Halted, Fault>)
        requires
            old(self).wf(),
            inst is And,
        ensures
            step_post(*old(self), *final(self), inst, r),
    {
        if let Instruction::And(_, _, _, _, arg1, arg2) = inst {
            let data1 = match self.load(arg1) {
                Ok(v) => v,
                Err(f) => return Err(f),
            };
            let data2 = match self.load(arg2) {
                Ok(v) => v,
                Err(f) => return Err(f),
            };
            if let Err(f) = self.push(arg1, alu_and(data1, data2)) {
                return Err(f);
            }
            self.reg_zero = self.reg_zero.wrapping_add(3);
            proof {
                assert(obs_eff(old(self)@, inst, data1, data2, self@));
            }
            Ok(Halted::Running)
        } else {
            Ok(Halted::Running)
        }
    }

    /// One step for a decoded `Or`.
    fn step_or(&mut self, inst: Instruction) -> (r: Result<Halted, Fault>)
        requires
            old(self).wf(),
            inst is Or,
        ensures
            step_post(*old(self), *final(self), inst, r),
    {
        if let Instruction::Or(_, _, _, _, arg1, arg2) = inst {
            let data1 = match self.load(arg1) {
                Ok(v) => v,
                Err(f) => return Err(f),
            };
            let data2 = match self.load(arg2) {
                Ok(v) => v,
                Err(f) => return Err(f),
            };
            if let Err(f) = self.push(arg1, alu_or(data1, data2)) {
                return Err(f);
            }
            self.reg_zero = self.reg_zero.wrapping_add(3);
            proof {
                assert(obs_eff(old(self)@, inst, data1, data2, self@));
            }
            Ok(Halted::Running)
        } else {
            Ok(Halted::Running)
        }
    }

    /// One step for a decoded `Not`.
    fn step_not(&mut self, inst: Instruction) -> (r: Result<Halted, Fault>)
        requires
            old(self).wf(),
            inst is Not,
        ensures
            step_post(*old(self), *final(self), inst, r),
    {
        if let Instruction::Not(_, _, _, _, arg1) = inst {
            let data1 = match self.load(arg1) {
                Ok(v) => v,
                Err(f) => return Err(f),
            };
            if let Err(f) = self.push(arg1, alu_not(data1)) {
                return Err(f);
            }
            self.reg_zero = self.reg_zero.wrapping_add(3);
            proof {
                assert(obs_eff(old(self)@, inst, data1, 0, self@));
            }
            Ok(Halted::Running)
        } else {
            Ok(Halted::Running)
        }
    }

    /// One step for a decoded `Add`.
    fn step_add(&mut self, inst: Instruction) -> (r: Result<Halted, Fault>)
        requires
            old(self).wf(),
            inst is Add,
        ensures
            step_post(*old(self), *final(self), inst, r),
    {
        if let Instruction::Add(_, _, sign1, sign2, arg1, arg2) = inst {
            let data1 = match self.load(arg1) {
                Ok(v) => v,
                Err(f) => return Err(f),
            };
            let data2 = match self.load(arg2) {
                Ok(v) => v,
                Err(f) => return Err(f),
            };
            if let Err(f) = self.push(arg1, alu_add(sign1, sign2, data1, data2)) {
                return Err(f);
            }
            self.reg_zero = self.reg_zero.wrapping_add(3);
            proof {
                assert(obs_eff(old(self)@, inst, data1, data2, self@));
            }
            Ok(Halted::Running)
        } else {
            Ok(Halted::Running)
        }
    }

    /// One step for a decoded `Sub`.
    fn step_sub(&mut self, inst: Instruction) -> (r: Result<Halted, Fault>)
        requires
            old(self).wf(),
            inst is Sub,
        ensures
            step_post(*old(self), *final(self), inst, r),
    {
        if let Instruction::Sub(_, _, sign1, sign2, arg1, arg2) = inst {
            let data1 = match self.load(arg1) {
                Ok(v) => v,
                Err(f) => return Err(f),
            };
            let data2 = match self.load(arg2) {
                Ok(v) => v,
                Err(f) => return Err(f),
            };
            if let Err(f) = self.push(arg1, alu_sub(sign1, sign2, data1, data2)) {
                return Err(f);
            }
            self.reg_zero = self.reg_zero.wrapping_add(3);
            proof {
                assert(obs_eff(old(self)@, inst, data1, data2, self@));
            }
            Ok(Halted::Running)
        } else {
            Ok(Halted::Running)
        }
    }

    /// One step for a decoded `Mul`.
    #[verifier::rlimit(60)]
    #[verifier::spinoff_prover]
    fn step_mul(&mut self, inst: Instruction) -> (r: Result<Halted, Fault>)
        requires
            old(self).wf(),
            inst is Mul,
        ensures
            step_post(*old(self), *final(self), inst, r),
    {
        if let Instruction::Mul(_, _, sign1, sign2, arg1, arg2) = inst {
            let data1 = match self.load(arg1) {
                Ok(v) => v,
                Err(f) => return Err(f),
            };
            let data2 = match self.load(arg2) {
                Ok(v) => v,
                Err(f) => return Err(f),
            };
            if let Err(f) = self.push(arg1, alu_mul(sign1, sign2, data1, data2)) {
                return Err(f);
            }
            self.reg_zero = self.reg_zero.wrapping_add(3);
            proof {
                assert(obs_eff(old(self)@, inst, data1, data2, self@));
            }
            Ok(Halted::Running)
        } else {
            Ok(Halted::Running)
        }
    }

    /// One step for a decoded `Div`.
    fn step_div(&mut self, inst: Instruction) -> (r: Result<Halted, Fault>)
        requires
            old(self).wf(),
            inst is Div,
        ensures
            step_post(*old(self), *final(self), inst, r),
    {
        if let Instruction::Div(_, _, sign1, sign2, arg1, arg2) = inst {
            let data1 = match self.load(arg1) {
                Ok(v) => v,
                Err(f) => return Err(f),
            };
            let data2 = match self.load(arg2) {
                Ok(v) => v,
                Err(f) => return Err(f),
            };
                if data2 == 0 {
                    return Err(Fault::DivideByZero);
                }
            if let Err(f) = self.push(arg1, alu_div(sign1, sign2, data1, data2)) {
                return Err(f);
            }
            self.reg_zero = self.reg_zero.wrapping_add(3);
            proof {
                assert(obs_eff(old(self)@, inst, data1, data2, self@));
            }
            Ok(Halted::Running)
        } else {
            Ok(Halted::Running)
        }
    }

    /// One step for a decoded `SL`.
    fn step_shift_left(&mut self, inst: Instruction) -> (r: Result<Halted, Fault>)
        requires
            old(self).wf(),
            inst is SL,
        ensures
            step_post(*old(self), *final(self), inst, r),
    {
        if let Instruction::SL(_, _, _, _, arg1) = inst {
            let data1 = match self.load(arg1) {
                Ok(v) => v,
                Err(f) => return Err(f),
            };
            if let Err(f) = self.push(arg1, alu_shl(data1)) {
                return Err(f);
            }
            self.reg_zero = self.reg_zero.wrapping_add(3);
            proof {
                assert(obs_eff(old(self)@, inst, data1, 0, self@));
            }
            Ok(Halted::Running)
        } else {
            Ok(Halted::Running)
        }
    }

    /// One step for a decoded `SR`.
    fn step_shift_right(&mut self, inst: Instruction) -> (r: Result<Halted, Fault>)
        requires
            old(self).wf(),
            inst is SR,
        ensures
            step_post(*old(self), *final(self), inst, r),
    {
        if let Instruction::SR(_, _, _, _, arg1) = inst {
            let data1 = match self.load(arg1) {
                Ok(v) => v,
                Err(f) => return Err(f),
            };
            if let Err(f) = self.push(arg1, alu_shr(data1)) {
                return Err(f);
            }
            self.reg_zero = self.reg_zero.wrapping_add(3);
            proof {
                assert(obs_eff(old(self)@, inst, data1, 0, self@));
            }
            Ok(Halted::Running)
        } else {
            Ok(Halted::Running)
        }
    }

    /// One step for a decoded `RL`.
    fn step_rotate_left(&mut self, inst: Instruction) -> (r: Result<Halted, Fault>)
        requires
            old(self).wf(),
            inst is RL,
        ensures
            step_post(*old(self), *final(self), inst, r),
    {
        if let Instruction::RL(_, _, _, _, arg1) = inst {
            let data1 = match self.load(arg1) {
                Ok(v) => v,
                Err(f) => return Err(f),
            };
            if let Err(f) = self.push(arg1, alu_rol(data1)) {
                return Err(f);
            }
            self.reg_zero = self.reg_zero.wrapping_add(3);
            proof {
                assert(obs_eff(old(self)@, inst, data1, 0, self@));
            }
            Ok(Halted::Running)
        } else {
            Ok(Halted::Running)
        }
    }

    /// One step for a decoded `RR`.
    fn step_rotate_right(&mut self, inst: Instruction) -> (r: Result<Halted, Fault>)
        requires
            old(self).wf(),
            inst is RR,
        ensures
            step_post(*old(self), *final(self), inst, r),
    {
        if let Instruction::RR(_, _, _, _, arg1) = inst {
            let data1 = match self.load(arg1) {
                Ok(v) => v,
                Err(f) => return Err(f),
            };
            if let Err(f) = self.push(arg1, alu_ror(data1)) {
                return Err(f);
            }
            self.reg_zero = self.reg_zero.wrapping_add(3);
            proof {
                assert(obs_eff(old(self)@, inst, data1, 0, self@));
            }
            Ok(Halted::Running)
        } else {
            Ok(Halted::Running)
        }
    }

    /// One step for a decoded `CompEq`: no write-back; a failed
    /// comparison skips the next instruction.
    fn step_comp_eq(&mut self, inst: Instruction) -> (r: Result<Halted, Fault>)
        requires
            old(self).wf(),
            inst is CompEq,
        ensures
            step_post(*old(self), *final(self), inst, r),
    {
        if let Instruction::CompEq(_, _, _, _, arg1, arg2) = inst {
            let data1 = match self.load(arg1) {
                Ok(v) => v,
                Err(f) => return Err(f),
            };
            let data2 = match self.load(arg2) {
                Ok(v) => v,
                Err(f) => return Err(f),
            };
            if data1 != data2 {
                self.reg_zero = self.reg_zero.wrapping_add(3);
            }
            self.reg_zero = self.reg_zero.wrapping_add(3);
            proof {
                assert(obs_eff(old(self)@, inst, data1, data2, self@));
            }
            Ok(Halted::Running)
        } else {
            Ok(Halted::Running)
        }
    }

    /// One step for a decoded `CompGt`: no write-back; a failed
    /// comparison skips the next instruction.
    fn step_comp_gt(&mut self, inst: Instruction) -> (r: Result<Halted, Fault>)
        requires
            old(self).wf(),
            inst is CompGt,
        ensures
            step_post(*old(self), *final(self), inst, r),
    {
        if let Instruction::CompGt(_, _, _, _, arg1, arg2) = inst {
            let data1 = match self.load(arg1) {
                Ok(v) => v,
                Err(f) => return Err(f),
            };
            let data2 = match self.load(arg2) {
                Ok(v) => v,
                Err(f) => return Err(f),
            };
            if data1 <= data2 {
                self.reg_zero = self.reg_zero.wrapping_add(3);
            }
            self.reg_zero = self.reg_zero.wrapping_add(3);
            proof {
                assert(obs_eff(old(self)@, inst, data1, data2, self@));
            }
            Ok(Halted::Running)
        } else {
            Ok(Halted::Running)
        }
    }

    /// One step for a decoded `CompLt`: no write-back; a failed
    /// comparison skips the next instruction.
    fn step_comp_lt(&mut self, inst: Instruction) -> (r: Result<Halted, Fault>)
        requires
            old(self).wf(),
            inst is CompLt,
        ensures
            step_post(*old(self), *final(self), inst, r),
    {
        if let Instruction::CompLt(_, _, _, _, arg1, arg2) = inst {
            let data1 = match self.load(arg1) {
                Ok(v) => v,
                Err(f) => return Err(f),
            };
            let data2 = match self.load(arg2) {
                Ok(v) => v,
                Err(f) => return Err(f),
            };
            if data1 >= data2 {
                self.reg_zero = self.reg_zero.wrapping_add(3);
            }
            self.reg_zero = self.reg_zero.wrapping_add(3);
            proof {
                assert(obs_eff(old(self)@, inst, data1, data2, self@));
            }
            Ok(Halted::Running)
        } else {
            Ok(Halted::Running)
        }
    }

    /// The instruction the next tick will execute: the 3-byte window of the
    /// active instruction bank at the program pointer, decoded.
    pub open spec fn spec_fetch(m: CpuView) -> Instruction
        recommends
            m.reg_zero + 2 < INST_BANK_WIDTH,
    {
        spec_decode(
            m.inst.read_at(m.reg_zero as int),
            m.inst.read_at(m.reg_zero + 1),
            m.inst.read_at(m.reg_zero + 2),
        )
    }

    /// One whole deterministic tick: fetch, decode, then `spec_step`. Only
    /// meaningful when the fetched instruction's operands are all mapped.
    pub open spec fn spec_tick(m: CpuView) -> Result<CpuView, Fault>
        recommends
            m.reg_zero + 2 < INST_BANK_WIDTH,
            inst_mapped(Self::spec_fetch(m)),
    {
        spec_step(m, Self::spec_fetch(m))
    }

    /// Reads the 3-byte window at the program pointer straight from the
    /// active instruction bank and decodes it. The window must lie inside
    /// the bank, so the program pointer may be at most 124.
    pub fn fetch(&self) -> (r: Instruction)
        requires
            self.wf(),
            self.reg_zero + 2 < INST_BANK_WIDTH,
        ensures
            r == Self::spec_fetch(self@),
    {
        Instruction::from_3bytes(
            [
                self.inst_mem.read(self.reg_zero),
                self.inst_mem.read(self.reg_zero + 1),
                self.inst_mem.read(self.reg_zero + 2),
            ],
        )
    }

    /// One fetch-decode-execute-advance cycle. The outcome is `step_post`
    /// for the fetched instruction; when that instruction's operand
    /// addresses are all mapped, the machine moves exactly as `spec_tick`
    /// says.
    pub fn tick(&mut self) -> (r: Result<Halted, Fault>)
        requires
            old(self).wf(),
            old(self).reg_zero + 2 < INST_BANK_WIDTH,
        ensures
            step_post(*old(self), *final(self), Self::spec_fetch(old(self)@), r),
            inst_mapped(Self::spec_fetch(old(self)@)) ==> match Self::spec_tick(old(self)@) {
                Ok(m2) => r == Ok::<Halted, Fault>(Halted::Running) && final(self)@ == m2,
                Err(f) => r == Err::<Halted, Fault>(f),
            },
    {
        let inst = self.fetch();
        let r = self.process(inst);
        proof {
            if inst_mapped(inst) {
                lemma_mapped_ops_ok(old(self), inst);
                if r is Ok {
                    let (d1, d2) = choose|d1: u8, d2: u8|
                        obs_eff(old(self)@, inst, d1, d2, self@);
                    lemma_obs_step(old(self)@, inst, d1, d2, self@);
                }
            }
        }
        r
    }

    /// One step for a decoded `Copy`: the one instruction whose destination
    /// is the second operand.
    fn step_copy(&mut self, inst: Instruction) -> (r: Result<Halted, Fault>)
        requires
            old(self).wf(),
            inst is Copy,
        ensures
            step_post(*old(self), *final(self), inst, r),
    {
        if let Instruction::Copy(_, _, _, _, arg1, arg2) = inst {
            let data1 = match self.load(arg1) {
                Ok(v) => v,
                Err(f) => return Err(f),
            };
            if let Err(f) = self.push(arg2, data1) {
                return Err(f);
            }
            self.reg_zero = self.reg_zero.wrapping_add(3);
            proof {
                assert(obs_eff(old(self)@, inst, data1, 0, self@));
            }
            Ok(Halted::Running)
        } else {
            Ok(Halted::Running)
        }
    }
}

/// Mapped addresses are always served: an instruction whose operand
/// addresses are all mapped touches no device.
pub proof fn lemma_mapped_ops_ok(cpu: &CPU, inst: Instruction)
    requires
        inst_mapped(inst),
    ensures
        cpu.ops_ok(inst),
{
}

/// Determinism: when every operand address of an instruction is mapped, the
/// observed operand bytes are forced by the model, so whatever a step
/// produced under `obs_eff` is exactly the `spec_step` outcome.
pub proof fn lemma_obs_step(m: CpuView, inst: Instruction, d1: u8, d2: u8, m2: CpuView)
    requires
        inst_mapped(inst),
        obs_eff(m, inst, d1, d2, m2),
    ensures
        spec_step(m, inst) == Ok::<CpuView, Fault>(m2),
{
}

/// Memory round-trip: storing a byte at any instruction-bank address
/// (1 through 126) or data-bank address (128 through 191) and loading the
/// same address back returns exactly that byte. Address 127 is excluded:
/// the partition maps it one past the end of the 127-byte instruction bank,
/// so it faults instead of storing.
pub proof fn lemma_memory_round_trip(m: CpuView, a: u8, v: u8)
    requires
        m.wf(),
        1 <= a <= 191,
        a != 127,
    ensures
        m.push_at(a, v).load_at(a) == v,
{
}

/// A `CompEq` step with every operand mapped never faults; with equal
/// operand values it advances the program pointer by 3, with unequal values
/// it skips the next instruction and advances by 6, and it writes nothing.
pub proof fn lemma_comp_eq_advance(
    m: CpuView,
    halt: bool,
    debug: bool,
    s1: bool,
    s2: bool,
    a1: u8,
    a2: u8,
)
    requires
        mapped(a1),
        mapped(a2),
    ensures
        spec_step(m, Instruction::CompEq(halt, debug, s1, s2, a1, a2)) == Ok::<CpuView, Fault>(
            m.advanced(
                if m.load_at(a1) == m.load_at(a2) {
                    3
                } else {
                    6
                },
            ),
        ),
{
}

/// A `Copy` from a mapped source address to address 0 loads the source byte
/// into register zero, and the tick's own advance then applies on top of the
/// copied value: the next program pointer is the copied byte plus 3, mod 256.
pub proof fn lemma_copy_to_register_zero(
    m: CpuView,
    halt: bool,
    debug: bool,
    s1: bool,
    s2: bool,
    a1: u8,
)
    requires
        mapped(a1),
    ensures
        spec_step(m, Instruction::Copy(halt, debug, s1, s2, a1, 0)) == Ok::<CpuView, Fault>(
            (CpuView { reg_zero: wrap8(m.load_at(a1) + 3), inst: m.inst, data: m.data }),
        ),
{
}

/// Bank isolation through the address space: writing the instruction-bank
/// pointer pseudo-register (address 192) to `p1`, storing a byte at an
/// instruction-bank address, switching to a different bank `p2` and storing
/// there, then switching back to `p1` finds the first byte unchanged.
pub proof fn lemma_instruction_bank_isolation(
    m: CpuView,
    p1: u8,
    p2: u8,
    a: u8,
    v: u8,
    other_a: u8,
    other_v: u8,
)
    requires
        m.wf(),
        1 <= a <= 126,
        1 <= other_a <= 126,
        p1 != p2,
    ensures
        m.push_at(192, p1).push_at(a, v).push_at(192, p2).push_at(other_a, other_v).push_at(
            192,
            p1,
        ).load_at(a) == v,
{
}

} // verus!
