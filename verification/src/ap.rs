//! Bring-up of the application processors.
//!
//! The bootstrap processor wakes every other enabled processor, one at a
//! time, with the INIT, INIT de-assert, startup, startup sequence, and
//! waits for each to set the shared boot flag before it turns to the next.
//!
//! Sending interrupts, waiting and reading the flag are the caller's part.
//! What is decided here is the order: [`ApBringUp::step`] names the next
//! thing to do, and is told the boot flag's value when it asked for it.

use crate::acpi::{next_from, ApicIdList, ApicIdListState};
use crate::acpi_pm_timer::AcpiPmTimer;
use crate::local_apic::{
    icr_high,
    icr_low,
    send_interrupt_command,
    InterruptCommand,
    DELIVERY_MODE_INIT,
    DELIVERY_MODE_STARTUP,
};
use crate::memory::{
    lemma_aligned_allocation_in_reported_record,
    MapState,
    MemoryManager,
};
use vstd::prelude::*;

verus! {

/// Size of the stack that each application processor boots on.
pub const STACK_SIZE: usize = 0x8000;

/// Alignment of that stack.
pub const STACK_ALIGN: usize = 0x10;

/// Alignment of the boot code: one page, since a startup interrupt names
/// the page to start at.
pub const BOOT_CODE_ALIGN: usize = 0x1000;

/// Highest address the boot code may be copied to: a startup interrupt's
/// vector holds bits 12 to 19 of the address.
pub const BOOT_CODE_LIMIT: usize = 0xff000;

/// Largest APIC id an interrupt can be addressed to.
pub const MAX_APIC_ID: u32 = 0xff;

/// Microseconds to wait after INIT was asserted.
pub const INIT_ASSERT_WAIT_US: usize = 100;

/// Milliseconds to wait after INIT was de-asserted.
pub const INIT_DEASSERT_WAIT_MS: usize = 10;

/// Microseconds to wait between the two startup interrupts.
pub const STARTUP_WAIT_US: usize = 200;

/// Milliseconds to wait after the boot flag was found unset.
pub const POLL_WAIT_MS: usize = 1;

/// How often the boot flag is read before a processor is given up.
pub const POLL_LIMIT: u32 = 5000;

/// Bytes a per-processor data block occupies.
pub const PER_CPU_DATA_SIZE: usize = 16;

/// The model-specific register that holds the base of the per-processor
/// data block.
pub const GS_BASE_MSR: u32 = 0xC000_0101;

/// What each processor keeps for itself: the block's own address and the
/// processor's APIC id.
#[derive(Clone, Copy, Debug, PartialEq, Eq, Structural)]
pub struct PerCpuData {
    pub self_pointer: usize,
    pub local_apic_id: u32,
}

/// A write to a model-specific register: the register's number and the two
/// halves of the value.
#[derive(Clone, Copy, Debug, PartialEq, Eq, Structural)]
pub struct MsrWrite {
    pub msr: u32,
    pub eax: u32,
    pub edx: u32,
}

/// Why the bring-up ended without success.
#[derive(Clone, Copy, Debug, PartialEq, Eq, Structural)]
pub enum ApError {
    /// The memory manager could not serve a request.
    OutOfMemory,
    /// The boot code was placed above [`BOOT_CODE_LIMIT`].
    BootCodeTooHigh { address: usize },
    /// A processor's APIC id is larger than [`MAX_APIC_ID`].
    ApicIdTooLarge { apic_id: u32 },
    /// A processor did not set the boot flag in time.
    NoResponse { apic_id: u32 },
}

/// What the caller is to do next.
#[derive(Clone, Copy, Debug, PartialEq, Eq, Structural)]
pub enum ApAction {
    /// Copy the boot code to `address`.
    CopyBootCode { address: usize },
    /// Store `data` at the address it names and write `register`.
    InstallPerCpuData { data: PerCpuData, register: MsrWrite },
    /// Nothing: the processor `apic_id` is the one that runs already.
    SkipBootProcessor { apic_id: u32 },
    /// Store the 8-byte `value` at `address`, the stack slot of the boot code.
    StoreStackTop { address: usize, value: u64 },
    /// Set the boot flag to false.
    ClearBootFlag,
    /// Write `command` to the interrupt command register.
    SendInterrupt { command: InterruptCommand },
    /// Wait for `us` microseconds.
    BusyWaitUs { us: usize },
    /// Wait for `ms` milliseconds.
    BusyWaitMs { ms: usize },
    /// Read the boot flag and pass its value to the next step.
    ReadBootFlag,
    /// All processors run; `num_of_cpu` counts them, the running one
    /// included.
    Finished { num_of_cpu: usize },
    /// The bring-up failed and goes no further.
    Failed { error: ApError },
}

/// Where the bring-up stands: what the next step does.
#[derive(Clone, Copy, Debug, PartialEq, Eq, Structural)]
pub enum ApStage {
    CopyBootCode,
    InstallPerCpuData,
    NextTarget,
    ClearBootFlag,
    InitAssert,
    InitAssertWait,
    InitDeassert,
    InitDeassertWait,
    FirstStartup,
    StartupWait,
    SecondStartup,
    ReadBootFlag,
    CheckBootFlag,
    Finished,
    Failed { error: ApError },
}

/// The mathematical state of a bring-up.
pub struct ApState {
    pub ids: ApicIdListState,
    pub bsp_apic_id: u32,
    pub boot_code_address: usize,
    pub stack_slot: usize,
    pub bsp_data: PerCpuData,
    pub num_of_cpu: usize,
    pub target: u32,
    pub polls: u32,
    pub stage: ApStage,
}

/// The per-processor block at address `a` for the processor `local_apic_id`.
pub open spec fn per_cpu_data_at(a: int, local_apic_id: u32) -> PerCpuData {
    PerCpuData { self_pointer: a as usize, local_apic_id }
}

/// The register write that makes the block at `a` the running processor's:
/// the low half of the address in `eax`, the high half in `edx`.
pub open spec fn gs_base_write(a: int) -> MsrWrite {
    MsrWrite {
        msr: GS_BASE_MSR,
        eax: (a % 0x1_0000_0000) as u32,
        edx: (a / 0x1_0000_0000) as u32,
    }
}

/// The INIT interrupt for `target`, asserted or de-asserted.
pub open spec fn init_command(target: u32, assert: bool) -> InterruptCommand {
    InterruptCommand {
        high: icr_high(target),
        low: icr_low(
            DELIVERY_MODE_INIT,
            1,
            if assert {
                1
            } else {
                0
            },
            0,
        ),
    }
}

/// The startup interrupt that starts `target` at the page `vector`.
pub open spec fn startup_command(target: u32, vector: u8) -> InterruptCommand {
    InterruptCommand { high: icr_high(target), low: icr_low(DELIVERY_MODE_STARTUP, 0, 1, vector) }
}

impl ApState {
    /// The page number of the boot code, which a startup interrupt carries.
    pub open spec fn vector(self) -> u8 {
        (self.boot_code_address / 0x1000) as u8
    }

    /// The stage is one of the handshake with the processor `target`.
    pub open spec fn in_handshake(self) -> bool {
        match self.stage {
            ApStage::ClearBootFlag
            | ApStage::InitAssert
            | ApStage::InitAssertWait
            | ApStage::InitDeassert
            | ApStage::InitDeassertWait
            | ApStage::FirstStartup
            | ApStage::StartupWait
            | ApStage::SecondStartup
            | ApStage::ReadBootFlag
            | ApStage::CheckBootFlag => true,
            _ => false,
        }
    }

    /// What holds of every bring-up: the boot code lies where a startup
    /// interrupt can name it, the processor being woken is not the running
    /// one and can be addressed, the flag was not read more often than
    /// allowed, and no more processors were counted than ids were read.
    pub open spec fn wf(self) -> bool {
        &&& self.boot_code_address <= BOOT_CODE_LIMIT
        &&& self.stack_slot + 8 <= usize::MAX
        &&& 0 <= self.ids.pointer <= self.ids.records.len() <= usize::MAX
        &&& 1 <= self.num_of_cpu <= 1 + self.ids.pointer
        &&& self.polls <= POLL_LIMIT
        &&& self.stage == ApStage::CheckBootFlag ==> self.polls < POLL_LIMIT
        &&& self.in_handshake() ==> self.target <= MAX_APIC_ID && self.target != self.bsp_apic_id
    }

    /// The state with its stage replaced.
    pub open spec fn at(self, stage: ApStage) -> ApState {
        ApState { stage, ..self }
    }

    /// The step that turns to the next processor: the next id is read. The
    /// running processor's id is skipped. Any other id is counted, refused
    /// if it cannot be addressed, and given a stack, whose top goes into
    /// the boot code's stack slot.
    pub open spec fn turn_to_next(self, mm: MapState) -> (ApState, MapState, ApAction) {
        let (pointer, id) = next_from(self.ids.records, self.ids.pointer);
        let ids = ApicIdListState { pointer, ..self.ids };
        match id {
            None => (
                ApState { ids, stage: ApStage::Finished, ..self },
                mm,
                ApAction::Finished { num_of_cpu: self.num_of_cpu },
            ),
            Some(apic_id) => if apic_id == self.bsp_apic_id {
                (
                    ApState { ids, stage: ApStage::NextTarget, ..self },
                    mm,
                    ApAction::SkipBootProcessor { apic_id },
                )
            } else if apic_id > MAX_APIC_ID {
                let error = ApError::ApicIdTooLarge { apic_id };
                (
                    ApState {
                        ids,
                        num_of_cpu: (self.num_of_cpu + 1) as usize,
                        stage: ApStage::Failed { error },
                        ..self
                    },
                    mm,
                    ApAction::Failed { error },
                )
            } else {
                match mm.aligned_result(STACK_SIZE as int, STACK_ALIGN as int) {
                    None => {
                        let error = ApError::OutOfMemory;
                        (
                            ApState {
                                ids,
                                num_of_cpu: (self.num_of_cpu + 1) as usize,
                                stage: ApStage::Failed { error },
                                ..self
                            },
                            mm.after_alloc(STACK_SIZE + STACK_ALIGN),
                            ApAction::Failed { error },
                        )
                    },
                    Some(stack) => (
                        ApState {
                            ids,
                            num_of_cpu: (self.num_of_cpu + 1) as usize,
                            target: apic_id,
                            polls: 0,
                            stage: ApStage::ClearBootFlag,
                            ..self
                        },
                        mm.after_alloc(STACK_SIZE + STACK_ALIGN),
                        ApAction::StoreStackTop {
                            address: self.stack_slot,
                            value: (stack + STACK_SIZE) as u64,
                        },
                    ),
                }
            },
        }
    }

    /// One step of the bring-up: the state and the memory map it leaves,
    /// and what the caller is to do. `boot_flag` counts only in the step
    /// after the one that asked for the flag.
    pub open spec fn step(self, mm: MapState, boot_flag: bool) -> (ApState, MapState, ApAction) {
        match self.stage {
            ApStage::CopyBootCode => (
                self.at(ApStage::InstallPerCpuData),
                mm,
                ApAction::CopyBootCode { address: self.boot_code_address },
            ),
            ApStage::InstallPerCpuData => (
                self.at(ApStage::NextTarget),
                mm,
                ApAction::InstallPerCpuData {
                    data: self.bsp_data,
                    register: gs_base_write(self.bsp_data.self_pointer as int),
                },
            ),
            ApStage::NextTarget => self.turn_to_next(mm),
            ApStage::ClearBootFlag => (self.at(ApStage::InitAssert), mm, ApAction::ClearBootFlag),
            ApStage::InitAssert => (
                self.at(ApStage::InitAssertWait),
                mm,
                ApAction::SendInterrupt { command: init_command(self.target, true) },
            ),
            ApStage::InitAssertWait => (
                self.at(ApStage::InitDeassert),
                mm,
                ApAction::BusyWaitUs { us: INIT_ASSERT_WAIT_US },
            ),
            ApStage::InitDeassert => (
                self.at(ApStage::InitDeassertWait),
                mm,
                ApAction::SendInterrupt { command: init_command(self.target, false) },
            ),
            ApStage::InitDeassertWait => (
                self.at(ApStage::FirstStartup),
                mm,
                ApAction::BusyWaitMs { ms: INIT_DEASSERT_WAIT_MS },
            ),
            ApStage::FirstStartup => (
                self.at(ApStage::StartupWait),
                mm,
                ApAction::SendInterrupt { command: startup_command(self.target, self.vector()) },
            ),
            ApStage::StartupWait => (
                self.at(ApStage::SecondStartup),
                mm,
                ApAction::BusyWaitUs { us: STARTUP_WAIT_US },
            ),
            ApStage::SecondStartup => (
                self.at(ApStage::ReadBootFlag),
                mm,
                ApAction::SendInterrupt { command: startup_command(self.target, self.vector()) },
            ),
            ApStage::ReadBootFlag => if self.polls < POLL_LIMIT {
                (self.at(ApStage::CheckBootFlag), mm, ApAction::ReadBootFlag)
            } else {
                let error = ApError::NoResponse { apic_id: self.target };
                (self.at(ApStage::Failed { error }), mm, ApAction::Failed { error })
            },
            ApStage::CheckBootFlag => if boot_flag {
                self.turn_to_next(mm)
            } else {
                (
                    ApState {
                        polls: (self.polls + 1) as u32,
                        stage: ApStage::ReadBootFlag,
                        ..self
                    },
                    mm,
                    ApAction::BusyWaitMs { ms: POLL_WAIT_MS },
                )
            },
            ApStage::Finished => (self, mm, ApAction::Finished { num_of_cpu: self.num_of_cpu }),
            ApStage::Failed { error } => (self, mm, ApAction::Failed { error }),
        }
    }

    /// The state in which a bring-up starts, and the memory map it leaves:
    /// the boot code gets a page and the running processor its data block.
    pub open spec fn start(
        mm: MapState,
        ids: ApicIdListState,
        bsp_apic_id: u32,
        boot_code_size: usize,
        stack_slot_offset: usize,
    ) -> (Result<ApState, ApError>, MapState) {
        let after_code = mm.after_alloc(boot_code_size + BOOT_CODE_ALIGN);
        match mm.aligned_result(boot_code_size as int, BOOT_CODE_ALIGN as int) {
            None => (Err(ApError::OutOfMemory), after_code),
            Some(address) => if address > BOOT_CODE_LIMIT {
                (Err(ApError::BootCodeTooHigh { address: address as usize }), after_code)
            } else {
                match after_code.alloc_result(PER_CPU_DATA_SIZE as int) {
                    None => (
                        Err(ApError::OutOfMemory),
                        after_code.after_alloc(PER_CPU_DATA_SIZE as int),
                    ),
                    Some(block) => (
                        Ok(
                            ApState {
                                ids,
                                bsp_apic_id,
                                boot_code_address: address as usize,
                                stack_slot: (address + stack_slot_offset) as usize,
                                bsp_data: per_cpu_data_at(block, bsp_apic_id),
                                num_of_cpu: 1,
                                target: 0,
                                polls: 0,
                                stage: ApStage::CopyBootCode,
                            },
                        ),
                        after_code.after_alloc(PER_CPU_DATA_SIZE as int),
                    ),
                }
            },
        }
    }
}

/// Allocates the data block of the processor `local_apic_id` and says how
/// to install it: the block to store at the address it names, and the
/// register write that makes it the running processor's.
pub fn create_per_cpu_data(mm: &mut MemoryManager, local_apic_id: u32) -> (r: Option<
    (PerCpuData, MsrWrite),
>)
    ensures
        final(mm)@ == old(mm)@.after_alloc(PER_CPU_DATA_SIZE as int),
        r == (match old(mm)@.alloc_result(PER_CPU_DATA_SIZE as int) {
            Some(a) => Some((per_cpu_data_at(a, local_apic_id), gs_base_write(a))),
            None => None,
        }),
{
    match mm.allocate(PER_CPU_DATA_SIZE) {
        Some(address) => {
            let data = PerCpuData { self_pointer: address, local_apic_id };
            Some((data, gs_base_register(address)))
        },
        None => None,
    }
}

/// The register write that makes the block at `address` the running
/// processor's.
pub fn gs_base_register(address: usize) -> (register: MsrWrite)
    ensures
        register == gs_base_write(address as int),
{
    let wide: u64 = address as u64;
    MsrWrite {
        msr: GS_BASE_MSR,
        eax: (wide % 0x1_0000_0000) as u32,
        edx: (wide / 0x1_0000_0000) as u32,
    }
}

/// The bring-up of the application processors, as a machine that the caller
/// steps.
pub struct ApBringUp<'a> {
    ids: ApicIdList<'a>,
    bsp_apic_id: u32,
    boot_code_address: usize,
    stack_slot: usize,
    bsp_data: PerCpuData,
    num_of_cpu: usize,
    target: u32,
    polls: u32,
    stage: ApStage,
}

impl<'a> View for ApBringUp<'a> {
    type V = ApState;

    closed spec fn view(&self) -> ApState {
        ApState {
            ids: self.ids@,
            bsp_apic_id: self.bsp_apic_id,
            boot_code_address: self.boot_code_address,
            stack_slot: self.stack_slot,
            bsp_data: self.bsp_data,
            num_of_cpu: self.num_of_cpu,
            target: self.target,
            polls: self.polls,
            stage: self.stage,
        }
    }
}

/// Prepares the bring-up of the processors that `apic_id_list` yields, on
/// the processor `bsp_apic_id`. A page for the boot code of
/// `boot_code_size` bytes and the running processor's data block are
/// allocated; the boot code's stack slot lies `stack_slot_offset` bytes
/// into it. The machine returned is then stepped to its end.
pub fn init_ap<'a>(
    mm: &mut MemoryManager,
    apic_id_list: ApicIdList<'a>,
    bsp_apic_id: u32,
    boot_code_size: usize,
    stack_slot_offset: usize,
) -> (r: Result<ApBringUp<'a>, ApError>)
    requires
        stack_slot_offset + 8 <= boot_code_size,
    ensures
        final(mm)@ == ApState::start(
            old(mm)@,
            apic_id_list@,
            bsp_apic_id,
            boot_code_size,
            stack_slot_offset,
        ).1,
        match r {
            Ok(machine) => ApState::start(
                old(mm)@,
                apic_id_list@,
                bsp_apic_id,
                boot_code_size,
                stack_slot_offset,
            ).0 == Ok::<ApState, ApError>(machine@) && machine@.wf() && machine@.stack_slot
                == machine@.boot_code_address + stack_slot_offset && Some(
                machine@.boot_code_address as int,
            ) == old(mm)@.aligned_result(boot_code_size as int, BOOT_CODE_ALIGN as int),
            Err(error) => ApState::start(
                old(mm)@,
                apic_id_list@,
                bsp_apic_id,
                boot_code_size,
                stack_slot_offset,
            ).0 == Err::<ApState, ApError>(error),
        },
{
    let ghost before = mm@;
    proof {
        mm.lemma_address_in_range();
    }
    // The source's offset lies inside its records.
    let _offset: usize = apic_id_list.pointer();
    let boot_code_address = match mm.alloc_with_align(boot_code_size, BOOT_CODE_ALIGN) {
        Some(address) => {
            proof {
                lemma_aligned_allocation_in_reported_record(
                    before,
                    before,
                    boot_code_size as int,
                    BOOT_CODE_ALIGN as int,
                );
            }
            address
        },
        None => {
            return Err(ApError::OutOfMemory);
        },
    };
    if boot_code_address > BOOT_CODE_LIMIT {
        return Err(ApError::BootCodeTooHigh { address: boot_code_address });
    }
    let bsp_data = match create_per_cpu_data(mm, bsp_apic_id) {
        Some((data, _)) => data,
        None => {
            return Err(ApError::OutOfMemory);
        },
    };
    Ok(
        ApBringUp {
            ids: apic_id_list,
            bsp_apic_id,
            boot_code_address,
            stack_slot: boot_code_address + stack_slot_offset,
            bsp_data,
            num_of_cpu: 1,
            target: 0,
            polls: 0,
            stage: ApStage::CopyBootCode,
        },
    )
}

impl<'a> ApBringUp<'a> {
    /// Every machine is a bring-up of which [`ApState::wf`] holds.
    #[verifier::type_invariant]
    spec fn well_formed(self) -> bool {
        self@.wf()
    }

    /// Number of processors counted so far, the running one included.
    pub fn num_of_cpu(&self) -> (n: usize)
        ensures
            n == self@.num_of_cpu,
    {
        self.num_of_cpu
    }

    /// The vector that the startup interrupts carry.
    pub fn vector(&self) -> (v: u8)
        ensures
            v == self@.vector(),
            self@.wf(),
    {
        proof {
            use_type_invariant(self);
        }
        (self.boot_code_address / 0x1000) as u8
    }

    /// Whether the bring-up has ended, with or without success.
    pub fn is_done(&self) -> (done: bool)
        ensures
            done == (self@.stage == ApStage::Finished || self@.stage is Failed),
    {
        match self.stage {
            ApStage::Finished => true,
            ApStage::Failed { .. } => true,
            _ => false,
        }
    }

    fn turn_to_next(&mut self, mm: &mut MemoryManager) -> (action: ApAction)
        ensures
            old(self)@.wf(),
            final(self)@.wf(),
            (final(self)@, final(mm)@, action) == old(self)@.turn_to_next(old(mm)@),
    {
        let ghost before = self@;
        let ghost map = mm@;
        proof {
            use_type_invariant(&*self);
            crate::acpi::lemma_next_yields_first(before.ids.records, before.ids.pointer);
            mm.lemma_address_in_range();
        }
        let mut ids = self.ids;
        let next = ids.next();
        self.ids = ids;
        match next {
            None => {
                self.stage = ApStage::Finished;
                ApAction::Finished { num_of_cpu: self.num_of_cpu }
            },
            Some(apic_id) => {
                if apic_id == self.bsp_apic_id {
                    self.stage = ApStage::NextTarget;
                    return ApAction::SkipBootProcessor { apic_id };
                }
                self.num_of_cpu = self.num_of_cpu + 1;
                if apic_id > MAX_APIC_ID {
                    let error = ApError::ApicIdTooLarge { apic_id };
                    self.stage = ApStage::Failed { error };
                    return ApAction::Failed { error };
                }
                match mm.alloc_with_align(STACK_SIZE, STACK_ALIGN) {
                    None => {
                        let error = ApError::OutOfMemory;
                        self.stage = ApStage::Failed { error };
                        ApAction::Failed { error }
                    },
                    Some(stack) => {
                        proof {
                            lemma_aligned_allocation_in_reported_record(
                                map,
                                map,
                                STACK_SIZE as int,
                                STACK_ALIGN as int,
                            );
                        }
                        self.target = apic_id;
                        self.polls = 0;
                        self.stage = ApStage::ClearBootFlag;
                        ApAction::StoreStackTop {
                            address: self.stack_slot,
                            value: (stack + STACK_SIZE) as u64,
                        }
                    },
                }
            },
        }
    }

    /// Names the next thing to do. `boot_flag` is the value of the boot
    /// flag, where the step before asked to read it.
    pub fn step(&mut self, mm: &mut MemoryManager, boot_flag: bool) -> (action: ApAction)
        ensures
            old(self)@.wf(),
            final(self)@.wf(),
            (final(self)@, final(mm)@, action) == old(self)@.step(old(mm)@, boot_flag),
            action matches ApAction::StoreStackTop { address, value } ==> {
                &&& old(mm)@.aligned_result(STACK_SIZE as int, STACK_ALIGN as int).is_some()
                &&& value == old(mm)@.aligned_result(
                    STACK_SIZE as int,
                    STACK_ALIGN as int,
                ).unwrap() + STACK_SIZE
                &&& address == old(self)@.stack_slot
            },
    {
        proof {
            use_type_invariant(&*self);
            mm.lemma_address_in_range();
            if mm@.aligned_result(STACK_SIZE as int, STACK_ALIGN as int).is_some() {
                lemma_aligned_allocation_in_reported_record(
                    mm@,
                    mm@,
                    STACK_SIZE as int,
                    STACK_ALIGN as int,
                );
            }
        }
        match self.stage {
            ApStage::CopyBootCode => {
                self.stage = ApStage::InstallPerCpuData;
                ApAction::CopyBootCode { address: self.boot_code_address }
            },
            ApStage::InstallPerCpuData => {
                self.stage = ApStage::NextTarget;
                ApAction::InstallPerCpuData {
                    data: self.bsp_data,
                    register: gs_base_register(self.bsp_data.self_pointer),
                }
            },
            ApStage::NextTarget => self.turn_to_next(mm),
            ApStage::ClearBootFlag => {
                self.stage = ApStage::InitAssert;
                ApAction::ClearBootFlag
            },
            ApStage::InitAssert => {
                self.stage = ApStage::InitAssertWait;
                ApAction::SendInterrupt {
                    command: send_interrupt_command(self.target, DELIVERY_MODE_INIT, 1, 1, 0),
                }
            },
            ApStage::InitAssertWait => {
                self.stage = ApStage::InitDeassert;
                ApAction::BusyWaitUs { us: INIT_ASSERT_WAIT_US }
            },
            ApStage::InitDeassert => {
                self.stage = ApStage::InitDeassertWait;
                ApAction::SendInterrupt {
                    command: send_interrupt_command(self.target, DELIVERY_MODE_INIT, 1, 0, 0),
                }
            },
            ApStage::InitDeassertWait => {
                self.stage = ApStage::FirstStartup;
                ApAction::BusyWaitMs { ms: INIT_DEASSERT_WAIT_MS }
            },
            ApStage::FirstStartup => {
                self.stage = ApStage::StartupWait;
                let vector = self.vector();
                ApAction::SendInterrupt {
                    command: send_interrupt_command(
                        self.target,
                        DELIVERY_MODE_STARTUP,
                        0,
                        1,
                        vector,
                    ),
                }
            },
            ApStage::StartupWait => {
                self.stage = ApStage::SecondStartup;
                ApAction::BusyWaitUs { us: STARTUP_WAIT_US }
            },
            ApStage::SecondStartup => {
                self.stage = ApStage::ReadBootFlag;
                let vector = self.vector();
                ApAction::SendInterrupt {
                    command: send_interrupt_command(
                        self.target,
                        DELIVERY_MODE_STARTUP,
                        0,
                        1,
                        vector,
                    ),
                }
            },
            ApStage::ReadBootFlag => {
                if self.polls < POLL_LIMIT {
                    self.stage = ApStage::CheckBootFlag;
                    ApAction::ReadBootFlag
                } else {
                    let error = ApError::NoResponse { apic_id: self.target };
                    self.stage = ApStage::Failed { error };
                    ApAction::Failed { error }
                }
            },
            ApStage::CheckBootFlag => {
                if boot_flag {
                    self.turn_to_next(mm)
                } else {
                    self.stage = ApStage::ReadBootFlag;
                    self.polls = self.polls + 1;
                    ApAction::BusyWaitMs { ms: POLL_WAIT_MS }
                }
            },
            ApStage::Finished => ApAction::Finished { num_of_cpu: self.num_of_cpu },
            ApStage::Failed { error } => ApAction::Failed { error },
        }
    }
}

impl ApState {
    /// The state, the memory map and the actions after one step for each of
    /// `flags`, the last of which is fed to the last step.
    pub open spec fn run(self, mm: MapState, flags: Seq<bool>) -> (ApState, MapState, Seq<ApAction>)
        decreases flags.len(),
    {
        if flags.len() == 0 {
            (self, mm, Seq::empty())
        } else {
            let (state, map, actions) = self.run(mm, flags.drop_last());
            let (next_state, next_map, action) = state.step(map, flags.last());
            (next_state, next_map, actions.push(action))
        }
    }
}

/// What the caller is told to do for the processor `target` once its stack
/// is in place: clear the flag, assert INIT, wait, de-assert INIT, wait,
/// send the startup interrupt, wait, and send it again.
pub open spec fn handshake(target: u32, vector: u8) -> Seq<ApAction> {
    seq![
        ApAction::ClearBootFlag,
        ApAction::SendInterrupt { command: init_command(target, true) },
        ApAction::BusyWaitUs { us: INIT_ASSERT_WAIT_US },
        ApAction::SendInterrupt { command: init_command(target, false) },
        ApAction::BusyWaitMs { ms: INIT_DEASSERT_WAIT_MS },
        ApAction::SendInterrupt { command: startup_command(target, vector) },
        ApAction::BusyWaitUs { us: STARTUP_WAIT_US },
        ApAction::SendInterrupt { command: startup_command(target, vector) },
    ]
}

/// Every step of a bring-up leaves a bring-up of which [`ApState::wf`]
/// holds.
pub proof fn lemma_step_keeps_wf(state: ApState, mm: MapState, boot_flag: bool)
    requires
        state.wf(),
        0 <= mm.address,
    ensures
        state.step(mm, boot_flag).0.wf(),
        state.step(mm, boot_flag).1.shrunk_from(mm),
{
    crate::acpi::lemma_next_yields_first(state.ids.records, state.ids.pointer);
    crate::memory::lemma_alloc_shrinks(mm, STACK_SIZE + STACK_ALIGN);
    if mm.aligned_result(STACK_SIZE as int, STACK_ALIGN as int).is_some() {
        lemma_aligned_allocation_in_reported_record(mm, mm, STACK_SIZE as int, STACK_ALIGN as int);
    }
}

/// An interrupt is only ever sent to the processor being woken, which is
/// not the running one and whose id fits the command's destination field.
pub proof fn lemma_interrupts_go_to_target(state: ApState, mm: MapState, boot_flag: bool)
    requires
        state.wf(),
        state.step(mm, boot_flag).2 is SendInterrupt,
    ensures
        state.in_handshake(),
        state.target != state.bsp_apic_id,
        state.target <= MAX_APIC_ID,
        state.step(mm, boot_flag).2->command.high == icr_high(state.target),
        state.step(mm, boot_flag).2->command.high / 0x100_0000 == state.target,
{
    crate::acpi::lemma_next_yields_first(state.ids.records, state.ids.pointer);
}

/// Once a processor's stack is in place, the next eight steps tell the
/// caller to carry out the handshake with it, in order and whatever the
/// boot flag holds meanwhile; the memory map is left alone, and the step
/// after them reads the boot flag for the first time.
pub proof fn lemma_handshake_order(state: ApState, mm: MapState, flags: Seq<bool>)
    requires
        state.stage == ApStage::ClearBootFlag,
        flags.len() == 8,
    ensures
        state.run(mm, flags).0 == state.at(ApStage::ReadBootFlag),
        state.run(mm, flags).1 == mm,
        state.run(mm, flags).2 == handshake(state.target, state.vector()),
{
    let f7 = flags.drop_last();
    let f6 = f7.drop_last();
    let f5 = f6.drop_last();
    let f4 = f5.drop_last();
    let f3 = f4.drop_last();
    let f2 = f3.drop_last();
    let f1 = f2.drop_last();
    let f0 = f1.drop_last();
    assert(state.run(mm, f0) == (state, mm, Seq::<ApAction>::empty()));
    assert(state.run(mm, f1).0 == state.at(ApStage::InitAssert));
    assert(state.run(mm, f2).0 == state.at(ApStage::InitAssertWait));
    assert(state.run(mm, f3).0 == state.at(ApStage::InitDeassert));
    assert(state.run(mm, f4).0 == state.at(ApStage::InitDeassertWait));
    assert(state.run(mm, f5).0 == state.at(ApStage::FirstStartup));
    assert(state.run(mm, f6).0 == state.at(ApStage::StartupWait));
    assert(state.run(mm, f7).0 == state.at(ApStage::SecondStartup));
    assert(state.run(mm, flags).2 =~= handshake(state.target, state.vector()));
}

/// A processor is given up only after the boot flag was read, and found
/// unset, [`POLL_LIMIT`] times.
pub proof fn lemma_gives_up_after_limit(state: ApState, mm: MapState, boot_flag: bool)
    requires
        state.wf(),
        !(state.stage is Failed),
        state.step(mm, boot_flag).2 is Failed,
        state.step(mm, boot_flag).2->error is NoResponse,
    ensures
        state.stage == ApStage::ReadBootFlag,
        state.polls == POLL_LIMIT,
        state.step(mm, boot_flag).2->error == (ApError::NoResponse { apic_id: state.target }),
{
}

/// While the boot flag is found unset, reading it and waiting take turns,
/// and each wait is counted.
pub proof fn lemma_poll_counts(state: ApState, mm: MapState, boot_flag: bool)
    requires
        state.wf(),
        state.stage == ApStage::ReadBootFlag,
        state.polls < POLL_LIMIT,
    ensures
        state.step(mm, boot_flag).2 == ApAction::ReadBootFlag,
        state.step(mm, boot_flag).0.step(mm, false).2 == (ApAction::BusyWaitMs {
            ms: POLL_WAIT_MS,
        }),
        state.step(mm, boot_flag).0.step(mm, false).0 == (ApState {
            polls: (state.polls + 1) as u32,
            ..state
        }),
{
}

/// The waits of the handshake fit every PM timer, 24 or 32 bits wide, and
/// none of them is shorter than a tick.
pub proof fn lemma_handshake_waits_fit(timer: AcpiPmTimer)
    ensures
        timer.can_wait_us(INIT_ASSERT_WAIT_US as int),
        timer.can_wait_ms(INIT_DEASSERT_WAIT_MS as int),
        timer.can_wait_us(STARTUP_WAIT_US as int),
        timer.can_wait_ms(POLL_WAIT_MS as int),
{
}

/// The ids that a source at offset `at` still yields, without the running
/// processor's: the processors that are still to be woken, in order.
pub open spec fn targets_from(records: Seq<u8>, at: int, bsp_apic_id: u32) -> Seq<u32>
    decreases records.len() - at,
{
    let (pointer, id) = next_from(records, at);
    match id {
        None => Seq::empty(),
        Some(apic_id) => if at < pointer <= records.len() {
            if apic_id == bsp_apic_id {
                targets_from(records, pointer, bsp_apic_id)
            } else {
                seq![apic_id] + targets_from(records, pointer, bsp_apic_id)
            }
        } else {
            Seq::empty()
        },
    }
}

/// The interrupts that waking `targets` takes: for each of them, in order,
/// INIT asserted, INIT de-asserted, and the startup interrupt twice.
pub open spec fn wake_commands(targets: Seq<u32>, vector: u8) -> Seq<InterruptCommand>
    decreases targets.len(),
{
    if targets.len() == 0 {
        Seq::empty()
    } else {
        handshake_commands(targets[0], vector) + wake_commands(
            targets.subrange(1, targets.len() as int),
            vector,
        )
    }
}

/// The interrupts among `actions`, in order.
pub open spec fn sent(actions: Seq<ApAction>) -> Seq<InterruptCommand>
    decreases actions.len(),
{
    if actions.len() == 0 {
        Seq::empty()
    } else {
        match actions.last() {
            ApAction::SendInterrupt { command } => sent(actions.drop_last()).push(command),
            _ => sent(actions.drop_last()),
        }
    }
}

/// The memory map can serve `count` stacks, one after another.
pub open spec fn stacks_available(mm: MapState, count: nat) -> bool
    decreases count,
{
    count == 0 || (mm.aligned_result(STACK_SIZE as int, STACK_ALIGN as int).is_some()
        && stacks_available(mm.after_alloc(STACK_SIZE + STACK_ALIGN), (count - 1) as nat))
}

/// `count` readings of the boot flag that all find it set.
pub open spec fn all_set(count: nat) -> Seq<bool> {
    Seq::new(count, |i: int| true)
}

/// The interrupts of two runs of actions, one behind the other, are those
/// of the first followed by those of the second.
pub proof fn lemma_sent_concat(first: Seq<ApAction>, second: Seq<ApAction>)
    ensures
        sent(first + second) == sent(first) + sent(second),
    decreases second.len(),
{
    if second.len() == 0 {
        assert(first + second =~= first);
        assert(sent(first) + sent(second) =~= sent(first));
    } else {
        lemma_sent_concat(first, second.drop_last());
        assert((first + second).drop_last() =~= first + second.drop_last());
        assert((first + second).last() == second.last());
        assert(sent(first + second) =~= sent(first) + sent(second));
    }
}

/// Running on from where a run ended is one longer run.
pub proof fn lemma_run_concat(state: ApState, mm: MapState, first: Seq<bool>, second: Seq<bool>)
    ensures
        state.run(mm, first + second) == ({
            let middle = state.run(mm, first);
            let end = middle.0.run(middle.1, second);
            (end.0, end.1, middle.2 + end.2)
        }),
    decreases second.len(),
{
    let middle = state.run(mm, first);
    if second.len() == 0 {
        assert(first + second =~= first);
        assert(middle.2 + Seq::<ApAction>::empty() =~= middle.2);
    } else {
        lemma_run_concat(state, mm, first, second.drop_last());
        assert((first + second).drop_last() =~= first + second.drop_last());
        assert((first + second).last() == second.last());
        let before = middle.0.run(middle.1, second.drop_last());
        let last = before.0.step(before.1, second.last());
        assert((middle.2 + before.2).push(last.2) =~= middle.2 + before.2.push(last.2));
    }
}

/// A run of one step is that step.
pub proof fn lemma_run_one(state: ApState, mm: MapState, boot_flag: bool)
    ensures
        state.run(mm, seq![boot_flag]) == ({
            let step = state.step(mm, boot_flag);
            (step.0, step.1, seq![step.2])
        }),
{
    let flags = seq![boot_flag];
    assert(flags.drop_last() =~= Seq::<bool>::empty());
    assert(state.run(mm, flags.drop_last()) == (state, mm, Seq::<ApAction>::empty()));
    let step = state.step(mm, boot_flag);
    assert(Seq::<ApAction>::empty().push(step.2) =~= seq![step.2]);
}

/// The interrupts of a single action.
pub proof fn lemma_sent_one(action: ApAction)
    ensures
        sent(seq![action]) == (match action {
            ApAction::SendInterrupt { command } => seq![command],
            _ => Seq::<InterruptCommand>::empty(),
        }),
{
    let actions = seq![action];
    assert(actions.drop_last() =~= Seq::<ApAction>::empty());
    assert(sent(actions.drop_last()) =~= Seq::<InterruptCommand>::empty());
    assert(actions.last() == action);
    match action {
        ApAction::SendInterrupt { command } => {
            assert(Seq::<InterruptCommand>::empty().push(command) =~= seq![command]);
        },
        _ => {},
    }
}

/// The four interrupts of the handshake with `target`.
pub open spec fn handshake_commands(target: u32, vector: u8) -> Seq<InterruptCommand> {
    seq![
        init_command(target, true),
        init_command(target, false),
        startup_command(target, vector),
        startup_command(target, vector),
    ]
}

/// The state in which the bring-up waits for the processor `apic_id`,
/// which the source yielded on its way to `pointer`, to answer.
pub open spec fn waiting_for(state: ApState, pointer: int, apic_id: u32) -> ApState {
    ApState {
        ids: ApicIdListState { pointer, ..state.ids },
        num_of_cpu: (state.num_of_cpu + 1) as usize,
        target: apic_id,
        polls: 0,
        stage: ApStage::CheckBootFlag,
        ..state
    }
}

/// Waking one processor takes ten steps: its stack is stored, the
/// handshake is carried out, and the boot flag is read. The interrupts
/// sent are the four of its handshake, and a stack was taken from the
/// memory map.
pub proof fn lemma_wake_one(state: ApState, mm: MapState)
    requires
        state.wf(),
        state.stage == ApStage::NextTarget || state.stage == ApStage::CheckBootFlag,
        next_from(state.ids.records, state.ids.pointer).1 matches Some(apic_id) && apic_id
            != state.bsp_apic_id && apic_id <= MAX_APIC_ID,
        mm.aligned_result(STACK_SIZE as int, STACK_ALIGN as int).is_some(),
    ensures
        state.run(mm, all_set(10)).0 == waiting_for(
            state,
            next_from(state.ids.records, state.ids.pointer).0,
            next_from(state.ids.records, state.ids.pointer).1.unwrap(),
        ),
        state.run(mm, all_set(10)).1 == mm.after_alloc(STACK_SIZE + STACK_ALIGN),
        sent(state.run(mm, all_set(10)).2) == handshake_commands(
            next_from(state.ids.records, state.ids.pointer).1.unwrap(),
            state.vector(),
        ),
{
    let apic_id = next_from(state.ids.records, state.ids.pointer).1.unwrap();
    let first = state.step(mm, true);
    lemma_run_one(state, mm, true);
    let armed = first.0;
    assert(armed.stage == ApStage::ClearBootFlag);
    assert(first.2 is StoreStackTop);
    lemma_handshake_order(armed, first.1, all_set(8));
    let shaken = armed.run(first.1, all_set(8));
    let polled = shaken.0.step(shaken.1, true);
    lemma_run_one(shaken.0, shaken.1, true);
    assert(polled.2 == ApAction::ReadBootFlag);
    assert(all_set(1) =~= seq![true]);
    lemma_run_concat(armed, first.1, all_set(8), all_set(1));
    lemma_run_concat(state, mm, all_set(1), all_set(8) + all_set(1));
    assert(all_set(10) =~= all_set(1) + (all_set(8) + all_set(1)));
    lemma_sent_one(first.2);
    lemma_sent_one(polled.2);
    lemma_sent_handshake(apic_id, state.vector());
    lemma_sent_concat(shaken.2, seq![polled.2]);
    lemma_sent_concat(seq![first.2], shaken.2 + seq![polled.2]);
    assert(Seq::<InterruptCommand>::empty() + (handshake_commands(apic_id, state.vector())
        + Seq::<InterruptCommand>::empty()) =~= handshake_commands(apic_id, state.vector()));
}

/// A whole bring-up wakes each processor once. Where every processor that
/// the source still yields can be addressed, the memory map serves a stack
/// for each, and each sets the boot flag before it is first read, the
/// bring-up ends as finished after `steps` steps. The interrupts sent on
/// the way are those of one handshake for each processor other than the
/// running one, in the order of the source, and every such processor is
/// counted.
pub proof fn lemma_wakes_each_target_once(state: ApState, mm: MapState) -> (steps: nat)
    requires
        state.wf(),
        0 <= mm.address,
        state.stage == ApStage::NextTarget || state.stage == ApStage::CheckBootFlag,
        forall|i: int|
            0 <= i < targets_from(state.ids.records, state.ids.pointer, state.bsp_apic_id).len()
                ==> #[trigger] targets_from(
                state.ids.records,
                state.ids.pointer,
                state.bsp_apic_id,
            )[i] <= MAX_APIC_ID,
        stacks_available(
            mm,
            targets_from(state.ids.records, state.ids.pointer, state.bsp_apic_id).len(),
        ),
    ensures
        state.run(mm, all_set(steps)).0.stage == ApStage::Finished,
        sent(state.run(mm, all_set(steps)).2) == wake_commands(
            targets_from(state.ids.records, state.ids.pointer, state.bsp_apic_id),
            state.vector(),
        ),
        state.run(mm, all_set(steps)).0.num_of_cpu == state.num_of_cpu + targets_from(
            state.ids.records,
            state.ids.pointer,
            state.bsp_apic_id,
        ).len(),
    decreases state.ids.records.len() - state.ids.pointer,
{
    let records = state.ids.records;
    let bsp = state.bsp_apic_id;
    let targets = targets_from(records, state.ids.pointer, bsp);
    let (pointer, id) = next_from(records, state.ids.pointer);
    crate::acpi::lemma_next_yields_first(records, state.ids.pointer);
    match id {
        None => {
            lemma_run_one(state, mm, true);
            assert(all_set(1) =~= seq![true]);
            lemma_sent_one(state.step(mm, true).2);
            1
        },
        Some(apic_id) => {
            let later = targets_from(records, pointer, bsp);
            if apic_id == bsp {
                let first = state.step(mm, true);
                lemma_step_keeps_wf(state, mm, true);
                lemma_run_one(state, mm, true);
                assert(all_set(1) =~= seq![true]);
                assert(targets == later);
                let rest = lemma_wakes_each_target_once(first.0, first.1);
                let tail = first.0.run(first.1, all_set(rest));
                lemma_run_concat(state, mm, all_set(1), all_set(rest));
                assert(all_set(1 + rest) =~= all_set(1) + all_set(rest));
                lemma_sent_concat(seq![first.2], tail.2);
                lemma_sent_one(first.2);
                assert(Seq::<InterruptCommand>::empty() + sent(tail.2) =~= sent(tail.2));
                1 + rest
            } else {
                assert(targets =~= seq![apic_id] + later);
                assert(targets[0] == apic_id);
                assert(targets.subrange(1, targets.len() as int) =~= later);
                assert forall|i: int| 0 <= i < later.len() implies #[trigger] later[i]
                    <= MAX_APIC_ID by {
                    assert(targets[i + 1] == later[i]);
                }
                lemma_wake_one(state, mm);
                let woken = state.run(mm, all_set(10));
                crate::memory::lemma_alloc_shrinks(mm, STACK_SIZE + STACK_ALIGN);
                lemma_aligned_allocation_in_reported_record(
                    mm,
                    mm,
                    STACK_SIZE as int,
                    STACK_ALIGN as int,
                );
                assert(woken.0.wf());
                let rest = lemma_wakes_each_target_once(woken.0, woken.1);
                let tail = woken.0.run(woken.1, all_set(rest));
                lemma_run_concat(state, mm, all_set(10), all_set(rest));
                assert(all_set(10 + rest) =~= all_set(10) + all_set(rest));
                lemma_sent_concat(woken.2, tail.2);
                10 + rest
            }
        },
    }
}

/// The interrupts of one handshake.
pub proof fn lemma_sent_handshake(target: u32, vector: u8)
    ensures
        sent(handshake(target, vector)) == handshake_commands(target, vector),
{
    let h = handshake(target, vector);
    let h7 = h.drop_last();
    let h6 = h7.drop_last();
    let h5 = h6.drop_last();
    let h4 = h5.drop_last();
    let h3 = h4.drop_last();
    let h2 = h3.drop_last();
    let h1 = h2.drop_last();
    let h0 = h1.drop_last();
    assert(sent(h0) =~= Seq::<InterruptCommand>::empty());
    assert(sent(h1) =~= Seq::<InterruptCommand>::empty());
    assert(sent(h2) =~= seq![init_command(target, true)]);
    assert(sent(h3) =~= seq![init_command(target, true)]);
    assert(sent(h4) =~= seq![init_command(target, true), init_command(target, false)]);
    assert(sent(h5) =~= seq![init_command(target, true), init_command(target, false)]);
    assert(sent(h6) =~= seq![
        init_command(target, true),
        init_command(target, false),
        startup_command(target, vector),
    ]);
    assert(sent(h7) =~= seq![
        init_command(target, true),
        init_command(target, false),
        startup_command(target, vector),
    ]);
    assert(sent(h) =~= seq![
        init_command(target, true),
        init_command(target, false),
        startup_command(target, vector),
        startup_command(target, vector),
    ]);
}

} // verus!
