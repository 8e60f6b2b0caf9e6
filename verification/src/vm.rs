//! The decisions of the VM run loop: what the host does with each exit, and
//! in which order mapping, shootdown and re-entry follow one another.
//!
//! The caller owns the hardware. It enters the guest, decodes the exit, hands
//! the event to [`Vm::on_exit`], performs the action that comes back and
//! reports completion where the action asks for it.
use vstd::prelude::*;
use crate::arch::{
    advance, page_aligned, page_base, page_of, spec_advance, Arch, MapPolicy, PlatformShutdown,
    Shootdown, PAGE_SIZE,
};
use crate::context::{Aarch64Context, RiscvContext};
use crate::exit::{
    aarch64_event, decode_aarch64, decode_riscv, riscv_event, svm_event, AccessKind, Diagnostic,
    ExitEvent,
};
use crate::vmcb::Vmcb;
use crate::s2as::{
    allocated_onto, frame_in_use, fresh_pages, page_in, passthrough_onto, within, zeroed_onto, MapError, Mapping, Perms,
    SecondStage,
};

verus! {

/// Function id of the request to print one character, on every back end. On
/// RISC-V it is the legacy SBI console extension.
pub const HC_PUTCHAR: u64 = 1;

/// Function id of the exit request of an AArch64 guest.
pub const HC_EXIT_AARCH64: u64 = 2;

/// Extension id of the legacy SBI shutdown call.
pub const SBI_LEGACY_SHUTDOWN: u64 = 8;

/// Extension id of the SBI system reset extension, the letters `SRST`.
pub const SBI_SRST: u64 = 0x5352_5354;

/// The value of `rax` with which an x86_64 guest asks to exit.
pub const HC_EXIT_RAX: u64 = 0x8400_0008;

/// What a hypercall asks of the host.
#[derive(Clone, Copy, Debug, PartialEq, Eq, Structural)]
pub enum Request {
    /// Print one byte on the host console.
    Putchar { byte: u8 },
    /// End the guest.
    Exit,
    /// Something the host does not offer.
    Unknown { function_id: u64 },
}

/// Why the run loop gave up.
#[derive(Clone, Copy, Debug, PartialEq, Eq, Structural)]
pub enum AbortCause {
    /// The exit reason lies outside the handled set.
    FatalExit { diagnostic: Diagnostic },
    /// The guest touched an address outside the region of its address space.
    FaultOutsideRegion { gpa: u64, kind: AccessKind },
    /// A page could not be mapped.
    MappingFailure { error: MapError },
}

/// What the caller does next.
#[derive(Clone, Copy, Debug, PartialEq, Eq, Structural)]
pub enum Action {
    /// Enter the guest again.
    Resume,
    /// Write the byte to the host console, then enter the guest again.
    Emit { byte: u8 },
    /// Log the unknown function id, then enter the guest again.
    Warn { function_id: u64 },
    /// Install the mapping in the page table, perform the shootdown, report
    /// with [`Vm::installed`], then enter the guest again.
    Install { gpa: u64, hpa: u64, perms: Perms, backing: MapPolicy, shootdown: Shootdown },
    /// Take a frame from the host allocator for the page at `gpa` and hand it
    /// to [`Vm::supply_frame`].
    NeedFrame { gpa: u64 },
    /// Leave the loop, put the host's translation root back where
    /// `restore_root` says so, and power the platform off.
    Stop { restore_root: bool, shutdown: PlatformShutdown },
    /// Leave the loop and abort with the cause.
    Abort { cause: AbortCause },
}

/// Why the payload could not be placed in guest memory.
#[derive(Clone, Copy, Debug, PartialEq, Eq, Structural)]
pub enum LoaderError {
    /// The file system could not read the payload.
    ReadFailed,
    /// The payload does not fit between the entry address and the end of the region.
    TooLarge,
    /// The pages for the payload could not be mapped.
    Mapping { error: MapError },
}

/// Where the run loop stands.
#[derive(Clone, Copy, Debug, PartialEq, Eq, Structural)]
pub enum Phase {
    /// Nothing is mapped; the payload has not been loaded.
    Loading,
    /// Mappings were handed out that the caller has not reported installed.
    Installing,
    /// The guest may be entered; the next event is an exit.
    Ready,
    /// A page waits for a frame from the host allocator.
    AwaitingFrame,
    /// The guest asked to exit. Nothing follows.
    Stopped,
    /// The loop gave up. Nothing follows.
    Aborted,
}

/// The action for an exit and the program counter to enter the guest with.
#[derive(Clone, Copy, Debug, PartialEq, Eq, Structural)]
pub struct Step {
    pub action: Action,
    pub pc: u64,
}

/// One guest with its second-stage address space.
pub struct Vm {
    arch: Arch,
    phase: Phase,
    pending: u64,
    space: SecondStage,
}

/// What a hypercall with this function id and these arguments asks for.
pub open spec fn spec_classify(arch: Arch, function_id: u64, args: [u64; 8]) -> Request {
    match arch {
        Arch::Riscv64 => if function_id == 8 || function_id == 0x5352_5354 {
            Request::Exit
        } else if function_id == 1 {
            Request::Putchar { byte: (args[0] & 0xFF) as u8 }
        } else {
            Request::Unknown { function_id }
        },
        Arch::Aarch64 => if function_id == 2 {
            Request::Exit
        } else if function_id == 1 {
            Request::Putchar { byte: (args[0] & 0xFF) as u8 }
        } else {
            Request::Unknown { function_id }
        },
        Arch::X86_64 => if args[1] == 0x8400_0008 {
            Request::Exit
        } else if function_id == 1 {
            Request::Putchar { byte: (args[0] & 0xFF) as u8 }
        } else {
            Request::Unknown { function_id }
        },
    }
}

/// What a hypercall with this function id and these arguments asks for.
#[verifier::when_used_as_spec(spec_classify)]
pub fn classify(arch: Arch, function_id: u64, args: [u64; 8]) -> (r: Request)
    ensures
        r == spec_classify(arch, function_id, args),
{
    let exit = match arch {
        Arch::Riscv64 => function_id == SBI_LEGACY_SHUTDOWN || function_id == SBI_SRST,
        Arch::Aarch64 => function_id == HC_EXIT_AARCH64,
        Arch::X86_64 => args[1] == HC_EXIT_RAX,
    };
    if exit {
        Request::Exit
    } else if function_id == HC_PUTCHAR {
        let first: u64 = args[0];
        let low: u64 = first & 0xFF;
        assert(low < 256) by (bit_vector)
            requires
                low == first & 0xFF,
        ;
        Request::Putchar { byte: low as u8 }
    } else {
        Request::Unknown { function_id }
    }
}

/// The number of bytes of the whole pages that hold `len` bytes.
pub open spec fn spec_page_span(len: u64) -> int {
    (len + 0xFFF) / 0x1000 * 0x1000
}

/// The number of pages that hold `len` bytes, which is the number of frames
/// that loading a payload of that length takes.
pub fn pages_for(len: usize) -> (n: usize)
    ensures
        n == spec_page_span(len as u64) / 0x1000,
{
    if len % 4096 == 0 {
        len / 4096
    } else {
        len / 4096 + 1
    }
}

/// Whether the first `n` of the frames offered are page-aligned and differ
/// from one another.
pub open spec fn frames_distinct(frames: Seq<u64>, n: int) -> bool {
    &&& forall|k: int| 0 <= k < n ==> page_aligned(#[trigger] frames[k])
    &&& forall|j: int, k: int| 0 <= j < k < n ==> #[trigger] frames[j] != #[trigger] frames[k]
}

/// The first `n` pages from `gpa` on, in ascending order.
pub open spec fn pages_from(gpa: u64, n: int) -> Seq<u64> {
    Seq::new(n as nat, |k: int| (gpa + k * 0x1000) as u64)
}

/// Where nothing is mapped, every page of a range is one that a mapping adds.
pub proof fn lemma_fresh_pages_of_nothing(gpa: u64, n: int)
    requires
        0 <= n,
    ensures
        fresh_pages(Map::<u64, Mapping>::empty(), gpa, n) == pages_from(gpa, n),
    decreases n,
{
    if n > 0 {
        lemma_fresh_pages_of_nothing(gpa, n - 1);
        assert(pages_from(gpa, n) =~= pages_from(gpa, n - 1).push((gpa + (n - 1) * 0x1000) as u64));
    } else {
        assert(pages_from(gpa, n) =~= Seq::<u64>::empty());
    }
}

/// How loading ends: the first of the failures that applies, or success.
pub open spec fn load_outcome(arch: Arch, image: Option<&[u8]>, frames: Seq<u64>) -> Result<
    (),
    LoaderError,
> {
    match image {
        None => Err(LoaderError::ReadFailed),
        Some(payload) => {
            let len = payload@.len() as u64;
            if !within(arch.spec_region_base(), arch.spec_region_size(), arch.spec_vm_entry(), len) {
                Err(LoaderError::TooLarge)
            } else if frames.len() * 0x1000 < spec_page_span(len) {
                Err(LoaderError::Mapping { error: MapError::OutOfFrames })
            } else if !frames_distinct(frames, spec_page_span(len) / 0x1000) {
                Err(LoaderError::Mapping { error: MapError::FrameInUse })
            } else {
                Ok(())
            }
        },
    }
}

/// The kept bytes after the payload was placed at `entry`: the payload, then
/// zeroes up to the end of its last page.
pub open spec fn image_memory(entry: u64, payload: Seq<u8>) -> Map<u64, u8> {
    Map::new(
        |a: u64| entry <= a < entry + spec_page_span(payload.len() as u64),
        |a: u64|
            if a < entry + payload.len() {
                payload[a - entry]
            } else {
                0u8
            },
    )
}

/// Whether `gpa` lies in the second-stage region of the back end.
pub open spec fn in_region(arch: Arch, gpa: u64) -> bool {
    arch.spec_region_base() <= gpa < arch.spec_region_base() + arch.spec_region_size()
}

/// The step that the run loop of `arch` takes on `event` when the pages of
/// `m` are mapped and the guest stood at `pc`.
pub open spec fn step_on(arch: Arch, m: Map<u64, Mapping>, event: ExitEvent, pc: u64) -> Step {
    match event {
        ExitEvent::Hypercall { function_id, args } => match spec_classify(arch, function_id, args) {
            Request::Putchar { byte } => Step {
                action: Action::Emit { byte },
                pc: spec_advance(pc, arch.spec_hypercall_len()),
            },
            Request::Exit => Step {
                action: Action::Stop {
                    restore_root: arch.spec_restores_root(),
                    shutdown: arch.spec_platform_shutdown(),
                },
                pc,
            },
            Request::Unknown { function_id } => Step {
                action: Action::Warn { function_id },
                pc: spec_advance(pc, arch.spec_hypercall_len()),
            },
        },
        ExitEvent::PageFault { gpa, kind } => Step {
            action: if !in_region(arch, gpa) {
                Action::Abort { cause: AbortCause::FaultOutsideRegion { gpa, kind } }
            } else if m.contains_key(page_base(gpa)) {
                Action::Resume
            } else {
                match arch.spec_map_policy() {
                    MapPolicy::Passthrough => Action::Install {
                        gpa: page_base(gpa),
                        hpa: page_base(gpa),
                        perms: Perms::spec_all(),
                        backing: MapPolicy::Passthrough,
                        shootdown: arch.spec_shootdown(),
                    },
                    MapPolicy::Allocated => Action::NeedFrame { gpa: page_base(gpa) },
                }
            },
            pc,
        },
        ExitEvent::Shutdown { reason } => Step {
            action: Action::Stop {
                restore_root: arch.spec_restores_root(),
                shutdown: arch.spec_platform_shutdown(),
            },
            pc,
        },
        ExitEvent::Fatal { diagnostic } => Step {
            action: Action::Abort { cause: AbortCause::FatalExit { diagnostic } },
            pc,
        },
    }
}

/// The action that follows when the page at `page` waits for a frame and the
/// host allocator answered with `frame`.
pub open spec fn frame_action_on(
    arch: Arch,
    m: Map<u64, Mapping>,
    page: u64,
    frame: Option<u64>,
) -> Action {
    match frame {
        None => Action::Abort { cause: AbortCause::MappingFailure { error: MapError::OutOfFrames } },
        Some(hpa) => if !page_aligned(hpa) || frame_in_use(m, hpa) {
            Action::Abort { cause: AbortCause::MappingFailure { error: MapError::FrameInUse } }
        } else {
            Action::Install {
                gpa: page,
                hpa,
                perms: Perms::spec_all(),
                backing: MapPolicy::Allocated,
                shootdown: arch.spec_shootdown(),
            }
        },
    }
}

/// The phase that follows an action.
pub open spec fn phase_after(action: Action) -> Phase {
    match action {
        Action::Resume => Phase::Ready,
        Action::Emit { .. } => Phase::Ready,
        Action::Warn { .. } => Phase::Ready,
        Action::Install { .. } => Phase::Installing,
        Action::NeedFrame { .. } => Phase::AwaitingFrame,
        Action::Stop { .. } => Phase::Stopped,
        Action::Abort { .. } => Phase::Aborted,
    }
}

/// The mappings that follow an action.
pub open spec fn mappings_after(m: Map<u64, Mapping>, action: Action) -> Map<u64, Mapping> {
    match action {
        Action::Install { gpa, hpa, perms, backing, .. } => m.insert(
            gpa,
            Mapping { hpa, perms, backing },
        ),
        _ => m,
    }
}

/// The order of mapping that follows an action.
pub open spec fn order_after(order: Seq<u64>, action: Action) -> Seq<u64> {
    match action {
        Action::Install { gpa, .. } => order.push(gpa),
        _ => order,
    }
}

impl Vm {
    /// The back end of the guest.
    pub closed spec fn spec_arch(&self) -> Arch {
        self.arch
    }

    /// Where the run loop stands.
    pub closed spec fn spec_phase(&self) -> Phase {
        self.phase
    }

    /// The page that waits for a frame, in phase `AwaitingFrame`.
    pub closed spec fn spec_pending(&self) -> u64 {
        self.pending
    }

    /// The second-stage address space of the guest.
    pub closed spec fn spec_space(&self) -> SecondStage {
        self.space
    }

    /// The invariant of the run loop: the address space is well formed and
    /// spans the region of the back end; nothing is mapped before the payload
    /// is loaded; the guest is entered only when no shootdown is owed; a page
    /// that waits for a frame lies in the region and is not mapped.
    pub closed spec fn wf(&self) -> bool {
        &&& self.space.wf()
        &&& self.space.spec_base() == self.arch.spec_region_base()
        &&& self.space.spec_size() == self.arch.spec_region_size()
        &&& self.phase == Phase::Loading ==> self.space.mappings() == Map::<u64, Mapping>::empty()
            && self.space.order() == Seq::<u64>::empty()
        &&& self.phase == Phase::Ready ==> !self.space.spec_stale()
        &&& self.phase == Phase::AwaitingFrame ==> {
            &&& page_aligned(self.pending)
            &&& self.space.spec_contains(self.pending)
            &&& !self.space.mappings().contains_key(self.pending)
        }
    }

    /// What the invariant says, for callers that cannot see inside it.
    pub proof fn lemma_wf(&self)
        requires
            self.wf(),
        ensures
            self.spec_space().wf(),
            self.spec_space().spec_base() == self.spec_arch().spec_region_base(),
            self.spec_space().spec_size() == self.spec_arch().spec_region_size(),
            self.spec_phase() == Phase::Loading ==> self.spec_space().mappings() == Map::<
                u64,
                Mapping,
            >::empty() && self.spec_space().order() == Seq::<u64>::empty(),
            self.spec_phase() == Phase::Ready ==> !self.spec_space().spec_stale(),
            self.spec_phase() == Phase::AwaitingFrame ==> page_aligned(self.spec_pending())
                && self.spec_space().spec_contains(self.spec_pending())
                && !self.spec_space().mappings().contains_key(self.spec_pending()),
            self.spec_space().mappings().dom().finite(),
    {
        self.space.lemma_order();
    }

    /// The step that the run loop takes on `event` when the guest stood at `pc`.
    pub open spec fn step_of(&self, event: ExitEvent, pc: u64) -> Step {
        step_on(self.spec_arch(), self.spec_space().mappings(), event, pc)
    }

    /// The action that follows when the host allocator answered the request
    /// for a frame with `frame`.
    pub open spec fn frame_action(&self, frame: Option<u64>) -> Action {
        frame_action_on(
            self.spec_arch(),
            self.spec_space().mappings(),
            self.spec_pending(),
            frame,
        )
    }

    /// A guest of the given back end with nothing mapped, whose top-level
    /// second-stage table lies at `root`.
    pub fn new(arch: Arch, root: u64) -> (vm: Vm)
        ensures
            vm.wf(),
            vm.spec_arch() == arch,
            vm.spec_phase() == Phase::Loading,
            vm.spec_space().spec_root() == root,
            vm.spec_space().mappings() == Map::<u64, Mapping>::empty(),
            vm.spec_space().memory() == Map::<u64, u8>::empty(),
            vm.spec_space().order() == Seq::<u64>::empty(),
    {
        let made = SecondStage::new_empty(arch.region_base(), arch.region_size(), root);
        Vm { arch, phase: Phase::Loading, pending: 0, space: made.unwrap() }
    }

    /// The back end of the guest.
    #[verifier::when_used_as_spec(spec_arch)]
    pub fn arch(&self) -> (r: Arch)
        ensures
            r == self.spec_arch(),
    {
        self.arch
    }

    /// Where the run loop stands.
    #[verifier::when_used_as_spec(spec_phase)]
    pub fn phase(&self) -> (r: Phase)
        ensures
            r == self.spec_phase(),
    {
        self.phase
    }

    /// The second-stage address space of the guest.
    pub fn space(&self) -> (r: &SecondStage)
        ensures
            *r == self.spec_space(),
    {
        &self.space
    }

    /// Whether the guest may be entered now.
    pub fn can_enter(&self) -> (r: bool)
        ensures
            r == (self.spec_phase() == Phase::Ready),
    {
        self.phase == Phase::Ready
    }

    /// Takes an exit of the guest, which stood at `pc`, and says what to do
    /// and where the guest goes on.
    pub fn on_exit(&mut self, event: ExitEvent, pc: u64) -> (step: Step)
        requires
            old(self).wf(),
            old(self).spec_phase() == Phase::Ready,
        ensures
            final(self).wf(),
            step == old(self).step_of(event, pc),
            final(self).spec_arch() == old(self).spec_arch(),
            final(self).spec_phase() == phase_after(step.action),
            final(self).spec_space().mappings() == mappings_after(
                old(self).spec_space().mappings(),
                step.action,
            ),
            final(self).spec_space().order() == order_after(
                old(self).spec_space().order(),
                step.action,
            ),
            final(self).spec_space().memory() == old(self).spec_space().memory(),
            final(self).spec_space().spec_root() == old(self).spec_space().spec_root(),
            step.action matches Action::NeedFrame { gpa } ==> final(self).spec_pending() == gpa,
    {
        match event {
            ExitEvent::Hypercall { function_id, args } => {
                match classify(self.arch, function_id, args) {
                    Request::Putchar { byte } => Step {
                        action: Action::Emit { byte },
                        pc: advance(pc, self.arch.hypercall_len()),
                    },
                    Request::Exit => {
                        self.phase = Phase::Stopped;
                        Step { action: self.stop_action(), pc }
                    },
                    Request::Unknown { function_id } => Step {
                        action: Action::Warn { function_id },
                        pc: advance(pc, self.arch.hypercall_len()),
                    },
                }
            },
            ExitEvent::PageFault { gpa, kind } => {
                let action = self.on_fault(gpa, kind);
                Step { action, pc }
            },
            ExitEvent::Shutdown { reason } => {
                self.phase = Phase::Stopped;
                Step { action: self.stop_action(), pc }
            },
            ExitEvent::Fatal { diagnostic } => {
                self.phase = Phase::Aborted;
                Step { action: Action::Abort { cause: AbortCause::FatalExit { diagnostic } }, pc }
            },
        }
    }

    /// The action that ends the loop in good order.
    fn stop_action(&self) -> (a: Action)
        ensures
            a == (Action::Stop {
                restore_root: self.arch.spec_restores_root(),
                shutdown: self.arch.spec_platform_shutdown(),
            }),
    {
        Action::Stop {
            restore_root: self.arch.restores_root(),
            shutdown: self.arch.platform_shutdown(),
        }
    }

    /// Services a second-stage fault at `gpa`.
    fn on_fault(&mut self, gpa: u64, kind: AccessKind) -> (action: Action)
        requires
            old(self).wf(),
            old(self).spec_phase() == Phase::Ready,
        ensures
            final(self).wf(),
            action == old(self).step_of(ExitEvent::PageFault { gpa, kind }, 0).action,
            final(self).spec_arch() == old(self).spec_arch(),
            final(self).spec_phase() == phase_after(action),
            final(self).spec_space().mappings() == mappings_after(
                old(self).spec_space().mappings(),
                action,
            ),
            final(self).spec_space().order() == order_after(
                old(self).spec_space().order(),
                action,
            ),
            final(self).spec_space().memory() == old(self).spec_space().memory(),
            final(self).spec_space().spec_root() == old(self).spec_space().spec_root(),
            action matches Action::NeedFrame { gpa } ==> final(self).spec_pending() == gpa,
    {
        if !self.space.contains(gpa) {
            self.phase = Phase::Aborted;
            return Action::Abort { cause: AbortCause::FaultOutsideRegion { gpa, kind } };
        }
        if self.space.is_mapped(gpa) {
            return Action::Resume;
        }
        let page = page_of(gpa);
        proof {
            lemma_one_page(self.space.mappings(), page);
            self.space.lemma_one_page_fresh(page);
        }
        match self.arch.map_policy() {
            MapPolicy::Passthrough => {
                let mapped = self.space.map_passthrough(page, PAGE_SIZE, Perms::all());
                assert(mapped is Ok);
                self.phase = Phase::Installing;
                Action::Install {
                    gpa: page,
                    hpa: page,
                    perms: Perms::all(),
                    backing: MapPolicy::Passthrough,
                    shootdown: self.arch.shootdown(),
                }
            },
            MapPolicy::Allocated => {
                self.phase = Phase::AwaitingFrame;
                self.pending = page;
                Action::NeedFrame { gpa: page }
            },
        }
    }

    /// Takes the answer of the host allocator to a request for a frame.
    pub fn supply_frame(&mut self, frame: Option<u64>) -> (action: Action)
        requires
            old(self).wf(),
            old(self).spec_phase() == Phase::AwaitingFrame,
        ensures
            final(self).wf(),
            action == old(self).frame_action(frame),
            final(self).spec_arch() == old(self).spec_arch(),
            final(self).spec_phase() == phase_after(action),
            final(self).spec_space().mappings() == mappings_after(
                old(self).spec_space().mappings(),
                action,
            ),
            final(self).spec_space().order() == order_after(
                old(self).spec_space().order(),
                action,
            ),
            final(self).spec_space().memory() == (if action is Install {
                zeroed_onto(
                    old(self).spec_space().memory(),
                    old(self).spec_space().mappings(),
                    old(self).spec_pending(),
                    0x1000,
                )
            } else {
                old(self).spec_space().memory()
            }),
            final(self).spec_space().spec_root() == old(self).spec_space().spec_root(),
    {
        match frame {
            None => {
                self.phase = Phase::Aborted;
                Action::Abort { cause: AbortCause::MappingFailure { error: MapError::OutOfFrames } }
            },
            Some(hpa) => {
                let page = self.pending;
                let mut frames: Vec<u64> = Vec::new();
                frames.push(hpa);
                proof {
                    lemma_one_frame(self.space.mappings(), page, frames@);
                    self.space.lemma_one_frame_conflict(page, frames@);
                }
                match self.space.map_allocated(page, PAGE_SIZE, Perms::all(), &frames) {
                    Ok(()) => {
                        self.phase = Phase::Installing;
                        Action::Install {
                            gpa: page,
                            hpa,
                            perms: Perms::all(),
                            backing: MapPolicy::Allocated,
                            shootdown: self.arch.shootdown(),
                        }
                    },
                    Err(error) => {
                        self.phase = Phase::Aborted;
                        Action::Abort { cause: AbortCause::MappingFailure { error } }
                    },
                }
            },
        }
    }

    /// Takes the report that the mappings handed out were installed in the
    /// page table and the shootdown was performed.
    pub fn installed(&mut self)
        requires
            old(self).wf(),
            old(self).spec_phase() == Phase::Installing,
        ensures
            final(self).wf(),
            final(self).spec_phase() == Phase::Ready,
            final(self).spec_arch() == old(self).spec_arch(),
            final(self).spec_space().mappings() == old(self).spec_space().mappings(),
            final(self).spec_space().order() == old(self).spec_space().order(),
            final(self).spec_space().memory() == old(self).spec_space().memory(),
            final(self).spec_space().spec_root() == old(self).spec_space().spec_root(),
    {
        self.space.note_shootdown();
        self.phase = Phase::Ready;
    }
}

impl Vm {
    /// Places the payload in guest memory at the entry address of the back
    /// end, each page of it on a frame of its own: page number `k` on
    /// `frames[k]`. `image` is what the file system returned, `None` where
    /// the read failed. On success the pages wait to be installed; on failure
    /// the loop is over before the guest was ever entered.
    pub fn load_image(&mut self, image: Option<&[u8]>, frames: &Vec<u64>) -> (r: Result<
        (),
        LoaderError,
    >)
        requires
            old(self).wf(),
            old(self).spec_phase() == Phase::Loading,
        ensures
            final(self).wf(),
            final(self).spec_arch() == old(self).spec_arch(),
            final(self).spec_space().spec_root() == old(self).spec_space().spec_root(),
            r == load_outcome(old(self).spec_arch(), image, frames@),
            r is Ok ==> {
                &&& final(self).spec_phase() == Phase::Installing
                &&& final(self).spec_space().mappings() == allocated_onto(
                    Map::<u64, Mapping>::empty(),
                    old(self).spec_arch().spec_vm_entry(),
                    spec_page_span(image.unwrap()@.len() as u64) as u64,
                    Perms::spec_all(),
                    frames@,
                )
                &&& final(self).spec_space().memory() == image_memory(
                    old(self).spec_arch().spec_vm_entry(),
                    image.unwrap()@,
                )
                &&& final(self).spec_space().bytes_at(
                    old(self).spec_arch().spec_vm_entry(),
                    image.unwrap()@.len() as int,
                ) == image.unwrap()@
                &&& final(self).spec_space().order() == pages_from(
                    old(self).spec_arch().spec_vm_entry(),
                    spec_page_span(image.unwrap()@.len() as u64) / 0x1000,
                )
            },
            r is Err ==> {
                &&& final(self).spec_phase() == Phase::Aborted
                &&& final(self).spec_space().mappings() == Map::<u64, Mapping>::empty()
                &&& final(self).spec_space().order() == Seq::<u64>::empty()
                &&& final(self).spec_space().memory() == old(self).spec_space().memory()
            },
    {
        let payload = match image {
            None => {
                self.phase = Phase::Aborted;
                return Err(LoaderError::ReadFailed);
            },
            Some(bytes) => bytes,
        };
        let entry = self.arch.vm_entry();
        let room = self.arch.region_size() - (entry - self.arch.region_base());
        if payload.len() as u64 > room {
            self.phase = Phase::Aborted;
            return Err(LoaderError::TooLarge);
        }
        proof {
            lemma_load_outcome(self.space, self.arch, image, frames@);
        }
        match self.place(payload, frames) {
            Err(error) => {
                self.phase = Phase::Aborted;
                Err(LoaderError::Mapping { error })
            },
            Ok(()) => {
                self.phase = Phase::Installing;
                Ok(())
            },
        }
    }

    /// Maps the pages for a payload that fits and copies the payload into them.
    fn place(&mut self, payload: &[u8], frames: &Vec<u64>) -> (r: Result<(), MapError>)
        requires
            old(self).wf(),
            old(self).spec_phase() == Phase::Loading,
            within(
                old(self).arch.spec_region_base(),
                old(self).arch.spec_region_size(),
                old(self).arch.spec_vm_entry(),
                payload@.len() as u64,
            ),
        ensures
            final(self).space.wf(),
            final(self).arch == old(self).arch,
            final(self).phase == old(self).phase,
            final(self).pending == old(self).pending,
            final(self).space.spec_base() == old(self).space.spec_base(),
            final(self).space.spec_size() == old(self).space.spec_size(),
            final(self).space.spec_root() == old(self).space.spec_root(),
            r == old(self).space.allocated_outcome(
                old(self).arch.spec_vm_entry(),
                spec_page_span(payload@.len() as u64) as u64,
                frames@,
            ),
            r is Ok ==> final(self).space.mappings() == allocated_onto(
                Map::<u64, Mapping>::empty(),
                old(self).arch.spec_vm_entry(),
                spec_page_span(payload@.len() as u64) as u64,
                Perms::spec_all(),
                frames@,
            ) && final(self).space.memory() == image_memory(
                old(self).arch.spec_vm_entry(),
                payload@,
            ) && final(self).space.bytes_at(old(self).arch.spec_vm_entry(), payload@.len() as int)
                == payload@ && final(self).space.order() == pages_from(
                old(self).arch.spec_vm_entry(),
                spec_page_span(payload@.len() as u64) / 0x1000,
            ),
            r is Err ==> final(self).space.order() == Seq::<u64>::empty(),
            r is Err ==> final(self).space.mappings() == Map::<u64, Mapping>::empty()
                && final(self).space.memory() == old(self).space.memory(),
    {
        let entry = self.arch.vm_entry();
        let len = payload.len() as u64;
        proof {
            lemma_span_fits(self.arch, len);
        }
        let span: u64 = (len + 0xFFF) / PAGE_SIZE * PAGE_SIZE;
        proof {
            self.space.lemma_wf();
            assert(self.space.memory() =~= Map::<u64, u8>::empty());
            lemma_fresh_pages_of_nothing(entry, span as int / 0x1000);
        }
        match self.space.map_allocated(entry, span, Perms::all(), frames) {
            Err(error) => {
                return Err(error);
            },
            Ok(()) => {},
        }
        proof {
            lemma_zeroed_range(self.space.memory(), entry, span, len);
            assert(self.space.keeps(entry, len as int));
            self.space.lemma_kept_is_accessible(entry, len as int);
        }
        let ghost zeroed = self.space.memory();
        let wrote = self.space.write_bytes(entry, payload);
        proof {
            assert(wrote is Ok);
            lemma_image_memory(zeroed, entry, payload@);
        }
        Ok(())
    }
}

impl Vm {
    /// Whether this is the state that follows `before` when `step` was taken
    /// on an exit.
    pub open spec fn follows(&self, before: &Vm, step: Step) -> bool {
        &&& self.wf()
        &&& self.spec_arch() == before.spec_arch()
        &&& self.spec_phase() == phase_after(step.action)
        &&& self.spec_space().mappings() == mappings_after(
            before.spec_space().mappings(),
            step.action,
        )
        &&& self.spec_space().order() == order_after(before.spec_space().order(), step.action)
        &&& self.spec_space().memory() == before.spec_space().memory()
        &&& self.spec_space().spec_root() == before.spec_space().spec_root()
        &&& step.action matches Action::NeedFrame { gpa } ==> self.spec_pending() == gpa
    }

    /// Decodes the exit that the hardware left in a RISC-V context, takes the
    /// step for it and puts the program counter to go on with into the context.
    pub fn service_riscv(&mut self, ctx: &mut RiscvContext) -> (action: Action)
        requires
            old(self).wf(),
            old(self).spec_phase() == Phase::Ready,
        ensures
            action == old(self).step_of(riscv_event(*old(ctx)), old(ctx).sepc).action,
            final(ctx).sepc == old(self).step_of(riscv_event(*old(ctx)), old(ctx).sepc).pc,
            final(self).follows(old(self), old(self).step_of(riscv_event(*old(ctx)), old(ctx).sepc)),
            final(ctx).gprs == old(ctx).gprs,
            final(ctx).sstatus == old(ctx).sstatus,
            final(ctx).hstatus == old(ctx).hstatus,
            final(ctx).scause == old(ctx).scause,
            final(ctx).stval == old(ctx).stval,
            final(ctx).htval == old(ctx).htval,
    {
        let event = decode_riscv(ctx);
        let step = self.on_exit(event, ctx.sepc);
        ctx.sepc = step.pc;
        step.action
    }

    /// Decodes the exit that the hardware left in an AArch64 context, takes
    /// the step for it and puts the program counter to go on with into the
    /// context.
    pub fn service_aarch64(&mut self, ctx: &mut Aarch64Context) -> (action: Action)
        requires
            old(self).wf(),
            old(self).spec_phase() == Phase::Ready,
        ensures
            action == old(self).step_of(aarch64_event(*old(ctx)), old(ctx).elr).action,
            final(ctx).elr == old(self).step_of(aarch64_event(*old(ctx)), old(ctx).elr).pc,
            final(self).follows(old(self), old(self).step_of(aarch64_event(*old(ctx)), old(ctx).elr)),
            final(ctx).gprs == old(ctx).gprs,
            final(ctx).spsr == old(ctx).spsr,
            final(ctx).esr == old(ctx).esr,
            final(ctx).far == old(ctx).far,
    {
        let event = decode_aarch64(ctx);
        let step = self.on_exit(event, ctx.elr);
        ctx.elr = step.pc;
        step.action
    }

    /// Decodes the exit that the CPU left in a control block, takes the step
    /// for it and writes the `rip` to go on with into the block.
    pub fn service_svm(&mut self, vmcb: &mut Vmcb) -> (action: Action)
        requires
            old(self).wf(),
            old(self).spec_phase() == Phase::Ready,
        ensures
            action == old(self).step_of(svm_exit(*old(vmcb)), old(vmcb).spec_guest_rip()).action,
            final(vmcb).spec_guest_rip() == old(self).step_of(
                svm_exit(*old(vmcb)),
                old(vmcb).spec_guest_rip(),
            ).pc,
            final(self).follows(
                old(self),
                old(self).step_of(svm_exit(*old(vmcb)), old(vmcb).spec_guest_rip()),
            ),
            final(vmcb).same_outside(old(vmcb), 0x578, 0x580),
    {
        let event = vmcb.decode();
        let step = self.on_exit(event, vmcb.guest_rip());
        vmcb.set_guest_rip(step.pc);
        step.action
    }
}

/// The event that the exit fields of a control block stand for.
pub open spec fn svm_exit(vmcb: Vmcb) -> ExitEvent {
    svm_event(
        vmcb.spec_exit_code(),
        vmcb.spec_exit_info1(),
        vmcb.spec_exit_info2(),
        vmcb.spec_guest_rax(),
        vmcb.spec_guest_rip(),
    )
}

/// A payload that fits between the entry address and the end of the region
/// fits there in whole pages too: entry address and region end are
/// page-aligned on every back end.
pub proof fn lemma_span_fits(arch: Arch, len: u64)
    requires
        within(arch.spec_region_base(), arch.spec_region_size(), arch.spec_vm_entry(), len),
    ensures
        page_aligned(arch.spec_vm_entry()),
        spec_page_span(len) % 0x1000 == 0,
        len <= spec_page_span(len) < len + 0x1000,
        spec_page_span(len) / 0x1000 == (len + 0xFFF) / 0x1000,
        arch.spec_vm_entry() + spec_page_span(len) <= arch.spec_region_base()
            + arch.spec_region_size(),
        arch.spec_region_base() <= arch.spec_vm_entry(),
        arch.spec_region_base() + arch.spec_region_size() <= u64::MAX,
{
}

/// Mapping the pages for a payload that fits, in an address space of the
/// back end with nothing mapped, ends as loading the payload does.
pub proof fn lemma_load_outcome(space: SecondStage, arch: Arch, image: Option<&[u8]>, frames: Seq<u64>)
    requires
        image is Some,
        space.mappings() == Map::<u64, Mapping>::empty(),
        space.spec_base() == arch.spec_region_base(),
        space.spec_size() == arch.spec_region_size(),
        within(
            arch.spec_region_base(),
            arch.spec_region_size(),
            arch.spec_vm_entry(),
            image.unwrap()@.len() as u64,
        ),
    ensures
        match space.allocated_outcome(
            arch.spec_vm_entry(),
            spec_page_span(image.unwrap()@.len() as u64) as u64,
            frames,
        ) {
            Ok(()) => load_outcome(arch, image, frames) == Ok::<(), LoaderError>(()),
            Err(error) => load_outcome(arch, image, frames) == Err::<(), LoaderError>(
                LoaderError::Mapping { error },
            ),
        },
{
    let len = image.unwrap()@.len() as u64;
    lemma_span_fits(arch, len);
    let span = spec_page_span(len) as u64;
    space.lemma_empty_conflict(arch.spec_vm_entry(), span, frames);
    assert(span / 0x1000 == spec_page_span(len) / 0x1000);
    assert((frames.len() < span / 0x1000) == (frames.len() * 0x1000 < spec_page_span(len)));
}

/// Where nothing was kept and the pages of `[entry, entry + span)` got zeroed
/// frames, every byte of the range is kept.
pub proof fn lemma_zeroed_range(mem: Map<u64, u8>, entry: u64, span: u64, len: u64)
    requires
        mem == zeroed_onto(Map::<u64, u8>::empty(), Map::<u64, Mapping>::empty(), entry, span),
        page_aligned(entry),
        page_aligned(span),
        len <= span,
        entry + span <= u64::MAX,
    ensures
        forall|i: int| 0 <= i < len ==> #[trigger] mem.contains_key((entry + i) as u64),
        forall|a: u64| #[trigger] mem.contains_key(a) <==> entry <= a < entry + span,
        forall|a: u64| mem.contains_key(a) ==> #[trigger] mem[a] == 0,
{
    assert forall|a: u64| #[trigger] mem.contains_key(a) <==> entry <= a < entry + span by {
        if entry <= a < entry + span {
            assert(page_in(entry, span, page_base(a)));
        }
    }
}

/// Writing the payload at `entry` into zeroed pages that span it gives the
/// image of the payload.
pub proof fn lemma_image_memory(zeroed: Map<u64, u8>, entry: u64, payload: Seq<u8>)
    requires
        payload.len() <= u64::MAX,
        forall|a: u64| #[trigger]
            zeroed.contains_key(a) <==> entry <= a < entry + spec_page_span(payload.len() as u64),
        forall|a: u64| zeroed.contains_key(a) ==> #[trigger] zeroed[a] == 0,
    ensures
        crate::s2as::written(zeroed, entry, payload) == image_memory(entry, payload),
{
    let after = crate::s2as::written(zeroed, entry, payload);
    let target = image_memory(entry, payload);
    assert forall|a: u64| #[trigger] after.contains_key(a) <==> target.contains_key(a) by {}
    assert forall|a: u64| after.contains_key(a) implies #[trigger] after[a] == target[a] by {
        assert(zeroed.contains_key(a));
    }
    assert(after =~= target);
}

/// Mapping the one page at `page` passthrough adds one mapping.
pub proof fn lemma_one_page(m: Map<u64, Mapping>, page: u64)
    requires
        page_aligned(page),
        !m.contains_key(page),
    ensures
        forall|perms: Perms| #[trigger]
            passthrough_onto(m, page, 0x1000, perms) == m.insert(
                page,
                Mapping { hpa: page, perms, backing: MapPolicy::Passthrough },
            ),
        forall|g: u64| page_in(page, 0x1000, g) <==> g == page,
{
    assert forall|g: u64| page_in(page, 0x1000, g) <==> g == page by {}
    assert forall|perms: Perms| #[trigger]
        passthrough_onto(m, page, 0x1000, perms) == m.insert(
            page,
            Mapping { hpa: page, perms, backing: MapPolicy::Passthrough },
        ) by {
        assert(passthrough_onto(m, page, 0x1000, perms) =~= m.insert(
            page,
            Mapping { hpa: page, perms, backing: MapPolicy::Passthrough },
        ));
    }
}

/// Mapping the one page at `page` onto the one frame offered adds one mapping.
pub proof fn lemma_one_frame(m: Map<u64, Mapping>, page: u64, frames: Seq<u64>)
    requires
        page_aligned(page),
        !m.contains_key(page),
        frames.len() == 1,
    ensures
        forall|perms: Perms| #[trigger]
            allocated_onto(m, page, 0x1000, perms, frames) == m.insert(
                page,
                Mapping { hpa: frames[0], perms, backing: MapPolicy::Allocated },
            ),
{
    assert forall|g: u64| page_in(page, 0x1000, g) <==> g == page by {}
    assert forall|perms: Perms| #[trigger]
        allocated_onto(m, page, 0x1000, perms, frames) == m.insert(
            page,
            Mapping { hpa: frames[0], perms, backing: MapPolicy::Allocated },
        ) by {
        assert(allocated_onto(m, page, 0x1000, perms, frames) =~= m.insert(
            page,
            Mapping { hpa: frames[0], perms, backing: MapPolicy::Allocated },
        ));
    }
}

} // verus!
