//! What holds of the hypervisor as a whole: statements that relate several
//! operations to one another, each proved from the contracts of the
//! operations it speaks of.
use vstd::prelude::*;
use crate::arch::{
    lemma_mask_is_page_base, page_aligned, page_base, spec_advance, Arch, MapPolicy, Shootdown,
};
use crate::exit::{AccessKind, ExitEvent};
use crate::machine::{after_op, call_event, run_from, End, Trace};
use crate::s2as::{allocated_onto, page_in, passthrough_onto, Mapping, Perms, SecondStage};
use crate::script::GuestOp;
use crate::vm::{image_memory, in_region, spec_classify, step_on, Action, Request, Step};

verus! {

/// After a range was mapped, by either policy, every byte of it translates:
/// a guest access to the first byte, the last byte or any other byte of any
/// page of the range finds its page in the second stage and does not fault.
pub proof fn law_mapped_range_translates(
    before: SecondStage,
    after: SecondStage,
    gpa: u64,
    len: u64,
    perms: Perms,
    frames: Seq<u64>,
)
    requires
        page_aligned(gpa),
        page_aligned(len),
        after.mappings() == passthrough_onto(before.mappings(), gpa, len, perms)
            || after.mappings() == allocated_onto(before.mappings(), gpa, len, perms, frames),
    ensures
        after.covers(gpa, len),
        forall|a: u64| gpa <= a < gpa + len ==> (#[trigger] after.spec_translate(a)) is Some,
{
    assert forall|a: u64| gpa <= a < gpa + len implies (#[trigger] after.spec_translate(
        a,
    )) is Some by {
        assert(page_in(gpa, len, page_base(a)));
    }
}

/// A page that a passthrough mapping adds is backed by the host frame of its
/// own address: every byte of it translates to itself.
pub proof fn law_passthrough_is_identity(
    before: SecondStage,
    after: SecondStage,
    gpa: u64,
    len: u64,
    perms: Perms,
)
    requires
        page_aligned(gpa),
        page_aligned(len),
        after.mappings() == passthrough_onto(before.mappings(), gpa, len, perms),
    ensures
        forall|a: u64|
            gpa <= a < gpa + len && !before.spec_is_mapped(a) ==> #[trigger] after.spec_translate(
                a,
            ) == Some(a),
{
    assert forall|a: u64|
        gpa <= a < gpa + len && !before.spec_is_mapped(a) implies #[trigger] after.spec_translate(
        a,
    ) == Some(a) by {
        assert(page_in(gpa, len, page_base(a)));
    }
}

/// In a well-formed address space every passthrough page is backed by the
/// frame of its own address, and no two pages that have a frame of their own
/// share it.
pub proof fn law_backing_is_unique_or_identity(space: SecondStage)
    requires
        space.wf(),
    ensures
        forall|g: u64|
            space.mappings().contains_key(g) && (#[trigger] space.mappings()[g]).backing
                == MapPolicy::Passthrough ==> space.mappings()[g].hpa == g,
        forall|g: u64, h: u64|
            space.mappings().contains_key(g) && space.mappings().contains_key(h) && g != h && (
            #[trigger] space.mappings()[g]).backing == MapPolicy::Allocated && (
            #[trigger] space.mappings()[h]).backing == MapPolicy::Allocated
                ==> space.mappings()[g].hpa != space.mappings()[h].hpa,
{
    space.lemma_wf();
}

/// What the loader wrote at the entry address reads back unchanged.
pub proof fn law_loaded_payload_reads_back(space: SecondStage, entry: u64, payload: Seq<u8>)
    requires
        space.memory() == image_memory(entry, payload),
        entry + payload.len() <= u64::MAX,
    ensures
        space.keeps(entry, payload.len() as int),
        space.bytes_at(entry, payload.len() as int) == payload,
{
    assert(space.bytes_at(entry, payload.len() as int) =~= payload);
}

/// A hypercall that does not end the guest moves the program counter on by
/// the length of the hypercall instruction: four bytes on RISC-V and AArch64,
/// three on x86_64. One that ends the guest leaves it where it is.
pub proof fn law_hypercall_advances_pc(
    arch: Arch,
    m: Map<u64, Mapping>,
    function_id: u64,
    args: [u64; 8],
    pc: u64,
)
    ensures
        ({
            let step = step_on(arch, m, ExitEvent::Hypercall { function_id, args }, pc);
            let len: int = if arch == Arch::X86_64 {
                3
            } else {
                4
            };
            if spec_classify(arch, function_id, args) == Request::Exit {
                step.pc == pc && step.action is Stop
            } else {
                &&& step.pc == spec_advance(pc, len as u64)
                &&& pc + len <= u64::MAX ==> step.pc == pc + len
                &&& step.action is Emit || step.action is Warn
            }
        }),
{
}

/// Servicing a page fault leaves the program counter where it is, so that
/// the guest executes the faulting instruction again.
pub proof fn law_fault_keeps_pc(arch: Arch, m: Map<u64, Mapping>, gpa: u64, kind: AccessKind, pc: u64)
    ensures
        step_on(arch, m, ExitEvent::PageFault { gpa, kind }, pc).pc == pc,
        !(step_on(arch, m, ExitEvent::PageFault { gpa, kind }, pc).action is Emit),
        !(step_on(arch, m, ExitEvent::PageFault { gpa, kind }, pc).action is Warn),
        !(step_on(arch, m, ExitEvent::PageFault { gpa, kind }, pc).action is Stop),
{
}

/// What the run loop maps on a RISC-V fault is a passthrough page on the
/// frame of its own address.
pub proof fn law_riscv_maps_identity(m: Map<u64, Mapping>, event: ExitEvent, pc: u64)
    ensures
        step_on(Arch::Riscv64, m, event, pc).action matches Action::Install {
            gpa,
            hpa,
            backing,
            ..
        } ==> hpa == gpa && backing == MapPolicy::Passthrough,
        !(step_on(Arch::Riscv64, m, event, pc).action is NeedFrame),
{
}

/// On RISC-V every fault on an unmapped page inside the region is serviced:
/// the page is mapped onto the host frame of its own address with all
/// permissions, a `hfence.gvma` is owed, and the guest goes on where it
/// stood. Whatever else is mapped, and onto whatever frames, does not matter.
pub proof fn law_riscv_fault_is_serviced(m: Map<u64, Mapping>, gpa: u64, kind: AccessKind, pc: u64)
    requires
        in_region(Arch::Riscv64, gpa),
        !m.contains_key(page_base(gpa)),
    ensures
        step_on(Arch::Riscv64, m, ExitEvent::PageFault { gpa, kind }, pc) == (Step {
            action: Action::Install {
                gpa: page_base(gpa),
                hpa: page_base(gpa),
                perms: Perms::spec_all(),
                backing: MapPolicy::Passthrough,
                shootdown: Shootdown::HfenceGvma,
            },
            pc,
        }),
{
}

/// A fault outside the region of the address space is fatal, whatever is
/// mapped.
pub proof fn law_fault_outside_region_aborts(
    arch: Arch,
    m: Map<u64, Mapping>,
    gpa: u64,
    kind: AccessKind,
    pc: u64,
)
    requires
        !in_region(arch, gpa),
    ensures
        step_on(arch, m, ExitEvent::PageFault { gpa, kind }, pc).action is Abort,
{
}

/// Whether the run loop of `arch` prints `byte` on this operation, whatever
/// is mapped.
pub open spec fn prints(arch: Arch, op: GuestOp, byte: u8) -> bool {
    op matches GuestOp::Hypercall { id_reg, arg_reg } && (call_event(arch, id_reg, arg_reg)
        matches ExitEvent::Hypercall { function_id, args } && spec_classify(
        arch,
        function_id,
        args,
    ) == Request::Putchar { byte })
}

/// Whether this operation asks the run loop of `arch` to end the guest.
pub open spec fn exits(arch: Arch, op: GuestOp) -> bool {
    op matches GuestOp::Hypercall { id_reg, arg_reg } && (call_event(arch, id_reg, arg_reg)
        matches ExitEvent::Hypercall { function_id, args } && spec_classify(
        arch,
        function_id,
        args,
    ) == Request::Exit)
}

/// The pages that the operations of `script` from number `i` on touch.
pub open spec fn touched(script: Seq<GuestOp>, i: int) -> Set<u64> {
    Set::new(
        |g: u64|
            exists|k: int|
                i <= k < script.len() && (#[trigger] script[k] matches GuestOp::Access {
                    gpa,
                    ..
                } && page_base(gpa) == g),
    )
}

/// One operation never changes or removes a mapping, never takes back what
/// was printed, and takes at most one exit.
pub proof fn law_op_only_adds(arch: Arch, t: Trace, op: GuestOp, frames: Seq<u64>)
    ensures
        ({
            let r = after_op(arch, t, op, frames);
            &&& forall|g: u64| t.mappings.contains_key(g) ==> #[trigger] r.mappings.contains_key(g)
            &&& forall|g: u64|
                t.mappings.contains_key(g) ==> #[trigger] r.mappings[g] == t.mappings[g]
            &&& forall|g: u64| #[trigger]
                r.mappings.contains_key(g) && !t.mappings.contains_key(g) ==> (op
                    matches GuestOp::Access { gpa, .. } && page_base(gpa) == g)
            &&& t.faults <= r.faults <= t.faults + 1
            &&& t.hypercalls <= r.hypercalls <= t.hypercalls + 1
            &&& t.frames_used <= r.frames_used <= t.frames_used + 1
        }),
{
    match op {
        GuestOp::Access { gpa, kind } => {
            lemma_mask_is_page_base(gpa);
            assert(page_base(page_base(gpa)) == page_base(gpa));
        },
        GuestOp::Hypercall { .. } => {},
    }
}

/// A run never changes or removes a mapping: the second stage only grows.
pub proof fn law_run_only_adds(arch: Arch, t: Trace, script: Seq<GuestOp>, frames: Seq<u64>, i: int)
    requires
        0 <= i,
    ensures
        ({
            let r = run_from(arch, t, script, frames, i);
            &&& forall|g: u64| t.mappings.contains_key(g) ==> #[trigger] r.mappings.contains_key(g)
            &&& forall|g: u64|
                t.mappings.contains_key(g) ==> #[trigger] r.mappings[g] == t.mappings[g]
            &&& forall|g: u64| #[trigger]
                r.mappings.contains_key(g) && !t.mappings.contains_key(g) ==> touched(
                    script,
                    i,
                ).contains(g)
            &&& t.faults <= r.faults
            &&& t.hypercalls <= r.hypercalls
        }),
    decreases script.len() - i,
{
    if i < script.len() && t.end == End::Running {
        let next = after_op(arch, t, script[i], frames);
        law_op_only_adds(arch, t, script[i], frames);
        law_run_only_adds(arch, next, script, frames, i + 1);
        let r = run_from(arch, t, script, frames, i);
        assert forall|g: u64| t.mappings.contains_key(g) implies #[trigger] r.mappings.contains_key(
            g,
        ) && r.mappings[g] == t.mappings[g] by {
            assert(next.mappings.contains_key(g));
            assert(next.mappings[g] == t.mappings[g]);
            assert(r.mappings.contains_key(g));
            assert(r.mappings[g] == next.mappings[g]);
        }
        assert forall|g: u64| #[trigger]
            r.mappings.contains_key(g) && !t.mappings.contains_key(g) implies touched(
            script,
            i,
        ).contains(g) by {
            if next.mappings.contains_key(g) {
                assert(script[i] is Access);
            } else {
                assert(touched(script, i + 1).contains(g));
                let k = choose|k: int|
                    i + 1 <= k < script.len() && (#[trigger] script[k] matches GuestOp::Access {
                        gpa,
                        ..
                    } && page_base(gpa) == g);
                assert(i <= k < script.len());
            }
        }
    }
}

/// Every page that a RISC-V run adds to the second stage is a passthrough
/// page on the host frame of its own address, and no frame is taken from the
/// host allocator.
pub proof fn law_riscv_run_maps_identity(
    t: Trace,
    script: Seq<GuestOp>,
    frames: Seq<u64>,
    i: int,
)
    requires
        0 <= i,
    ensures
        ({
            let r = run_from(Arch::Riscv64, t, script, frames, i);
            &&& forall|g: u64|
                r.mappings.contains_key(g) && !t.mappings.contains_key(g) ==> (
                #[trigger] r.mappings[g]).hpa == g && r.mappings[g].backing
                    == MapPolicy::Passthrough
            &&& r.frames_used == t.frames_used
        }),
    decreases script.len() - i,
{
    if i < script.len() && t.end == End::Running {
        let next = after_op(Arch::Riscv64, t, script[i], frames);
        law_op_only_adds(Arch::Riscv64, t, script[i], frames);
        law_run_only_adds(Arch::Riscv64, next, script, frames, i + 1);
        law_riscv_run_maps_identity(next, script, frames, i + 1);
        let r = run_from(Arch::Riscv64, t, script, frames, i);
        assert forall|g: u64|
            r.mappings.contains_key(g) && !t.mappings.contains_key(g) implies (
        #[trigger] r.mappings[g]).hpa == g && r.mappings[g].backing == MapPolicy::Passthrough by {
            if next.mappings.contains_key(g) {
                assert(r.mappings[g] == next.mappings[g]);
            }
        }
    }
}

/// A guest that touches only pages that are mapped takes no page fault, and
/// nothing is mapped on its account.
pub proof fn law_mapped_accesses_do_not_fault(
    arch: Arch,
    t: Trace,
    script: Seq<GuestOp>,
    frames: Seq<u64>,
    i: int,
)
    requires
        0 <= i,
        forall|k: int|
            i <= k < script.len() ==> (#[trigger] script[k] matches GuestOp::Access { gpa, .. }
                ==> t.mappings.contains_key(page_base(gpa))),
    ensures
        run_from(arch, t, script, frames, i).faults == t.faults,
        run_from(arch, t, script, frames, i).mappings == t.mappings,
        run_from(arch, t, script, frames, i).frames_used == t.frames_used,
    decreases script.len() - i,
{
    if i < script.len() && t.end == End::Running {
        let next = after_op(arch, t, script[i], frames);
        assert(next.mappings == t.mappings);
        law_mapped_accesses_do_not_fault(arch, next, script, frames, i + 1);
    }
}

/// After a fault was serviced and the guest goes on, the page is mapped, the
/// program counter stands where it stood, and the same access, executed
/// again, goes through without another exit.
pub proof fn law_serviced_fault_does_not_recur(
    arch: Arch,
    t: Trace,
    gpa: u64,
    kind: AccessKind,
    frames: Seq<u64>,
)
    requires
        after_op(arch, t, GuestOp::Access { gpa, kind }, frames).end == End::Running,
    ensures
        ({
            let op = GuestOp::Access { gpa, kind };
            let r = after_op(arch, t, op, frames);
            &&& r.mappings.contains_key(page_base(gpa))
            &&& r.pc == t.pc
            &&& r.faults <= t.faults + 1
            &&& after_op(arch, r, op, frames) == r
        }),
{
    lemma_mask_is_page_base(gpa);
    assert(page_base(page_base(gpa)) == page_base(gpa));
}

/// A run that does not abort maps exactly one new page for each page fault
/// that it takes.
pub proof fn law_each_fault_maps_one_page(
    arch: Arch,
    t: Trace,
    script: Seq<GuestOp>,
    frames: Seq<u64>,
    i: int,
)
    requires
        0 <= i,
        t.mappings.dom().finite(),
        !(run_from(arch, t, script, frames, i).end is Aborted),
    ensures
        run_from(arch, t, script, frames, i).mappings.dom().finite(),
        run_from(arch, t, script, frames, i).mappings.dom().len() - t.mappings.dom().len()
            == run_from(arch, t, script, frames, i).faults - t.faults,
    decreases script.len() - i,
{
    if i < script.len() && t.end == End::Running {
        let op = script[i];
        let next = after_op(arch, t, op, frames);
        if next.end is Aborted {
            assert(run_from(arch, next, script, frames, i + 1) == next);
        } else {
            match op {
                GuestOp::Access { gpa, kind } => {
                    lemma_mask_is_page_base(gpa);
                    assert(page_base(page_base(gpa)) == page_base(gpa));
                    if !t.mappings.contains_key(page_base(gpa)) {
                        assert(next.faults == t.faults + 1);
                        assert(next.mappings.dom() =~= t.mappings.dom().insert(page_base(gpa)));
                    }
                },
                GuestOp::Hypercall { .. } => {},
            }
            law_each_fault_maps_one_page(arch, next, script, frames, i + 1);
        }
    }
}

/// When a guest has carried out its whole script, every page that it touched
/// is mapped.
pub proof fn law_touched_pages_are_mapped(
    arch: Arch,
    t: Trace,
    script: Seq<GuestOp>,
    frames: Seq<u64>,
    i: int,
)
    requires
        0 <= i,
        t.end == End::Running,
        run_from(arch, t, script, frames, i).end == End::Running,
    ensures
        forall|g: u64|
            touched(script, i).contains(g) ==> #[trigger] run_from(
                arch,
                t,
                script,
                frames,
                i,
            ).mappings.contains_key(g),
    decreases script.len() - i,
{
    let r = run_from(arch, t, script, frames, i);
    if i < script.len() {
        let op = script[i];
        let next = after_op(arch, t, op, frames);
        if next.end != End::Running {
            assert(run_from(arch, next, script, frames, i + 1) == next);
        }
        law_touched_pages_are_mapped(arch, next, script, frames, i + 1);
        law_run_only_adds(arch, next, script, frames, i + 1);
        assert forall|g: u64| touched(script, i).contains(g) implies #[trigger] r.mappings.contains_key(
            g,
        ) by {
            let k = choose|k: int|
                i <= k < script.len() && (#[trigger] script[k] matches GuestOp::Access { gpa, .. }
                    && page_base(gpa) == g);
            if k == i {
                match op {
                    GuestOp::Access { gpa, kind } => {
                        if !t.mappings.contains_key(page_base(gpa)) {
                            law_serviced_fault_does_not_recur(arch, t, gpa, kind, frames);
                        }
                        assert(next.mappings.contains_key(g));
                    },
                    GuestOp::Hypercall { .. } => {},
                }
            } else {
                assert(touched(script, i + 1).contains(g));
            }
        }
    } else {
        assert forall|g: u64| touched(script, i).contains(g) implies #[trigger] r.mappings.contains_key(
            g,
        ) by {
            let k = choose|k: int|
                i <= k < script.len() && (#[trigger] script[k] matches GuestOp::Access { gpa, .. }
                    && page_base(gpa) == g);
        }
    }
}

/// A guest that carries out its whole script takes exactly as many page
/// faults as it touches distinct pages that were not mapped, and in the end
/// the second stage holds what it held plus those pages.
pub proof fn law_faults_count_new_pages(
    arch: Arch,
    t: Trace,
    script: Seq<GuestOp>,
    frames: Seq<u64>,
)
    requires
        t.end == End::Running,
        t.mappings.dom().finite(),
        run_from(arch, t, script, frames, 0).end == End::Running,
    ensures
        run_from(arch, t, script, frames, 0).mappings.dom() == t.mappings.dom().union(
            touched(script, 0),
        ),
        touched(script, 0).difference(t.mappings.dom()).finite(),
        run_from(arch, t, script, frames, 0).faults - t.faults == touched(script, 0).difference(
            t.mappings.dom(),
        ).len(),
{
    let r = run_from(arch, t, script, frames, 0);
    law_run_only_adds(arch, t, script, frames, 0);
    law_touched_pages_are_mapped(arch, t, script, frames, 0);
    law_each_fault_maps_one_page(arch, t, script, frames, 0);
    let grown = t.mappings.dom().union(touched(script, 0));
    assert(r.mappings.dom() =~= grown);
    let fresh = touched(script, 0).difference(t.mappings.dom());
    assert(fresh =~= r.mappings.dom().difference(t.mappings.dom()));
    vstd::set_lib::lemma_len_difference(r.mappings.dom(), t.mappings.dom());
    vstd::set_lib::lemma_len_subset(t.mappings.dom(), r.mappings.dom());
    vstd::set_lib::lemma_set_difference_len(r.mappings.dom(), t.mappings.dom());
    assert(r.mappings.dom().intersect(t.mappings.dom()) =~= t.mappings.dom());
}

/// A guest that carries out a script and then asks to exit takes, before the
/// shutdown, exactly as many page faults as the script touches distinct
/// pages that were not mapped; then the run stops.
pub proof fn law_faults_before_shutdown(
    arch: Arch,
    t: Trace,
    body: Seq<GuestOp>,
    exit: GuestOp,
    frames: Seq<u64>,
)
    requires
        t.end == End::Running,
        t.mappings.dom().finite(),
        exits(arch, exit),
        run_from(arch, t, body, frames, 0).end == End::Running,
    ensures
        ({
            let r = run_from(arch, t, body + seq![exit], frames, 0);
            &&& r.end == End::Stopped
            &&& touched(body, 0).difference(t.mappings.dom()).finite()
            &&& r.faults - t.faults == touched(body, 0).difference(t.mappings.dom()).len()
            &&& r.mappings.dom() == t.mappings.dom().union(touched(body, 0))
        }),
{
    let last = seq![exit];
    law_run_concat(arch, t, body, last, frames, 0);
    law_faults_count_new_pages(arch, t, body, frames);
    let mid = run_from(arch, t, body, frames, 0);
    law_exit_ends_the_run(arch, mid, last, frames, 0);
}

/// What a guest prints, one hypercall for each byte, is what the host
/// console receives, byte for byte and in order; no page fault is taken and
/// the guest goes on.
pub proof fn law_printed_bytes_reach_console(
    arch: Arch,
    t: Trace,
    script: Seq<GuestOp>,
    bytes: Seq<u8>,
    frames: Seq<u64>,
    i: int,
)
    requires
        0 <= i <= script.len(),
        t.end == End::Running,
        script.len() == bytes.len(),
        forall|k: int| 0 <= k < script.len() ==> prints(arch, #[trigger] script[k], bytes[k]),
    ensures
        ({
            let r = run_from(arch, t, script, frames, i);
            &&& r.console == t.console + bytes.subrange(i, bytes.len() as int)
            &&& r.hypercalls == t.hypercalls + (script.len() - i)
            &&& r.faults == t.faults
            &&& r.mappings == t.mappings
            &&& r.warnings == t.warnings
            &&& r.frames_used == t.frames_used
            &&& r.end == End::Running
        }),
    decreases script.len() - i,
{
    let r = run_from(arch, t, script, frames, i);
    if i < script.len() {
        let next = after_op(arch, t, script[i], frames);
        assert(prints(arch, script[i], bytes[i]));
        assert(next.console == t.console.push(bytes[i]));
        law_printed_bytes_reach_console(arch, next, script, bytes, frames, i + 1);
        assert(r.console =~= t.console + bytes.subrange(i, bytes.len() as int));
    } else {
        assert(r.console =~= t.console + bytes.subrange(i, bytes.len() as int));
    }
}

/// The request to exit ends the run at once: nothing is printed or mapped,
/// the program counter stays, and no later operation of the guest is
/// carried out.
pub proof fn law_exit_ends_the_run(
    arch: Arch,
    t: Trace,
    script: Seq<GuestOp>,
    frames: Seq<u64>,
    i: int,
)
    requires
        0 <= i < script.len(),
        t.end == End::Running,
        exits(arch, script[i]),
    ensures
        ({
            let r = run_from(arch, t, script, frames, i);
            &&& r.end == End::Stopped
            &&& r.console == t.console
            &&& r.mappings == t.mappings
            &&& r.pc == t.pc
            &&& r.faults == t.faults
            &&& r.hypercalls == t.hypercalls + 1
        }),
{
    let next = after_op(arch, t, script[i], frames);
    assert(next.end == End::Stopped);
    assert(run_from(arch, next, script, frames, i + 1) == next);
}

/// Once a run has stopped or aborted, nothing more happens.
pub proof fn law_ended_run_stays(arch: Arch, t: Trace, script: Seq<GuestOp>, frames: Seq<u64>, i: int)
    requires
        t.end != End::Running,
    ensures
        run_from(arch, t, script, frames, i) == t,
{
}

/// Running one script after another is running their concatenation.
pub proof fn law_run_concat(
    arch: Arch,
    t: Trace,
    a: Seq<GuestOp>,
    b: Seq<GuestOp>,
    frames: Seq<u64>,
    i: int,
)
    requires
        0 <= i <= a.len(),
    ensures
        run_from(arch, t, a + b, frames, i) == run_from(
            arch,
            run_from(arch, t, a, frames, i),
            b,
            frames,
            0,
        ),
    decreases a.len() - i,
{
    if t.end != End::Running {
    } else if i < a.len() {
        assert((a + b)[i] == a[i]);
        law_run_concat(arch, after_op(arch, t, a[i], frames), a, b, frames, i + 1);
    } else {
        lemma_run_shift(arch, t, a, b, frames, 0);
    }
}

/// The second of two concatenated scripts runs as it runs alone.
proof fn lemma_run_shift(
    arch: Arch,
    t: Trace,
    a: Seq<GuestOp>,
    b: Seq<GuestOp>,
    frames: Seq<u64>,
    j: int,
)
    requires
        0 <= j <= b.len(),
    ensures
        run_from(arch, t, a + b, frames, a.len() + j) == run_from(arch, t, b, frames, j),
    decreases b.len() - j,
{
    if t.end != End::Running {
    } else if j < b.len() {
        assert((a + b)[a.len() + j] == b[j]);
        lemma_run_shift(arch, after_op(arch, t, b[j], frames), a, b, frames, j + 1);
    }
}

/// The hypercalls of the AArch64 payload mean to the host what the payload
/// means by them: `svc_putchar(c)` prints `c`, `svc_exit()` ends the guest.
pub proof fn law_aarch64_abi_agrees(c: u8)
    ensures
        prints(Arch::Aarch64, crate::aarch64_guest::spec_svc_putchar(c), c),
        exits(Arch::Aarch64, crate::aarch64_guest::spec_svc_exit()),
{
    let wide = c as u64;
    assert(wide & 0xFF == wide) by (bit_vector)
        requires
            wide < 256,
    ;
}

/// The hypercalls of the x86_64 payload mean to the host what the payload
/// means by them: `vmmcall_putchar(c)` prints `c`, `vmmcall_exit()` ends the
/// guest.
pub proof fn law_x86_64_abi_agrees(c: u8)
    ensures
        prints(Arch::X86_64, crate::x86_64_guest::spec_vmmcall_putchar(c), c),
        exits(Arch::X86_64, crate::x86_64_guest::spec_vmmcall_exit()),
{
    let wide = c as u64;
    let rax = 1u64 | (wide << 8);
    assert(rax & 0xFF == 1 && (rax >> 8) & 0xFF == wide && rax != 0x8400_0008) by (bit_vector)
        requires
            wide < 256,
            rax == 1u64 | (wide << 8),
    ;
    assert(wide & 0xFF == wide) by (bit_vector)
        requires
            wide < 256,
    ;
    assert(0x8400_0008u64 & 0xFF == 8) by (bit_vector);
}

/// An AArch64 guest that prints a text and exits: the host console receives
/// the text, byte for byte, then the run stops; no page fault is taken.
pub proof fn law_aarch64_text_then_exit(t: Trace, bytes: Seq<u8>, frames: Seq<u64>)
    requires
        t.end == End::Running,
    ensures
        ({
            let script = crate::aarch64_guest::put_ops(bytes) + seq![
                crate::aarch64_guest::spec_svc_exit(),
            ];
            let r = run_from(Arch::Aarch64, t, script, frames, 0);
            &&& r.console == t.console + bytes
            &&& r.end == End::Stopped
            &&& r.faults == t.faults
            &&& r.hypercalls == t.hypercalls + bytes.len() + 1
            &&& r.mappings == t.mappings
        }),
{
    let puts = crate::aarch64_guest::put_ops(bytes);
    let last = seq![crate::aarch64_guest::spec_svc_exit()];
    assert forall|k: int| 0 <= k < puts.len() implies prints(
        Arch::Aarch64,
        #[trigger] puts[k],
        bytes[k],
    ) by {
        law_aarch64_abi_agrees(bytes[k]);
    }
    law_printed_bytes_reach_console(Arch::Aarch64, t, puts, bytes, frames, 0);
    law_run_concat(Arch::Aarch64, t, puts, last, frames, 0);
    let mid = run_from(Arch::Aarch64, t, puts, frames, 0);
    law_aarch64_abi_agrees(0);
    law_exit_ends_the_run(Arch::Aarch64, mid, last, frames, 0);
    assert(bytes.subrange(0, bytes.len() as int) =~= bytes);
}

/// An x86_64 guest that prints a text and exits: the host console receives
/// the text, byte for byte, then the run stops; no page fault is taken.
pub proof fn law_x86_64_text_then_exit(t: Trace, bytes: Seq<u8>, frames: Seq<u64>)
    requires
        t.end == End::Running,
    ensures
        ({
            let script = crate::x86_64_guest::put_ops(bytes) + seq![
                crate::x86_64_guest::spec_vmmcall_exit(),
            ];
            let r = run_from(Arch::X86_64, t, script, frames, 0);
            &&& r.console == t.console + bytes
            &&& r.end == End::Stopped
            &&& r.faults == t.faults
            &&& r.hypercalls == t.hypercalls + bytes.len() + 1
            &&& r.mappings == t.mappings
        }),
{
    let puts = crate::x86_64_guest::put_ops(bytes);
    let last = seq![crate::x86_64_guest::spec_vmmcall_exit()];
    assert forall|k: int| 0 <= k < puts.len() implies prints(
        Arch::X86_64,
        #[trigger] puts[k],
        bytes[k],
    ) by {
        law_x86_64_abi_agrees(bytes[k]);
    }
    law_printed_bytes_reach_console(Arch::X86_64, t, puts, bytes, frames, 0);
    law_run_concat(Arch::X86_64, t, puts, last, frames, 0);
    let mid = run_from(Arch::X86_64, t, puts, frames, 0);
    law_x86_64_abi_agrees(0);
    law_exit_ends_the_run(Arch::X86_64, mid, last, frames, 0);
    assert(bytes.subrange(0, bytes.len() as int) =~= bytes);
}

} // verus!
