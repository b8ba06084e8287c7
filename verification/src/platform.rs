//! The platform: every registry the kernel core initialises at boot and the
//! operations the trap vector and the dispatch policies perform on them.
//!
//! What the original boot path keeps in one-shot globals — the root
//! `compatible` string, the INTC, the PLIC and its phandle, the driver
//! table, the per-hart and per-IRQ interrupt counters, the per-hart timed
//! event queues and runtimes — lives here in one value, so every operation
//! states exactly which registers and registries it touches.

use vstd::prelude::*;

use crate::devprober::{order_probers, DevProber, DeviceTree, DtNode, ProbeKind};
use crate::dispatch::{argmin, argmin_except, disable_policy_lines, is_min_index, is_min_index_except, spec_wrap_inc, IrqCounts};
use crate::driver::DeviceDriver;
use crate::error::InternalError;
use crate::intc::Intc;
use crate::phys_frame::FrameAllocator;
use crate::plic::{spec_context_id, ChipKind, Plic};
use crate::runtime::Runtime;
use crate::timed_event::{EventOp, TimedEvent, TimedEventHandler, TimedEventQueue, TimedEventTracker};
use crate::uart::NS16550a;
use crate::util::{repeat_value, IdAllocator};
use crate::{CPU_COUNT, IRQ_MAX};

verus! {

/// The external line the NS16550 UART interrupts on.
pub const IRQ_UART: usize = 10;

/// The external line the network device interrupts on.
pub const IRQ_NET: usize = 8;

/// The dispatch policies re-run once a second.
pub const TIME_INTERVAL_NANOS: u64 = 1_000_000_000;

/// Where the kernel maps external device registers.
pub const EXTERNAL_DEVICE_REGION_ADDR: u64 = 0xFFFF_FFC8_0000_0000;

/// The load weight of one UART interrupt under the `min_load` policy.
pub const UART_LOAD: i32 = 1;

/// The load weight of one network interrupt under the `min_load` policy.
pub const NET_LOAD: i32 = 4;

/// How far the boot has come: still bringing harts up, or ready with a
/// count of harts that finished their initialisation.
#[derive(Clone, Copy, Debug, PartialEq, Eq, Structural)]
pub enum BootState {
    Bootstrap,
    Ready(usize),
}

/// What the decoded trap cause was.
#[derive(Clone, Copy, Debug, PartialEq, Eq, Structural)]
pub enum TrapReason {
    SoftwareInterrupt,
    TimerInterrupt,
    ExternalInterrupt,
    Breakpoint,
}

/// What handling a trap produced.
#[derive(Clone, Copy, Debug, PartialEq, Eq, Structural)]
pub enum TrapOutcome {
    /// A timer interrupt was handled; the timer should be re-armed for this
    /// deadline, or left quiet if none.
    Timer { next_deadline: Option<u64> },
    /// A software interrupt was counted and cleared.
    Soft,
    /// An external interrupt was dispatched; the driver reported this start
    /// time.
    External { start: u64 },
    /// An exception the core does not handle: the kernel halts.
    Fatal(TrapReason),
}

/// Which chipset a root `compatible` string selects.
pub fn root_chip(s: &String) -> (r: Option<ChipKind>)
    ensures
        r == spec_root_chip(s@),
        r == Some(ChipKind::RiscvVirtio) <==> s@ == "riscv-virtio"@,
        r == Some(ChipKind::Sifive) <==> s@ == "sifive"@,
        r is None <==> (s@ != "riscv-virtio"@ && s@ != "sifive"@),
{
    proof {
        reveal_strlit("riscv-virtio");
        reveal_strlit("sifive");
        assert("riscv-virtio"@.len() == 12);
        assert("sifive"@.len() == 6);
    }
    let virtio: String = "riscv-virtio".to_owned();
    let sifive: String = "sifive".to_owned();
    if *s == virtio {
        Some(ChipKind::RiscvVirtio)
    } else if *s == sifive {
        Some(ChipKind::Sifive)
    } else {
        None
    }
}


/// Which chipset a root `compatible` string selects, as a specification.
pub open spec fn spec_root_chip(s: Seq<char>) -> Option<ChipKind> {
    if s == "riscv-virtio"@ {
        Some(ChipKind::RiscvVirtio)
    } else if s == "sifive"@ {
        Some(ChipKind::Sifive)
    } else {
        None
    }
}

/// The platform after the one-shot capture of the root `compatible`
/// string: set on the first probe walk, untouched afterwards.
pub open spec fn spec_after_capture(pre: Platform, tree: DeviceTree) -> Platform {
    if pre.root_compatible is None {
        Platform {
            root_compatible: Some(tree.root_compatible),
            chip: spec_root_chip(tree.root_compatible@),
            ..pre
        }
    } else {
        pre
    }
}

/// The probe steps one prober performs, walking the nodes from `ni` on:
/// one step per node its identifier selects, in traversal order.
pub open spec fn steps_of_prober(p: DevProber, nodes: Seq<DtNode>, ni: int) -> Seq<
    (ProbeKind, DtNode),
>
    decreases nodes.len() - ni,
{
    if ni < 0 || ni >= nodes.len() {
        Seq::empty()
    } else {
        (if p.ident.spec_matches(nodes[ni]) {
            seq![(p.kind, nodes[ni])]
        } else {
            Seq::empty()
        }) + steps_of_prober(p, nodes, ni + 1)
    }
}

/// The probe steps of the probers from `pi` on, each walking every node.
pub open spec fn steps_from(probers: Seq<DevProber>, nodes: Seq<DtNode>, pi: int) -> Seq<
    (ProbeKind, DtNode),
>
    decreases probers.len() - pi,
{
    if pi < 0 || pi >= probers.len() {
        Seq::empty()
    } else {
        steps_of_prober(probers[pi], nodes, 0) + steps_from(probers, nodes, pi + 1)
    }
}

/// Every probe step the walk performs: prober by prober in list order,
/// node by node in traversal order within each.
pub open spec fn spec_match_steps(probers: Seq<DevProber>, nodes: Seq<DtNode>) -> Seq<
    (ProbeKind, DtNode),
> {
    steps_from(probers, nodes, 0)
}

/// The steps still ahead of a walk standing at prober `pi`, node `ni`.
pub open spec fn remaining_steps(
    probers: Seq<DevProber>,
    nodes: Seq<DtNode>,
    pi: int,
    ni: int,
) -> Seq<(ProbeKind, DtNode)> {
    if pi < 0 || pi >= probers.len() {
        Seq::empty()
    } else {
        steps_of_prober(probers[pi], nodes, ni) + steps_from(probers, nodes, pi + 1)
    }
}

/// What running a sequence of probe steps does: each step changes the
/// platform as `spec_probe_step` says; the first failing step ends the
/// walk with its error and the state it left, and a walk whose every step
/// succeeds ends with Ok.
pub open spec fn spec_probe_walk(
    pre: Platform,
    steps: Seq<(ProbeKind, DtNode)>,
    post: Platform,
    r: Result<(), InternalError>,
) -> bool
    decreases steps.len(),
{
    if steps.len() == 0 {
        post == pre && r == Ok::<(), InternalError>(())
    } else {
        exists|mid: Platform, sr: Result<(), InternalError>|
            {
                &&& #[trigger] Platform::spec_probe_step(pre, steps[0].0, steps[0].1, mid, sr)
                &&& match sr {
                    Ok(()) => spec_probe_walk(mid, steps.drop_first(), post, r),
                    Err(e) => post == mid && r == Err::<(), InternalError>(e),
                }
            }
    }
}

/// One successful step extends a walk on the left.
pub proof fn lemma_walk_step_ok(
    cur: Platform,
    kind: ProbeKind,
    node: DtNode,
    next: Platform,
    steps: Seq<(ProbeKind, DtNode)>,
    post: Platform,
    r: Result<(), InternalError>,
)
    requires
        Platform::spec_probe_step(cur, kind, node, next, Ok(())),
        steps.len() > 0,
        steps[0] == (kind, node),
        spec_probe_walk(next, steps.drop_first(), post, r),
    ensures
        spec_probe_walk(cur, steps, post, r),
{
    assert(Platform::spec_probe_step(cur, steps[0].0, steps[0].1, next, Ok::<
        (),
        InternalError,
    >(())));
}

/// One failing step ends a walk with its error.
pub proof fn lemma_walk_step_err(
    cur: Platform,
    kind: ProbeKind,
    node: DtNode,
    next: Platform,
    steps: Seq<(ProbeKind, DtNode)>,
    e: InternalError,
)
    requires
        Platform::spec_probe_step(cur, kind, node, next, Err(e)),
        steps.len() > 0,
        steps[0] == (kind, node),
    ensures
        spec_probe_walk(cur, steps, next, Err(e)),
{
    assert(Platform::spec_probe_step(cur, steps[0].0, steps[0].1, next, Err::<
        (),
        InternalError,
    >(e)));
}


/// What firing one drained event does to the platform: a recording event
/// appends to the log, an empty action changes nothing, and a dispatch
/// event runs the corresponding policy tick — guarded, for `min_load`, by
/// the counter range its arithmetic needs.
pub open spec fn spec_fire_one(
    pre: Platform,
    ev: TimedEvent,
    cpu_id: int,
    now: u64,
    post: Platform,
) -> bool {
    match ev.handler.on_timeout {
        EventOp::Noop => post == pre,
        EventOp::Record(v) => {
            &&& post.event_log@ == pre.event_log@.push(v)
            &&& post == (Platform { event_log: post.event_log, ..pre })
        },
        EventOp::DispatchMinCount => exists|rr: Result<(), InternalError>|
            #[trigger] Platform::spec_min_count_event_rel(pre, post, cpu_id, now, rr),
        EventOp::DispatchMinLoad => {
            if 0 <= pre.irq_counts.counts@[IRQ_NET as int] <= 0x1000_0000 && 0
                <= pre.irq_counts.counts@[IRQ_UART as int] <= 0x1000_0000 {
                exists|rr: Result<(), InternalError>|
                    #[trigger] Platform::spec_min_load_event_rel(pre, post, cpu_id, now, rr)
            } else {
                post == pre
            }
        },
    }
}

/// What firing a drained batch does: the events run front to back, each
/// changing the platform as `spec_fire_one` says.
pub open spec fn spec_fire_events(
    pre: Platform,
    evs: Seq<TimedEvent>,
    cpu_id: int,
    now: u64,
    post: Platform,
) -> bool
    decreases evs.len(),
{
    if evs.len() == 0 {
        post == pre
    } else {
        exists|m: Platform|
            {
                &&& #[trigger] spec_fire_one(pre, evs[0], cpu_id, now, m)
                &&& spec_fire_events(m, evs.drop_first(), cpu_id, now, post)
            }
    }
}

/// Firing one more event extends a fired batch on the right.
pub proof fn lemma_fire_events_snoc(
    pre: Platform,
    evs: Seq<TimedEvent>,
    cpu_id: int,
    now: u64,
    mid: Platform,
    ev: TimedEvent,
    post: Platform,
)
    requires
        spec_fire_events(pre, evs, cpu_id, now, mid),
        spec_fire_one(mid, ev, cpu_id, now, post),
    ensures
        spec_fire_events(pre, evs.push(ev), cpu_id, now, post),
    decreases evs.len(),
{
    if evs.len() == 0 {
        assert(evs.push(ev)[0] == ev);
        assert(evs.push(ev).drop_first() =~= Seq::<TimedEvent>::empty());
        assert(spec_fire_one(pre, evs.push(ev)[0], cpu_id, now, post));
        assert(spec_fire_events(post, evs.push(ev).drop_first(), cpu_id, now, post));
    } else {
        let m1 = choose|m: Platform|
            {
                &&& #[trigger] spec_fire_one(pre, evs[0], cpu_id, now, m)
                &&& spec_fire_events(m, evs.drop_first(), cpu_id, now, mid)
            };
        lemma_fire_events_snoc(m1, evs.drop_first(), cpu_id, now, mid, ev, post);
        assert(evs.push(ev)[0] == evs[0]);
        assert(evs.push(ev).drop_first() =~= evs.drop_first().push(ev));
        assert(spec_fire_events(m1, evs.push(ev).drop_first(), cpu_id, now, post));
        assert(spec_fire_one(pre, evs.push(ev)[0], cpu_id, now, m1));
    }
}

/// Whether every event in a drained batch carries only passive actions —
/// recording or nothing — so that firing it touches nothing but the log.
pub open spec fn all_passive(s: Seq<TimedEvent>) -> bool {
    forall|i: int|
        0 <= i < s.len() ==> ((#[trigger] s[i]).handler.on_timeout is Record
            || s[i].handler.on_timeout is Noop)
}

/// The values a drained batch records, in firing order.
pub open spec fn records_of(s: Seq<TimedEvent>) -> Seq<u64>
    decreases s.len(),
{
    if s.len() == 0 {
        Seq::<u64>::empty()
    } else {
        records_of(s.drop_last()) + (match s.last().handler.on_timeout {
            EventOp::Record(v) => seq![v],
            _ => Seq::<u64>::empty(),
        })
    }
}

/// The whole platform state of the kernel core.
pub struct Platform {
    /// Root `compatible` string, captured once at the first probe.
    pub root_compatible: Option<String>,
    /// The chipset that string selects, if it is a known one.
    pub chip: Option<ChipKind>,
    /// The hart-local interrupt controller.
    pub intc: Option<Intc>,
    /// The chip-level external interrupt controller.
    pub plic: Option<Plic>,
    /// The phandle under which the PLIC was published.
    pub plic_phandle: Option<usize>,
    /// Drivers the dispatch table points into.
    pub devices: Vec<DeviceDriver>,
    /// The UART driver's slot in `devices`.
    pub uart_device: Option<usize>,
    /// The frame allocator over the probed memory node.
    pub frame_allocator: Option<FrameAllocator>,
    /// Per-hart count of external interrupts taken.
    pub interrupt_count: Vec<u8>,
    /// Per-IRQ count of claims.
    pub irq_counts: IrqCounts,
    /// The hart the rotate policy last aimed at.
    pub rotate_index: usize,
    /// Per-hart timed-event queues.
    pub timed_queues: Vec<TimedEventQueue>,
    /// Values recorded by fired or cancelled events, in order.
    pub event_log: Vec<u64>,
    /// Per-hart runtimes.
    pub runtimes: Vec<Runtime>,
    /// Software interrupts taken, over all harts.
    pub soft_int_count: u64,
    /// Timer interrupts taken, over all harts.
    pub timer_int_count: u64,
    pub boot_state: BootState,
    /// Process-wide monotonic counters for the scheduler identities.
    pub inspector_ids: IdAllocator,
    pub executor_ids: IdAllocator,
    pub task_ids: IdAllocator,
}

impl Platform {
    pub open spec fn wf(self) -> bool {
        &&& (self.intc matches Some(i) ==> i.wf())
        &&& (self.plic matches Some(p) ==> p.wf() && p.inner.irq_manager.bounds_devices(
            self.devices@.len() as int,
        ))
        &&& self.interrupt_count@.len() == CPU_COUNT
        &&& self.irq_counts.wf()
        &&& self.rotate_index < CPU_COUNT
        &&& self.timed_queues@.len() == CPU_COUNT
        &&& (forall|c: int| 0 <= c < CPU_COUNT ==> (#[trigger] self.timed_queues@[c]).wf())
        &&& self.runtimes@.len() == CPU_COUNT
        &&& (forall|c: int| 0 <= c < CPU_COUNT ==> (#[trigger] self.runtimes@[c]).wf())
        &&& (self.uart_device matches Some(d) ==> d < self.devices@.len())
        &&& (self.frame_allocator matches Some(f) ==> f.wf())
    }

    /// The registries the dispatch policies and the timer never touch:
    /// everything the boot probe installed, the boot state, and the
    /// rotation index.
    pub open spec fn same_boot_registries(pre: Self, post: Self) -> bool {
        &&& post.root_compatible == pre.root_compatible
        &&& post.chip == pre.chip
        &&& post.intc == pre.intc
        &&& post.plic_phandle == pre.plic_phandle
        &&& post.uart_device == pre.uart_device
        &&& post.frame_allocator == pre.frame_allocator
        &&& post.boot_state == pre.boot_state
        &&& post.rotate_index == pre.rotate_index
    }

    /// A bare platform: nothing probed, every counter at zero, one runtime
    /// and one timed-event queue per hart.
    pub fn new() -> (r: Self)
        ensures
            r.wf(),
            r.root_compatible is None,
            r.chip is None,
            r.intc is None,
            r.plic is None,
            r.plic_phandle is None,
            r.devices@.len() == 0,
            r.uart_device is None,
            r.frame_allocator is None,
            forall|c: int| 0 <= c < CPU_COUNT ==> (#[trigger] r.interrupt_count@[c]) == 0u8,
            forall|i: int| 0 <= i < IRQ_MAX ==> (#[trigger] r.irq_counts.counts@[i]) == 0i32,
            r.rotate_index == 0,
            forall|c: int|
                0 <= c < CPU_COUNT ==> (#[trigger] r.timed_queues@[c]).events@.len() == 0,
            forall|c: int| 0 <= c < CPU_COUNT ==> (#[trigger] r.timed_queues@[c]).next_id == 0,
            forall|c: int|
                0 <= c < CPU_COUNT ==> {
                    let rt = #[trigger] r.runtimes@[c];
                    &&& rt.status is Init
                    &&& rt.inspectors@.len() == 0
                    &&& rt.cpu_id == c
                    &&& !rt.inspector_switch_pending
                    &&& rt.switch_context == 0
                },
            r.event_log@.len() == 0,
            r.soft_int_count == 0,
            r.timer_int_count == 0,
            r.boot_state is Bootstrap,
    {
        let mut timed_queues: Vec<TimedEventQueue> = Vec::new();
        let mut runtimes: Vec<Runtime> = Vec::new();
        let mut c: usize = 0;
        while c < CPU_COUNT
            invariant
                c <= CPU_COUNT,
                timed_queues@.len() == c,
                runtimes@.len() == c,
                forall|k: int| 0 <= k < c ==> (#[trigger] timed_queues@[k]).wf(),
                forall|k: int| 0 <= k < c ==> (#[trigger] timed_queues@[k]).events@.len() == 0,
                forall|k: int| 0 <= k < c ==> (#[trigger] timed_queues@[k]).next_id == 0,
                forall|k: int| 0 <= k < c ==> (#[trigger] runtimes@[k]).wf(),
                forall|k: int|
                    0 <= k < c ==> {
                        let rt = #[trigger] runtimes@[k];
                        &&& rt.status is Init
                        &&& rt.inspectors@.len() == 0
                        &&& rt.cpu_id == k
                        &&& !rt.inspector_switch_pending
                        &&& rt.switch_context == 0
                    },
            decreases CPU_COUNT - c,
        {
            timed_queues.push(TimedEventQueue::new());
            runtimes.push(Runtime::new(c, 0));
            c = c + 1;
        }
        Platform {
            root_compatible: None,
            chip: None,
            intc: None,
            plic: None,
            plic_phandle: None,
            devices: Vec::new(),
            uart_device: None,
            frame_allocator: None,
            interrupt_count: repeat_value(CPU_COUNT, 0u8),
            irq_counts: IrqCounts::new(),
            rotate_index: 0,
            timed_queues,
            event_log: Vec::new(),
            runtimes,
            soft_int_count: 0,
            timer_int_count: 0,
            boot_state: BootState::Bootstrap,
            inspector_ids: IdAllocator::new(),
            executor_ids: IdAllocator::new(),
            task_ids: IdAllocator::new(),
        }
    }

    /// A fresh process-wide inspector id: distinct from every one issued.
    pub fn fresh_inspector_id(&mut self) -> (id: u64)
        requires
            old(self).inspector_ids.next < u64::MAX,
        ensures
            id == old(self).inspector_ids.next,
            !old(self).inspector_ids.spec_issued(id),
            final(self).inspector_ids.spec_issued(id),
            forall|j: u64|
                old(self).inspector_ids.spec_issued(j) ==> final(self).inspector_ids.spec_issued(
                    j,
                ) && j != id,
            *final(self) == (Platform { inspector_ids: final(self).inspector_ids, ..*old(self) }),
    {
        self.inspector_ids.fresh()
    }

    /// A fresh process-wide executor id: distinct from every one issued.
    pub fn fresh_executor_id(&mut self) -> (id: u64)
        requires
            old(self).executor_ids.next < u64::MAX,
        ensures
            id == old(self).executor_ids.next,
            !old(self).executor_ids.spec_issued(id),
            final(self).executor_ids.spec_issued(id),
            forall|j: u64|
                old(self).executor_ids.spec_issued(j) ==> final(self).executor_ids.spec_issued(
                    j,
                ) && j != id,
            *final(self) == (Platform { executor_ids: final(self).executor_ids, ..*old(self) }),
    {
        self.executor_ids.fresh()
    }

    /// A fresh process-wide task id: distinct from every one issued.
    pub fn fresh_task_id(&mut self) -> (id: u64)
        requires
            old(self).task_ids.next < u64::MAX,
        ensures
            id == old(self).task_ids.next,
            !old(self).task_ids.spec_issued(id),
            forall|j: u64|
                old(self).task_ids.spec_issued(j) ==> final(self).task_ids.spec_issued(j) && j
                    != id,
            *final(self) == (Platform { task_ids: final(self).task_ids, ..*old(self) }),
    {
        self.task_ids.fresh()
    }

    /// One hart reports its boot finished: the ready count starts at one
    /// and rises by one per hart.
    pub fn boot_set_ready(&mut self)
        requires
            (old(self).boot_state matches BootState::Ready(n) ==> n < usize::MAX),
        ensures
            final(self).boot_state == (match old(self).boot_state {
                BootState::Bootstrap => BootState::Ready(1usize),
                BootState::Ready(n) => BootState::Ready((n + 1) as usize),
            }),
            *final(self) == (Platform { boot_state: final(self).boot_state, ..*old(self) }),
    {
        match self.boot_state {
            BootState::Ready(count) => {
                self.boot_state = BootState::Ready(count + 1);
            },
            BootState::Bootstrap => {
                self.boot_state = BootState::Ready(1);
            },
        }
    }

    /// How many software interrupts have been taken.
    pub fn count(&self) -> (r: u64)
        ensures
            r == self.soft_int_count,
    {
        self.soft_int_count
    }

    /// The software-interrupt handler: count it and clear the pending bit
    /// (the clear is a hardware write with no further observable state).
    pub fn software_interrupt_handler(&mut self)
        ensures
            Self::spec_soft_interrupt_rel(*old(self), *final(self)),
    {
        self.soft_int_count = self.soft_int_count.wrapping_add(1);
    }


    /// What handling one software interrupt does: count it and touch
    /// nothing else.
    pub open spec fn spec_soft_interrupt_rel(pre: Platform, post: Platform) -> bool {
        &&& post.soft_int_count == (if pre.soft_int_count == u64::MAX {
            0u64
        } else {
            (pre.soft_int_count + 1) as u64
        })
        &&& post == (Platform { soft_int_count: post.soft_int_count, ..pre })
    }

    /// What handling one timer interrupt on `cpu_id` at `now` does, and the
    /// deadline `next` it re-arms the timer for.
    pub open spec fn spec_timer_interrupt_rel(
        pre: Platform,
        post: Platform,
        cpu_id: int,
        now: u64,
        next: Option<u64>,
    ) -> bool {
        &&& post.wf()
        &&& post.timer_int_count == (if pre.timer_int_count == u64::MAX {
            0u64
        } else {
            (pre.timer_int_count + 1) as u64
        })
        &&& next == (if post.timed_queues@[cpu_id].events@.len() > 0 {
            Some(post.timed_queues@[cpu_id].events@[0].deadline)
        } else {
            None::<u64>
        })
        &&& Self::same_boot_registries(pre, post)
        &&& post.soft_int_count == pre.soft_int_count
        &&& post.devices@ == pre.devices@
        &&& post.runtimes@ == pre.runtimes@
        &&& post.timed_queues@.len() == CPU_COUNT
        &&& exists|k: int|
            {
                let q0 = pre.spec_queue_events(cpu_id);
                &&& 0 <= k <= q0.len()
                &&& (forall|i: int| 0 <= i < k ==> (#[trigger] q0[i]).deadline <= now)
                &&& (k < q0.len() ==> q0[k].deadline > now)
                &&& exists|dr: Platform|
                    {
                        &&& dr.timed_queues@.len() == CPU_COUNT
                        &&& dr.timed_queues@[cpu_id].events@ == q0.subrange(k, q0.len() as int)
                        &&& dr.timed_queues@[cpu_id].next_id == pre.timed_queues@[cpu_id].next_id
                        &&& (forall|c: int|
                            0 <= c < CPU_COUNT && c != cpu_id ==> dr.timed_queues@[c]
                                == pre.timed_queues@[c])
                        &&& dr.timer_int_count == post.timer_int_count
                        &&& dr == (Platform {
                            timed_queues: dr.timed_queues,
                            timer_int_count: dr.timer_int_count,
                            ..pre
                        })
                        &&& #[trigger] spec_fire_events(dr, q0.subrange(0, k), cpu_id, now, post)
                    }
                &&& (#[trigger] all_passive(pre.spec_queue_events(cpu_id).subrange(0, k)) ==> {
                    &&& post.event_log@ == pre.event_log@ + records_of(q0.subrange(0, k))
                    &&& post.timed_queues@[cpu_id].events@ == q0.subrange(k, q0.len() as int)
                    &&& post.timed_queues@[cpu_id].next_id == pre.timed_queues@[cpu_id].next_id
                    &&& (forall|c: int|
                        0 <= c < CPU_COUNT && c != cpu_id ==> post.timed_queues@[c]
                            == pre.timed_queues@[c])
                    &&& post.plic == pre.plic
                    &&& post.devices@ == pre.devices@
                    &&& post.irq_counts == pre.irq_counts
                    &&& post.interrupt_count == pre.interrupt_count
                    &&& post.runtimes@ == pre.runtimes@
                })
            }
    }

    /// What handling one external interrupt on `cpu_id` at `now` does, and
    /// the start time `start` the driver reported.
    pub open spec fn spec_external_interrupt_rel(
        pre: Platform,
        post: Platform,
        cpu_id: int,
        now: u64,
        start: u64,
    ) -> bool {
        &&& post.wf()
        &&& post.interrupt_count@ == pre.interrupt_count@.update(
            cpu_id,
            (if pre.interrupt_count@[cpu_id] == 255u8 {
                0u8
            } else {
                (pre.interrupt_count@[cpu_id] + 1) as u8
            }),
        )
        &&& post.devices@.len() == pre.devices@.len()
        &&& post.plic is Some
        &&& ({
            let ctx = spec_context_id(pre.plic->0.chip, cpu_id);
            let pi = pre.plic->0.inner;
            let po = post.plic->0.inner;
            if exists|j: int| pi.deliverable(ctx, j) {
                exists|irq: int|
                    {
                        &&& #[trigger] pi.deliverable(ctx, irq)
                        &&& forall|j: int|
                            pi.deliverable(ctx, j) ==> pi.priority@[irq] > pi.priority@[j] || (
                            pi.priority@[irq] == pi.priority@[j] && irq <= j)
                        &&& po.pending@ == pi.pending@.update(irq, false)
                        &&& po.claimed@ == pi.claimed@.update(ctx, None::<usize>)
                        &&& po.enable == pi.enable
                        &&& po.priority == pi.priority
                        &&& po.irq_manager == pi.irq_manager
                        &&& post.irq_counts.counts@ == pre.irq_counts.counts@.update(
                            irq,
                            spec_wrap_inc(pre.irq_counts.counts@[irq]),
                        )
                        &&& match pi.irq_manager.spec_bound(irq) {
                            Some(d) => {
                                &&& DeviceDriver::spec_handle_irq(
                                    pre.devices@[d as int],
                                    post.devices@[d as int],
                                )
                                &&& forall|i: int|
                                    0 <= i < pre.devices@.len() && i != d ==> post.devices@[i]
                                        == pre.devices@[i]
                                &&& start == now
                            },
                            None => {
                                &&& post.devices@ == pre.devices@
                                &&& start == 0
                            },
                        }
                    }
            } else {
                &&& post.plic->0 == pre.plic->0
                &&& post.devices@ == pre.devices@
                &&& post.irq_counts == pre.irq_counts
                &&& start == 0
            }
        })
        &&& post.plic->0.chip == pre.plic->0.chip
        &&& post.plic->0.base_addr == pre.plic->0.base_addr
        &&& post == (Platform {
            plic: post.plic,
            devices: post.devices,
            irq_counts: post.irq_counts,
            interrupt_count: post.interrupt_count,
            ..pre
        })
    }

    /// The device side of the UART: a byte arrives on the line, lands in
    /// the receive FIFO, and the PLIC latches the UART's interrupt line
    /// pending.
    pub fn uart_input(&mut self, byte: u8)
        requires
            old(self).wf(),
            old(self).uart_device is Some,
            old(self).plic is Some,
        ensures
            final(self).wf(),
            ({
                let d = old(self).uart_device->0 as int;
                &&& final(self).devices@.len() == old(self).devices@.len()
                &&& (old(self).devices@[d] matches DeviceDriver::Uart(u0) ==> final(self).devices@[d] matches DeviceDriver::Uart(u1) && u1.input_fifo@ == u0.input_fifo@.push(
                    byte,
                ) && u1.buffer == u0.buffer && u1.output == u0.output)
                &&& forall|i: int|
                    0 <= i < old(self).devices@.len() && i != d ==> final(self).devices@[i] == old(self).devices@[i]
            }),
            final(self).plic->0.inner.pending@ == old(self).plic->0.inner.pending@.update(
                IRQ_UART as int,
                true,
            ),
            final(self).plic->0.inner.enable == old(self).plic->0.inner.enable,
            final(self).plic->0.inner.irq_manager == old(self).plic->0.inner.irq_manager,
            final(self).plic->0.inner.priority == old(self).plic->0.inner.priority,
            final(self).plic->0.inner.threshold == old(self).plic->0.inner.threshold,
            final(self).plic->0.inner.claimed == old(self).plic->0.inner.claimed,
            final(self).plic->0.chip == old(self).plic->0.chip,
            final(self).plic->0.base_addr == old(self).plic->0.base_addr,
            final(self).irq_counts == old(self).irq_counts,
            final(self).event_log == old(self).event_log,
            *final(self) == (Platform {
                devices: final(self).devices,
                plic: final(self).plic,
                ..*old(self)
            }),
    {
        let d = match self.uart_device {
            Some(d) => d,
            None => {
                return ;
            },
        };
        let mut dev = self.devices.remove(d);
        match &mut dev {
            DeviceDriver::Uart(u) => {
                u.receive_byte(byte);
            },
        }
        self.devices.insert(d, dev);
        proof {
            assert(forall|i: int|
                0 <= i < old(self).devices@.len() && i != d ==> self.devices@[i] == old(self).devices@[i]);
        }
        let mut plic = match self.plic.take() {
            Some(p) => p,
            None => {
                return ;
            },
        };
        plic.set_pending(IRQ_UART);
        self.plic = Some(plic);
    }

    /// Bind a driver slot to an external line on the PLIC: the binding
    /// lands in the IRQ manager and the line's priority is raised to 7.
    pub fn register_device(&mut self, irq_num: usize, dev: usize) -> (r: Result<
        (),
        InternalError,
    >)
        requires
            old(self).wf(),
            dev < old(self).devices@.len(),
        ensures
            final(self).wf(),
            final(self).devices@ == old(self).devices@,
            match r {
                Ok(()) => {
                    &&& old(self).plic is Some
                    &&& 1 <= irq_num < IRQ_MAX
                    &&& final(self).plic->0.inner.irq_manager.spec_bound(irq_num as int) == Some(
                        dev,
                    )
                    &&& forall|i: int|
                        i != irq_num ==> final(self).plic->0.inner.irq_manager.spec_bound(i) == old(self).plic->0.inner.irq_manager.spec_bound(i)
                    &&& final(self).plic->0.inner.priority@ == old(self).plic->0.inner.priority@.update(irq_num as int, 7u32)
                    &&& final(self).plic->0.inner.enable == old(self).plic->0.inner.enable
                    &&& final(self).plic->0.inner.pending == old(self).plic->0.inner.pending
                    &&& final(self).plic->0.inner.threshold == old(self).plic->0.inner.threshold
                    &&& final(self).plic->0.inner.claimed == old(self).plic->0.inner.claimed
                    &&& final(self).plic->0.chip == old(self).plic->0.chip
                    &&& final(self).plic->0.base_addr == old(self).plic->0.base_addr
                    &&& *final(self) == (Platform { plic: final(self).plic, ..*old(self) })
                },
                Err(e) => {
                    &&& (e == InternalError::DevBadState || e == InternalError::InvalidParam)
                    &&& (e == InternalError::DevBadState <==> old(self).plic is None)
                    &&& (e == InternalError::InvalidParam <==> old(self).plic is Some && !(1
                        <= irq_num < IRQ_MAX))
                    &&& *final(self) == *old(self)
                },
            },
            r is Ok <==> old(self).plic is Some && 1 <= irq_num < IRQ_MAX,
    {
        let mut plic = match self.plic.take() {
            Some(p) => p,
            None => {
                return Err(InternalError::DevBadState);
            },
        };
        let r = plic.register_device(irq_num, dev);
        proof {
            if r is Ok {
                let m = plic.inner.irq_manager;
                let m0 = old(self).plic->0.inner.irq_manager;
                assert forall|i: int|
                    0 <= i < m.table@.len() implies ((#[trigger] m.table@[i]) matches Some(dd)
                    ==> dd < self.devices@.len()) by {
                    if i >= 1 {
                        assert(m.spec_bound(i) == m.table@[i]);
                        if i != irq_num {
                            assert(m.spec_bound(i) == m0.spec_bound(i));
                            assert(m0.spec_bound(i) == m0.table@[i]);
                        }
                    }
                }
            }
        }
        self.plic = Some(plic);
        r
    }

    /// The INTC's external-interrupt path: re-dispatch to the PLIC —
    /// claim, count the line, run the bound driver, complete — then count
    /// the interrupt against this hart. The start time the driver reported
    /// comes back, zero if nothing was dispatched.
    pub fn external_interrupt(&mut self, cpu_id: usize, now: u64) -> (start: u64)
        requires
            old(self).wf(),
            cpu_id < CPU_COUNT,
            old(self).plic is Some,
            !(old(self).plic->0.chip is Sifive && cpu_id == 0),
            0 <= spec_context_id(old(self).plic->0.chip, cpu_id as int) < old(self).plic->0.inner.n_contexts,
        ensures
            final(self).wf(),
            Self::spec_external_interrupt_rel(*old(self), *final(self), cpu_id as int, now, start),
    {
        let mut plic = match self.plic.take() {
            Some(p) => p,
            None => {
                return 0;
            },
        };
        let start = plic.handle_irq(cpu_id, &mut self.devices, &mut self.irq_counts, now);
        self.plic = Some(plic);
        let c = self.interrupt_count[cpu_id];
        let next: u8 = if c == 255u8 {
            0u8
        } else {
            c + 1
        };
        self.interrupt_count.set(cpu_id, next);
        start
    }
}

impl Platform {

    /// What one `min_count` tick does, and when it fails instead.
    pub open spec fn spec_min_count_event_rel(
        pre: Platform,
        post: Platform,
        cpu_id: int,
        now: u64,
        r: Result<(), InternalError>,
    ) -> bool {
        &&& post.wf()
        &&& (match r {
            Ok(()) => {
                &&& pre.plic is Some
                &&& pre.plic->0.chip is RiscvVirtio
                &&& pre.plic->0.inner.n_contexts > 2 * (CPU_COUNT - 1) + 1
                &&& ({
                    let loads = pre.spec_min_count_loads();
                    let chip = pre.plic->0.chip;
                    let pin = pre.plic->0.inner;
                    let pon = post.plic->0.inner;
                    exists|c1: int, c2: int|
                        {
                            &&& #[trigger] is_min_index(loads, c1)
                            &&& #[trigger] is_min_index_except(loads, c1, c2)
                            &&& (forall|c: int|
                                0 <= c < CPU_COUNT ==> pon.enable_bit(
                                    spec_context_id(chip, c),
                                    IRQ_UART as int,
                                ) == (c == c1))
                            &&& (forall|c: int|
                                0 <= c < CPU_COUNT ==> pon.enable_bit(
                                    spec_context_id(chip, c),
                                    IRQ_NET as int,
                                ) == (c == c2))
                            &&& (forall|ct: int, i: int|
                                0 <= ct < pin.n_contexts && 0 <= i < IRQ_MAX && !((i == IRQ_NET
                                    || i == IRQ_UART) && (exists|c: int|
                                    0 <= c < CPU_COUNT && ct == spec_context_id(chip, c)))
                                    ==> pon.enable_bit(ct, i) == pin.enable_bit(ct, i))
                        }
                })
                &&& post.plic->0.inner.pending == pre.plic->0.inner.pending
                &&& post.plic->0.inner.priority == pre.plic->0.inner.priority
                &&& post.plic->0.inner.claimed == pre.plic->0.inner.claimed
                &&& post.plic->0.inner.irq_manager == pre.plic->0.inner.irq_manager
                &&& post.devices@ == pre.devices@
                &&& post.irq_counts == pre.irq_counts
                &&& post.interrupt_count == pre.interrupt_count
                &&& post.event_log == pre.event_log
                &&& post.timer_int_count == pre.timer_int_count
                &&& post.soft_int_count == pre.soft_int_count
                &&& post.runtimes@ == pre.runtimes@
                &&& Platform::same_boot_registries(pre, post)
                &&& post.timed_queues@[cpu_id].next_id == pre.timed_queues@[cpu_id].next_id + 1
                &&& (forall|c: int|
                    0 <= c < CPU_COUNT && c != cpu_id ==> post.timed_queues@[c] == pre.timed_queues@[c])
                &&& ({
                    let ev = (TimedEvent {
                        id: pre.timed_queues@[cpu_id].next_id,
                        deadline: (now + TIME_INTERVAL_NANOS) as u64,
                        handler: (TimedEventHandler {
                            on_timeout: EventOp::DispatchMinCount,
                            on_cancel: EventOp::Noop,
                        }),
                    });
                    exists|pos: int|
                        {
                            &&& 0 <= pos <= pre.timed_queues@[cpu_id].events@.len()
                            &&& post.timed_queues@[cpu_id].events@
                                == #[trigger] pre.timed_queues@[cpu_id].events@.insert(pos, ev)
                        }
                })
            },
            Err(e) => {
                &&& (e == InternalError::DevBadState || e == InternalError::InvalidCpuId || e
                    == InternalError::InvalidParam)
                &&& (e == InternalError::DevBadState <==> pre.plic is None)
                &&& (e == InternalError::InvalidCpuId <==> pre.plic is Some && pre.plic->0.chip is Sifive)
                &&& (e == InternalError::InvalidParam <==> pre.plic is Some && pre.plic->0.chip is RiscvVirtio && pre.plic->0.inner.n_contexts <= 2 * (
                CPU_COUNT - 1) + 1)
                &&& post == pre
            },
        })
        &&& (r is Ok <==> (pre.plic is Some && pre.plic->0.chip is RiscvVirtio && pre.plic->0.inner.n_contexts > 2 * (CPU_COUNT - 1) + 1))
    }

    /// What one `min_load` tick does, and when it fails instead.
    pub open spec fn spec_min_load_event_rel(
        pre: Platform,
        post: Platform,
        cpu_id: int,
        now: u64,
        r: Result<(), InternalError>,
    ) -> bool {
        &&& post.wf()
        &&& (match r {
            Ok(()) => {
                &&& pre.plic is Some
                &&& pre.plic->0.chip is RiscvVirtio
                &&& pre.plic->0.inner.n_contexts > 2 * (CPU_COUNT - 1) + 1
                &&& ({
                    let pris = pre.spec_policy_priorities();
                    let chip = pre.plic->0.chip;
                    let net_heavier = NET_LOAD * pre.irq_counts.counts@[IRQ_NET as int]
                        > UART_LOAD * pre.irq_counts.counts@[IRQ_UART as int];
                    let pin = pre.plic->0.inner;
                    let pon = post.plic->0.inner;
                    exists|c1: int, c2: int|
                        {
                            &&& #[trigger] is_min_index(pris, c1)
                            &&& #[trigger] is_min_index_except(pris, c1, c2)
                            &&& (forall|c: int|
                                0 <= c < CPU_COUNT ==> pon.enable_bit(
                                    spec_context_id(chip, c),
                                    IRQ_NET as int,
                                ) == (if net_heavier {
                                    c == c1
                                } else {
                                    c == c2
                                }))
                            &&& (forall|c: int|
                                0 <= c < CPU_COUNT ==> pon.enable_bit(
                                    spec_context_id(chip, c),
                                    IRQ_UART as int,
                                ) == (if net_heavier {
                                    c == c2
                                } else {
                                    c == c1
                                }))
                            &&& (forall|ct: int, i: int|
                                0 <= ct < pin.n_contexts && 0 <= i < IRQ_MAX && !((i == IRQ_NET
                                    || i == IRQ_UART) && (exists|c: int|
                                    0 <= c < CPU_COUNT && ct == spec_context_id(chip, c)))
                                    ==> pon.enable_bit(ct, i) == pin.enable_bit(ct, i))
                        }
                })
                &&& post.irq_counts.counts@ == pre.irq_counts.counts@.update(
                    IRQ_NET as int,
                    0i32,
                ).update(IRQ_UART as int, 0i32)
                &&& post.plic->0.inner.pending == pre.plic->0.inner.pending
                &&& post.plic->0.inner.priority == pre.plic->0.inner.priority
                &&& post.plic->0.inner.claimed == pre.plic->0.inner.claimed
                &&& post.plic->0.inner.irq_manager == pre.plic->0.inner.irq_manager
                &&& post.devices@ == pre.devices@
                &&& post.interrupt_count == pre.interrupt_count
                &&& post.event_log == pre.event_log
                &&& post.timer_int_count == pre.timer_int_count
                &&& post.soft_int_count == pre.soft_int_count
                &&& post.runtimes@ == pre.runtimes@
                &&& Platform::same_boot_registries(pre, post)
                &&& post.timed_queues@[cpu_id].next_id == pre.timed_queues@[cpu_id].next_id + 1
                &&& (forall|c: int|
                    0 <= c < CPU_COUNT && c != cpu_id ==> post.timed_queues@[c] == pre.timed_queues@[c])
            },
            Err(e) => {
                &&& (e == InternalError::DevBadState || e == InternalError::InvalidCpuId || e
                    == InternalError::InvalidParam)
                &&& (e == InternalError::DevBadState <==> pre.plic is None)
                &&& (e == InternalError::InvalidCpuId <==> pre.plic is Some && pre.plic->0.chip is Sifive)
                &&& (e == InternalError::InvalidParam <==> pre.plic is Some && pre.plic->0.chip is RiscvVirtio && pre.plic->0.inner.n_contexts <= 2 * (
                CPU_COUNT - 1) + 1)
                &&& post == pre
            },
        })
        &&& (r is Ok <==> (pre.plic is Some && pre.plic->0.chip is RiscvVirtio && pre.plic->0.inner.n_contexts > 2 * (CPU_COUNT - 1) + 1))
    }

    /// The load the `min_count` policy sees per hart: the hart's external
    /// interrupt count in the low half, its current task priority above.
    pub open spec fn spec_min_count_loads(self) -> Seq<u32> {
        Seq::new(
            CPU_COUNT as nat,
            |c: int|
                (self.interrupt_count@[c] as u32) | (
                (self.runtimes@[c].spec_policy_priority() as u32) << 16u32),
        )
    }

    /// The per-hart task priorities the `min_load` policy sorts by.
    pub open spec fn spec_policy_priorities(self) -> Seq<u32> {
        Seq::new(CPU_COUNT as nat, |c: int| self.runtimes@[c].spec_policy_priority() as u32)
    }

    /// Read the `min_count` loads off the runtimes and counters.
    fn gather_min_count_loads(&self) -> (r: Vec<u32>)
        requires
            self.wf(),
        ensures
            r@ == self.spec_min_count_loads(),
    {
        let mut loads: Vec<u32> = Vec::new();
        let mut c: usize = 0;
        while c < CPU_COUNT
            invariant
                self.wf(),
                c <= CPU_COUNT,
                loads@.len() == c,
                forall|k: int| 0 <= k < c ==> loads@[k] == self.spec_min_count_loads()[k],
            decreases CPU_COUNT - c,
        {
            let cnt = self.interrupt_count[c] as u32;
            let pri = self.runtimes[c].policy_priority() as u32;
            loads.push(cnt | (pri << 16u32));
            c = c + 1;
        }
        proof {
            assert(loads@ =~= self.spec_min_count_loads());
        }
        loads
    }

    /// Read the per-hart task priorities off the runtimes.
    fn gather_policy_priorities(&self) -> (r: Vec<u32>)
        requires
            self.wf(),
        ensures
            r@ == self.spec_policy_priorities(),
    {
        let mut pris: Vec<u32> = Vec::new();
        let mut c: usize = 0;
        while c < CPU_COUNT
            invariant
                self.wf(),
                c <= CPU_COUNT,
                pris@.len() == c,
                forall|k: int| 0 <= k < c ==> pris@[k] == self.spec_policy_priorities()[k],
            decreases CPU_COUNT - c,
        {
            let pri = self.runtimes[c].policy_priority() as u32;
            pris.push(pri);
            c = c + 1;
        }
        proof {
            assert(pris@ =~= self.spec_policy_priorities());
        }
        pris
    }

    /// Schedule a timed event on one hart's queue.
    fn create_event(&mut self, cpu_id: usize, deadline: u64, handler: TimedEventHandler) -> (id:
        u64)
        requires
            old(self).wf(),
            cpu_id < CPU_COUNT,
            old(self).timed_queues@[cpu_id as int].next_id < u64::MAX,
        ensures
            final(self).wf(),
            id == old(self).timed_queues@[cpu_id as int].next_id,
            final(self).timed_queues@.len() == CPU_COUNT,
            final(self).timed_queues@[cpu_id as int].next_id == id + 1,
            forall|c: int|
                0 <= c < CPU_COUNT && c != cpu_id ==> final(self).timed_queues@[c] == old(self).timed_queues@[c],
            exists|pos: int|
                {
                    &&& 0 <= pos <= old(self).timed_queues@[cpu_id as int].events@.len()
                    &&& final(self).timed_queues@[cpu_id as int].events@ == old(self).timed_queues@[cpu_id as int].events@.insert(
                        pos,
                        (TimedEvent { id, deadline, handler }),
                    )
                },
            *final(self) == (Platform { timed_queues: final(self).timed_queues, ..*old(self) }),
    {
        let mut q = self.timed_queues.remove(cpu_id);
        let id = q.create(deadline, handler);
        self.timed_queues.insert(cpu_id, q);
        proof {
            assert(forall|c: int|
                0 <= c < CPU_COUNT && c != cpu_id ==> final(self).timed_queues@[c] == old(self).timed_queues@[c]);
        }
        id
    }

    /// First tick of the boot hart's IRQ strategy: aim both policy lines at
    /// the booting hart, start the rotation there, and zero the per-line
    /// counters.
    pub fn init_strategy(&mut self, cpu_id: usize) -> (r: Result<(), InternalError>)
        requires
            old(self).wf(),
            cpu_id < CPU_COUNT,
        ensures
            final(self).wf(),
            match r {
                Ok(()) => {
                    &&& old(self).plic is Some
                    &&& !(old(self).plic->0.chip is Sifive && cpu_id == 0)
                    &&& ({
                        let ctx = spec_context_id(old(self).plic->0.chip, cpu_id as int);
                        let pre = old(self).plic->0.inner;
                        let post = final(self).plic->0.inner;
                        &&& 0 <= ctx < pre.n_contexts
                        &&& post.enable_bit(ctx, IRQ_NET as int)
                        &&& post.enable_bit(ctx, IRQ_UART as int)
                        &&& forall|c: int, i: int|
                            0 <= c < pre.n_contexts && 0 <= i < IRQ_MAX && !(c == ctx && (i
                                == IRQ_NET || i == IRQ_UART)) ==> post.enable_bit(c, i)
                                == pre.enable_bit(c, i)
                        &&& post.threshold@[ctx] == 0
                        &&& post.pending == pre.pending
                        &&& post.priority == pre.priority
                        &&& post.claimed == pre.claimed
                        &&& post.irq_manager == pre.irq_manager
                    })
                    &&& final(self).rotate_index == cpu_id
                    &&& final(self).irq_counts.counts@ == old(self).irq_counts.counts@.update(
                        IRQ_NET as int,
                        0i32,
                    ).update(IRQ_UART as int, 0i32)
                    &&& final(self).devices@ == old(self).devices@
                    &&& final(self).event_log == old(self).event_log
                    &&& *final(self) == (Platform {
                        plic: final(self).plic,
                        rotate_index: final(self).rotate_index,
                        irq_counts: final(self).irq_counts,
                        ..*old(self)
                    })
                },
                Err(e) => {
                    &&& (e == InternalError::DevBadState || e == InternalError::InvalidCpuId || e
                        == InternalError::InvalidParam)
                    &&& (e == InternalError::DevBadState <==> old(self).plic is None)
                    &&& (e == InternalError::InvalidCpuId <==> old(self).plic is Some && old(
                        self,
                    ).plic->0.chip is Sifive && cpu_id == 0)
                    &&& (e == InternalError::InvalidParam <==> old(self).plic is Some && !(old(
                        self,
                    ).plic->0.chip is Sifive && cpu_id == 0) && spec_context_id(
                        old(self).plic->0.chip,
                        cpu_id as int,
                    ) >= old(self).plic->0.inner.n_contexts)
                    &&& *final(self) == *old(self)
                },
            },
            r is Ok <==> (old(self).plic is Some && !(old(self).plic->0.chip is Sifive && cpu_id
                == 0) && spec_context_id(old(self).plic->0.chip, cpu_id as int) < old(
                self,
            ).plic->0.inner.n_contexts),
    {
        let mut plic = match self.plic.take() {
            Some(p) => p,
            None => {
                return Err(InternalError::DevBadState);
            },
        };
        match plic.enable(cpu_id, IRQ_NET) {
            Ok(()) => {},
            Err(e) => {
                self.plic = Some(plic);
                return Err(e);
            },
        }
        match plic.enable(cpu_id, IRQ_UART) {
            Ok(()) => {},
            Err(e) => {
                proof {
                    assert(false);
                }
                self.plic = Some(plic);
                return Err(e);
            },
        }
        self.plic = Some(plic);
        self.rotate_index = cpu_id;
        self.irq_counts.set(IRQ_NET, 0);
        self.irq_counts.set(IRQ_UART, 0);
        Ok(())
    }

    /// One tick of the rotate policy: move the UART line from the hart it
    /// was aimed at to the next one around the ring.
    pub fn rotate_strategy(&mut self) -> (r: Result<(), InternalError>)
        requires
            old(self).wf(),
        ensures
            final(self).wf(),
            match r {
                Ok(()) => {
                    &&& old(self).plic is Some
                    &&& old(self).plic->0.chip is RiscvVirtio
                    &&& ({
                        let idx = old(self).rotate_index as int;
                        let prev = ((idx + CPU_COUNT - 1) % (CPU_COUNT as int));
                        let pre = old(self).plic->0.inner;
                        let post = final(self).plic->0.inner;
                        &&& post.enable_bit(spec_context_id(old(self).plic->0.chip, idx), IRQ_UART as int)
                        &&& !post.enable_bit(
                            spec_context_id(old(self).plic->0.chip, prev),
                            IRQ_UART as int,
                        )
                        &&& forall|c: int, i: int|
                            0 <= c < pre.n_contexts && 0 <= i < IRQ_MAX && !(i == IRQ_UART && (c
                                == spec_context_id(old(self).plic->0.chip, idx) || c
                                == spec_context_id(old(self).plic->0.chip, prev)))
                                ==> post.enable_bit(c, i) == pre.enable_bit(c, i)
                        &&& post.pending == pre.pending
                        &&& post.priority == pre.priority
                        &&& post.claimed == pre.claimed
                        &&& post.irq_manager == pre.irq_manager
                    })
                    &&& final(self).rotate_index == (old(self).rotate_index + 1) % (CPU_COUNT as int)
                    &&& final(self).devices@ == old(self).devices@
                    &&& final(self).irq_counts == old(self).irq_counts
                    &&& *final(self) == (Platform {
                        plic: final(self).plic,
                        rotate_index: final(self).rotate_index,
                        ..*old(self)
                    })
                },
                Err(e) => {
                    &&& (e == InternalError::DevBadState || e == InternalError::InvalidCpuId || e
                        == InternalError::InvalidParam)
                    &&& (e == InternalError::DevBadState <==> old(self).plic is None)
                    &&& (e == InternalError::InvalidCpuId <==> old(self).plic is Some && old(
                        self,
                    ).plic->0.chip is Sifive)
                    &&& (e == InternalError::InvalidParam <==> old(self).plic is Some && old(
                        self,
                    ).plic->0.chip is RiscvVirtio && ({
                        let idx = old(self).rotate_index as int;
                        let prev = (idx + CPU_COUNT - 1) % (CPU_COUNT as int);
                        spec_context_id(old(self).plic->0.chip, idx) >= old(
                            self,
                        ).plic->0.inner.n_contexts || spec_context_id(old(self).plic->0.chip, prev)
                            >= old(self).plic->0.inner.n_contexts
                    }))
                    &&& *final(self) == *old(self)
                },
            },
            r is Ok <==> (old(self).plic is Some && old(self).plic->0.chip is RiscvVirtio && ({
                let idx = old(self).rotate_index as int;
                let prev = (idx + CPU_COUNT - 1) % (CPU_COUNT as int);
                spec_context_id(old(self).plic->0.chip, idx) < old(self).plic->0.inner.n_contexts
                    && spec_context_id(old(self).plic->0.chip, prev) < old(
                    self,
                ).plic->0.inner.n_contexts
            })),
    {
        let mut plic = match self.plic.take() {
            Some(p) => p,
            None => {
                return Err(InternalError::DevBadState);
            },
        };
        match &plic.chip {
            ChipKind::RiscvVirtio => {},
            ChipKind::Sifive => {
                self.plic = Some(plic);
                return Err(InternalError::InvalidCpuId);
            },
        }
        let idx = self.rotate_index;
        let prev = (idx + CPU_COUNT - 1) % CPU_COUNT;
        if 2 * idx + 1 >= plic.inner.n_contexts || 2 * prev + 1 >= plic.inner.n_contexts {
            self.plic = Some(plic);
            return Err(InternalError::InvalidParam);
        }
        match plic.disable(prev, IRQ_UART) {
            Ok(()) => {},
            Err(e) => {
                proof {
                    assert(false);
                }
                self.plic = Some(plic);
                return Err(e);
            },
        }
        match plic.enable(idx, IRQ_UART) {
            Ok(()) => {},
            Err(e) => {
                proof {
                    assert(false);
                }
                self.plic = Some(plic);
                return Err(e);
            },
        }
        self.plic = Some(plic);
        self.rotate_index = (idx + 1) % CPU_COUNT;
        Ok(())
    }
}

impl Platform {
    /// One tick of the `min_count` policy. Each hart's load is its task
    /// priority over its interrupt count; both policy lines are first
    /// disabled everywhere, then the UART line is aimed at the least-loaded
    /// hart (lowest id among ties) and the network line at the runner-up,
    /// and the policy reschedules itself one interval ahead.
    pub fn min_count_cpu_strategy_event(&mut self, cpu_id: usize, now: u64) -> (r: Result<
        (),
        InternalError,
    >)
        requires
            old(self).wf(),
            cpu_id < CPU_COUNT,
            now + TIME_INTERVAL_NANOS < u64::MAX,
            old(self).timed_queues@[cpu_id as int].next_id < u64::MAX,
        ensures
            final(self).wf(),
            Self::spec_min_count_event_rel(*old(self), *final(self), cpu_id as int, now, r),
    {
        let loads = self.gather_min_count_loads();
        let mut plic = match self.plic.take() {
            Some(p) => p,
            None => {
                return Err(InternalError::DevBadState);
            },
        };
        match &plic.chip {
            ChipKind::RiscvVirtio => {},
            ChipKind::Sifive => {
                self.plic = Some(plic);
                return Err(InternalError::InvalidCpuId);
            },
        }
        if plic.inner.n_contexts <= 2 * (CPU_COUNT - 1) + 1 {
            self.plic = Some(plic);
            return Err(InternalError::InvalidParam);
        }
        let c1 = argmin(&loads);
        let c2 = argmin_except(&loads, c1);
        match disable_policy_lines(&mut plic) {
            Ok(()) => {},
            Err(e) => {
                proof {
                    assert(false);
                }
                self.plic = Some(plic);
                return Err(e);
            },
        }
        let ghost cleared = plic;
        match plic.enable(c1, IRQ_UART) {
            Ok(()) => {},
            Err(_) => {
                proof {
                    assert(false);
                }
                self.plic = Some(plic);
                return Err(InternalError::InvalidParam);
            },
        }
        let ghost after1 = plic;
        match plic.enable(c2, IRQ_NET) {
            Ok(()) => {},
            Err(_) => {
                proof {
                    assert(false);
                }
                self.plic = Some(plic);
                return Err(InternalError::InvalidParam);
            },
        }
        proof {
            let chip = old(self).plic->0.chip;
            assert forall|c: int| 0 <= c < CPU_COUNT implies plic.inner.enable_bit(
                spec_context_id(chip, c),
                IRQ_UART as int,
            ) == (c == c1) by {
                if c != c1 {
                    assert(spec_context_id(chip, c) != spec_context_id(chip, c1 as int));
                    assert(after1.inner.enable_bit(spec_context_id(chip, c), IRQ_UART as int)
                        == cleared.inner.enable_bit(spec_context_id(chip, c), IRQ_UART as int));
                }
            }
            assert forall|c: int| 0 <= c < CPU_COUNT implies plic.inner.enable_bit(
                spec_context_id(chip, c),
                IRQ_NET as int,
            ) == (c == c2) by {
                if c != c2 {
                    assert(spec_context_id(chip, c) != spec_context_id(chip, c2 as int));
                    assert(after1.inner.enable_bit(spec_context_id(chip, c), IRQ_NET as int)
                        == cleared.inner.enable_bit(spec_context_id(chip, c), IRQ_NET as int));
                }
            }
        }
        self.plic = Some(plic);
        self.min_count_strategy(cpu_id, now);
        Ok(())
    }

    /// Schedule the next `min_count` tick one interval ahead.
    pub fn min_count_strategy(&mut self, cpu_id: usize, now: u64)
        requires
            old(self).wf(),
            cpu_id < CPU_COUNT,
            now + TIME_INTERVAL_NANOS < u64::MAX,
            old(self).timed_queues@[cpu_id as int].next_id < u64::MAX,
        ensures
            final(self).wf(),
            final(self).timed_queues@[cpu_id as int].next_id == old(self).timed_queues@[cpu_id as int].next_id + 1,
            forall|c: int|
                0 <= c < CPU_COUNT && c != cpu_id ==> final(self).timed_queues@[c] == old(self).timed_queues@[c],
            ({
                let ev = (TimedEvent {
                    id: old(self).timed_queues@[cpu_id as int].next_id,
                    deadline: (now + TIME_INTERVAL_NANOS) as u64,
                    handler: (TimedEventHandler {
                        on_timeout: EventOp::DispatchMinCount,
                        on_cancel: EventOp::Noop,
                    }),
                });
                exists|pos: int|
                    {
                        &&& 0 <= pos <= old(self).timed_queues@[cpu_id as int].events@.len()
                        &&& final(self).timed_queues@[cpu_id as int].events@ == #[trigger] old(self).timed_queues@[cpu_id as int].events@.insert(pos, ev)
                    }
            }),
            *final(self) == (Platform { timed_queues: final(self).timed_queues, ..*old(self) }),
    {
        let handler = TimedEventHandler::new(EventOp::DispatchMinCount, EventOp::Noop);
        let _ = self.create_event(cpu_id, now + TIME_INTERVAL_NANOS, handler);
    }

    /// Schedule the next `min_load` tick one interval ahead.
    pub fn min_load_strategy(&mut self, cpu_id: usize, now: u64)
        requires
            old(self).wf(),
            cpu_id < CPU_COUNT,
            now + TIME_INTERVAL_NANOS < u64::MAX,
            old(self).timed_queues@[cpu_id as int].next_id < u64::MAX,
        ensures
            final(self).wf(),
            final(self).timed_queues@[cpu_id as int].next_id == old(self).timed_queues@[cpu_id as int].next_id + 1,
            forall|c: int|
                0 <= c < CPU_COUNT && c != cpu_id ==> final(self).timed_queues@[c] == old(self).timed_queues@[c],
            ({
                let ev = (TimedEvent {
                    id: old(self).timed_queues@[cpu_id as int].next_id,
                    deadline: (now + TIME_INTERVAL_NANOS) as u64,
                    handler: (TimedEventHandler {
                        on_timeout: EventOp::DispatchMinLoad,
                        on_cancel: EventOp::Noop,
                    }),
                });
                exists|pos: int|
                    {
                        &&& 0 <= pos <= old(self).timed_queues@[cpu_id as int].events@.len()
                        &&& final(self).timed_queues@[cpu_id as int].events@ == #[trigger] old(self).timed_queues@[cpu_id as int].events@.insert(pos, ev)
                    }
            }),
            *final(self) == (Platform { timed_queues: final(self).timed_queues, ..*old(self) }),
    {
        let handler = TimedEventHandler::new(EventOp::DispatchMinLoad, EventOp::Noop);
        let _ = self.create_event(cpu_id, now + TIME_INTERVAL_NANOS, handler);
    }

    /// One tick of the `min_load` policy. Each line is weighted by its
    /// observed count; hosts are chosen by ascending task priority (lowest
    /// hart id among ties, a hart that is not running counting as maximal)
    /// and the heavier line lands on the lightest hart. The counts restart
    /// from zero and the policy reschedules itself one interval ahead.
    pub fn min_load_strategy_event(&mut self, cpu_id: usize, now: u64) -> (r: Result<
        (),
        InternalError,
    >)
        requires
            old(self).wf(),
            cpu_id < CPU_COUNT,
            now + TIME_INTERVAL_NANOS < u64::MAX,
            old(self).timed_queues@[cpu_id as int].next_id < u64::MAX,
            0 <= old(self).irq_counts.counts@[IRQ_NET as int] <= 0x1000_0000,
            0 <= old(self).irq_counts.counts@[IRQ_UART as int] <= 0x1000_0000,
        ensures
            final(self).wf(),
            Self::spec_min_load_event_rel(*old(self), *final(self), cpu_id as int, now, r),
    {
        let pris = self.gather_policy_priorities();
        let mut plic = match self.plic.take() {
            Some(p) => p,
            None => {
                return Err(InternalError::DevBadState);
            },
        };
        match &plic.chip {
            ChipKind::RiscvVirtio => {},
            ChipKind::Sifive => {
                self.plic = Some(plic);
                return Err(InternalError::InvalidCpuId);
            },
        }
        if plic.inner.n_contexts <= 2 * (CPU_COUNT - 1) + 1 {
            self.plic = Some(plic);
            return Err(InternalError::InvalidParam);
        }
        let c1 = argmin(&pris);
        let c2 = argmin_except(&pris, c1);
        match disable_policy_lines(&mut plic) {
            Ok(()) => {},
            Err(e) => {
                proof {
                    assert(false);
                }
                self.plic = Some(plic);
                return Err(e);
            },
        }
        let ghost cleared = plic;
        let net_count = self.irq_counts.get(IRQ_NET);
        let uart_count = self.irq_counts.get(IRQ_UART);
        let net_irq_load = NET_LOAD * net_count;
        let uart_irq_load = UART_LOAD * uart_count;
        let (net_host, uart_host) = if net_irq_load > uart_irq_load {
            (c1, c2)
        } else {
            (c2, c1)
        };
        match plic.enable(net_host, IRQ_NET) {
            Ok(()) => {},
            Err(_) => {
                proof {
                    assert(false);
                }
                self.plic = Some(plic);
                return Err(InternalError::InvalidParam);
            },
        }
        let ghost after1 = plic;
        match plic.enable(uart_host, IRQ_UART) {
            Ok(()) => {},
            Err(_) => {
                proof {
                    assert(false);
                }
                self.plic = Some(plic);
                return Err(InternalError::InvalidParam);
            },
        }
        proof {
            let chip = old(self).plic->0.chip;
            assert forall|c: int| 0 <= c < CPU_COUNT implies plic.inner.enable_bit(
                spec_context_id(chip, c),
                IRQ_NET as int,
            ) == (c == net_host) by {
                if c != net_host {
                    assert(spec_context_id(chip, c) != spec_context_id(chip, net_host as int));
                    assert(after1.inner.enable_bit(spec_context_id(chip, c), IRQ_NET as int)
                        == cleared.inner.enable_bit(spec_context_id(chip, c), IRQ_NET as int));
                }
            }
            assert forall|c: int| 0 <= c < CPU_COUNT implies plic.inner.enable_bit(
                spec_context_id(chip, c),
                IRQ_UART as int,
            ) == (c == uart_host) by {
                if c != uart_host {
                    assert(spec_context_id(chip, c) != spec_context_id(chip, uart_host as int));
                    assert(after1.inner.enable_bit(spec_context_id(chip, c), IRQ_UART as int)
                        == cleared.inner.enable_bit(spec_context_id(chip, c), IRQ_UART as int));
                }
            }
        }
        self.plic = Some(plic);
        self.irq_counts.set(IRQ_NET, 0);
        self.irq_counts.set(IRQ_UART, 0);
        self.min_load_strategy(cpu_id, now);
        Ok(())
    }
}

impl Platform {

    /// The events of one hart's timed-event queue.
    pub open spec fn spec_queue_events(self, c: int) -> Seq<TimedEvent> {
        self.timed_queues@[c].events@
    }

    /// The timer-interrupt handler: count the tick, drain every event of
    /// this hart's queue whose deadline has passed, fire each one's action
    /// in deadline order, and report the deadline the timer should be
    /// re-armed for. When the drained batch is passive — only recording
    /// actions — the handler touches nothing but the log and the queue.
    pub fn timer_interrupt(&mut self, cpu_id: usize, now: u64) -> (next: Option<u64>)
        requires
            old(self).wf(),
            cpu_id < CPU_COUNT,
            now + TIME_INTERVAL_NANOS < u64::MAX,
            old(self).timed_queues@[cpu_id as int].next_id + old(self).timed_queues@[cpu_id as int].events@.len() + 1 < u64::MAX,
        ensures
            final(self).wf(),
            Self::spec_timer_interrupt_rel(*old(self), *final(self), cpu_id as int, now, next),
    {
        self.timer_int_count = self.timer_int_count.wrapping_add(1);
        let mut q = self.timed_queues.remove(cpu_id);
        let ghost q0 = q.events@;
        let fired = q.drain_outdated(now);
        self.timed_queues.insert(cpu_id, q);
        let ghost drained = *self;
        let ghost k = fired@.len() as int;
        proof {
            assert(fired@.subrange(0, 0) =~= Seq::<TimedEvent>::empty());
        }
        let mut i: usize = 0;
        while i < fired.len()
            invariant
                self.wf(),
                cpu_id < CPU_COUNT,
                now + TIME_INTERVAL_NANOS < u64::MAX,
                i <= fired@.len(),
                self.timed_queues@.len() == CPU_COUNT,
                self.timed_queues@[cpu_id as int].next_id <= drained.timed_queues@[
                cpu_id as int].next_id + i,
                drained.timed_queues@[cpu_id as int].next_id + fired@.len() < u64::MAX,
                self.timer_int_count == drained.timer_int_count,
                Platform::same_boot_registries(*old(self), *self),
                self.soft_int_count == old(self).soft_int_count,
                self.devices@ == old(self).devices@,
                self.runtimes@ == old(self).runtimes@,
                spec_fire_events(drained, fired@.subrange(0, i as int), cpu_id as int, now, *self),
                all_passive(fired@) ==> {
                    &&& self.event_log@ == drained.event_log@ + records_of(fired@.subrange(0, i as int))
                    &&& self.timed_queues@ == drained.timed_queues@
                    &&& self.plic == drained.plic
                    &&& self.devices@ == drained.devices@
                    &&& self.irq_counts == drained.irq_counts
                    &&& self.interrupt_count == drained.interrupt_count
                    &&& self.runtimes@ == drained.runtimes@
                },
            decreases fired@.len() - i,
        {
            let ghost pre_iter = *self;
            match fired[i].handler.on_timeout {
                EventOp::Record(v) => {
                    self.event_log.push(v);
                    proof {
                        assert(spec_fire_one(pre_iter, fired@[i as int], cpu_id as int, now, *self));
                    }
                },
                EventOp::Noop => {
                    proof {
                        assert(spec_fire_one(pre_iter, fired@[i as int], cpu_id as int, now, *self));
                    }
                },
                EventOp::DispatchMinCount => {
                    let policy_result = self.min_count_cpu_strategy_event(cpu_id, now);
                    proof {
                        assert(Self::spec_min_count_event_rel(
                            pre_iter,
                            *self,
                            cpu_id as int,
                            now,
                            policy_result,
                        ));
                        assert(spec_fire_one(pre_iter, fired@[i as int], cpu_id as int, now, *self));
                    }
                },
                EventOp::DispatchMinLoad => {
                    let net = self.irq_counts.get(IRQ_NET);
                    let uart = self.irq_counts.get(IRQ_UART);
                    if 0 <= net && net <= 0x1000_0000 && 0 <= uart && uart <= 0x1000_0000 {
                        let policy_result = self.min_load_strategy_event(cpu_id, now);
                        proof {
                            assert(Self::spec_min_load_event_rel(
                                pre_iter,
                                *self,
                                cpu_id as int,
                                now,
                                policy_result,
                            ));
                            assert(spec_fire_one(
                                pre_iter,
                                fired@[i as int],
                                cpu_id as int,
                                now,
                                *self,
                            ));
                        }
                    } else {
                        proof {
                            assert(spec_fire_one(
                                pre_iter,
                                fired@[i as int],
                                cpu_id as int,
                                now,
                                *self,
                            ));
                        }
                    }
                },
            }
            proof {
                lemma_fire_events_snoc(
                    drained,
                    fired@.subrange(0, i as int),
                    cpu_id as int,
                    now,
                    pre_iter,
                    fired@[i as int],
                    *self,
                );
                assert(fired@.subrange(0, i as int).push(fired@[i as int]) =~= fired@.subrange(
                    0,
                    i + 1,
                ));
                if all_passive(fired@) {
                    assert(fired@.subrange(0, i + 1).drop_last() =~= fired@.subrange(0, i as int));
                    assert(self.event_log@ =~= drained.event_log@ + records_of(
                        fired@.subrange(0, i + 1),
                    ));
                }
            }
            i = i + 1;
        }
        proof {
            assert(fired@.subrange(0, fired@.len() as int) =~= fired@);
            let q0v = old(self).spec_queue_events(cpu_id as int);
            assert(q0v == q0);
            assert(fired@ == q0v.subrange(0, k));
            if all_passive(q0v.subrange(0, k)) {
                assert(all_passive(fired@));
                assert(self.event_log@ == drained.event_log@ + records_of(fired@));
                assert(drained.event_log@ == old(self).event_log@);
                assert(self.timed_queues@[cpu_id as int].events@ == q0v.subrange(
                    k,
                    q0v.len() as int,
                ));
            }
            assert(drained == (Platform {
                timed_queues: drained.timed_queues,
                timer_int_count: drained.timer_int_count,
                ..*old(self)
            }));
            assert(drained.timed_queues@[cpu_id as int].events@ == q0v.subrange(
                k,
                q0v.len() as int,
            ));
            assert(spec_fire_events(drained, q0v.subrange(0, k), cpu_id as int, now, *self));
        }
        self.timed_queues[cpu_id].next_deadline()
    }

    /// Cancel a timed event through its tracker: the event leaves the queue
    /// and its cancellation action runs exactly once, immediately. A cancel
    /// of an event that already fired — or was already cancelled — reports
    /// `InvalidTimedEventStatus` and changes nothing.
    pub fn cancel_timed_event(&mut self, tracker: TimedEventTracker) -> (r: Result<
        (),
        InternalError,
    >)
        requires
            old(self).wf(),
            tracker.cpu_id < CPU_COUNT,
        ensures
            final(self).wf(),
            match r {
                Ok(()) => {
                    let q0 = old(self).timed_queues@[tracker.cpu_id as int];
                    exists|i: int|
                        {
                            &&& 0 <= i < q0.events@.len()
                            &&& (#[trigger] q0.events@[i]).id == tracker.event_id
                            &&& final(self).timed_queues@[tracker.cpu_id as int].events@
                                == q0.events@.remove(i)
                            &&& final(self).event_log@ == (match q0.events@[i].handler.on_cancel {
                                EventOp::Record(v) => old(self).event_log@.push(v),
                                _ => old(self).event_log@,
                            })
                        }
                },
                Err(e) => {
                    &&& e == InternalError::InvalidTimedEventStatus
                    &&& !old(self).timed_queues@[tracker.cpu_id as int].spec_has_event(
                        tracker.event_id,
                    )
                    &&& final(self).timed_queues@ == old(self).timed_queues@
                    &&& final(self).event_log@ == old(self).event_log@
                },
            },
            forall|c: int|
                0 <= c < CPU_COUNT && c != tracker.cpu_id ==> final(self).timed_queues@[c] == old(self).timed_queues@[c],
            final(self).timed_queues@[tracker.cpu_id as int].next_id == old(
                self,
            ).timed_queues@[tracker.cpu_id as int].next_id,
            final(self).plic == old(self).plic,
            final(self).devices@ == old(self).devices@,
            *final(self) == (Platform {
                timed_queues: final(self).timed_queues,
                event_log: final(self).event_log,
                ..*old(self)
            }),
    {
        let mut q = self.timed_queues.remove(tracker.cpu_id);
        let cancel_result = q.cancel(tracker.event_id);
        self.timed_queues.insert(tracker.cpu_id, q);
        proof {
            assert(forall|c: int|
                0 <= c < CPU_COUNT && c != tracker.cpu_id ==> self.timed_queues@[c] == old(self).timed_queues@[c]);
        }
        match cancel_result {
            Ok(op) => {
                match op {
                    EventOp::Record(v) => {
                        self.event_log.push(v);
                    },
                    _ => {
                        // This kernel's cancellation paths carry no
                        // rescheduling action.
                    },
                }
                Ok(())
            },
            Err(e) => Err(e),
        }
    }

    /// The single trap vector: decode the cause and dispatch. Timer ticks
    /// drive the timed-event queue and re-arm the timer; software
    /// interrupts are counted and cleared; external interrupts go to the
    /// INTC, which re-dispatches to the PLIC; anything else is fatal.
    pub fn handle_trap(&mut self, cpu_id: usize, reason: TrapReason, now: u64) -> (r: TrapOutcome)
        requires
            old(self).wf(),
            cpu_id < CPU_COUNT,
            reason is TimerInterrupt ==> now + TIME_INTERVAL_NANOS < u64::MAX && old(self).timed_queues@[cpu_id as int].next_id + old(self).timed_queues@[cpu_id as int].events@.len() + 1 < u64::MAX,
            reason is ExternalInterrupt ==> old(self).plic is Some && !(old(self).plic->0.chip
                is Sifive && cpu_id == 0) && 0 <= spec_context_id(
                old(self).plic->0.chip,
                cpu_id as int,
            ) < old(self).plic->0.inner.n_contexts,
        ensures
            final(self).wf(),
            (r is Timer <==> reason is TimerInterrupt),
            (r is Soft <==> reason is SoftwareInterrupt),
            (r is External <==> reason is ExternalInterrupt),
            (r is Fatal <==> reason is Breakpoint),
            reason is SoftwareInterrupt ==> Self::spec_soft_interrupt_rel(
                *old(self),
                *final(self),
            ),
            reason is TimerInterrupt ==> (r matches TrapOutcome::Timer { next_deadline }
                && Self::spec_timer_interrupt_rel(
                *old(self),
                *final(self),
                cpu_id as int,
                now,
                next_deadline,
            )),
            reason is ExternalInterrupt ==> (r matches TrapOutcome::External { start }
                && Self::spec_external_interrupt_rel(
                *old(self),
                *final(self),
                cpu_id as int,
                now,
                start,
            )),
            reason is Breakpoint ==> *final(self) == *old(self) && r == TrapOutcome::Fatal(reason),
    {
        match reason {
            TrapReason::SoftwareInterrupt => {
                self.software_interrupt_handler();
                TrapOutcome::Soft
            },
            TrapReason::TimerInterrupt => {
                let next_deadline = self.timer_interrupt(cpu_id, now);
                TrapOutcome::Timer { next_deadline }
            },
            TrapReason::ExternalInterrupt => {
                let start = self.external_interrupt(cpu_id, now);
                TrapOutcome::External { start }
            },
            TrapReason::Breakpoint => TrapOutcome::Fatal(reason),
        }
    }
}

impl Platform {

    /// What one probe step does: the exact pre/post relation of
    /// `probe_one`, shared by the probe walk's specification.
    pub open spec fn spec_probe_step(
        pre: Platform,
        kind: ProbeKind,
        node: DtNode,
        post: Platform,
        r: Result<(), InternalError>,
    ) -> bool {
        &&& post.wf()
        &&& match kind {
            ProbeKind::CpuIntc => {
                &&& r is Ok
                &&& post.intc is Some
                &&& (pre.intc is Some ==> post.intc == pre.intc)
                &&& post == (Platform { intc: post.intc, ..pre })
            },
            ProbeKind::Plic => {
                match r {
                    Ok(()) => {
                        &&& node.reg is Some
                        &&& node.phandle is Some
                        &&& pre.chip is Some
                        &&& post.plic is Some
                        &&& post.plic->0.chip == pre.chip->0
                        &&& post.plic->0.base_addr == node.reg->0.addr
                            + EXTERNAL_DEVICE_REGION_ADDR
                        &&& post.plic_phandle == (if pre.plic_phandle is Some {
                            pre.plic_phandle
                        } else {
                            node.phandle
                        })
                        &&& (forall|c: int, i: int|
                            0 <= c < post.plic->0.inner.n_contexts && 0 <= i < IRQ_MAX
                                ==> !post.plic->0.inner.enable_bit(c, i))
                        &&& (forall|i: int|
                            #![trigger post.plic->0.inner.irq_manager.spec_bound(i)]
                            post.plic->0.inner.irq_manager.spec_bound(i) is None)
                        &&& post.root_compatible == pre.root_compatible
                        &&& post.chip == pre.chip
                        &&& post.devices@ == pre.devices@
                        &&& post.event_log == pre.event_log
                        &&& post == (Platform {
                            plic: post.plic,
                            plic_phandle: post.plic_phandle,
                            ..pre
                        })
                    },
                    Err(e) => {
                        &&& e == InternalError::DevProbeError
                        &&& (node.reg is None || node.phandle is None || pre.chip is None
                            || node.reg->0.size < 0x202000 || node.reg->0.addr
                            > u64::MAX - EXTERNAL_DEVICE_REGION_ADDR || (node.reg->0.size
                            - 0x200000) / 0x1000 - 1 >= 0x100_0000)
                        &&& post == pre
                    },
                }
            },
            ProbeKind::Memory => {
                match r {
                    Ok(()) => {
                        &&& node.reg is Some
                        &&& post.frame_allocator is Some
                        &&& (pre.frame_allocator is Some ==> post.frame_allocator
                            == pre.frame_allocator)
                        &&& (pre.frame_allocator is None ==> post.frame_allocator->0.free@.len() == node.reg->0.size / 4096)
                        &&& post == (Platform {
                            frame_allocator: post.frame_allocator,
                            ..pre
                        })
                    },
                    Err(e) => {
                        &&& e == InternalError::DevProbeError
                        &&& (node.reg is None || node.reg->0.addr % 4096 != 0 || node.reg->0.addr
                            + node.reg->0.size / 4096 * 4096 > u64::MAX)
                        &&& post == pre
                    },
                }
            },
            ProbeKind::Ns16550 => {
                match r {
                    Ok(()) => {
                        &&& node.reg is Some
                        &&& post.devices@.len() == pre.devices@.len() + 1
                        &&& (post.devices@.last() matches DeviceDriver::Uart(u)
                            && u.base_addr == node.reg->0.addr + EXTERNAL_DEVICE_REGION_ADDR
                            && u.input_fifo@.len() == 0 && u.buffer@.len() == 0)
                        &&& (forall|i: int|
                            0 <= i < pre.devices@.len() ==> post.devices@[i]
                                == pre.devices@[i])
                        &&& post.uart_device == (if pre.uart_device is Some {
                            pre.uart_device
                        } else {
                            Some(pre.devices@.len() as usize)
                        })
                        &&& post.plic == pre.plic
                        &&& post.event_log == pre.event_log
                        &&& post.root_compatible == pre.root_compatible
                        &&& post.chip == pre.chip
                        &&& post == (Platform {
                            devices: post.devices,
                            uart_device: post.uart_device,
                            ..pre
                        })
                    },
                    Err(e) => {
                        &&& e == InternalError::DevProbeError
                        &&& (node.reg is None || node.reg->0.addr > u64::MAX
                            - EXTERNAL_DEVICE_REGION_ADDR)
                        &&& post == pre
                    },
                }
            },
        }
    }

    /// Run one prober's construction step on one matching node.
    ///
    /// The cpu-INTC step instantiates the hart-local controller once; the
    /// PLIC step reads the register region and the phandle off the node,
    /// sizes the context space from the region, and publishes the
    /// controller; the memory step hands the RAM region to the frame
    /// allocator; the UART step instantiates the NS16550 driver at the
    /// device window address. Each step is a one-shot: a later matching
    /// node does not displace what an earlier one installed.
    pub fn probe_one(&mut self, kind: ProbeKind, node: &DtNode) -> (r: Result<(), InternalError>)
        requires
            old(self).wf(),
        ensures
            final(self).wf(),
            Self::spec_probe_step(*old(self), kind, *node, *final(self), r),
    {
        match kind {
            ProbeKind::CpuIntc => {
                if self.intc.is_none() {
                    self.intc = Some(Intc::new());
                }
                Ok(())
            },
            ProbeKind::Plic => {
                let reg = match &node.reg {
                    Some(reg) => *reg,
                    None => {
                        return Err(InternalError::DevProbeError);
                    },
                };
                let phandle = match node.phandle {
                    Some(ph) => ph,
                    None => {
                        return Err(InternalError::DevProbeError);
                    },
                };
                let chip = match &self.chip {
                    Some(chip) => *chip,
                    None => {
                        return Err(InternalError::DevProbeError);
                    },
                };
                if reg.size < 0x202000 {
                    return Err(InternalError::DevProbeError);
                }
                if reg.addr > u64::MAX - EXTERNAL_DEVICE_REGION_ADDR {
                    return Err(InternalError::DevProbeError);
                }
                let context_max_id = (reg.size - 0x200000) / 0x1000 - 1;
                if context_max_id >= 0x100_0000 {
                    return Err(InternalError::DevProbeError);
                }
                let addr = reg.addr + EXTERNAL_DEVICE_REGION_ADDR;
                let plic = Plic::new(addr, context_max_id as usize, chip);
                proof {
                    let m = plic.inner.irq_manager;
                    assert forall|i: int|
                        0 <= i < m.table@.len() implies ((#[trigger] m.table@[i]) matches Some(dd)
                        ==> dd < self.devices@.len()) by {
                        if i >= 1 {
                            assert(m.spec_bound(i) is None);
                            assert(m.spec_bound(i) == m.table@[i]);
                        }
                    }
                }
                self.plic = Some(plic);
                if self.plic_phandle.is_none() {
                    self.plic_phandle = Some(phandle);
                }
                Ok(())
            },
            ProbeKind::Memory => {
                let reg = match &node.reg {
                    Some(reg) => *reg,
                    None => {
                        return Err(InternalError::DevProbeError);
                    },
                };
                if reg.addr % 4096 != 0 {
                    return Err(InternalError::DevProbeError);
                }
                let count = reg.size / 4096;
                if reg.addr > u64::MAX - count * 4096 {
                    return Err(InternalError::DevProbeError);
                }
                if self.frame_allocator.is_none() {
                    self.frame_allocator = Some(FrameAllocator::new(reg.addr, count));
                }
                Ok(())
            },
            ProbeKind::Ns16550 => {
                let reg = match &node.reg {
                    Some(reg) => *reg,
                    None => {
                        return Err(InternalError::DevProbeError);
                    },
                };
                if reg.addr > u64::MAX - EXTERNAL_DEVICE_REGION_ADDR {
                    return Err(InternalError::DevProbeError);
                }
                let base = reg.addr + EXTERNAL_DEVICE_REGION_ADDR;
                let uart = NS16550a::new(base);
                let slot = self.devices.len();
                self.devices.push(DeviceDriver::Uart(uart));
                proof {
                    if old(self).plic is Some {
                        let m = old(self).plic->0.inner.irq_manager;
                        assert forall|i: int|
                            0 <= i < m.table@.len() implies ((#[trigger] m.table@[i]) matches Some(
                            dd,
                        ) ==> dd < self.devices@.len()) by {}
                    }
                }
                if self.uart_device.is_none() {
                    self.uart_device = Some(slot);
                }
                Ok(())
            },
        }
    }

    /// Walk the device tree: capture the root `compatible` string on the
    /// first call, bring the probers into the required boot order, and run
    /// each prober on every node its identifier selects, traversal order
    /// within each prober. The walk performs exactly the steps
    /// `spec_match_steps` lists for the ordered registry: the first failing
    /// step aborts it with its error, and it returns Ok exactly when every
    /// step succeeded. Ordering fails, walking nothing, exactly when a
    /// required prober is missing.
    #[verifier::loop_isolation(false)]
    pub fn probe_all_device(&mut self, tree: &DeviceTree, probers: &mut Vec<DevProber>) -> (r:
        Result<(), InternalError>)
        requires
            old(self).wf(),
        ensures
            final(self).wf(),
            r is Ok ==> final(self).root_compatible is Some && crate::devprober::spec_boot_order(
                final(probers)@,
            ),
            old(self).root_compatible is None ==> {
                &&& final(self).root_compatible matches Some(rc) && rc@ == tree.root_compatible@
                &&& (final(self).chip == Some(ChipKind::RiscvVirtio) <==> tree.root_compatible@
                    == "riscv-virtio"@)
                &&& (final(self).chip == Some(ChipKind::Sifive) <==> tree.root_compatible@
                    == "sifive"@)
            },
            old(self).root_compatible is Some ==> final(self).root_compatible == old(
                self,
            ).root_compatible && final(self).chip == old(self).chip,
            ({
                let s1 = spec_after_capture(*old(self), *tree);
                &&& (crate::devprober::spec_missing_required_prober(old(probers)@) ==> r == Err::<
                    (),
                    InternalError,
                >(InternalError::DevProbeError) && *final(self) == s1 && final(probers)@ == old(
                    probers,
                )@)
                &&& (!crate::devprober::spec_missing_required_prober(old(probers)@) ==> {
                    &&& crate::devprober::spec_boot_order(final(probers)@)
                    &&& final(probers)@.len() == old(probers)@.len()
                    &&& exists|i0: int, p: int, m: int|
                        {
                            &&& 0 <= i0 < old(probers)@.len()
                            &&& 0 <= p < old(probers)@.len()
                            &&& 0 <= m < old(probers)@.len()
                            &&& i0 != p && i0 != m && p != m
                            &&& (#[trigger] old(probers)@[i0]).ident.spec_is_compatible(
                                "riscv,cpu-intc"@,
                            )
                            &&& ((#[trigger] old(probers)@[p]).ident.spec_is_compatible(
                                "sifive,plic-1.0.0"@,
                            ) || old(probers)@[p].ident.spec_is_compatible("riscv,plic0"@))
                            &&& (#[trigger] old(probers)@[m]).ident.spec_is_device_type("memory"@)
                            &&& final(probers)@ == seq![
                                old(probers)@[i0],
                                old(probers)@[p],
                                old(probers)@[m],
                            ] + crate::devprober::spec_rest(old(probers)@, i0, p, m)
                        }
                    &&& spec_probe_walk(
                        s1,
                        spec_match_steps(final(probers)@, tree.nodes@),
                        *final(self),
                        r,
                    )
                })
            }),
    {
        if self.root_compatible.is_none() {
            self.root_compatible = Some(tree.root_compatible.clone());
            self.chip = root_chip(&tree.root_compatible);
        }
        proof {
            assert(*self == spec_after_capture(*old(self), *tree));
        }
        let ghost s1 = *self;
        match order_probers(probers) {
            Ok(()) => {},
            Err(e) => {
                return Err(e);
            },
        }
        let ghost steps_all = spec_match_steps(probers@, tree.nodes@);
        proof {
            if probers@.len() > 0 {
                assert(remaining_steps(probers@, tree.nodes@, 0, 0) =~= steps_all);
            } else {
                assert(remaining_steps(probers@, tree.nodes@, 0, 0) =~= steps_all);
            }
        }
        let mut pi: usize = 0;
        while pi < probers.len()
            invariant
                self.wf(),
                self.root_compatible is Some,
                self.root_compatible == s1.root_compatible,
                self.chip == s1.chip,
                pi <= probers@.len(),
                forall|post: Platform, rr: Result<(), InternalError>|
                    #[trigger] spec_probe_walk(
                        *self,
                        remaining_steps(probers@, tree.nodes@, pi as int, 0),
                        post,
                        rr,
                    ) ==> spec_probe_walk(s1, steps_all, post, rr),
            decreases probers@.len() - pi,
        {
            let mut ni: usize = 0;
            while ni < tree.nodes.len()
                invariant
                    self.wf(),
                    self.root_compatible is Some,
                    self.root_compatible == s1.root_compatible,
                    self.chip == s1.chip,
                    pi < probers@.len(),
                    ni <= tree.nodes@.len(),
                    forall|post: Platform, rr: Result<(), InternalError>|
                        #[trigger] spec_probe_walk(
                            *self,
                            remaining_steps(probers@, tree.nodes@, pi as int, ni as int),
                            post,
                            rr,
                        ) ==> spec_probe_walk(s1, steps_all, post, rr),
                decreases tree.nodes@.len() - ni,
            {
                let ghost steps_now = remaining_steps(
                    probers@,
                    tree.nodes@,
                    pi as int,
                    ni as int,
                );
                let ghost steps_next = remaining_steps(
                    probers@,
                    tree.nodes@,
                    pi as int,
                    ni as int + 1,
                );
                if probers[pi].ident.matches_node(&tree.nodes[ni]) {
                    proof {
                        assert(steps_now =~= seq![
                            (probers@[pi as int].kind, tree.nodes@[ni as int]),
                        ] + steps_next);
                        assert(steps_now.drop_first() =~= steps_next);
                    }
                    let ghost before = *self;
                    match self.probe_one(probers[pi].kind, &tree.nodes[ni]) {
                        Ok(()) => {
                            proof {
                                assert forall|post: Platform, rr: Result<(), InternalError>|
                                    #[trigger] spec_probe_walk(
                                        *self,
                                        steps_next,
                                        post,
                                        rr,
                                    ) implies spec_probe_walk(s1, steps_all, post, rr) by {
                                    lemma_walk_step_ok(
                                        before,
                                        probers@[pi as int].kind,
                                        tree.nodes@[ni as int],
                                        *self,
                                        steps_now,
                                        post,
                                        rr,
                                    );
                                }
                            }
                        },
                        Err(e) => {
                            proof {
                                lemma_walk_step_err(
                                    before,
                                    probers@[pi as int].kind,
                                    tree.nodes@[ni as int],
                                    *self,
                                    steps_now,
                                    e,
                                );
                            }
                            return Err(e);
                        },
                    }
                } else {
                    proof {
                        assert(steps_now =~= steps_next);
                    }
                }
                ni = ni + 1;
            }
            proof {
                assert(steps_of_prober(probers@[pi as int], tree.nodes@, tree.nodes@.len() as int)
                    =~= Seq::<(ProbeKind, DtNode)>::empty());
                assert(remaining_steps(probers@, tree.nodes@, pi as int, tree.nodes@.len() as int)
                    =~= remaining_steps(probers@, tree.nodes@, pi as int + 1, 0));
            }
            pi = pi + 1;
        }
        proof {
            assert(remaining_steps(probers@, tree.nodes@, probers@.len() as int, 0) =~= Seq::<
                (ProbeKind, DtNode),
            >::empty());
            assert(spec_probe_walk(
                *self,
                remaining_steps(probers@, tree.nodes@, probers@.len() as int, 0),
                *self,
                Ok::<(), InternalError>(()),
            ));
        }
        Ok(())
    }

    /// The whole boot-time probe: capture the root `compatible`, order the
    /// probers, and walk the tree, with the same promises as
    /// `probe_all_device`.
    pub fn probe_all(&mut self, tree: &DeviceTree, probers: &mut Vec<DevProber>) -> (r: Result<
        (),
        InternalError,
    >)
        requires
            old(self).wf(),
        ensures
            final(self).wf(),
            r is Ok ==> final(self).root_compatible is Some && crate::devprober::spec_boot_order(
                final(probers)@,
            ),
            old(self).root_compatible is None ==> {
                &&& final(self).root_compatible matches Some(rc) && rc@ == tree.root_compatible@
                &&& (final(self).chip == Some(ChipKind::RiscvVirtio) <==> tree.root_compatible@
                    == "riscv-virtio"@)
                &&& (final(self).chip == Some(ChipKind::Sifive) <==> tree.root_compatible@
                    == "sifive"@)
            },
            old(self).root_compatible is Some ==> final(self).root_compatible == old(
                self,
            ).root_compatible && final(self).chip == old(self).chip,
            ({
                let s1 = spec_after_capture(*old(self), *tree);
                &&& (crate::devprober::spec_missing_required_prober(old(probers)@) ==> r == Err::<
                    (),
                    InternalError,
                >(InternalError::DevProbeError) && *final(self) == s1 && final(probers)@ == old(
                    probers,
                )@)
                &&& (!crate::devprober::spec_missing_required_prober(old(probers)@) ==> {
                    &&& crate::devprober::spec_boot_order(final(probers)@)
                    &&& final(probers)@.len() == old(probers)@.len()
                    &&& exists|i0: int, p: int, m: int|
                        {
                            &&& 0 <= i0 < old(probers)@.len()
                            &&& 0 <= p < old(probers)@.len()
                            &&& 0 <= m < old(probers)@.len()
                            &&& i0 != p && i0 != m && p != m
                            &&& (#[trigger] old(probers)@[i0]).ident.spec_is_compatible(
                                "riscv,cpu-intc"@,
                            )
                            &&& ((#[trigger] old(probers)@[p]).ident.spec_is_compatible(
                                "sifive,plic-1.0.0"@,
                            ) || old(probers)@[p].ident.spec_is_compatible("riscv,plic0"@))
                            &&& (#[trigger] old(probers)@[m]).ident.spec_is_device_type("memory"@)
                            &&& final(probers)@ == seq![
                                old(probers)@[i0],
                                old(probers)@[p],
                                old(probers)@[m],
                            ] + crate::devprober::spec_rest(old(probers)@, i0, p, m)
                        }
                    &&& spec_probe_walk(
                        s1,
                        spec_match_steps(final(probers)@, tree.nodes@),
                        *final(self),
                        r,
                    )
                })
            }),
    {
        self.probe_all_device(tree, probers)
    }
}

} // verus!
