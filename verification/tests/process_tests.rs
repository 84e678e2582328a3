use ares::arch::interrupts::InterruptFrame;
use ares::arch::timer::{timer_handler, Timer};
use ares::mem::heap::{self, KernelAllocator, Layout};
use ares::process::api::{
    allocate_for_process, current_address_space, current_credentials, free_for_process,
    get_process, init, scheduler_stats, spawn_idle_process, spawn_kernel_process,
};
use ares::process::files::{dump_all_processes, dump_current_process, dump_process, state_name};
use ares::process::pcb::KernelEnv;
use ares::process::sched::{
    block_current, current_pid, exit_current, init_pid, preempt_do_switch, request_preempt,
    start_scheduler, wait_for_child, wake_channel, yield_now, Cpu, Scheduler, WaitOutcome,
};
use ares::process::types::{
    AddressSpaceKind, Context, KernelSymbols, MemoryRegionKind, Pid, ProcessError, ProcessState,
    WaitChannel,
};
use ares::user::Credentials;

const KERNEL_BASE: u64 = 0xFFFF_8000_0000_0000;
const TRAMPOLINE: u64 = KERNEL_BASE + 0x11_1000;
const KERNEL_CR3: u64 = 0x1000;

fn symbols() -> KernelSymbols {
    KernelSymbols {
        process_exit: KERNEL_BASE + 0x11_0000,
        preempt_trampoline: TRAMPOLINE,
        user_mode_trampoline: KERNEL_BASE + 0x11_2000,
        idle_task: KERNEL_BASE + 0x11_3000,
    }
}

fn env() -> KernelEnv {
    KernelEnv { kernel_cr3: KERNEL_CR3, symbols: symbols(), scratch: None }
}

fn entry_of(n: u64) -> u64 {
    KERNEL_BASE + 0x20_0000 + 0x1000 * n
}

/// A scheduler with its idle task and `tasks` kernel tasks, none running yet.
fn scheduler_with(tasks: u64) -> (Scheduler, KernelAllocator, Vec<Pid>) {
    let mut sched = Scheduler::new(Cpu { context: Context::new(), cr3: KERNEL_CR3, rsp0: 0 });
    let mut kernel_heap = heap::init(KERNEL_BASE + 0x40_0000, heap::HEAP_SIZE);
    assert_eq!(init(&mut sched, &mut kernel_heap, &env()), Ok(()));
    let mut pids = Vec::new();
    for n in 0..tasks {
        pids.push(
            spawn_kernel_process(&mut sched, &mut kernel_heap, &env(), "task", entry_of(n)).unwrap(),
        );
    }
    (sched, kernel_heap, pids)
}

fn running(sched: &Scheduler) -> Vec<Pid> {
    sched
        .table
        .entries
        .iter()
        .filter(|p| p.state == ProcessState::Running)
        .map(|p| p.pid)
        .collect()
}

fn state_of(sched: &Scheduler, pid: Pid) -> ProcessState {
    get_process(sched, pid).unwrap().state()
}

fn assert_one_running(sched: &Scheduler) {
    let now = running(sched);
    assert!(now.len() <= 1);
    match current_pid(sched) {
        Some(pid) => assert!(now.is_empty() || now == vec![pid]),
        None => assert!(now.is_empty()),
    }
}

fn frame_at(rip: u64) -> InterruptFrame {
    InterruptFrame {
        ds: 0x10,
        r15: 15,
        r14: 14,
        r13: 13,
        r12: 12,
        r11: 11,
        r10: 10,
        r9: 9,
        r8: 8,
        rdi: 7,
        rsi: 6,
        rbp: 5,
        rsp: 0x9000,
        rbx: 3,
        rdx: 2,
        rcx: 1,
        rax: 0xAA,
        int_no: 32,
        err_code: 0,
        rip,
        cs: 0x08,
        rflags: 0x202,
        user_rsp: 0,
        user_ss: 0,
    }
}

#[test]
fn table_starts_with_the_idle_task() {
    let mut sched = Scheduler::new(Cpu { context: Context::new(), cr3: KERNEL_CR3, rsp0: 0 });
    let mut kernel_heap = heap::init(KERNEL_BASE + 0x40_0000, heap::HEAP_SIZE);
    assert_eq!(
        spawn_kernel_process(&mut sched, &mut kernel_heap, &env(), "early", entry_of(0)),
        Err(ProcessError::NotInitialized)
    );
    assert_eq!(
        spawn_idle_process(&mut sched, &mut kernel_heap, &env(), "idle", entry_of(0)),
        Err(ProcessError::NotInitialized)
    );
    assert_eq!(init(&mut sched, &mut kernel_heap, &env()), Ok(()));
    assert_eq!(init(&mut sched, &mut kernel_heap, &env()), Ok(()));
    assert_eq!(sched.table.entries.len(), 1);
    let idle = get_process(&sched, 1).unwrap();
    assert_eq!(idle.pid(), 1);
    assert_eq!(idle.name(), "idle");
    assert!(idle.is_idle());
    assert_eq!(idle.parent(), None);
    assert_eq!(idle.state(), ProcessState::Ready);
    assert_eq!(idle.cpu_slices(), 0);
    assert_eq!(idle.credentials(), Credentials::root());
    assert_eq!(idle.address_space().cr3, KERNEL_CR3);
    assert_eq!(idle.address_space().kind, AddressSpaceKind::Kernel);
    assert_eq!(idle.user_stack(), None);
    assert_eq!(idle.user_entry(), None);
    assert_eq!(sched.table.entries[0].context.rip, symbols().idle_task);
    assert_eq!(sched.table.idle_pid, Some(1));
    assert_eq!(init_pid(&sched), None);
    assert_eq!(
        spawn_idle_process(&mut sched, &mut kernel_heap, &env(), "idle", entry_of(0)),
        Err(ProcessError::IdleAlreadyExists)
    );
    assert_eq!(current_pid(&sched), None);
    assert_eq!(current_credentials(&sched), None);
    assert_eq!(current_address_space(&sched), None);
    assert!(get_process(&sched, 9).is_none());
}

#[test]
fn spawned_task_is_ready_with_a_stack() {
    let (sched, kernel_heap, pids) = scheduler_with(2);
    assert_eq!(pids, vec![2, 3]);
    assert_eq!(init_pid(&sched), Some(2));
    let task = &sched.table.entries[1];
    assert_eq!(task.pid, 2);
    assert_eq!(task.parent, None);
    assert_eq!(task.state, ProcessState::Ready);
    assert_eq!(task.context.rip, entry_of(0));
    assert_eq!(task.context.rsp, task.return_slot);
    assert_eq!(task.context.rbp, task.return_slot);
    assert_eq!(task.context.rflags, 0x202);
    assert_eq!(task.return_target, symbols().process_exit);
    assert_eq!(task.stack_layout, Some(Layout { size: 16 * 1024, align: 16 }));
    assert!(task.return_slot > task.stack_ptr);
    assert!(task.return_slot < task.stack_ptr + 16 * 1024);
    assert_eq!(task.return_slot % 16, 8);
    assert!(task.fds[0].is_some() && task.fds[1].is_some() && task.fds[2].is_some());
    assert!(task.fds[3].is_none());
    assert_eq!(task.fds.len(), 16);
    assert!(heap::remaining_bytes(&kernel_heap) < heap::HEAP_SIZE - 3 * 16 * 1024);
    let stats = scheduler_stats(&sched);
    assert_eq!((stats.total, stats.ready, stats.running, stats.blocked, stats.zombie), (3, 3, 0, 0, 0));
    assert_eq!(stats.total_slices, 0);
}

#[test]
fn round_robin_skips_the_idle_task() {
    let (mut sched, _heap, pids) = scheduler_with(3);
    assert!(start_scheduler(&mut sched));
    let mut order = vec![current_pid(&sched).unwrap()];
    assert_one_running(&sched);
    for _ in 0..6 {
        assert!(yield_now(&mut sched));
        assert_one_running(&sched);
        assert_eq!(running(&sched), vec![current_pid(&sched).unwrap()]);
        order.push(current_pid(&sched).unwrap());
    }
    assert_eq!(order, vec![pids[0], pids[1], pids[2], pids[0], pids[1], pids[2], pids[0]]);
    assert_eq!(get_process(&sched, pids[0]).unwrap().cpu_slices(), 3);
    assert_eq!(get_process(&sched, pids[1]).unwrap().cpu_slices(), 2);
    assert_eq!(get_process(&sched, 1).unwrap().cpu_slices(), 0);
    let stats = scheduler_stats(&sched);
    assert_eq!((stats.total, stats.ready, stats.running), (4, 3, 1));
    assert_eq!(stats.total_slices, 7);
}

#[test]
fn lone_task_keeps_the_processor_when_it_yields() {
    let (mut sched, _heap, pids) = scheduler_with(1);
    assert!(start_scheduler(&mut sched));
    assert_eq!(current_pid(&sched), Some(pids[0]));
    yield_now(&mut sched);
    assert_one_running(&sched);
    assert_eq!(running(&sched).len(), 1);
}

#[test]
fn idle_runs_only_when_nothing_else_is_ready() {
    let (mut sched, _heap, pids) = scheduler_with(2);
    assert!(start_scheduler(&mut sched));
    assert_eq!(block_current(&mut sched, WaitChannel::KeyboardInput), Ok(true));
    assert_eq!(current_pid(&sched), Some(pids[1]));
    assert_eq!(state_of(&sched, pids[0]), ProcessState::Blocked);
    assert_eq!(block_current(&mut sched, WaitChannel::KeyboardInput), Ok(true));
    assert_eq!(current_pid(&sched), Some(1));
    assert_eq!(running(&sched), vec![1]);
    wake_channel(&mut sched, WaitChannel::KeyboardInput);
    assert_eq!(state_of(&sched, pids[0]), ProcessState::Ready);
    assert_eq!(state_of(&sched, pids[1]), ProcessState::Ready);
    assert_eq!(ares::kernel::idle_task(&mut sched), ares::kernel::IdleStep::Halt);
    sched.need_resched = true;
    assert_eq!(ares::kernel::idle_task(&mut sched), ares::kernel::IdleStep::Switched);
    assert!(!sched.need_resched);
    assert_eq!(current_pid(&sched), Some(pids[0]));
    assert_eq!(state_of(&sched, 1), ProcessState::Ready);
    assert_one_running(&sched);
}

#[test]
fn blocking_without_a_current_process_fails() {
    let (mut sched, _heap, _pids) = scheduler_with(1);
    assert_eq!(
        block_current(&mut sched, WaitChannel::ChildAny),
        Err(ProcessError::ProcessNotFound)
    );
}

#[test]
fn child_event_wakes_its_waiters_and_no_others() {
    let (mut sched, _heap, pids) = scheduler_with(5);
    let channels = [
        WaitChannel::Child(7),
        WaitChannel::ChildAny,
        WaitChannel::KeyboardInput,
        WaitChannel::Child(8),
    ];
    for (i, channel) in channels.iter().enumerate() {
        let process = &mut sched.table.entries[i + 1];
        process.state = ProcessState::Blocked;
        process.wait_channel = Some(*channel);
    }
    wake_channel(&mut sched, WaitChannel::Child(7));
    assert_eq!(state_of(&sched, pids[0]), ProcessState::Ready);
    assert_eq!(sched.table.entries[1].wait_channel, None);
    assert_eq!(state_of(&sched, pids[1]), ProcessState::Ready);
    assert_eq!(sched.table.entries[2].wait_channel, None);
    assert_eq!(state_of(&sched, pids[2]), ProcessState::Blocked);
    assert_eq!(sched.table.entries[3].wait_channel, Some(WaitChannel::KeyboardInput));
    assert_eq!(state_of(&sched, pids[3]), ProcessState::Blocked);
    assert_eq!(sched.table.entries[4].wait_channel, Some(WaitChannel::Child(8)));
    assert_eq!(state_of(&sched, pids[4]), ProcessState::Ready);
    assert_eq!(state_of(&sched, 1), ProcessState::Ready);

    wake_channel(&mut sched, WaitChannel::ChildAny);
    assert_eq!(state_of(&sched, pids[3]), ProcessState::Blocked);
    wake_channel(&mut sched, WaitChannel::KeyboardInput);
    assert_eq!(state_of(&sched, pids[2]), ProcessState::Ready);
    assert_eq!(state_of(&sched, pids[3]), ProcessState::Blocked);
    assert!(WaitChannel::ChildAny.matches_event(WaitChannel::Child(3)));
    assert!(!WaitChannel::Child(3).matches_event(WaitChannel::ChildAny));
    assert!(WaitChannel::Child(3).is_child_event());
    assert!(!WaitChannel::KeyboardInput.is_child_event());
}

#[test]
fn preempted_task_goes_on_where_it_was() {
    let (mut sched, _heap, pids) = scheduler_with(2);
    assert!(start_scheduler(&mut sched));
    assert_eq!(current_pid(&sched), Some(pids[0]));
    let live = Context {
        r15: 0x15,
        r14: 0x14,
        r13: 0x13,
        r12: 0x12,
        rbx: 0xB,
        rbp: 0xF000,
        rsp: 0xE000,
        rip: TRAMPOLINE + 0x40,
        rflags: 0x202,
    };
    let interrupted_at = KERNEL_BASE + 0x20_0123;
    let mut frame = frame_at(interrupted_at);
    let before = frame;
    request_preempt(&mut sched, &mut frame, TRAMPOLINE, true);
    assert!(sched.need_resched);
    assert_eq!(frame, InterruptFrame { rip: TRAMPOLINE, ..before });
    assert_eq!(sched.table.entries[1].preempt_return, Some(interrupted_at));
    assert_eq!(sched.table.entries[1].context.rip, entry_of(0));

    // On the trampoline the task gives the processor up.
    sched.cpu.context = live;
    let target = preempt_do_switch(&mut sched);
    assert_eq!(current_pid(&sched), Some(pids[1]));
    assert_eq!(target, entry_of(1));
    assert_eq!(sched.table.entries[1].context, live);
    assert_eq!(sched.table.entries[1].preempt_return, Some(interrupted_at));
    assert_eq!(sched.table.entries[1].state, ProcessState::Ready);
    assert!(!sched.need_resched);
    assert_one_running(&sched);

    // The other task is preempted in turn: the first one comes back.
    let mut second = frame_at(KERNEL_BASE + 0x20_1456);
    request_preempt(&mut sched, &mut second, TRAMPOLINE, true);
    assert_eq!(second.rip, TRAMPOLINE);
    let target = preempt_do_switch(&mut sched);
    assert_eq!(current_pid(&sched), Some(pids[0]));
    assert_eq!(target, interrupted_at);
    assert_eq!(sched.cpu.context, live);
    assert_eq!(sched.table.entries[1].preempt_return, None);
    assert_eq!(sched.table.entries[2].preempt_return, Some(KERNEL_BASE + 0x20_1456));
}

#[test]
fn preemption_waits_where_it_may_not_happen() {
    let (mut sched, _heap, pids) = scheduler_with(1);
    // No current process.
    let mut frame = frame_at(KERNEL_BASE + 0x20_0000);
    request_preempt(&mut sched, &mut frame, TRAMPOLINE, true);
    assert_eq!(frame.rip, KERNEL_BASE + 0x20_0000);
    assert!(sched.need_resched);
    assert!(start_scheduler(&mut sched));
    // Interrupted in user code.
    let mut user = frame_at(0x40_0000);
    request_preempt(&mut sched, &mut user, TRAMPOLINE, true);
    assert_eq!(user.rip, 0x40_0000);
    // The table is in use.
    let mut locked = frame_at(KERNEL_BASE + 0x20_0000);
    request_preempt(&mut sched, &mut locked, TRAMPOLINE, false);
    assert_eq!(locked.rip, KERNEL_BASE + 0x20_0000);
    assert_eq!(sched.table.entries[1].preempt_return, None);
    // A second tick before the first preemption was carried out.
    let mut first = frame_at(KERNEL_BASE + 0x20_0010);
    request_preempt(&mut sched, &mut first, TRAMPOLINE, true);
    assert_eq!(first.rip, TRAMPOLINE);
    let mut again = frame_at(TRAMPOLINE + 4);
    request_preempt(&mut sched, &mut again, TRAMPOLINE, true);
    assert_eq!(again.rip, TRAMPOLINE + 4);
    assert_eq!(sched.table.entries[1].preempt_return, Some(KERNEL_BASE + 0x20_0010));
    // The idle task is never preempted.
    assert_eq!(block_current(&mut sched, WaitChannel::KeyboardInput), Ok(true));
    assert_eq!(current_pid(&sched), Some(1));
    let mut idle = frame_at(KERNEL_BASE + 0x11_3000);
    request_preempt(&mut sched, &mut idle, TRAMPOLINE, true);
    assert_eq!(idle.rip, KERNEL_BASE + 0x11_3000);
    assert_eq!(state_of(&sched, pids[0]), ProcessState::Blocked);
}

#[test]
fn timer_tick_counts_and_asks_for_a_reschedule() {
    let (mut sched, _heap, _pids) = scheduler_with(2);
    assert!(start_scheduler(&mut sched));
    let mut timer = Timer::new();
    assert_eq!(ares::arch::timer::ticks(&timer), 0);
    let mut frame = frame_at(KERNEL_BASE + 0x20_0000);
    timer_handler(&mut timer, &mut sched, &mut frame, TRAMPOLINE, true);
    assert_eq!(ares::arch::timer::ticks(&timer), 1);
    assert!(sched.need_resched);
    assert_eq!(frame.rip, TRAMPOLINE);
    timer.ticks = u64::MAX;
    timer_handler(&mut timer, &mut sched, &mut frame, TRAMPOLINE, true);
    assert_eq!(timer.ticks, 0);
}

#[test]
fn tickers_share_the_processor() {
    let (mut sched, _heap, pids) = scheduler_with(3);
    assert!(start_scheduler(&mut sched));
    let mut timer = Timer::new();
    for tick in 0..1000u64 {
        // Between two ticks the running task may give up the processor
        // of its own accord, once or twice.
        for _ in 0..(tick % 3) {
            yield_now(&mut sched);
            assert_one_running(&sched);
        }
        let mut frame = frame_at(KERNEL_BASE + 0x20_0000 + tick);
        timer_handler(&mut timer, &mut sched, &mut frame, TRAMPOLINE, true);
        if frame.rip == TRAMPOLINE {
            preempt_do_switch(&mut sched);
        }
        assert_one_running(&sched);
        assert_eq!(running(&sched).len(), 1);
    }
    assert_eq!(timer.ticks, 1000);
    let slices: Vec<u64> =
        pids.iter().map(|&pid| get_process(&sched, pid).unwrap().cpu_slices()).collect();
    let most = *slices.iter().max().unwrap();
    let least = *slices.iter().min().unwrap();
    assert!(least > 0);
    assert!(most <= 3 * least);
    assert_eq!(get_process(&sched, 1).unwrap().cpu_slices(), 0);
}

#[test]
fn parent_reaps_its_child_once() {
    let (mut sched, mut kernel_heap, pids) = scheduler_with(1);
    let parent = pids[0];
    assert!(start_scheduler(&mut sched));
    assert_eq!(
        wait_for_child(&mut sched, &mut kernel_heap, None),
        Err(ProcessError::NoChildren)
    );
    let free_before = heap::remaining_bytes(&kernel_heap);
    let worker =
        spawn_kernel_process(&mut sched, &mut kernel_heap, &env(), "worker", entry_of(9)).unwrap();
    assert_eq!(get_process(&sched, worker).unwrap().parent(), Some(parent));
    assert_eq!(
        wait_for_child(&mut sched, &mut kernel_heap, Some(worker + 1)),
        Err(ProcessError::ChildNotFound)
    );
    // The worker runs three rounds, then exits.
    for _ in 0..3 {
        assert!(yield_now(&mut sched));
        assert_eq!(current_pid(&sched), Some(worker));
        assert!(yield_now(&mut sched));
        assert_eq!(current_pid(&sched), Some(parent));
    }
    assert!(yield_now(&mut sched));
    assert!(exit_current(&mut sched, 0));
    assert_eq!(current_pid(&sched), Some(parent));
    assert_eq!(state_of(&sched, worker), ProcessState::Zombie);
    assert_eq!(sched.table.entries[2].exit_code, Some(0));
    assert_one_running(&sched);

    assert_eq!(
        wait_for_child(&mut sched, &mut kernel_heap, Some(worker)),
        Ok(WaitOutcome::Reaped(worker, 0))
    );
    assert!(get_process(&sched, worker).is_none());
    assert_eq!(sched.table.entries.len(), 2);
    assert_eq!(heap::remaining_bytes(&kernel_heap), free_before);
    assert_eq!(
        wait_for_child(&mut sched, &mut kernel_heap, Some(worker)),
        Err(ProcessError::ChildNotFound)
    );
    assert_eq!(state_of(&sched, parent), ProcessState::Running);
}

#[test]
fn waiting_parent_is_blocked_until_a_child_exits() {
    let (mut sched, mut kernel_heap, pids) = scheduler_with(1);
    let parent = pids[0];
    assert!(start_scheduler(&mut sched));
    let first =
        spawn_kernel_process(&mut sched, &mut kernel_heap, &env(), "first", entry_of(5)).unwrap();
    let second =
        spawn_kernel_process(&mut sched, &mut kernel_heap, &env(), "second", entry_of(6)).unwrap();
    assert_eq!(
        wait_for_child(&mut sched, &mut kernel_heap, None),
        Ok(WaitOutcome::Blocked(true))
    );
    assert_eq!(state_of(&sched, parent), ProcessState::Blocked);
    assert_eq!(sched.table.entries[1].wait_channel, Some(WaitChannel::ChildAny));
    assert_eq!(current_pid(&sched), Some(first));
    assert!(exit_current(&mut sched, 42));
    assert_eq!(state_of(&sched, parent), ProcessState::Ready);
    assert_eq!(sched.table.entries[1].wait_channel, None);
    // The second child is next in the round; then the parent asks again.
    assert_eq!(current_pid(&sched), Some(second));
    assert!(yield_now(&mut sched));
    assert_eq!(current_pid(&sched), Some(parent));
    assert_eq!(
        wait_for_child(&mut sched, &mut kernel_heap, None),
        Ok(WaitOutcome::Reaped(first, 42))
    );
    // A task that returns from its entry exits with -1.
    assert!(yield_now(&mut sched));
    assert_eq!(current_pid(&sched), Some(second));
    assert!(ares::kernel::process_exit(&mut sched));
    assert_eq!(
        wait_for_child(&mut sched, &mut kernel_heap, Some(second)),
        Ok(WaitOutcome::Reaped(second, -1))
    );
    assert_eq!(
        wait_for_child(&mut sched, &mut kernel_heap, None),
        Err(ProcessError::NoChildren)
    );
}

#[test]
fn process_memory_is_taken_from_the_heap_and_given_back() {
    let (mut sched, mut kernel_heap, pids) = scheduler_with(1);
    let before = heap::remaining_bytes(&kernel_heap);
    let layout = Layout { size: 256, align: 64 };
    let ptr =
        allocate_for_process(&mut sched, &mut kernel_heap, pids[0], layout, MemoryRegionKind::Heap)
            .unwrap();
    assert_eq!(ptr % 64, 0);
    assert_eq!(sched.table.entries[1].regions.regions.len(), 2);
    assert!(heap::remaining_bytes(&kernel_heap) <= before - 256);
    assert_eq!(
        allocate_for_process(&mut sched, &mut kernel_heap, 77, layout, MemoryRegionKind::Heap),
        Err(ProcessError::ProcessNotFound)
    );
    assert_eq!(
        free_for_process(&mut sched, &mut kernel_heap, pids[0], ptr + 8),
        Err(ProcessError::MemoryRegionNotFound)
    );
    assert_eq!(free_for_process(&mut sched, &mut kernel_heap, pids[0], ptr), Ok(()));
    assert_eq!(sched.table.entries[1].regions.regions.len(), 1);
    assert_eq!(
        free_for_process(&mut sched, &mut kernel_heap, pids[0], ptr),
        Err(ProcessError::MemoryRegionNotFound)
    );
    assert_eq!(
        free_for_process(&mut sched, &mut kernel_heap, 77, ptr),
        Err(ProcessError::ProcessNotFound)
    );
}

#[test]
fn spawning_fails_without_room_for_a_stack() {
    let mut sched = Scheduler::new(Cpu { context: Context::new(), cr3: KERNEL_CR3, rsp0: 0 });
    let mut small = heap::init(KERNEL_BASE + 0x40_0000, 20 * 1024);
    assert_eq!(init(&mut sched, &mut small, &env()), Ok(()));
    let free = heap::remaining_bytes(&small);
    assert_eq!(
        spawn_kernel_process(&mut sched, &mut small, &env(), "big", entry_of(0)),
        Err(ProcessError::StackAllocationFailed)
    );
    assert_eq!(heap::remaining_bytes(&small), free);
    assert_eq!(sched.table.entries.len(), 1);
    let mut none = heap::init(KERNEL_BASE + 0x40_0000, 1024);
    let mut fresh = Scheduler::new(Cpu { context: Context::new(), cr3: KERNEL_CR3, rsp0: 0 });
    assert_eq!(init(&mut fresh, &mut none, &env()), Err(ProcessError::StackAllocationFailed));
    assert!(fresh.table.entries.is_empty());
}

#[test]
fn dumps_show_what_the_table_holds() {
    let (mut sched, _heap, pids) = scheduler_with(2);
    assert_eq!(dump_current_process(&sched).err(), Some(ProcessError::ProcessNotFound));
    assert!(start_scheduler(&mut sched));
    let dump = dump_current_process(&sched).unwrap();
    assert_eq!(dump.pid, pids[0]);
    assert_eq!(dump.name, "task");
    assert_eq!(dump.state, ProcessState::Running);
    assert_eq!(dump.cpu_slices, 1);
    assert!(!dump.is_idle);
    assert_eq!(dump.exit_code, None);
    let other = dump_process(&sched, pids[1]).unwrap();
    assert_eq!(other.state, ProcessState::Ready);
    assert_eq!(dump_process(&sched, 99).err(), Some(ProcessError::ProcessNotFound));
    let all = dump_all_processes(&sched);
    assert_eq!(all.iter().map(|d| d.pid).collect::<Vec<Pid>>(), vec![1, pids[0], pids[1]]);
    assert_eq!(state_name(ProcessState::Ready), "Ready");
    assert_eq!(state_name(ProcessState::Running), "Running");
    assert_eq!(state_name(ProcessState::Blocked), "Blocked");
    assert_eq!(state_name(ProcessState::Zombie), "Zombie");
}
