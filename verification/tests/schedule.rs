use tunelock::schedule::{BlockRun, BlockStep, MeterClock, PendingQueue, PENDING_CAPACITY};

fn drain(q: &mut PendingQueue<u32>, frame: u64) -> Vec<u32> {
    let mut out = Vec::new();
    while let Some(c) = q.pop_due(frame) {
        out.push(c);
    }
    out
}

#[test]
fn pending_commands_come_out_in_frame_order() {
    let mut q: PendingQueue<u32> = PendingQueue::new(PENDING_CAPACITY);
    assert_eq!(q.capacity(), 64);
    assert!(q.insert(300, 3).is_none());
    assert!(q.insert(100, 1).is_none());
    assert!(q.insert(200, 2).is_none());
    // A second command for frame 100 lands after the first one.
    assert!(q.insert(100, 11).is_none());
    assert_eq!(q.len(), 4);
    assert_eq!(q.next_event_frame(0), Some(100));
    assert_eq!(drain(&mut q, 99), Vec::<u32>::new());
    assert_eq!(drain(&mut q, 150), vec![1, 11]);
    assert_eq!(q.next_event_frame(150), Some(200));
    assert_eq!(drain(&mut q, 1000), vec![2, 3]);
    assert_eq!(q.next_event_frame(1000), None);
}

#[test]
fn full_pending_queue_hands_the_command_back() {
    let mut q: PendingQueue<u32> = PendingQueue::new(2);
    assert!(q.insert(10, 1).is_none());
    assert!(q.insert(20, 2).is_none());
    // Full: the command is returned so the caller applies it at once.
    assert_eq!(q.insert(5, 3), Some(3));
    assert_eq!(q.len(), 2);
    assert_eq!(drain(&mut q, 100), vec![1, 2]);
}

#[test]
fn block_run_applies_a_command_at_its_frame() {
    // A block of 256 frames starting at frame 1000, one command at 1100.
    let mut q: PendingQueue<&str> = PendingQueue::new(PENDING_CAPACITY);
    assert!(q.insert(1100, "stop").is_none());
    let mut run = BlockRun::begin(1000, 256);
    assert_eq!(run.block_end(), 1256);
    let mut steps = Vec::new();
    loop {
        match run.step(&mut q) {
            BlockStep::Apply { cmd } => steps.push(format!("apply {} at {}", cmd, run.rendered())),
            BlockStep::Render { first_sample, frames } => {
                steps.push(format!("render {}+{}", first_sample, frames))
            }
            BlockStep::Finished => break,
        }
    }
    assert_eq!(steps, vec!["render 0+100", "apply stop at 100", "render 100+156"]);
    assert_eq!(run.rendered(), 256);
}

#[test]
fn late_commands_apply_at_block_start() {
    let mut q: PendingQueue<u8> = PendingQueue::new(PENDING_CAPACITY);
    assert!(q.insert(10, 7).is_none());
    let mut run = BlockRun::begin(500, 64);
    match run.step(&mut q) {
        BlockStep::Apply { cmd } => assert_eq!(cmd, 7),
        _ => panic!("expected the overdue command first"),
    }
    match run.step(&mut q) {
        BlockStep::Render { first_sample, frames } => {
            assert_eq!(first_sample, 0);
            assert_eq!(frames, 64);
        }
        _ => panic!("expected one render of the whole block"),
    }
    assert!(matches!(run.step(&mut q), BlockStep::Finished));
}

#[test]
fn meter_clock_fires_each_interval() {
    let mut c = MeterClock::new(1470);
    assert!(!c.tick(512));
    assert!(!c.tick(512));
    assert!(c.tick(512));
    assert!(!c.tick(1469));
    assert!(c.tick(1));
}
