use propolis::common::{GuestAddr, MemAccessor, MemCtx};
use propolis::hw::nvme::cmds::Completion;
use propolis::hw::nvme::queue::{
    devq_id, sqid_to_block_qid, wrap_add, wrap_sub, CompQueue, CreateParams, DeviceId, Permit,
    QueueCreateErr, QueueUpdateError, SubQueue, ADMIN_QUEUE_ID,
};

fn params(id: u16, base: u64, size: u32) -> CreateParams {
    CreateParams { id, device_id: DeviceId(0), base: GuestAddr(base), size }
}

const READ_BASE: u64 = 0;
const WRITE_BASE: u64 = 1024 * 1024;

fn memory() -> MemAccessor {
    MemAccessor::new(MemCtx::new(0, 2 * 1024 * 1024))
}

fn complete(permit: Permit, cq: &mut CompQueue, sq: &SubQueue, acc: &mut MemAccessor) {
    permit.complete(Completion::success(), cq, Some(sq), acc);
}

#[test]
fn create_cqs() {
    // Admin queues must be less than 4K
    let cq = CompQueue::new(params(ADMIN_QUEUE_ID, WRITE_BASE, 1024), 0);
    assert!(matches!(cq, Ok(_)));
    let cq = CompQueue::new(params(ADMIN_QUEUE_ID, WRITE_BASE, 5 * 1024), 0);
    assert!(matches!(cq, Err(QueueCreateErr::InvalidSize)));

    // I/O queues must be less than 64K
    let cq = CompQueue::new(params(1, WRITE_BASE, 1024), 0);
    assert!(matches!(cq, Ok(_)));
    let cq = CompQueue::new(params(1, WRITE_BASE, 65 * 1024), 0);
    assert!(matches!(cq, Err(QueueCreateErr::InvalidSize)));

    // Neither must be less than 2
    let cq = CompQueue::new(params(ADMIN_QUEUE_ID, WRITE_BASE, 1), 0);
    assert!(matches!(cq, Err(QueueCreateErr::InvalidSize)));
    let cq = CompQueue::new(params(1, WRITE_BASE, 1), 0);
    assert!(matches!(cq, Err(QueueCreateErr::InvalidSize)));
}

#[test]
fn create_sqs() {
    // Create corresponding CQs
    let mut admin_cq = CompQueue::new(params(ADMIN_QUEUE_ID, WRITE_BASE, 1024), 0).ok().unwrap();
    let mut io_cq = CompQueue::new(params(1, WRITE_BASE, 1024), 0).ok().unwrap();

    // Admin queues must be less than 4K
    let sq = SubQueue::new(params(ADMIN_QUEUE_ID, READ_BASE, 1024), &mut admin_cq);
    assert!(matches!(sq, Ok(_)));
    let sq = SubQueue::new(params(ADMIN_QUEUE_ID, READ_BASE, 5 * 1024), &mut admin_cq);
    assert!(matches!(sq, Err(QueueCreateErr::InvalidSize)));

    // I/O queues must be less than 64K
    let sq = SubQueue::new(params(1, READ_BASE, 1024), &mut io_cq);
    assert!(matches!(sq, Ok(_)));
    let sq = SubQueue::new(params(1, READ_BASE, 65 * 1024), &mut io_cq);
    assert!(matches!(sq, Err(QueueCreateErr::InvalidSize)));

    // Neither must be less than 2
    let sq = SubQueue::new(params(ADMIN_QUEUE_ID, READ_BASE, 1), &mut admin_cq);
    assert!(matches!(sq, Err(QueueCreateErr::InvalidSize)));
    let sq = SubQueue::new(params(1, READ_BASE, 1), &mut admin_cq);
    assert!(matches!(sq, Err(QueueCreateErr::InvalidSize)));
}

#[test]
fn push_failures() {
    let mut acc = memory();

    // Create our queues
    let mut cq = CompQueue::new(params(1, WRITE_BASE, 4), 0).ok().unwrap();
    let mut sq = SubQueue::new(params(1, READ_BASE, 4), &mut cq).ok().unwrap();
    let sq_size = sq.state.size;
    let cq_size = cq.state.queue.size;

    // Replicate guest VM notifying us things were pushed to the SQ
    let mut sq_tail = 0;
    for _ in 0..sq_size - 1 {
        sq_tail = wrap_add(sq_size, sq_tail, 1);
        // These should all succeed
        assert!(matches!(sq.notify_tail(sq_tail, &mut acc), Ok(_)));
    }

    // But anything more should fail
    sq_tail = wrap_add(sq_size, sq_tail, 1);
    assert!(matches!(
        sq.notify_tail(sq_tail, &mut acc),
        Err(QueueUpdateError::TooManyEntries)
    ));

    // Also anything that falls outside the boundaries (i.e. we didn't wrap properly)
    assert!(matches!(
        sq.notify_tail(sq_size as u16, &mut acc),
        Err(QueueUpdateError::InvalidEntry)
    ));

    // Now pop those SQ items and complete them in the CQ
    while let Some((_, permit, _)) = sq.pop(&mut cq, &mut acc) {
        complete(permit, &mut cq, &sq, &mut acc);
    }

    // Replicate guest VM notifying us things were consumed off the CQ
    let mut cq_head = 0;
    for _ in 0..sq_size - 1 {
        cq_head = wrap_add(cq_size, cq_head, 1);
        // These should all succeed
        assert!(matches!(cq.notify_head(cq_head, &mut acc), Ok(_)));
    }

    // There's nothing else to pop so this should fail
    cq_head = wrap_add(cq_size, cq_head, 1);
    assert!(matches!(
        cq.notify_head(cq_head, &mut acc),
        Err(QueueUpdateError::TooManyEntries)
    ));

    // Also anything that falls outside the boundaries (i.e. we didn't wrap properly)
    assert!(matches!(
        cq.notify_head(cq_size as u16, &mut acc),
        Err(QueueUpdateError::InvalidEntry)
    ));
}

#[test]
fn cq_kicks() {
    let mut acc = memory();

    // Create our queues
    // Purposely make the CQ smaller to test kicks
    let mut cq = CompQueue::new(params(1, WRITE_BASE, 2), 0).ok().unwrap();
    let mut sq = SubQueue::new(params(1, READ_BASE, 4), &mut cq).ok().unwrap();

    // Replicate guest VM notifying us things were pushed to the SQ
    let mut sq_tail = 0;
    for _ in 0..sq.state.size - 1 {
        sq_tail = wrap_add(sq.state.size, sq_tail, 1);
        assert!(matches!(sq.notify_tail(sq_tail, &mut acc), Ok(_)));
    }

    // We should be able to pop based on how much space is in the CQ
    for _ in 0..cq.state.queue.size - 1 {
        let pop = sq.pop(&mut cq, &mut acc);
        assert!(matches!(pop, Some(_)));

        // Complete these in the CQ (but note guest won't have acknowledged them yet)
        complete(pop.unwrap().1, &mut cq, &sq, &mut acc);
    }

    // But we can't pop anymore due to no more CQ space to reserve
    assert!(matches!(sq.pop(&mut cq, &mut acc), None));

    // The guest consuming things off the CQ should let free us
    assert!(matches!(cq.notify_head(1, &mut acc), Ok(_)));

    // Kick should've been set in the failed pop
    assert!(cq.kick().is_some());

    // We should have one more space now and should be able to pop 1 more
    assert!(matches!(
        sq.pop(&mut cq, &mut acc).map(|(_sub, permit, _idx)| {
            // ignore permit so it can be discarded when done
            permit.abandon()
        }),
        Some(_)
    ));
}

#[test]
fn submissions_equal_completions() {
    let mut acc = memory();
    let mut cq = CompQueue::new(params(1, WRITE_BASE, 4), 0).ok().unwrap();
    let mut sq = SubQueue::new(params(1, READ_BASE, 512), &mut cq).ok().unwrap();

    let mut tail = 0;
    let mut head = 0;
    let mut completions = 0;
    for _ in 0..300 {
        tail = wrap_add(512, tail, 1);
        assert!(sq.notify_tail(tail, &mut acc).is_ok());
        while let Some((_, permit, _)) = sq.pop(&mut cq, &mut acc) {
            complete(permit, &mut cq, &sq, &mut acc);
            head = wrap_add(4, head, 1);
            assert!(cq.notify_head(head, &mut acc).is_ok());
            completions += 1;
        }
    }
    assert_eq!(completions, 300);
    assert_eq!(sq.num_occupied(), 0);
}

#[test]
fn entries_come_out_in_order_with_their_commands() {
    let mut acc = memory();
    let mut cq = CompQueue::new(params(1, WRITE_BASE, 8), 0).ok().unwrap();
    let mut sq = SubQueue::new(params(1, READ_BASE, 8), &mut cq).ok().unwrap();
    for i in 0..3u64 {
        // The command identifier is in the upper half of the first word
        assert!(acc.mem.write_u32(GuestAddr(64 * i), (0x100 + i as u32) << 16));
    }
    assert_eq!(sq.notify_tail(3, &mut acc), Ok(3));
    for i in 0..3u16 {
        let (entry, permit, idx) = sq.pop(&mut cq, &mut acc).unwrap();
        assert_eq!(entry.cid(), 0x100 + i);
        assert_eq!(permit.cid(), 0x100 + i);
        assert_eq!(idx, i);
        complete(permit, &mut cq, &sq, &mut acc);
    }
    assert!(sq.pop(&mut cq, &mut acc).is_none());
    // Completions bear the command identifier and the phase of the first pass
    for i in 0..3u64 {
        let word = acc.mem.read_u32(GuestAddr(WRITE_BASE + 16 * i + 12)).unwrap();
        assert_eq!(word & 0xffff, 0x100 + i as u32);
        assert_eq!((word >> 16) & 1, 1);
    }
}

#[test]
fn phase_flips_when_the_queue_wraps() {
    let mut acc = memory();
    let mut cq = CompQueue::new(params(1, WRITE_BASE, 2), 0).ok().unwrap();
    let mut sq = SubQueue::new(params(1, READ_BASE, 8), &mut cq).ok().unwrap();
    assert_eq!(sq.notify_tail(4, &mut acc), Ok(4));
    let mut phases = Vec::new();
    for n in 0..4u16 {
        let (_, permit, _) = sq.pop(&mut cq, &mut acc).unwrap();
        complete(permit, &mut cq, &sq, &mut acc);
        let at = WRITE_BASE + 16 * (n as u64 % 2) + 12;
        phases.push((acc.mem.read_u32(GuestAddr(at)).unwrap() >> 16) & 1);
        assert!(cq.notify_head((n + 1) % 2, &mut acc).is_ok());
    }
    assert_eq!(phases, vec![1, 1, 0, 0]);
}

#[test]
fn base_address_must_be_page_aligned() {
    assert!(matches!(
        CompQueue::new(params(1, 0x1004, 16), 0),
        Err(QueueCreateErr::InvalidBaseAddr)
    ));
}

#[test]
fn duplicate_submission_queue_id_is_refused() {
    let mut cq = CompQueue::new(params(1, WRITE_BASE, 16), 0).ok().unwrap();
    assert!(SubQueue::new(params(3, READ_BASE, 16), &mut cq).is_ok());
    assert!(matches!(
        SubQueue::new(params(3, READ_BASE, 16), &mut cq),
        Err(QueueCreateErr::SubQueueIdAlreadyExists(3))
    ));
    assert_eq!(cq.associated_sqs(), 1);
}

#[test]
fn indices_wrap() {
    assert_eq!(wrap_add(4, 3, 1), 0);
    assert_eq!(wrap_add(4, 2, 1), 3);
    assert_eq!(wrap_sub(4, 0, 1), 3);
    assert_eq!(wrap_sub(4, 3, 2), 1);
    assert_eq!(wrap_add(0x10000, 0xffff, 1), 0);
}

#[test]
fn queue_numbers() {
    assert_eq!(devq_id(DeviceId(2), 3), (2u64 << 16) | 3);
    assert_eq!(sqid_to_block_qid(5), 4);
}
