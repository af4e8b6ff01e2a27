use propolis::common::GuestAddr;
use propolis::hw::nvme::bits::{
    ArbitrationMechanism, Capabilities, CompletionQueueEntry, Configuration, IOCommandSet,
    NvmQueueEntrySize, ShutdownNotification, ShutdownStatus, Status, StatusCodeType,
    SubmissionQueueEntry,
};
use propolis::hw::nvme::cmds::{
    AdminCmd, Completion, FeatInterruptVectorConfig, FeatNumberQueues, FeatTemperatureThreshold,
    FeatVolatileWriteCache, FeatureIdent, LogPageIdent, NvmCmd, ParseErr,
    ThresholdTemperatureSelect, ThresholdTypeSelect,
};
use propolis::hw::nvme::queue::{DoorbellBuffer, QueueCreateErr};

fn entry(opcode: u32, cdw10: u32, cdw11: u32, cdw12: u32) -> SubmissionQueueEntry {
    let mut b = vec![0u8; 64];
    b[0..4].copy_from_slice(&(0x77 << 16 | opcode).to_le_bytes());
    b[4..8].copy_from_slice(&1u32.to_le_bytes());
    b[24..32].copy_from_slice(&0x1000u64.to_le_bytes());
    b[32..40].copy_from_slice(&0x2000u64.to_le_bytes());
    b[40..44].copy_from_slice(&cdw10.to_le_bytes());
    b[44..48].copy_from_slice(&cdw11.to_le_bytes());
    b[48..52].copy_from_slice(&cdw12.to_le_bytes());
    SubmissionQueueEntry::from_bytes(&b)
}

#[test]
fn enumerations_come_back() {
    for raw in 0..8u8 {
        assert_eq!(IOCommandSet::from_raw(raw).into_raw(), raw);
        assert_eq!(ArbitrationMechanism::from_raw(raw).into_raw(), raw);
    }
    for raw in 0..4u8 {
        assert_eq!(ShutdownNotification::from_raw(raw).into_raw(), raw);
        assert_eq!(ShutdownStatus::from_raw(raw).into_raw(), raw);
        assert_eq!(ThresholdTypeSelect::from_raw(raw).into_raw(), raw);
    }
    for raw in 0..16u8 {
        assert_eq!(ThresholdTemperatureSelect::from_raw(raw).into_raw(), raw);
    }
}

#[test]
fn fields_do_not_disturb_each_other() {
    let cc = Configuration(0).with_enabled(true).with_mps(3).with_iosqes(6).with_iocqes(4);
    assert_eq!(cc.0, 1 | 3 << 7 | 6 << 16 | 4 << 20);
    assert_eq!((cc.enabled(), cc.mps(), cc.iosqes(), cc.iocqes()), (true, 3, 6, 4));
    assert_eq!(cc.with_mps(0).iosqes(), 6);
    let csts = Status(0).with_ready(true).with_cfs(true).with_shst(ShutdownStatus::Complete);
    assert_eq!(csts.0, 1 | 2 | 2 << 2);
    let cap = Capabilities(0).with_mqes(0xffff).with_cqr(true).with_css_nvm(true);
    assert_eq!(cap.0, 0xffff | 1 << 16 | 1 << 37);
    assert_eq!((cap.mqes(), cap.cqr(), cap.css_nvm(), cap.to()), (0xffff, true, true, 0));
    assert_eq!((cap.ams_roundrobin(), cap.ams_vendor(), cap.dstrd()), (false, false, 0));
    assert_eq!(cap.mpsmin_sz(), 4096);
    let sz = NvmQueueEntrySize(0).with_required(6).with_maximum(7);
    assert_eq!(sz.0, 0x76);
    assert_eq!((sz.required(), sz.maximum()), (6, 7));
}

#[test]
fn phase_leaves_the_status_alone() {
    let comp = Completion::generic_err(6);
    let mut e = CompletionQueueEntry::new(comp, 0x77);
    e.set_phase(true);
    let b = e.to_bytes();
    assert_eq!(b.len(), 16);
    assert_eq!(&b[12..16], &[0x77, 0, 6 << 1 | 1, 0]);
    e.set_phase(false);
    assert_eq!(&e.to_bytes()[14..16], &[6 << 1, 0]);
}

#[test]
fn status_of_completions() {
    assert_eq!(Completion::success().status, 0);
    assert_eq!(Completion::success_val(9).dw0, 9);
    assert_eq!(Completion::generic_err(2).status, 2 << 1);
    assert_eq!(Completion::generic_err(2).dnr().status, 1 << 15 | 2 << 1);
    assert_eq!(
        Completion::specific_err(StatusCodeType::CmdSpecific, 0x0c).status,
        1 << 9 | 0x0c << 1
    );
    assert_eq!(Completion::from(QueueCreateErr::SubQueueIdAlreadyExists(3)).status, 1 << 9 | 2);
}

#[test]
fn admin_commands_are_parsed() {
    match AdminCmd::parse(entry(1, 7 << 16 | 3, 5 << 16 | 0b101, 0)) {
        Ok(AdminCmd::CreateIOSubQ(c)) => {
            assert_eq!((c.prp, c.qsize, c.qid, c.cqid, c.phys_contig), (0x1000, 8, 3, 5, true));
        }
        _ => panic!(),
    }
    match AdminCmd::parse(entry(5, 0xffff << 16 | 3, 9 << 16 | 0b10, 0)) {
        Ok(AdminCmd::CreateIOCompQ(c)) => {
            assert_eq!((c.qsize, c.intr_vector, c.intr_enable), (0x1_0000, 9, true));
            assert!(!c.phys_contig);
        }
        _ => panic!(),
    }
    match AdminCmd::parse(entry(2, 0xf0ff << 16 | 2, 0, 0)) {
        Ok(AdminCmd::GetLogPage(c)) => {
            assert_eq!((c.len, c.log_page_ident), (0x400, LogPageIdent::Smart));
        }
        _ => panic!(),
    }
    assert_eq!(AdminCmd::parse(entry(0xc, 0, 0, 0)), Ok(AdminCmd::AsyncEventReq));
    assert_eq!(AdminCmd::parse(entry(0x100, 0, 0, 0)), Err(ParseErr::Fused));
    assert_eq!(AdminCmd::parse(entry(0x300, 0, 0, 0)), Err(ParseErr::ReservedFuse));
}

#[test]
fn io_commands_are_parsed() {
    assert_eq!(NvmCmd::parse(entry(0, 0, 0, 0)), Ok(NvmCmd::Flush));
    match NvmCmd::parse(entry(1, 5, 1, 0xffff)) {
        Ok(NvmCmd::Write(c)) => assert_eq!((c.slba, c.nlb), (1 << 32 | 5, 0x1_0000)),
        _ => panic!(),
    }
    assert_eq!(NvmCmd::parse(entry(0x202, 0, 0, 0)), Err(ParseErr::Fused));
    assert_eq!(NvmCmd::parse(entry(0x302, 0, 0, 0)), Err(ParseErr::ReservedFuse));
}

#[test]
fn features_come_back() {
    let t = FeatTemperatureThreshold(0)
        .with_tmpth(373)
        .with_tmpsel(ThresholdTemperatureSelect::Sensor3)
        .with_thsel(ThresholdTypeSelect::Under);
    assert_eq!(t.0, 1 << 20 | 3 << 16 | 373);
    assert_eq!(t.tmpth(), 373);
    assert_eq!(FeatVolatileWriteCache::from_dword(3).to_dword(), 1);
    assert_eq!(FeatInterruptVectorConfig::from_dword(0x1_0007).to_dword(), 0x1_0007);
    assert_eq!(FeatNumberQueues::from_dword(5 << 16 | 2).unwrap().to_dword(), 5 << 16 | 2);
    assert!(FeatNumberQueues::from_dword(0xffff_0000).is_err());
    assert_eq!(FeatureIdent::from(0x80), FeatureIdent::SoftwareProgressMarker);
    assert_eq!(FeatureIdent::from(0xc1), FeatureIdent::Vendor(0xc1));
    assert_eq!(LogPageIdent::from(0x80), LogPageIdent::IOSpecifc(0x80));
}

#[test]
fn doorbell_buffers_have_a_place_for_each_queue() {
    let db = DoorbellBuffer { shadow: GuestAddr(0x1000), eventidx: GuestAddr(0x2000) };
    let mut places = Vec::new();
    for qid in 0..16 {
        for is_cq in [false, true] {
            let b = db.offset_for_queue(is_cq, qid);
            assert_eq!(b.eventidx.0 - b.shadow.0, 0x1000);
            places.push(b.shadow.0);
        }
    }
    let want: Vec<u64> = (0..32).map(|i| 0x1000 + i * 4).collect();
    assert_eq!(places, want);
}
