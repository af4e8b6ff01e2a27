//! NVMe commands: their parsing, the guest memory that they name, and their
//! completions.
use crate::bitfield::{field, get_field, set_field, with_field};
use crate::block::IoResult;
use crate::common::{val64, GuestAddr, GuestRegion, MemCtx, MemView, PAGE_SIZE};
use crate::hw::nvme::bits::{
    StatusCodeType, SubmissionQueueEntry, ADMIN_OPC_ABORT, ADMIN_OPC_ASYNC_EVENT_REQ,
    ADMIN_OPC_CREATE_IO_CQ, ADMIN_OPC_CREATE_IO_SQ, ADMIN_OPC_DELETE_IO_CQ, ADMIN_OPC_DELETE_IO_SQ,
    ADMIN_OPC_DOORBELL_BUF_CFG, ADMIN_OPC_GET_FEATURES, ADMIN_OPC_GET_LOG_PAGE, ADMIN_OPC_IDENTIFY,
    ADMIN_OPC_SET_FEATURES, FEAT_ID_ARBITRATION, FEAT_ID_ASYNC_EVENT_CFG, FEAT_ID_ERROR_RECOVERY,
    FEAT_ID_INTR_COALESCE, FEAT_ID_INTR_VEC_CFG, FEAT_ID_LBA_RANGE_TYPE, FEAT_ID_NUM_QUEUES,
    FEAT_ID_POWER_MGMT, FEAT_ID_TEMP_THRESH, FEAT_ID_VOLATILE_WRITE_CACHE, FEAT_ID_WRITE_ATOMIC,
    NVM_OPC_FLUSH, NVM_OPC_READ, NVM_OPC_WRITE, STS_CREATE_IO_Q_INVAL_QID,
    STS_CREATE_IO_Q_INVAL_QSIZE, STS_DATA_XFER_ERR, STS_INVAL_FIELD, STS_READ_CONFLICTING_ATTRS,
    STS_SUCCESS, STS_WRITE_READ_ONLY_RANGE,
};
use crate::hw::nvme::queue::{QueueCreateErr, QueueId};
use vstd::prelude::*;

verus! {

/// Errors of command parsing.
#[derive(Clone, Copy, Debug, PartialEq, Eq, Structural)]
pub enum ParseErr {
    /// Fused operations are not supported.
    Fused,
    /// The fused operation field holds a reserved value.
    ReservedFuse,
}

/// Why a command cannot be parsed, if it cannot.
pub open spec fn fuse_check(raw: SubmissionQueueEntry) -> Result<(), ParseErr> {
    let fuse = raw.spec_fuse();
    if fuse == 0 {
        Ok(())
    } else if fuse == 3 {
        Err(ParseErr::ReservedFuse)
    } else {
        Err(ParseErr::Fused)
    }
}

/// Refuses fused operations.
fn check_fuse(raw: &SubmissionQueueEntry) -> (r: Result<(), ParseErr>)
    ensures
        r == fuse_check(*raw),
{
    let fuse: u8 = raw.fuse();
    if fuse == 0 {
        Ok(())
    } else if fuse == 3 {
        Err(ParseErr::ReservedFuse)
    } else {
        Err(ParseErr::Fused)
    }
}

/// The low half of a dword.
pub open spec fn lo16(v: u32) -> u16 {
    (v % 0x1_0000) as u16
}

/// The high half of a dword.
pub open spec fn hi16(v: u32) -> u16 {
    (v / 0x1_0000) as u16
}

/// The lowest byte of a dword.
pub open spec fn lo8(v: u32) -> u8 {
    (v % 0x100) as u8
}

/// Create I/O Completion Queue.
#[derive(Clone, Copy, Debug, PartialEq, Eq, Structural)]
pub struct CreateIOCQCmd {
    /// Base address of the queue.
    pub prp: u64,
    /// Number of entries.
    pub qsize: u32,
    /// The queue to create.
    pub qid: QueueId,
    /// Interrupt vector of the queue.
    pub intr_vector: u16,
    /// Whether the queue has interrupts.
    pub intr_enable: bool,
    /// Whether the queue is physically contiguous.
    pub phys_contig: bool,
}

/// Create I/O Submission Queue.
#[derive(Clone, Copy, Debug, PartialEq, Eq, Structural)]
pub struct CreateIOSQCmd {
    /// Base address of the queue.
    pub prp: u64,
    /// Number of entries.
    pub qsize: u32,
    /// The queue to create.
    pub qid: QueueId,
    /// The completion queue that is to serve it.
    pub cqid: QueueId,
    /// Priority of the queue.
    pub queue_prio: QueuePriority,
    /// Whether the queue is physically contiguous.
    pub phys_contig: bool,
}

/// Priorities of submission queues.
#[derive(Clone, Copy, Debug, PartialEq, Eq, Structural)]
pub enum QueuePriority {
    Urgent,
    High,
    Medium,
    Low,
}

impl QueuePriority {
    /// The priority that a 2-bit field stands for.
    pub open spec fn spec_from_raw(raw: u32) -> QueuePriority {
        if raw == 0 {
            QueuePriority::Urgent
        } else if raw == 1 {
            QueuePriority::High
        } else if raw == 2 {
            QueuePriority::Medium
        } else {
            QueuePriority::Low
        }
    }

    fn from_raw(raw: u32) -> (r: QueuePriority)
        requires
            raw < 4,
        ensures
            r == Self::spec_from_raw(raw),
    {
        if raw == 0 {
            QueuePriority::Urgent
        } else if raw == 1 {
            QueuePriority::High
        } else if raw == 2 {
            QueuePriority::Medium
        } else {
            QueuePriority::Low
        }
    }
}

/// Get Log Page.
#[derive(Clone, Copy, Debug, PartialEq, Eq, Structural)]
pub struct GetLogPageCmd {
    /// The namespace that the command applies to.
    pub nsid: u32,
    /// The number of bytes to return.
    pub len: u32,
    /// The log page to return.
    pub log_page_ident: LogPageIdent,
    pub prp1: u64,
    pub prp2: u64,
}

/// Log pages.
#[derive(Clone, Copy, Debug, PartialEq, Eq, Structural)]
pub enum LogPageIdent {
    Reserved,
    Error,
    Smart,
    Firmware,
    IOSpecifc(u8),
    Vendor(u8),
}

/// The log page of a given identifier.
pub open spec fn log_page_of(ident: u8) -> LogPageIdent {
    if ident == 1 {
        LogPageIdent::Error
    } else if ident == 2 {
        LogPageIdent::Smart
    } else if ident == 3 {
        LogPageIdent::Firmware
    } else if ident < 0x80 {
        LogPageIdent::Reserved
    } else if ident < 0xC0 {
        LogPageIdent::IOSpecifc(ident)
    } else {
        LogPageIdent::Vendor(ident)
    }
}

impl vstd::std_specs::convert::FromSpecImpl<u8> for LogPageIdent {
    open spec fn obeys_from_spec() -> bool {
        true
    }

    open spec fn from_spec(v: u8) -> LogPageIdent {
        log_page_of(v)
    }
}

impl From<u8> for LogPageIdent {
    fn from(ident: u8) -> (r: LogPageIdent) {
        if ident == 1 {
            LogPageIdent::Error
        } else if ident == 2 {
            LogPageIdent::Smart
        } else if ident == 3 {
            LogPageIdent::Firmware
        } else if ident < 0x80 {
            LogPageIdent::Reserved
        } else if ident < 0xC0 {
            LogPageIdent::IOSpecifc(ident)
        } else {
            LogPageIdent::Vendor(ident)
        }
    }
}

impl GetLogPageCmd {
    /// The guest memory that the log page is to be written to.
    pub fn data<'a>(&self, mem: &'a MemCtx) -> (r: PrpIter<'a>)
        requires
            self.prp1 % 4 == 0,
            self.prp2 % 4 == 0,
        ensures
            r@ == PrpView::spec_new(self.len as u64, self.prp1, self.prp2),
            r.mem == mem,
            r.wf(),
    {
        PrpIter::new(self.len as u64, self.prp1, self.prp2, mem)
    }
}

/// Identify.
#[derive(Clone, Copy, Debug, PartialEq, Eq, Structural)]
pub struct IdentifyCmd {
    /// The structure to return.
    pub cns: u8,
    /// The namespace that the command applies to.
    pub nsid: u32,
    pub prp1: u64,
    pub prp2: u64,
}

impl IdentifyCmd {
    /// The guest memory that the structure is to be written to.
    pub fn data<'a>(&self, mem: &'a MemCtx) -> (r: PrpIter<'a>)
        requires
            self.prp1 % 4 == 0,
            self.prp2 % 4 == 0,
        ensures
            r@ == PrpView::spec_new(PAGE_SIZE, self.prp1, self.prp2),
            r.mem == mem,
            r.wf(),
    {
        PrpIter::new(PAGE_SIZE, self.prp1, self.prp2, mem)
    }
}

/// Abort.
#[derive(Clone, Copy, Debug, PartialEq, Eq, Structural)]
pub struct AbortCmd {
    /// The command to abort.
    pub cid: u16,
    /// The submission queue that it came from.
    pub sqid: u16,
}

/// Get Features.
#[derive(Clone, Copy, Debug, PartialEq, Eq, Structural)]
pub struct GetFeaturesCmd {
    pub fid: FeatureIdent,
    pub cdw11: u32,
}

/// Set Features.
#[derive(Clone, Copy, Debug, PartialEq, Eq, Structural)]
pub struct SetFeaturesCmd {
    pub fid: FeatureIdent,
    pub cdw11: u32,
}

/// Doorbell Buffer Config.
#[derive(Clone, Copy, Debug, PartialEq, Eq, Structural)]
pub struct DoorbellBufCfgCmd {
    pub shadow_doorbell_buffer: u64,
    pub eventidx_buffer: u64,
}

/// Features.
#[derive(Clone, Copy, Debug, PartialEq, Eq, Structural)]
pub enum FeatureIdent {
    Reserved,
    Arbitration,
    PowerManagement,
    LbaRangeType,
    TemperatureThreshold,
    ErrorRecovery,
    VolatileWriteCache,
    NumberOfQueues,
    InterruptCoalescing,
    InterruptVectorConfiguration,
    WriteAtomicity,
    AsynchronousEventConfiguration,
    SoftwareProgressMarker,
    Vendor(u8),
}

/// The feature of a given identifier.
pub open spec fn feature_of(fid: u8) -> FeatureIdent {
    if fid == FEAT_ID_ARBITRATION {
        FeatureIdent::Arbitration
    } else if fid == FEAT_ID_POWER_MGMT {
        FeatureIdent::PowerManagement
    } else if fid == FEAT_ID_LBA_RANGE_TYPE {
        FeatureIdent::LbaRangeType
    } else if fid == FEAT_ID_TEMP_THRESH {
        FeatureIdent::TemperatureThreshold
    } else if fid == FEAT_ID_ERROR_RECOVERY {
        FeatureIdent::ErrorRecovery
    } else if fid == FEAT_ID_VOLATILE_WRITE_CACHE {
        FeatureIdent::VolatileWriteCache
    } else if fid == FEAT_ID_NUM_QUEUES {
        FeatureIdent::NumberOfQueues
    } else if fid == FEAT_ID_INTR_COALESCE {
        FeatureIdent::InterruptCoalescing
    } else if fid == FEAT_ID_INTR_VEC_CFG {
        FeatureIdent::InterruptVectorConfiguration
    } else if fid == FEAT_ID_WRITE_ATOMIC {
        FeatureIdent::WriteAtomicity
    } else if fid == FEAT_ID_ASYNC_EVENT_CFG {
        FeatureIdent::AsynchronousEventConfiguration
    } else if fid == 0x80 {
        FeatureIdent::SoftwareProgressMarker
    } else if fid < 0xC0 {
        FeatureIdent::Reserved
    } else {
        FeatureIdent::Vendor(fid)
    }
}

impl vstd::std_specs::convert::FromSpecImpl<u8> for FeatureIdent {
    open spec fn obeys_from_spec() -> bool {
        true
    }

    open spec fn from_spec(v: u8) -> FeatureIdent {
        feature_of(v)
    }
}

impl From<u8> for FeatureIdent {
    fn from(fid: u8) -> (r: FeatureIdent) {
        if fid == FEAT_ID_ARBITRATION {
            FeatureIdent::Arbitration
        } else if fid == FEAT_ID_POWER_MGMT {
            FeatureIdent::PowerManagement
        } else if fid == FEAT_ID_LBA_RANGE_TYPE {
            FeatureIdent::LbaRangeType
        } else if fid == FEAT_ID_TEMP_THRESH {
            FeatureIdent::TemperatureThreshold
        } else if fid == FEAT_ID_ERROR_RECOVERY {
            FeatureIdent::ErrorRecovery
        } else if fid == FEAT_ID_VOLATILE_WRITE_CACHE {
            FeatureIdent::VolatileWriteCache
        } else if fid == FEAT_ID_NUM_QUEUES {
            FeatureIdent::NumberOfQueues
        } else if fid == FEAT_ID_INTR_COALESCE {
            FeatureIdent::InterruptCoalescing
        } else if fid == FEAT_ID_INTR_VEC_CFG {
            FeatureIdent::InterruptVectorConfiguration
        } else if fid == FEAT_ID_WRITE_ATOMIC {
            FeatureIdent::WriteAtomicity
        } else if fid == FEAT_ID_ASYNC_EVENT_CFG {
            FeatureIdent::AsynchronousEventConfiguration
        } else if fid == 0x80 {
            FeatureIdent::SoftwareProgressMarker
        } else if fid < 0xC0 {
            FeatureIdent::Reserved
        } else {
            FeatureIdent::Vendor(fid)
        }
    }
}

/// A parsed admin command.
#[derive(Clone, Copy, Debug, PartialEq, Eq, Structural)]
pub enum AdminCmd {
    DeleteIOSubQ(QueueId),
    CreateIOSubQ(CreateIOSQCmd),
    GetLogPage(GetLogPageCmd),
    DeleteIOCompQ(QueueId),
    CreateIOCompQ(CreateIOCQCmd),
    Identify(IdentifyCmd),
    Abort(AbortCmd),
    SetFeatures(SetFeaturesCmd),
    GetFeatures(GetFeaturesCmd),
    AsyncEventReq,
    DoorbellBufCfg(DoorbellBufCfgCmd),
    Unknown(SubmissionQueueEntry),
}

/// The admin command in an entry that holds no fused operation.
pub open spec fn admin_cmd_of(raw: SubmissionQueueEntry) -> AdminCmd {
    let opc = raw.spec_opcode();
    if opc == ADMIN_OPC_DELETE_IO_SQ {
        AdminCmd::DeleteIOSubQ(lo16(raw.cdw10))
    } else if opc == ADMIN_OPC_CREATE_IO_SQ {
        AdminCmd::CreateIOSubQ(
            CreateIOSQCmd {
                prp: raw.prp1,
                qsize: (hi16(raw.cdw10) + 1) as u32,
                qid: lo16(raw.cdw10),
                cqid: hi16(raw.cdw11),
                queue_prio: QueuePriority::spec_from_raw((raw.cdw11 / 2) % 4),
                phys_contig: raw.cdw11 % 2 == 1,
            },
        )
    } else if opc == ADMIN_OPC_GET_LOG_PAGE {
        AdminCmd::GetLogPage(
            GetLogPageCmd {
                nsid: raw.nsid,
                len: ((hi16(raw.cdw10) % 0x1000 + 1) * 4) as u32,
                log_page_ident: log_page_of(lo8(raw.cdw10)),
                prp1: raw.prp1,
                prp2: raw.prp2,
            },
        )
    } else if opc == ADMIN_OPC_DELETE_IO_CQ {
        AdminCmd::DeleteIOCompQ(lo16(raw.cdw10))
    } else if opc == ADMIN_OPC_CREATE_IO_CQ {
        AdminCmd::CreateIOCompQ(
            CreateIOCQCmd {
                prp: raw.prp1,
                qsize: (hi16(raw.cdw10) + 1) as u32,
                qid: lo16(raw.cdw10),
                intr_vector: hi16(raw.cdw11),
                intr_enable: (raw.cdw11 / 2) % 2 == 1,
                phys_contig: raw.cdw11 % 2 == 1,
            },
        )
    } else if opc == ADMIN_OPC_IDENTIFY {
        AdminCmd::Identify(
            IdentifyCmd {
                cns: (raw.cdw10 % 2) as u8,
                nsid: raw.nsid,
                prp1: raw.prp1,
                prp2: raw.prp2,
            },
        )
    } else if opc == ADMIN_OPC_ABORT {
        AdminCmd::Abort(AbortCmd { cid: hi16(raw.cdw10), sqid: lo16(raw.cdw10) })
    } else if opc == ADMIN_OPC_SET_FEATURES {
        AdminCmd::SetFeatures(
            SetFeaturesCmd { fid: feature_of(lo8(raw.cdw10)), cdw11: raw.cdw11 },
        )
    } else if opc == ADMIN_OPC_GET_FEATURES {
        AdminCmd::GetFeatures(
            GetFeaturesCmd { fid: feature_of(lo8(raw.cdw10)), cdw11: raw.cdw11 },
        )
    } else if opc == ADMIN_OPC_ASYNC_EVENT_REQ {
        AdminCmd::AsyncEventReq
    } else if opc == ADMIN_OPC_DOORBELL_BUF_CFG {
        AdminCmd::DoorbellBufCfg(
            DoorbellBufCfgCmd { shadow_doorbell_buffer: raw.prp1, eventidx_buffer: raw.prp2 },
        )
    } else {
        AdminCmd::Unknown(raw)
    }
}

impl AdminCmd {
    /// What an entry of the admin submission queue asks for, or why it cannot
    /// be told.
    pub open spec fn spec_parse(raw: SubmissionQueueEntry) -> Result<AdminCmd, ParseErr> {
        match fuse_check(raw) {
            Ok(_) => Ok(admin_cmd_of(raw)),
            Err(e) => Err(e),
        }
    }

    /// Parses an entry of the admin submission queue.
    pub fn parse(raw: SubmissionQueueEntry) -> (r: Result<AdminCmd, ParseErr>)
        ensures
            r == Self::spec_parse(raw),
    {
        let opc: u8 = raw.opcode();
        let cmd: AdminCmd = if opc == ADMIN_OPC_DELETE_IO_SQ {
            AdminCmd::DeleteIOSubQ((raw.cdw10 % 0x1_0000) as u16)
        } else if opc == ADMIN_OPC_CREATE_IO_SQ {
            AdminCmd::CreateIOSubQ(
                CreateIOSQCmd {
                    prp: raw.prp1,
                    // The field is one less than the size
                    qsize: raw.cdw10 / 0x1_0000 + 1,
                    qid: (raw.cdw10 % 0x1_0000) as u16,
                    cqid: (raw.cdw11 / 0x1_0000) as u16,
                    queue_prio: QueuePriority::from_raw((raw.cdw11 / 2) % 4),
                    phys_contig: raw.cdw11 % 2 == 1,
                },
            )
        } else if opc == ADMIN_OPC_GET_LOG_PAGE {
            AdminCmd::GetLogPage(
                GetLogPageCmd {
                    nsid: raw.nsid,
                    // The field is one less than the number of dwords
                    len: ((raw.cdw10 / 0x1_0000) % 0x1000 + 1) * 4,
                    log_page_ident: LogPageIdent::from((raw.cdw10 % 0x100) as u8),
                    prp1: raw.prp1,
                    prp2: raw.prp2,
                },
            )
        } else if opc == ADMIN_OPC_DELETE_IO_CQ {
            AdminCmd::DeleteIOCompQ((raw.cdw10 % 0x1_0000) as u16)
        } else if opc == ADMIN_OPC_CREATE_IO_CQ {
            AdminCmd::CreateIOCompQ(
                CreateIOCQCmd {
                    prp: raw.prp1,
                    // The field is one less than the size
                    qsize: raw.cdw10 / 0x1_0000 + 1,
                    qid: (raw.cdw10 % 0x1_0000) as u16,
                    intr_vector: (raw.cdw11 / 0x1_0000) as u16,
                    intr_enable: (raw.cdw11 / 2) % 2 == 1,
                    phys_contig: raw.cdw11 % 2 == 1,
                },
            )
        } else if opc == ADMIN_OPC_IDENTIFY {
            AdminCmd::Identify(
                IdentifyCmd {
                    cns: (raw.cdw10 % 2) as u8,
                    nsid: raw.nsid,
                    prp1: raw.prp1,
                    prp2: raw.prp2,
                },
            )
        } else if opc == ADMIN_OPC_ABORT {
            AdminCmd::Abort(
                AbortCmd {
                    cid: (raw.cdw10 / 0x1_0000) as u16,
                    sqid: (raw.cdw10 % 0x1_0000) as u16,
                },
            )
        } else if opc == ADMIN_OPC_SET_FEATURES {
            AdminCmd::SetFeatures(
                SetFeaturesCmd {
                    fid: FeatureIdent::from((raw.cdw10 % 0x100) as u8),
                    cdw11: raw.cdw11,
                },
            )
        } else if opc == ADMIN_OPC_GET_FEATURES {
            AdminCmd::GetFeatures(
                GetFeaturesCmd {
                    fid: FeatureIdent::from((raw.cdw10 % 0x100) as u8),
                    cdw11: raw.cdw11,
                },
            )
        } else if opc == ADMIN_OPC_ASYNC_EVENT_REQ {
            AdminCmd::AsyncEventReq
        } else if opc == ADMIN_OPC_DOORBELL_BUF_CFG {
            AdminCmd::DoorbellBufCfg(
                DoorbellBufCfgCmd { shadow_doorbell_buffer: raw.prp1, eventidx_buffer: raw.prp2 },
            )
        } else {
            AdminCmd::Unknown(raw)
        };
        match check_fuse(&raw) {
            Err(e) => Err(e),
            Ok(()) => Ok(cmd),
        }
    }
}

/// The temperature threshold feature.
#[derive(Clone, Copy, Debug, Default, PartialEq, Eq, Structural)]
pub struct FeatTemperatureThreshold(pub u32);

impl FeatTemperatureThreshold {
    /// The threshold, in Kelvin.
    pub open spec fn spec_tmpth(self) -> u16 {
        field(self.0 as int, 1, 0x10000) as u16
    }

    /// The threshold, in Kelvin.
    pub fn tmpth(&self) -> (r: u16)
        ensures
            r == self.spec_tmpth(),
            r < 0x10000,
    {
        get_field(self.0 as u64, 1, 0x10000) as u16
    }

    /// This register with `v` in place of that field.
    pub open spec fn spec_with_tmpth(self, v: u16) -> FeatTemperatureThreshold {
        FeatTemperatureThreshold(with_field(self.0 as int, 1, 0x10000, (v as int % 0x10000)) as u32)
    }

    /// Sets that field to `v`.
    pub fn set_tmpth(&mut self, v: u16)
        ensures
            *final(self) == old(self).spec_with_tmpth(v),
            final(self).0 == with_field(old(self).0 as int, 1, 0x10000, (v as int % 0x10000)),
    {
        self.0 = set_field(self.0 as u64, 1, 0x10000, v as u64, Ghost(0x1_0000_0000)) as u32;
    }

    /// This register with `v` in place of that field.
    pub fn with_tmpth(self, v: u16) -> (r: FeatTemperatureThreshold)
        ensures
            r == self.spec_with_tmpth(v),
    {
        let mut r: FeatTemperatureThreshold = self;
        r.set_tmpth(v);
        r
    }

    /// What the threshold applies to.
    pub open spec fn spec_tmpsel(self) -> ThresholdTemperatureSelect {
        ThresholdTemperatureSelect::spec_from_raw(field(self.0 as int, 0x10000, 0x10) as u8)
    }

    /// What the threshold applies to.
    pub fn tmpsel(&self) -> (r: ThresholdTemperatureSelect)
        ensures
            r == self.spec_tmpsel(),
    {
        ThresholdTemperatureSelect::from_raw(get_field(self.0 as u64, 0x10000, 0x10) as u8)
    }

    /// This register with `v` in place of that field.
    pub open spec fn spec_with_tmpsel(self, v: ThresholdTemperatureSelect) -> FeatTemperatureThreshold {
        FeatTemperatureThreshold(with_field(self.0 as int, 0x10000, 0x10, (v.spec_into_raw() as int % 0x10)) as u32)
    }

    /// Sets that field to `v`.
    pub fn set_tmpsel(&mut self, v: ThresholdTemperatureSelect)
        ensures
            *final(self) == old(self).spec_with_tmpsel(v),
            final(self).0 == with_field(old(self).0 as int, 0x10000, 0x10, (v.spec_into_raw() as int % 0x10)),
    {
        self.0 = set_field(self.0 as u64, 0x10000, 0x10, v.into_raw() as u64, Ghost(0x1_0000_0000)) as u32;
    }

    /// This register with `v` in place of that field.
    pub fn with_tmpsel(self, v: ThresholdTemperatureSelect) -> (r: FeatTemperatureThreshold)
        ensures
            r == self.spec_with_tmpsel(v),
    {
        let mut r: FeatTemperatureThreshold = self;
        r.set_tmpsel(v);
        r
    }

    /// Whether the threshold is an upper or a lower one.
    pub open spec fn spec_thsel(self) -> ThresholdTypeSelect {
        ThresholdTypeSelect::spec_from_raw(field(self.0 as int, 0x100000, 0x4) as u8)
    }

    /// Whether the threshold is an upper or a lower one.
    pub fn thsel(&self) -> (r: ThresholdTypeSelect)
        ensures
            r == self.spec_thsel(),
    {
        ThresholdTypeSelect::from_raw(get_field(self.0 as u64, 0x100000, 0x4) as u8)
    }

    /// This register with `v` in place of that field.
    pub open spec fn spec_with_thsel(self, v: ThresholdTypeSelect) -> FeatTemperatureThreshold {
        FeatTemperatureThreshold(with_field(self.0 as int, 0x100000, 0x4, (v.spec_into_raw() as int % 0x4)) as u32)
    }

    /// Sets that field to `v`.
    pub fn set_thsel(&mut self, v: ThresholdTypeSelect)
        ensures
            *final(self) == old(self).spec_with_thsel(v),
            final(self).0 == with_field(old(self).0 as int, 0x100000, 0x4, (v.spec_into_raw() as int % 0x4)),
    {
        self.0 = set_field(self.0 as u64, 0x100000, 0x4, v.into_raw() as u64, Ghost(0x1_0000_0000)) as u32;
    }

    /// This register with `v` in place of that field.
    pub fn with_thsel(self, v: ThresholdTypeSelect) -> (r: FeatTemperatureThreshold)
        ensures
            r == self.spec_with_thsel(v),
    {
        let mut r: FeatTemperatureThreshold = self;
        r.set_thsel(v);
        r
    }

}

/// What a temperature threshold applies to.
#[derive(Clone, Copy, Debug, PartialEq, Eq, Structural)]
pub enum ThresholdTemperatureSelect {
    Composite,
    Sensor1,
    Sensor2,
    Sensor3,
    Sensor4,
    Sensor5,
    Sensor6,
    Sensor7,
    Sensor8,
    Reserved(u8),
    All,
}

impl ThresholdTemperatureSelect {
    /// The value that a field holding `raw` stands for.
    pub open spec fn spec_from_raw(raw: u8) -> ThresholdTemperatureSelect {
        if raw == 0 {
            ThresholdTemperatureSelect::Composite
        } else if raw == 1 {
            ThresholdTemperatureSelect::Sensor1
        } else if raw == 2 {
            ThresholdTemperatureSelect::Sensor2
        } else if raw == 3 {
            ThresholdTemperatureSelect::Sensor3
        } else if raw == 4 {
            ThresholdTemperatureSelect::Sensor4
        } else if raw == 5 {
            ThresholdTemperatureSelect::Sensor5
        } else if raw == 6 {
            ThresholdTemperatureSelect::Sensor6
        } else if raw == 7 {
            ThresholdTemperatureSelect::Sensor7
        } else if raw == 8 {
            ThresholdTemperatureSelect::Sensor8
        } else if raw == 15 {
            ThresholdTemperatureSelect::All
        } else {
            ThresholdTemperatureSelect::Reserved(raw)
        }
    }

    /// The value that a field holding `raw` stands for.
    pub fn from_raw(raw: u8) -> (r: ThresholdTemperatureSelect)
        requires
            raw < 16,
        ensures
            r == Self::spec_from_raw(raw),
    {
        if raw == 0 {
            ThresholdTemperatureSelect::Composite
        } else if raw == 1 {
            ThresholdTemperatureSelect::Sensor1
        } else if raw == 2 {
            ThresholdTemperatureSelect::Sensor2
        } else if raw == 3 {
            ThresholdTemperatureSelect::Sensor3
        } else if raw == 4 {
            ThresholdTemperatureSelect::Sensor4
        } else if raw == 5 {
            ThresholdTemperatureSelect::Sensor5
        } else if raw == 6 {
            ThresholdTemperatureSelect::Sensor6
        } else if raw == 7 {
            ThresholdTemperatureSelect::Sensor7
        } else if raw == 8 {
            ThresholdTemperatureSelect::Sensor8
        } else if raw == 15 {
            ThresholdTemperatureSelect::All
        } else {
            ThresholdTemperatureSelect::Reserved(raw)
        }
    }

    /// The value of the field for this choice.
    pub open spec fn spec_into_raw(self) -> u8 {
        match self {
            ThresholdTemperatureSelect::Composite => 0,
            ThresholdTemperatureSelect::Sensor1 => 1,
            ThresholdTemperatureSelect::Sensor2 => 2,
            ThresholdTemperatureSelect::Sensor3 => 3,
            ThresholdTemperatureSelect::Sensor4 => 4,
            ThresholdTemperatureSelect::Sensor5 => 5,
            ThresholdTemperatureSelect::Sensor6 => 6,
            ThresholdTemperatureSelect::Sensor7 => 7,
            ThresholdTemperatureSelect::Sensor8 => 8,
            ThresholdTemperatureSelect::Reserved(raw) => raw,
            ThresholdTemperatureSelect::All => 15,
        }
    }

    /// The value of the field for this choice.
    pub fn into_raw(self) -> (r: u8)
        ensures
            r == self.spec_into_raw(),
    {
        match self {
            ThresholdTemperatureSelect::Composite => 0,
            ThresholdTemperatureSelect::Sensor1 => 1,
            ThresholdTemperatureSelect::Sensor2 => 2,
            ThresholdTemperatureSelect::Sensor3 => 3,
            ThresholdTemperatureSelect::Sensor4 => 4,
            ThresholdTemperatureSelect::Sensor5 => 5,
            ThresholdTemperatureSelect::Sensor6 => 6,
            ThresholdTemperatureSelect::Sensor7 => 7,
            ThresholdTemperatureSelect::Sensor8 => 8,
            ThresholdTemperatureSelect::Reserved(raw) => raw,
            ThresholdTemperatureSelect::All => 15,
        }
    }
}

/// Every value of the field stands for a choice whose value it is.
pub proof fn law_threshold_temperature_select_round_trip(raw: u8)
    requires
        raw < 16,
    ensures
        ThresholdTemperatureSelect::spec_from_raw(raw).spec_into_raw() == raw,
{
}

/// Whether a threshold is an upper or a lower one.
#[derive(Clone, Copy, Debug, PartialEq, Eq, Structural)]
pub enum ThresholdTypeSelect {
    Over,
    Under,
    Reserved(u8),
}

impl ThresholdTypeSelect {
    /// The value that a field holding `raw` stands for.
    pub open spec fn spec_from_raw(raw: u8) -> ThresholdTypeSelect {
        if raw == 0 {
            ThresholdTypeSelect::Over
        } else if raw == 1 {
            ThresholdTypeSelect::Under
        } else {
            ThresholdTypeSelect::Reserved(raw)
        }
    }

    /// The value that a field holding `raw` stands for.
    pub fn from_raw(raw: u8) -> (r: ThresholdTypeSelect)
        requires
            raw < 4,
        ensures
            r == Self::spec_from_raw(raw),
    {
        if raw == 0 {
            ThresholdTypeSelect::Over
        } else if raw == 1 {
            ThresholdTypeSelect::Under
        } else {
            ThresholdTypeSelect::Reserved(raw)
        }
    }

    /// The value of the field for this choice.
    pub open spec fn spec_into_raw(self) -> u8 {
        match self {
            ThresholdTypeSelect::Over => 0,
            ThresholdTypeSelect::Under => 1,
            ThresholdTypeSelect::Reserved(raw) => raw,
        }
    }

    /// The value of the field for this choice.
    pub fn into_raw(self) -> (r: u8)
        ensures
            r == self.spec_into_raw(),
    {
        match self {
            ThresholdTypeSelect::Over => 0,
            ThresholdTypeSelect::Under => 1,
            ThresholdTypeSelect::Reserved(raw) => raw,
        }
    }
}

/// Every value of the field stands for a choice whose value it is.
pub proof fn law_threshold_type_select_round_trip(raw: u8)
    requires
        raw < 4,
    ensures
        ThresholdTypeSelect::spec_from_raw(raw).spec_into_raw() == raw,
{
}

/// The volatile write cache feature.
#[derive(Clone, Copy, Debug, PartialEq, Eq, Structural)]
pub struct FeatVolatileWriteCache {
    /// Whether the cache is enabled.
    pub wce: bool,
}

impl FeatVolatileWriteCache {
    /// The dword that describes the feature.
    pub open spec fn spec_to_dword(self) -> u32 {
        if self.wce {
            1
        } else {
            0
        }
    }

    /// The feature that a dword describes.
    pub open spec fn spec_from_dword(v: u32) -> FeatVolatileWriteCache {
        FeatVolatileWriteCache { wce: v % 2 == 1 }
    }

    /// The feature that a dword describes.
    pub fn from_dword(v: u32) -> (r: FeatVolatileWriteCache)
        ensures
            r == Self::spec_from_dword(v),
    {
        FeatVolatileWriteCache { wce: v % 2 == 1 }
    }

    /// The dword that describes the feature.
    pub fn to_dword(self) -> (r: u32)
        ensures
            r == self.spec_to_dword(),
    {
        if self.wce {
            1
        } else {
            0
        }
    }
}

/// The number of queues feature.
#[derive(Clone, Copy, Debug, PartialEq, Eq, Structural)]
pub struct FeatNumberQueues {
    /// Number of I/O completion queues.
    pub ncq: u16,
    /// Number of I/O submission queues.
    pub nsq: u16,
}

impl FeatNumberQueues {
    /// The feature that a dword describes, unless one of the numbers would
    /// exceed 65535.
    pub open spec fn spec_from_dword(v: u32) -> Result<FeatNumberQueues, ()> {
        if hi16(v) == 0xffff || lo16(v) == 0xffff {
            Err(())
        } else {
            Ok(FeatNumberQueues { ncq: (hi16(v) + 1) as u16, nsq: (lo16(v) + 1) as u16 })
        }
    }

    /// The dword that describes the feature, with numbers that are one less.
    pub open spec fn spec_to_dword(self) -> u32 {
        let c = if self.ncq == 0 {
            0int
        } else {
            self.ncq - 1
        };
        let s = if self.nsq == 0 {
            0int
        } else {
            self.nsq - 1
        };
        (c * 0x1_0000 + s) as u32
    }

    /// The feature that a dword describes.
    pub fn from_dword(v: u32) -> (r: Result<FeatNumberQueues, ()>)
        ensures
            r == Self::spec_from_dword(v),
    {
        let ncqr: u16 = (v / 0x1_0000) as u16;
        let nsqr: u16 = (v % 0x1_0000) as u16;
        if ncqr == u16::MAX || nsqr == u16::MAX {
            Err(())
        } else {
            Ok(FeatNumberQueues { ncq: ncqr + 1, nsq: nsqr + 1 })
        }
    }

    /// The dword that describes the feature.
    pub fn to_dword(self) -> (r: u32)
        ensures
            r == self.spec_to_dword(),
    {
        self.ncq.saturating_sub(1) as u32 * 0x1_0000 + self.nsq.saturating_sub(1) as u32
    }
}

/// The interrupt vector configuration feature.
#[derive(Clone, Copy, Debug, PartialEq, Eq, Structural)]
pub struct FeatInterruptVectorConfig {
    /// The interrupt vector.
    pub iv: u16,
    /// Whether coalescing is disabled for it.
    pub cd: bool,
}

impl FeatInterruptVectorConfig {
    /// The feature that a dword describes.
    pub open spec fn spec_from_dword(v: u32) -> FeatInterruptVectorConfig {
        FeatInterruptVectorConfig { iv: lo16(v), cd: hi16(v) % 2 == 1 }
    }

    /// The dword that describes the feature.
    pub open spec fn spec_to_dword(self) -> u32 {
        (self.iv + if self.cd {
            0x1_0000int
        } else {
            0
        }) as u32
    }

    /// The feature that a dword describes.
    pub fn from_dword(v: u32) -> (r: FeatInterruptVectorConfig)
        ensures
            r == Self::spec_from_dword(v),
    {
        FeatInterruptVectorConfig {
            iv: (v % 0x1_0000) as u16,
            cd: ((v / 0x1_0000) as u16) % 2 == 1,
        }
    }

    /// The dword that describes the feature.
    pub fn to_dword(self) -> (r: u32)
        ensures
            r == self.spec_to_dword(),
    {
        self.iv as u32 + if self.cd {
            0x1_0000
        } else {
            0
        }
    }
}

/// The dwords of features describe them in full.
pub proof fn law_features_round_trip(
    c: FeatVolatileWriteCache,
    q: FeatNumberQueues,
    i: FeatInterruptVectorConfig,
)
    requires
        0 < q.ncq,
        0 < q.nsq,
    ensures
        FeatVolatileWriteCache::spec_from_dword(c.spec_to_dword()) == c,
        FeatNumberQueues::spec_from_dword(q.spec_to_dword()) == Ok::<FeatNumberQueues, ()>(q),
        FeatInterruptVectorConfig::spec_from_dword(i.spec_to_dword()) == i,
{
}

/// A parsed NVM command.
#[derive(Clone, Copy, Debug, PartialEq, Eq, Structural)]
pub enum NvmCmd {
    Flush,
    Write(WriteCmd),
    Read(ReadCmd),
    Unknown(SubmissionQueueEntry),
}

/// Write.
#[derive(Clone, Copy, Debug, PartialEq, Eq, Structural)]
pub struct WriteCmd {
    /// The first logical block.
    pub slba: u64,
    /// The number of logical blocks.
    pub nlb: u32,
    pub prp1: u64,
    pub prp2: u64,
}

/// Read.
#[derive(Clone, Copy, Debug, PartialEq, Eq, Structural)]
pub struct ReadCmd {
    /// The first logical block.
    pub slba: u64,
    /// The number of logical blocks.
    pub nlb: u32,
    pub prp1: u64,
    pub prp2: u64,
}

/// The first logical block that a read or write names.
pub open spec fn slba_of(raw: SubmissionQueueEntry) -> u64 {
    (raw.cdw11 * 0x1_0000_0000 + raw.cdw10) as u64
}

/// The number of logical blocks that a read or write names.
pub open spec fn nlb_of(raw: SubmissionQueueEntry) -> u32 {
    (lo16(raw.cdw12) + 1) as u32
}

impl NvmCmd {
    /// What an entry of an I/O submission queue asks for, or why it cannot be
    /// told.
    pub open spec fn spec_parse(raw: SubmissionQueueEntry) -> Result<NvmCmd, ParseErr> {
        match fuse_check(raw) {
            Ok(_) => if raw.spec_opcode() == NVM_OPC_FLUSH {
                Ok(NvmCmd::Flush)
            } else if raw.spec_opcode() == NVM_OPC_WRITE {
                Ok(
                    NvmCmd::Write(
                        WriteCmd {
                            slba: slba_of(raw),
                            nlb: nlb_of(raw),
                            prp1: raw.prp1,
                            prp2: raw.prp2,
                        },
                    ),
                )
            } else if raw.spec_opcode() == NVM_OPC_READ {
                Ok(
                    NvmCmd::Read(
                        ReadCmd {
                            slba: slba_of(raw),
                            nlb: nlb_of(raw),
                            prp1: raw.prp1,
                            prp2: raw.prp2,
                        },
                    ),
                )
            } else {
                Ok(NvmCmd::Unknown(raw))
            },
            Err(e) => Err(e),
        }
    }

    /// Parses an entry of an I/O submission queue.
    pub fn parse(raw: SubmissionQueueEntry) -> (r: Result<NvmCmd, ParseErr>)
        ensures
            r == Self::spec_parse(raw),
    {
        match check_fuse(&raw) {
            Err(e) => {
                return Err(e);
            },
            Ok(()) => {},
        }
        let opc: u8 = raw.opcode();
        let slba: u64 = raw.cdw11 as u64 * 0x1_0000_0000 + raw.cdw10 as u64;
        // The field is one less than the number of blocks
        let nlb: u32 = raw.cdw12 % 0x1_0000 + 1;
        if opc == NVM_OPC_FLUSH {
            Ok(NvmCmd::Flush)
        } else if opc == NVM_OPC_WRITE {
            Ok(NvmCmd::Write(WriteCmd { slba, nlb, prp1: raw.prp1, prp2: raw.prp2 }))
        } else if opc == NVM_OPC_READ {
            Ok(NvmCmd::Read(ReadCmd { slba, nlb, prp1: raw.prp1, prp2: raw.prp2 }))
        } else {
            Ok(NvmCmd::Unknown(raw))
        }
    }
}

impl WriteCmd {
    /// The guest memory that the data is to be taken from.
    pub fn data<'a>(&self, sz: u64, mem: &'a MemCtx) -> (r: PrpIter<'a>)
        requires
            self.prp1 % 4 == 0,
            self.prp2 % 4 == 0,
        ensures
            r@ == PrpView::spec_new(sz, self.prp1, self.prp2),
            r.mem == mem,
            r.wf(),
    {
        PrpIter::new(sz, self.prp1, self.prp2, mem)
    }
}

impl ReadCmd {
    /// The guest memory that the data is to be written to.
    pub fn data<'a>(&self, sz: u64, mem: &'a MemCtx) -> (r: PrpIter<'a>)
        requires
            self.prp1 % 4 == 0,
            self.prp2 % 4 == 0,
        ensures
            r@ == PrpView::spec_new(sz, self.prp1, self.prp2),
            r.mem == mem,
            r.wf(),
    {
        PrpIter::new(sz, self.prp1, self.prp2, mem)
    }
}

// ---------------------------------------------------------------------------
// Physical region pages
// ---------------------------------------------------------------------------

/// Where the next physical region page (PRP) entry is found.
#[derive(Clone, Copy, Debug, PartialEq, Eq, Structural)]
pub enum PrpNext {
    /// It is the first one of the command.
    Prp1,
    /// It is the second one of the command.
    Prp2,
    /// It is in the list at that page, at that index.
    List(u64, u16),
    /// There is none.
    Done,
}

/// Why a PRP entry cannot be used.
#[derive(Clone, Copy, Debug, PartialEq, Eq, Structural)]
pub enum PrpError {
    /// The second entry points to a list, and is not a multiple of 8.
    ListMisaligned,
    /// The second entry is not the address of a page.
    Prp2Offset,
    /// The entry of a list cannot be read.
    ListUnreadable,
    /// The entry of a list is not the address of a page.
    ListEntryOffset,
}

/// The last index in a page of PRP entries.
pub const PRP_LIST_MAX: u16 = 511;

/// The state of the walk over the PRP entries of a command.
pub struct PrpView {
    pub prp1: u64,
    pub prp2: u64,
    pub remain: u64,
    pub next: PrpNext,
    pub error: Option<PrpError>,
}

/// The entry at index `idx` of the list at `base`, or why it cannot be used.
pub open spec fn prp_list_entry(base: u64, idx: u16, mem: MemView) -> Result<u64, PrpError> {
    let addr = GuestAddr((base + idx * 8) as u64);
    if !mem.covers(addr, 8) {
        Err(PrpError::ListUnreadable)
    } else if val64(mem.at(addr, 8)) % PAGE_SIZE != 0 {
        Err(PrpError::ListEntryOffset)
    } else {
        Ok(val64(mem.at(addr, 8)))
    }
}

impl PrpView {
    /// The start of a walk.
    pub open spec fn spec_new(size: u64, prp1: u64, prp2: u64) -> PrpView {
        PrpView { prp1, prp2, remain: size, next: PrpNext::Prp1, error: None }
    }

    /// The invariant of the walk.
    pub open spec fn wf(self) -> bool {
        match self.next {
            PrpNext::Prp1 => true,
            PrpNext::Prp2 => self.remain <= PAGE_SIZE,
            PrpNext::List(base, idx) => base % PAGE_SIZE == 0 && idx <= PRP_LIST_MAX,
            PrpNext::Done => self.remain == 0,
        }
    }

    /// How much of the data the first entry covers: what is left of its page.
    pub open spec fn first_len(self) -> int {
        let page_rest = PAGE_SIZE - self.prp1 % PAGE_SIZE;
        if page_rest < self.remain {
            page_rest
        } else {
            self.remain as int
        }
    }

    /// The next region, with its start, its length and where the entry after it
    /// is found, or why there is none.
    pub open spec fn step(self, mem: MemView) -> Result<(u64, int, PrpNext), PrpError> {
        match self.next {
            PrpNext::Prp1 => {
                let after = self.remain - self.first_len();
                if after == 0 {
                    Ok((self.prp1, self.first_len(), PrpNext::Done))
                } else if after <= PAGE_SIZE {
                    Ok((self.prp1, self.first_len(), PrpNext::Prp2))
                } else if self.prp2 % 8 != 0 {
                    Err(PrpError::ListMisaligned)
                } else {
                    Ok(
                        (
                            self.prp1,
                            self.first_len(),
                            PrpNext::List(
                                (self.prp2 - self.prp2 % PAGE_SIZE) as u64,
                                ((self.prp2 % PAGE_SIZE) / 8) as u16,
                            ),
                        ),
                    )
                }
            },
            PrpNext::Prp2 => if self.prp2 % PAGE_SIZE != 0 {
                Err(PrpError::Prp2Offset)
            } else {
                Ok((self.prp2, self.remain as int, PrpNext::Done))
            },
            PrpNext::List(base, idx) => match prp_list_entry(base, idx, mem) {
                Err(e) => Err(e),
                Ok(entry) => if self.remain <= PAGE_SIZE {
                    Ok((entry, self.remain as int, PrpNext::Done))
                } else if idx != PRP_LIST_MAX {
                    Ok((entry, PAGE_SIZE as int, PrpNext::List(base, (idx + 1) as u16)))
                } else {
                    // The last entry of a page of the list leads to the next page
                    match prp_list_entry(entry, 0, mem) {
                        Err(e) => Err(e),
                        Ok(entry2) => Ok((entry2, PAGE_SIZE as int, PrpNext::List(entry, 1))),
                    }
                },
            },
            PrpNext::Done => arbitrary(),
        }
    }

    /// The walk after a step, and the region that the step gave.
    pub open spec fn after_step(self, mem: MemView) -> (PrpView, Option<GuestRegion>) {
        if self.remain == 0 || self.error is Some {
            (self, None)
        } else {
            match self.step(mem) {
                Ok((addr, len, next)) => (
                    PrpView { remain: (self.remain - len) as u64, next, ..self },
                    Some(GuestRegion(GuestAddr(addr), len as u64)),
                ),
                Err(e) => (PrpView { error: Some(e), ..self }, None),
            }
        }
    }

    /// The regions that the rest of the walk gives.
    pub open spec fn regions(self, mem: MemView) -> Seq<GuestRegion>
        decreases self.remain,
        when self.wf()
        via PrpView::regions_end
    {
        let (rest, got) = self.after_step(mem);
        match got {
            None => Seq::empty(),
            Some(r) => seq![r] + rest.regions(mem),
        }
    }

    /// Whether the walk ends without an error.
    pub open spec fn clean(self, mem: MemView) -> bool
        decreases self.remain,
        when self.wf()
        via PrpView::clean_ends
    {
        if self.remain == 0 || self.error is Some {
            self.error is None
        } else {
            let (rest, got) = self.after_step(mem);
            got is Some && rest.clean(mem)
        }
    }

    #[via_fn]
    proof fn regions_end(self, mem: MemView) {
        lemma_step(self, mem);
    }

    #[via_fn]
    proof fn clean_ends(self, mem: MemView) {
        lemma_step(self, mem);
    }
}

/// A step gives a part of one page of what remains, and ends the walk exactly
/// when nothing remains.
pub proof fn lemma_step(p: PrpView, mem: MemView)
    requires
        p.wf(),
    ensures
        p.remain > 0 ==> (p.step(mem) matches Ok(t) ==> {
            &&& 0 < t.1 <= p.remain
            &&& t.1 <= PAGE_SIZE - t.0 % PAGE_SIZE
            &&& (p.next !is Prp1 ==> t.0 % PAGE_SIZE == 0)
            &&& (t.2 !is Done ==> t.0 % PAGE_SIZE + t.1 == PAGE_SIZE)
        }),
        ({
            let (rest, got) = p.after_step(mem);
            &&& rest.remain <= p.remain
            &&& got is Some ==> rest.remain < p.remain && rest.wf()
            &&& got is None && p.error is None && p.remain > 0 ==> rest.error is Some
        }),
{
}

/// The number of bytes in a sequence of regions.
pub open spec fn total_len(s: Seq<GuestRegion>) -> int
    decreases s.len(),
{
    if s.len() == 0 {
        0
    } else {
        total_len(s.drop_last()) + s.last().1
    }
}

/// The number of bytes of two sequences of regions is the sum of theirs.
pub proof fn lemma_total_len_concat(a: Seq<GuestRegion>, b: Seq<GuestRegion>)
    ensures
        total_len(a + b) == total_len(a) + total_len(b),
    decreases b.len(),
{
    if b.len() == 0 {
        assert(a + b =~= a);
    } else {
        assert((a + b).drop_last() =~= a + b.drop_last());
        lemma_total_len_concat(a, b.drop_last());
    }
}

/// The regions of a walk without errors hold exactly the data of the command.
/// Those of any walk hold no more. Each lies within one page, all but the first
/// one start at a page, and all but the last one reach to the end of theirs.
pub proof fn law_prp_regions(p: PrpView, mem: MemView)
    requires
        p.wf(),
        p.error is None,
    ensures
        total_len(p.regions(mem)) <= p.remain,
        total_len(p.regions(mem)) == p.remain <==> p.clean(mem),
        forall|i: int|
            0 <= i < p.regions(mem).len() ==> {
                let r = #[trigger] p.regions(mem)[i];
                &&& 0 < r.1
                &&& r.0.0 % PAGE_SIZE + r.1 <= PAGE_SIZE
                &&& (i > 0 || p.next !is Prp1 ==> r.0.0 % PAGE_SIZE == 0)
                &&& (i < p.regions(mem).len() - 1 ==> r.0.0 % PAGE_SIZE + r.1 == PAGE_SIZE)
            },
    decreases p.remain,
{
    lemma_step(p, mem);
    let (rest, got) = p.after_step(mem);
    if p.remain > 0 {
        match got {
            None => {},
            Some(r) => {
                law_prp_regions(rest, mem);
                lemma_total_len_concat(seq![r], rest.regions(mem));
                assert(seq![r].drop_last() =~= Seq::empty());
                assert(total_len(seq![r]) == r.1) by {
                    reveal_with_fuel(total_len, 2);
                }
                assert forall|i: int| 0 <= i < p.regions(mem).len() implies {
                    let x = #[trigger] p.regions(mem)[i];
                    &&& 0 < x.1
                    &&& x.0.0 % PAGE_SIZE + x.1 <= PAGE_SIZE
                    &&& (i > 0 || p.next !is Prp1 ==> x.0.0 % PAGE_SIZE == 0)
                    &&& (i < p.regions(mem).len() - 1 ==> x.0.0 % PAGE_SIZE + x.1 == PAGE_SIZE)
                } by {
                    if i > 0 {
                        assert(p.regions(mem)[i] == rest.regions(mem)[i - 1]);
                    } else if p.regions(mem).len() > 1 {
                        assert(rest.regions(mem).len() > 0);
                        assert(rest.remain > 0);
                        assert(rest.next !is Done);
                    }
                }
            },
        }
    }
}

/// A walk over the PRP entries of a command.
pub struct PrpIter<'a> {
    pub prp1: u64,
    pub prp2: u64,
    pub mem: &'a MemCtx,
    /// The number of bytes left.
    pub remain: u64,
    pub next: PrpNext,
    pub error: Option<PrpError>,
}

impl<'a> View for PrpIter<'a> {
    type V = PrpView;

    open spec fn view(&self) -> PrpView {
        PrpView {
            prp1: self.prp1,
            prp2: self.prp2,
            remain: self.remain,
            next: self.next,
            error: self.error,
        }
    }
}

impl<'a> PrpIter<'a> {
    /// The invariant of the walk.
    pub open spec fn wf(&self) -> bool {
        self@.wf()
    }

    /// Starts the walk over `size` bytes. Both entries must be multiples of 4.
    pub fn new(size: u64, prp1: u64, prp2: u64, mem: &'a MemCtx) -> (r: PrpIter<'a>)
        requires
            prp1 % 4 == 0,
            prp2 % 4 == 0,
        ensures
            r@ == PrpView::spec_new(size, prp1, prp2),
            r.mem == mem,
            r.wf(),
    {
        PrpIter { prp1, prp2, mem, remain: size, next: PrpNext::Prp1, error: None }
    }

    fn list_entry(&self, base: u64, idx: u16) -> (r: Result<u64, PrpError>)
        requires
            base % PAGE_SIZE == 0,
            idx <= PRP_LIST_MAX,
        ensures
            r == prp_list_entry(base, idx, self.mem@),
    {
        match self.mem.read_u64(GuestAddr(base + idx as u64 * 8)) {
            None => Err(PrpError::ListUnreadable),
            Some(entry) => if entry % PAGE_SIZE != 0 {
                Err(PrpError::ListEntryOffset)
            } else {
                Ok(entry)
            },
        }
    }

    /// Finds the next region.
    fn get_next(&mut self) -> (r: Result<GuestRegion, PrpError>)
        requires
            old(self).wf(),
            old(self)@.remain > 0,
            old(self)@.error is None,
        ensures
            final(self).mem == old(self).mem,
            match old(self)@.step(old(self).mem@) {
                Ok(t) => r == Ok::<GuestRegion, PrpError>(
                    GuestRegion(GuestAddr(t.0), t.1 as u64),
                ) && final(self)@ == (PrpView {
                    remain: (old(self)@.remain - t.1) as u64,
                    next: t.2,
                    ..old(self)@
                }),
                Err(e) => r == Err::<GuestRegion, PrpError>(e) && final(self)@ == old(self)@,
            },
    {
        let (addr, size, next): (u64, u64, PrpNext) = match self.next {
            PrpNext::Prp1 => {
                // The first entry may point into the middle of a page.
                let page_rest: u64 = PAGE_SIZE - self.prp1 % PAGE_SIZE;
                let size: u64 = if page_rest < self.remain {
                    page_rest
                } else {
                    self.remain
                };
                let after: u64 = self.remain - size;
                let next: PrpNext = if after == 0 {
                    PrpNext::Done
                } else if after <= PAGE_SIZE {
                    PrpNext::Prp2
                } else {
                    // A list may start in the middle of a page, but may not
                    // cross into the next one.
                    if self.prp2 % 8 != 0 {
                        return Err(PrpError::ListMisaligned);
                    }
                    PrpNext::List(
                        self.prp2 - self.prp2 % PAGE_SIZE,
                        ((self.prp2 % PAGE_SIZE) / 8) as u16,
                    )
                };
                (self.prp1, size, next)
            },
            PrpNext::Prp2 => {
                if self.prp2 % PAGE_SIZE != 0 {
                    return Err(PrpError::Prp2Offset);
                }
                (self.prp2, self.remain, PrpNext::Done)
            },
            PrpNext::List(base, idx) => {
                match self.list_entry(base, idx) {
                    Err(e) => {
                        return Err(e);
                    },
                    Ok(entry) => {
                        if self.remain <= PAGE_SIZE {
                            (entry, self.remain, PrpNext::Done)
                        } else if idx != PRP_LIST_MAX {
                            (entry, PAGE_SIZE, PrpNext::List(base, idx + 1))
                        } else {
                            // The last entry of a page of the list leads to
                            // the next page of the list.
                            match self.list_entry(entry, 0) {
                                Err(e) => {
                                    return Err(e);
                                },
                                Ok(entry2) => (entry2, PAGE_SIZE, PrpNext::List(entry, 1)),
                            }
                        }
                    },
                }
            },
            PrpNext::Done => (0, 0, PrpNext::Done),
        };
        self.remain = self.remain - size;
        self.next = next;
        Ok(GuestRegion(GuestAddr(addr), size))
    }

    /// The next region, if there is one.
    pub fn next(&mut self) -> (r: Option<GuestRegion>)
        requires
            old(self).wf(),
        ensures
            (final(self)@, r) == old(self)@.after_step(old(self).mem@),
            final(self).mem == old(self).mem,
            final(self).wf(),
            r is Some ==> final(self)@.remain < old(self)@.remain,
    {
        proof {
            lemma_step(self@, self.mem@);
        }
        if self.remain == 0 || self.error.is_some() {
            return None;
        }
        match self.get_next() {
            Ok(res) => Some(res),
            Err(e) => {
                self.error = Some(e);
                None
            },
        }
    }

    /// All of the regions that are left.
    pub fn collect(self) -> (r: Vec<GuestRegion>)
        requires
            self.wf(),
        ensures
            r@ == self@.regions(self.mem@),
    {
        let mut it: PrpIter<'a> = self;
        let mut out: Vec<GuestRegion> = Vec::new();
        let mut more: bool = true;
        while more
            invariant
                it.wf(),
                it.mem == self.mem,
                more ==> self@.regions(self.mem@) == out@ + it@.regions(self.mem@),
                !more ==> self@.regions(self.mem@) == out@,
            decreases it@.remain, if more { 1int } else { 0 },
        {
            let ghost before = it@;
            match it.next() {
                None => {
                    assert(out@ + Seq::<GuestRegion>::empty() =~= out@);
                    more = false;
                },
                Some(r) => {
                    let ghost prefix = out@;
                    out.push(r);
                    assert(prefix + (seq![r] + it@.regions(self.mem@)) =~= out@ + it@.regions(
                        self.mem@,
                    ));
                },
            }
        }
        out
    }
}

// ---------------------------------------------------------------------------
// Completions
// ---------------------------------------------------------------------------

/// The result of a command.
#[derive(Clone, Copy, Debug, PartialEq, Eq, Structural)]
pub struct Completion {
    /// Status code type and status code, with room for the phase tag below.
    pub status: u16,
    /// Command specific result.
    pub dw0: u32,
}

/// The status that holds a status code and its type.
pub open spec fn status_of(sct: StatusCodeType, sc: u8) -> u16 {
    (sc * 2 + sct.spec_raw() * 0x200) as u16
}

/// The completion of a command that failed with that code.
pub open spec fn err_of(sct: StatusCodeType, sc: u8) -> Completion {
    Completion { dw0: 0, status: status_of(sct, sc) }
}

/// The completion of a command that failed with that generic code.
pub open spec fn gen_err(sc: u8) -> Completion {
    err_of(StatusCodeType::Generic, sc)
}

/// The completion of a command that failed with that code of its own.
pub open spec fn cmd_err(sc: u8) -> Completion {
    err_of(StatusCodeType::CmdSpecific, sc)
}

/// The completion of a command that succeeded with that result.
pub open spec fn ok_val(v: u32) -> Completion {
    Completion { dw0: v, status: 0 }
}

impl Completion {
    /// The status code.
    pub open spec fn sc(self) -> u8 {
        ((self.status / 2) % 0x100) as u8
    }

    /// The number of the status code type.
    pub open spec fn sct(self) -> u8 {
        ((self.status / 0x200) % 8) as u8
    }

    /// Whether a retry is pointless.
    pub open spec fn is_dnr(self) -> bool {
        self.status >= 0x8000
    }

    /// This completion, with the word that a retry is pointless.
    pub open spec fn spec_dnr(self) -> Completion {
        Completion { status: (self.status % 0x8000 + 0x8000) as u16, ..self }
    }

    /// The completion of a command that succeeded.
    pub fn success() -> (r: Completion)
        ensures
            r == ok_val(0),
    {
        Completion { dw0: 0, status: Self::status_field(StatusCodeType::Generic, STS_SUCCESS) }
    }

    /// The completion of a command that succeeded with a result.
    pub fn success_val(cdw0: u32) -> (r: Completion)
        ensures
            r == ok_val(cdw0),
    {
        Completion { dw0: cdw0, status: Self::status_field(StatusCodeType::Generic, STS_SUCCESS) }
    }

    /// The completion of a command that failed. The generic code for success
    /// is no error.
    pub fn specific_err(sct: StatusCodeType, status: u8) -> (r: Completion)
        requires
            !(sct == StatusCodeType::Generic && status == STS_SUCCESS),
        ensures
            r == err_of(sct, status),
    {
        Completion { dw0: 0, status: Self::status_field(sct, status) }
    }

    /// The completion of a command that failed with a generic code, which is
    /// not that for success.
    pub fn generic_err(status: u8) -> (r: Completion)
        requires
            status != STS_SUCCESS,
        ensures
            r == gen_err(status),
    {
        Completion { dw0: 0, status: Self::status_field(StatusCodeType::Generic, status) }
    }

    /// Adds to the completion of a failed command that a retry is pointless.
    pub fn dnr(self) -> (r: Completion)
        requires
            self.sc() != STS_SUCCESS,
        ensures
            r == self.spec_dnr(),
    {
        Completion { status: self.status % 0x8000 + 0x8000, dw0: self.dw0 }
    }

    fn status_field(sct: StatusCodeType, sc: u8) -> (r: u16)
        ensures
            r == status_of(sct, sc),
    {
        sc as u16 * 2 + sct.raw() as u16 * 0x200
    }
}

/// A status holds the code and the type that it was made of, leaves the place
/// of the phase tag alone, and keeps code and type when a retry is ruled out.
pub proof fn law_status_field(sct: StatusCodeType, sc: u8)
    ensures
        err_of(sct, sc).sc() == sc,
        err_of(sct, sc).sct() == sct.spec_raw(),
        !err_of(sct, sc).is_dnr(),
        err_of(sct, sc).status % 2 == 0,
        err_of(sct, sc).spec_dnr().sc() == sc,
        err_of(sct, sc).spec_dnr().sct() == sct.spec_raw(),
        err_of(sct, sc).spec_dnr().is_dnr(),
        err_of(sct, sc).spec_dnr().status % 2 == 0,
{
}

/// The completion of a command for which no queue could be created.
pub open spec fn queue_err_completion(e: QueueCreateErr) -> Completion {
    match e {
        QueueCreateErr::InvalidBaseAddr => gen_err(STS_INVAL_FIELD),
        QueueCreateErr::InvalidSize => cmd_err(STS_CREATE_IO_Q_INVAL_QSIZE),
        QueueCreateErr::SubQueueIdAlreadyExists(_) => cmd_err(STS_CREATE_IO_Q_INVAL_QID),
    }
}

impl vstd::std_specs::convert::FromSpecImpl<QueueCreateErr> for Completion {
    open spec fn obeys_from_spec() -> bool {
        true
    }

    open spec fn from_spec(e: QueueCreateErr) -> Completion {
        queue_err_completion(e)
    }
}

impl From<QueueCreateErr> for Completion {
    fn from(e: QueueCreateErr) -> (r: Completion) {
        match e {
            QueueCreateErr::InvalidBaseAddr => Completion::generic_err(STS_INVAL_FIELD),
            QueueCreateErr::InvalidSize => Completion::specific_err(
                StatusCodeType::CmdSpecific,
                STS_CREATE_IO_Q_INVAL_QSIZE,
            ),
            QueueCreateErr::SubQueueIdAlreadyExists(_) => Completion::specific_err(
                StatusCodeType::CmdSpecific,
                STS_CREATE_IO_Q_INVAL_QID,
            ),
        }
    }
}

/// The completion of an I/O command, from the result of its request.
pub open spec fn io_completion(res: IoResult) -> Completion {
    match res {
        IoResult::Success => ok_val(0),
        IoResult::Failure => gen_err(STS_DATA_XFER_ERR),
        IoResult::ReadOnly => cmd_err(STS_WRITE_READ_ONLY_RANGE),
        IoResult::Unsupported => cmd_err(STS_READ_CONFLICTING_ATTRS),
    }
}

impl vstd::std_specs::convert::FromSpecImpl<IoResult> for Completion {
    open spec fn obeys_from_spec() -> bool {
        true
    }

    open spec fn from_spec(res: IoResult) -> Completion {
        io_completion(res)
    }
}

impl From<IoResult> for Completion {
    fn from(res: IoResult) -> (r: Completion) {
        match res {
            IoResult::Success => Completion::success(),
            IoResult::Failure => Completion::generic_err(STS_DATA_XFER_ERR),
            IoResult::ReadOnly => Completion::specific_err(
                StatusCodeType::CmdSpecific,
                STS_WRITE_READ_ONLY_RANGE,
            ),
            IoResult::Unsupported => Completion::specific_err(
                StatusCodeType::CmdSpecific,
                STS_READ_CONFLICTING_ATTRS,
            ),
        }
    }
}

} // verus!
