use propolis::hw::nvme::bits::{
    CompletionQueueEntry, IdentifyController, IdentifyNamespace, LbaFormat, PowerStateDescriptor,
    SubmissionQueueEntry,
};
use std::mem::size_of;

#[test]
fn entry_sizing() {
    assert_eq!(size_of::<SubmissionQueueEntry>(), 64);
    assert_eq!(size_of::<CompletionQueueEntry>(), 16);
    assert_eq!(size_of::<PowerStateDescriptor>(), 32);
    assert_eq!(size_of::<IdentifyController>(), 4096);
    assert_eq!(size_of::<LbaFormat>(), 4);
    assert_eq!(size_of::<IdentifyNamespace>(), 4096);
}
