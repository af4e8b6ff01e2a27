use propolis::common::{RWOp, ReadOp, WriteOp};
use propolis::hw::pci::bits::PCIE_MAX_BUSES_PER_ECAM_REGION;
use propolis::hw::pci::{Bdf, CfgDispatch, PcieCfgDecoder, PioCfgDecoder};

fn read_at(offset: usize, len: usize) -> RWOp {
    RWOp::Read(ReadOp::from_buf(offset, vec![0u8; len]))
}

fn function(d: CfgDispatch) -> (Bdf, RWOp) {
    match d {
        CfgDispatch::Function(bdf, rwo) => (bdf, rwo),
        CfgDispatch::Unclaimed(_) => panic!(),
    }
}

#[test]
fn pcie_decoder() {
    let pcie = PcieCfgDecoder::new(PCIE_MAX_BUSES_PER_ECAM_REGION);
    let (bdf, rwo) = function(pcie.service(read_at(0, 4)));
    assert_eq!(bdf, Bdf::new(0, 0, 0).unwrap());
    assert!(matches!(rwo, RWOp::Read(_)));
    assert_eq!(rwo.offset(), 0);
    assert_eq!(rwo.len(), 4);

    let wo = RWOp::Write(WriteOp::from_buf(0x400, vec![0u8; 16]));
    let (bdf, rwo) = function(pcie.service(wo));
    assert_eq!(bdf, Bdf::new(0, 0, 0).unwrap());
    assert!(matches!(rwo, RWOp::Write(_)));
    assert_eq!(rwo.offset(), 0x400);
    assert_eq!(rwo.len(), 16);
}

#[test]
fn pcie_decoder_multiple_bdfs() {
    let pcie = PcieCfgDecoder::new(PCIE_MAX_BUSES_PER_ECAM_REGION);
    let (bdf, rwo) = function(pcie.service(read_at(1_usize << 12, 4)));
    assert_eq!(bdf, Bdf::new(0, 0, 1).unwrap());
    assert_eq!(rwo.offset(), 0);

    let (bdf, rwo) =
        function(pcie.service(read_at(4_usize << 15 | 3_usize << 12 | 0x123, 4)));
    assert_eq!(bdf, Bdf::new(0, 4, 3).unwrap());
    assert_eq!(rwo.offset(), 0x123);

    let (bdf, rwo) = function(pcie.service(read_at(
        133_usize << 20 | 7_usize << 15 | 1_usize << 12 | 0x337,
        4,
    )));
    assert_eq!(bdf, Bdf::new(133, 7, 1).unwrap());
    assert_eq!(rwo.offset(), 0x337);
}

#[test]
fn pcie_decoder_min_buses() {
    let pcie = PcieCfgDecoder::new(4);
    for seg_group in 0..4 {
        for bus in 0..4 {
            let (bdf, rwo) = function(pcie.service(read_at((seg_group * 4 + bus) << 20, 4)));
            assert_eq!(
                bdf,
                Bdf::new(bus as u8, 0, 0).unwrap(),
                "group {}, bus {}",
                seg_group,
                bus
            );
            assert_eq!(rwo.offset(), 0);
        }
    }
}

#[test]
fn pcie_decoder_access_spans_multiple_devs() {
    let pcie = PcieCfgDecoder::new(PCIE_MAX_BUSES_PER_ECAM_REGION);

    // This access spans multiple functions, so the decoder can't
    // meaningfully address a single BDF and should therefore not
    // hand it to one.
    let buf = match pcie.service(read_at(0xffc, 8)) {
        CfgDispatch::Unclaimed(RWOp::Read(ro)) => ro.buf,
        _ => panic!(),
    };
    assert_eq!(buf, [0xffu8; 8]);
}

#[test]
fn ports_name_a_function() {
    let mut pio = PioCfgDecoder::new();
    // Not enabled yet
    assert!(matches!(pio.service_data(read_at(0, 4)), CfgDispatch::Unclaimed(_)));
    let addr: u32 = 0x8000_0000 | 5 << 16 | 3 << 11 | 2 << 8 | 0x3c;
    let wo = RWOp::Write(WriteOp::from_buf(0, addr.to_le_bytes().to_vec()));
    pio.service_addr(wo);
    assert_eq!(pio.addr(), addr);
    let (bdf, rwo) = function(pio.service_data(read_at(1, 1)));
    assert_eq!(bdf, Bdf::new(5, 3, 2).unwrap());
    assert_eq!(rwo.offset(), 0x3d);
    // The address reads back, and only as a whole
    match pio.service_addr(read_at(0, 4)) {
        RWOp::Read(ro) => assert_eq!(ro.buf, addr.to_le_bytes()),
        RWOp::Write(_) => panic!(),
    }
    pio.service_addr(RWOp::Write(WriteOp::from_buf(0, vec![0; 2])));
    assert_eq!(pio.addr(), addr);
}
