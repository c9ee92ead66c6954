use duvisor::block::{
    build_config_space, completion, process_chain, request_type, Block, Descriptor, ExecuteError, ParseError, Request,
    RequestType, Segment, TYPE_BLOCK, VIRTIO_BLK_S_IOERR, VIRTIO_BLK_S_OK, VIRTIO_BLK_S_UNSUPP,
};

#[test]
fn read_size() {
    let b = Block::new(0x1000);
    let mut num_sectors = [0u8; 4];
    b.read_config(0, &mut num_sectors);
    assert_eq!([0x08, 0x00, 0x00, 0x00], num_sectors);
    let mut msw_sectors = [0u8; 4];
    b.read_config(4, &mut msw_sectors);
    assert_eq!([0x00, 0x00, 0x00, 0x00], msw_sectors);
}

#[test]
fn config_space_is_little_endian_sectors() {
    assert_eq!(build_config_space(0x1000), vec![8, 0, 0, 0, 0, 0, 0, 0]);
    assert_eq!(build_config_space(0x1ff), vec![0; 8]);
    assert_eq!(build_config_space(0x1234_5678_9a00), vec![0x4d, 0x3c, 0x2b, 0x1a, 0x09, 0, 0, 0]);
    let b = Block::new(0x1000);
    assert_eq!(b.device_type(), TYPE_BLOCK);
    let mut tail = [0xaau8; 4];
    b.read_config(6, &mut tail);
    assert_eq!(tail, [0, 0, 0xaa, 0xaa]);
    let mut past = [0xaau8; 2];
    b.read_config(8, &mut past);
    assert_eq!(past, [0xaa, 0xaa]);
}

fn chain(head_wo: bool, data_wo: bool, status_wo: bool, status_len: u32) -> Vec<Descriptor> {
    vec![
        Descriptor { addr: 0x1000, len: 16, write_only: head_wo },
        Descriptor { addr: 0x2000, len: 0x400, write_only: data_wo },
        Descriptor { addr: 0x3000, len: status_len, write_only: status_wo },
    ]
}

#[test]
fn parse_good_requests() {
    let r = Request::parse(&chain(false, true, true, 1), 0, 9).unwrap();
    assert_eq!(r.request_type, RequestType::In);
    assert_eq!((r.sector, r.data_addr, r.data_len, r.status_addr), (9, 0x2000, 0x400, 0x3000));
    let w = Request::parse(&chain(false, false, true, 1), 1, 0).unwrap();
    assert_eq!(w.request_type, RequestType::Out);
    assert_eq!(request_type(4), RequestType::Flush);
    assert_eq!(request_type(8), RequestType::Unsupported(8));
}

#[test]
fn parse_errors() {
    assert_eq!(Request::parse(&chain(true, true, true, 1), 0, 0), Err(ParseError::UnexpectedWriteOnlyDescriptor));
    assert_eq!(Request::parse(&chain(false, true, true, 1), 1, 0), Err(ParseError::UnexpectedWriteOnlyDescriptor));
    assert_eq!(Request::parse(&chain(false, false, true, 1), 0, 0), Err(ParseError::UnexpectedReadOnlyDescriptor));
    assert_eq!(Request::parse(&chain(false, true, false, 1), 0, 0), Err(ParseError::UnexpectedReadOnlyDescriptor));
    assert_eq!(Request::parse(&chain(false, true, true, 0), 0, 0), Err(ParseError::DescriptorLengthTooSmall));
    let short = vec![Descriptor { addr: 0x1000, len: 16, write_only: false }];
    assert_eq!(Request::parse(&short, 0, 0), Err(ParseError::DescriptorChainTooShort));
    assert_eq!(Request::parse(&Vec::new(), 0, 0), Err(ParseError::DescriptorChainTooShort));
    let far = vec![Descriptor { addr: u64::MAX - 3, len: 16, write_only: false }];
    assert_eq!(Request::parse(&far, 0, 0), Err(ParseError::CheckedOffset(u64::MAX - 3, 8)));
}

fn req(addr: u64, len: u32) -> Request {
    Request { request_type: RequestType::In, sector: 0, data_addr: addr, data_len: len, status_addr: 0 }
}

#[test]
fn segments_stay_inside_pages() {
    assert_eq!(
        req(0x1800, 0x2000).do_in_pages(),
        vec![
            Segment { gpa: 0x1800, len: 0x800 },
            Segment { gpa: 0x2000, len: 0x1000 },
            Segment { gpa: 0x3000, len: 0x800 }
        ]
    );
    assert_eq!(
        req(0x1000, 0x2000).do_in_pages(),
        vec![Segment { gpa: 0x1000, len: 0x1000 }, Segment { gpa: 0x2000, len: 0x1000 }]
    );
    assert_eq!(req(0x1000, 0x200).do_in_pages(), vec![Segment { gpa: 0x1000, len: 0x200 }]);
    assert_eq!(req(0x1f00, 0x80).do_in_pages(), vec![Segment { gpa: 0x1f00, len: 0x80 }]);
    assert_eq!(req(0x1000, 0).do_in_pages(), vec![]);
}

#[test]
fn statuses_and_used_lengths() {
    let r = req(0x1000, 0x200);
    assert_eq!(completion(&r, Ok(())), (VIRTIO_BLK_S_OK, 0x200));
    let mut w = r;
    w.request_type = RequestType::Out;
    assert_eq!(completion(&w, Ok(())), (VIRTIO_BLK_S_OK, 1));
    assert_eq!(completion(&r, Err(ExecuteError::Read)), (VIRTIO_BLK_S_IOERR, 1));
    assert_eq!(completion(&r, Err(ExecuteError::Unsupported(9))), (VIRTIO_BLK_S_UNSUPP, 1));
    assert_eq!(ExecuteError::Seek.status(), VIRTIO_BLK_S_IOERR);
    assert_eq!(ExecuteError::Flush.status(), VIRTIO_BLK_S_IOERR);
    assert_eq!(ExecuteError::Write.status(), VIRTIO_BLK_S_IOERR);
    assert_eq!(process_chain(&Err(ParseError::DescriptorChainTooShort), Ok(())), (None, 0));
    assert_eq!(process_chain(&Ok(r), Ok(())), (Some(VIRTIO_BLK_S_OK), 0x200));
}
