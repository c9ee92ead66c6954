//! The virtio block device: configuration space, request parsing from a
//! descriptor chain, page-safe segmentation of a data buffer, and the
//! status and used length that each request reports.
//!
//! Reading guest memory and the disk file happens outside; this module
//! decides what is read, where, and what the guest is told.
use vstd::prelude::*;

verus! {

pub const SECTOR_SHIFT: u8 = 9;
pub const SECTOR_SIZE: u64 = 0x200;
pub const QUEUE_SIZE: u16 = 256;

pub const VIRTIO_BLK_T_IN: u32 = 0;
pub const VIRTIO_BLK_T_OUT: u32 = 1;
pub const VIRTIO_BLK_T_FLUSH: u32 = 4;

pub const VIRTIO_BLK_S_OK: u8 = 0;
pub const VIRTIO_BLK_S_IOERR: u8 = 1;
pub const VIRTIO_BLK_S_UNSUPP: u8 = 2;

/// Device type of a virtio block device.
pub const TYPE_BLOCK: u32 = 2;

/// Interrupt line of the block device.
pub const BLOCK_IRQ: u32 = 12;

#[derive(Clone, Copy, PartialEq, Eq, Structural, Debug)]
pub enum RequestType {
    In,
    Out,
    Flush,
    Unsupported(u32),
}

#[derive(Clone, Copy, PartialEq, Eq, Structural, Debug)]
pub enum ParseError {
    /// The head's address plus the sector field's offset overflows.
    CheckedOffset(u64, u64),
    /// A descriptor that the protocol reads from is write-only.
    UnexpectedWriteOnlyDescriptor,
    /// A descriptor that the protocol writes to is read-only.
    UnexpectedReadOnlyDescriptor,
    /// The chain has fewer than three descriptors.
    DescriptorChainTooShort,
    /// The status descriptor has no room for the status byte.
    DescriptorLengthTooSmall,
}

/// Why a request failed while it ran.
#[derive(Clone, Copy, PartialEq, Eq, Structural, Debug)]
pub enum ExecuteError {
    Flush,
    Read,
    Seek,
    Write,
    Unsupported(u32),
}

impl ExecuteError {
    /// The status byte reported to the guest.
    pub fn status(&self) -> (r: u8)
        ensures
            r == (match self {
                ExecuteError::Unsupported(_) => VIRTIO_BLK_S_UNSUPP,
                _ => VIRTIO_BLK_S_IOERR,
            }),
    {
        match self {
            ExecuteError::Flush => VIRTIO_BLK_S_IOERR,
            ExecuteError::Read => VIRTIO_BLK_S_IOERR,
            ExecuteError::Seek => VIRTIO_BLK_S_IOERR,
            ExecuteError::Write => VIRTIO_BLK_S_IOERR,
            ExecuteError::Unsupported(_) => VIRTIO_BLK_S_UNSUPP,
        }
    }
}

pub open spec fn request_type_spec(t: u32) -> RequestType {
    if t == VIRTIO_BLK_T_IN {
        RequestType::In
    } else if t == VIRTIO_BLK_T_OUT {
        RequestType::Out
    } else if t == VIRTIO_BLK_T_FLUSH {
        RequestType::Flush
    } else {
        RequestType::Unsupported(t)
    }
}

/// The kind of request that the type field `type_` of a request header names.
pub fn request_type(type_: u32) -> (r: RequestType)
    ensures
        r == request_type_spec(type_),
{
    if type_ == VIRTIO_BLK_T_IN {
        RequestType::In
    } else if type_ == VIRTIO_BLK_T_OUT {
        RequestType::Out
    } else if type_ == VIRTIO_BLK_T_FLUSH {
        RequestType::Flush
    } else {
        RequestType::Unsupported(type_)
    }
}

/// Guest address of the sector field of the header at `desc_addr`.
pub fn sector(desc_addr: u64) -> (r: Result<u64, ParseError>)
    ensures
        r == (if desc_addr + 8 <= u64::MAX {
            Ok::<u64, ParseError>((desc_addr + 8) as u64)
        } else {
            Err(ParseError::CheckedOffset(desc_addr, 8))
        }),
{
    match desc_addr.checked_add(8) {
        Some(v) => Ok(v),
        None => Err(ParseError::CheckedOffset(desc_addr, 8)),
    }
}

/// One descriptor of a chain.
#[derive(Clone, Copy, PartialEq, Eq, Structural, Debug)]
pub struct Descriptor {
    pub addr: u64,
    pub len: u32,
    pub write_only: bool,
}

/// A parsed request.
#[derive(Clone, Copy, PartialEq, Eq, Structural, Debug)]
pub struct Request {
    pub request_type: RequestType,
    pub sector: u64,
    pub data_addr: u64,
    pub data_len: u32,
    pub status_addr: u64,
}

/// What parsing the chain `chain` yields, given the type and sector fields
/// read from its head.
pub open spec fn parse_spec(chain: Seq<Descriptor>, type_: u32, sector: u64) -> Result<Request, ParseError> {
    if chain.len() == 0 {
        Err(ParseError::DescriptorChainTooShort)
    } else if chain[0].write_only {
        Err(ParseError::UnexpectedWriteOnlyDescriptor)
    } else if chain[0].addr + 8 > u64::MAX {
        Err(ParseError::CheckedOffset(chain[0].addr, 8))
    } else if chain.len() < 3 {
        Err(ParseError::DescriptorChainTooShort)
    } else {
        let t = request_type_spec(type_);
        let data = chain[1];
        let status = chain[2];
        if data.write_only && t == RequestType::Out {
            Err(ParseError::UnexpectedWriteOnlyDescriptor)
        } else if !data.write_only && t == RequestType::In {
            Err(ParseError::UnexpectedReadOnlyDescriptor)
        } else if !status.write_only {
            Err(ParseError::UnexpectedReadOnlyDescriptor)
        } else if status.len < 1 {
            Err(ParseError::DescriptorLengthTooSmall)
        } else {
            Ok(
                Request {
                    request_type: t,
                    sector,
                    data_addr: data.addr,
                    data_len: data.len,
                    status_addr: status.addr,
                },
            )
        }
    }
}

/// One piece of a data buffer: `len` bytes at guest address `gpa`.
#[derive(Clone, Copy, PartialEq, Eq, Structural, Debug)]
pub struct Segment {
    pub gpa: u64,
    pub len: u64,
}

/// Whether `segs` cover `[base, base + total)` in order, each inside one page.
pub open spec fn page_safe_cover(segs: Seq<Segment>, base: int, total: int) -> bool
    decreases segs.len(),
{
    if segs.len() == 0 {
        total == 0
    } else {
        &&& segs[0].gpa == base
        &&& 0 < segs[0].len <= total
        &&& segs[0].gpa % 4096 + segs[0].len <= 4096
        &&& page_safe_cover(segs.subrange(1, segs.len() as int), base + segs[0].len, total - segs[0].len)
    }
}

proof fn lemma_cover_append(segs: Seq<Segment>, base: int, total: int, s: Segment)
    requires
        page_safe_cover(segs, base, total),
        s.gpa == base + total,
        0 < s.len,
        s.gpa % 4096 + s.len <= 4096,
    ensures
        page_safe_cover(segs.push(s), base, total + s.len),
    decreases segs.len(),
{
    reveal_with_fuel(page_safe_cover, 2);
    if segs.len() == 0 {
        assert(segs.push(s).subrange(1, 1) =~= Seq::<Segment>::empty());
    } else {
        assert(segs.push(s)[0] == segs[0]);
        lemma_cover_append(segs.subrange(1, segs.len() as int), base + segs[0].len, total - segs[0].len, s);
        assert(segs.push(s).subrange(1, segs.len() as int + 1) =~= segs.subrange(1, segs.len() as int).push(s));
    }
}

impl Request {
    /// Parses a descriptor chain: a readable head (whose type and sector
    /// fields the caller read as `type_` and `sector`), a data buffer whose
    /// direction matches the type, and a writable status byte.
    pub fn parse(chain: &Vec<Descriptor>, type_: u32, sector: u64) -> (r: Result<Request, ParseError>)
        ensures
            r == parse_spec(chain@, type_, sector),
    {
        if chain.len() == 0 {
            return Err(ParseError::DescriptorChainTooShort);
        }
        let avail_desc = chain[0];
        if avail_desc.write_only {
            return Err(ParseError::UnexpectedWriteOnlyDescriptor);
        }
        let req_type = request_type(type_);
        let _sector_addr = match self::sector(avail_desc.addr) {
            Ok(a) => a,
            Err(e) => {
                return Err(e);
            },
        };
        if chain.len() < 3 {
            return Err(ParseError::DescriptorChainTooShort);
        }
        let data_desc = chain[1];
        let status_desc = chain[2];
        if data_desc.write_only && req_type == RequestType::Out {
            return Err(ParseError::UnexpectedWriteOnlyDescriptor);
        }
        if !data_desc.write_only && req_type == RequestType::In {
            return Err(ParseError::UnexpectedReadOnlyDescriptor);
        }
        if !status_desc.write_only {
            return Err(ParseError::UnexpectedReadOnlyDescriptor);
        }
        if status_desc.len < 1 {
            return Err(ParseError::DescriptorLengthTooSmall);
        }
        Ok(
            Request {
                request_type: req_type,
                sector,
                data_addr: data_desc.addr,
                data_len: data_desc.len,
                status_addr: status_desc.addr,
            },
        )
    }

    /// Splits the data buffer into pieces that each lie inside one page: a
    /// head up to the first page boundary, whole pages, and a tail.
    pub fn do_in_pages(&self) -> (r: Vec<Segment>)
        requires
            self.data_addr + self.data_len + 4096 <= u64::MAX,
        ensures
            page_safe_cover(r@, self.data_addr as int, self.data_len as int),
    {
        let base_gpa = self.data_addr;
        let data_len = self.data_len as u64;
        let mut start_len: u64 = 0;
        proof {
            crate::utils::lemma_page_mask(base_gpa);
            crate::utils::lemma_page_mask(data_len);
        }
        if (base_gpa & 0xfff) != 0 || (data_len & 0xfff) != 0 {
            start_len = 4096 - (base_gpa & 0xfff);
        }
        if start_len > data_len {
            start_len = data_len;
        }
        let mid_gpa = base_gpa + start_len;
        let rest = data_len - start_len;
        proof {
            crate::utils::lemma_page_mask(rest);
        }
        let end_len = rest & 0xfff;
        let mid_len = rest - end_len;
        let end_gpa = mid_gpa + mid_len;
        let mut segs: Vec<Segment> = Vec::new();
        if start_len > 0 {
            let s = Segment { gpa: base_gpa, len: start_len };
            proof {
                lemma_cover_append(segs@, base_gpa as int, 0, s);
            }
            segs.push(s);
        }
        assert(mid_gpa % 4096 == 0 || mid_len == 0 && end_len == 0);
        let mut gpa = mid_gpa;
        while gpa < end_gpa
            invariant
                mid_gpa <= gpa <= end_gpa,
                end_gpa == mid_gpa + mid_len,
                end_gpa + end_len + 4096 <= u64::MAX,
                mid_len % 4096 == 0,
                (gpa - mid_gpa) % 4096 == 0,
                mid_gpa % 4096 == 0 || mid_len == 0,
                page_safe_cover(segs@, base_gpa as int, gpa - base_gpa),
                base_gpa <= mid_gpa,
            decreases end_gpa - gpa,
        {
            let s = Segment { gpa, len: 4096 };
            proof {
                lemma_cover_append(segs@, base_gpa as int, gpa - base_gpa, s);
            }
            segs.push(s);
            gpa = gpa + 4096;
        }
        if end_len > 0 {
            let s = Segment { gpa: end_gpa, len: end_len };
            proof {
                lemma_cover_append(segs@, base_gpa as int, end_gpa - base_gpa, s);
            }
            segs.push(s);
        }
        segs
    }
}

/// The status byte and used length of a request that parsed: a read
/// reports its data length, anything else the one status byte.
pub open spec fn completion_spec(req: Request, result: Result<(), ExecuteError>) -> (u8, u32) {
    match result {
        Ok(()) => (VIRTIO_BLK_S_OK, if req.request_type == RequestType::In {
            req.data_len
        } else {
            1
        }),
        Err(e) => (
            match e {
                ExecuteError::Unsupported(_) => VIRTIO_BLK_S_UNSUPP,
                _ => VIRTIO_BLK_S_IOERR,
            },
            1,
        ),
    }
}

/// What the guest is told about a request once it ran with `result`.
pub fn completion(req: &Request, result: Result<(), ExecuteError>) -> (r: (u8, u32))
    ensures
        r == completion_spec(*req, result),
{
    match result {
        Ok(()) => {
            let len = if req.request_type == RequestType::In {
                req.data_len
            } else {
                1
            };
            (VIRTIO_BLK_S_OK, len)
        },
        Err(e) => (e.status(), 1),
    }
}

/// What one descriptor chain yields: the status byte to write (none for a
/// chain that does not parse) and the length to report in the used ring
/// (0 for such a chain). `result` is how running the parsed request went.
pub fn process_chain(parsed: &Result<Request, ParseError>, result: Result<(), ExecuteError>) -> (r: (
    Option<u8>,
    u32,
))
    ensures
        r == (match parsed {
            Ok(req) => (Some(completion_spec(*req, result).0), completion_spec(*req, result).1),
            Err(_) => (None::<u8>, 0u32),
        }),
{
    match parsed {
        Ok(req) => {
            let (status, len) = completion(req, result);
            (Some(status), len)
        },
        Err(_) => (None, 0),
    }
}

/// The little-endian bytes of `n`.
pub open spec fn le_bytes(n: u64) -> Seq<u8> {
    Seq::new(8, |i: int| ((n >> (8 * i) as u64) & 0xff) as u8)
}

/// The configuration space for a disk of `disk_size` bytes: its size in
/// whole sectors, little-endian.
pub fn build_config_space(disk_size: u64) -> (r: Vec<u8>)
    ensures
        r@ == le_bytes(disk_size >> 9u64),
{
    let mut config: Vec<u8> = Vec::new();
    let num_sectors = disk_size >> SECTOR_SHIFT as u64;
    let mut i: u64 = 0;
    while i < 8
        invariant
            i <= 8,
            num_sectors == disk_size >> 9u64,
            config@ == le_bytes(num_sectors).subrange(0, i as int),
        decreases 8 - i,
    {
        config.push(((num_sectors >> (8 * i)) & 0xff) as u8);
        i = i + 1;
        assert(config@ =~= le_bytes(num_sectors).subrange(0, i as int));
    }
    assert(config@ =~= le_bytes(num_sectors));
    config
}

/// A virtio block device over a disk of a given size.
pub struct Block {
    pub config_space: Vec<u8>,
}

impl Block {
    /// The device for a disk of `disk_size` bytes; a tail short of a whole
    /// sector is not shown to the guest.
    pub fn new(disk_size: u64) -> (r: Block)
        ensures
            r.config_space@ == le_bytes(disk_size >> 9u64),
    {
        Block { config_space: build_config_space(disk_size) }
    }

    pub fn device_type(&self) -> (r: u32)
        ensures
            r == TYPE_BLOCK,
    {
        TYPE_BLOCK
    }

    /// Copies configuration bytes from `offset` on into `data`, as many as
    /// both have; nothing when `offset` is past the end.
    pub fn read_config(&self, offset: u64, data: &mut [u8])
        ensures
            final(data)@.len() == old(data)@.len(),
            forall|i: int|
                0 <= i < old(data)@.len() ==> #[trigger] final(data)@[i] == if offset < self.config_space@.len()
                    && i < self.config_space@.len() - offset {
                    self.config_space@[offset + i]
                } else {
                    old(data)@[i]
                },
    {
        let config_len = self.config_space.len();
        if offset >= config_len as u64 {
            return ;
        }
        let off = offset as usize;
        let n: usize = if data.len() <= config_len - off {
            data.len()
        } else {
            config_len - off
        };
        let mut i: usize = 0;
        while i < n
            invariant
                i <= n,
                n <= data@.len(),
                n <= config_len - off,
                off == offset,
                off < config_len,
                config_len == self.config_space@.len(),
                data@.len() == old(data)@.len(),
                forall|j: int|
                    0 <= j < data@.len() ==> #[trigger] data@[j] == if j < i {
                        self.config_space@[offset + j]
                    } else {
                        old(data)@[j]
                    },
            decreases n - i,
        {
            data[i] = self.config_space[off + i];
            i = i + 1;
        }
    }
}

} // verus!
