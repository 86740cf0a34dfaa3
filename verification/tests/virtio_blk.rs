use dillo::mmio::{AddressRange, SharedAccess, SharedMemoryRequirement};
use dillo::shared_memory::{MappedSharedMemory, SharedRange};
use dillo::virtio::{VirtioDevice, VIRTIO_F_VERSION_1};
use dillo::virtio_blk::{
    split_chain, ActivateError, BlkAction, BlkEvent, BlkRequest, BlockBacking, ChainDesc, Desc,
    VirtioBlk, SECTOR_SIZE, VIRTIO_BLK_F_BLK_SIZE, VIRTIO_BLK_F_FLUSH, VIRTIO_BLK_F_RO,
    VIRTIO_BLK_F_SEG_MAX, VIRTIO_BLK_F_TOPOLOGY, VIRTIO_BLK_S_IOERR, VIRTIO_BLK_S_OK,
    VIRTIO_BLK_S_UNSUPP,
};
use vm_memory::{Bytes, GuestAddress, GuestMemoryMmap};

/// In-RAM backing that serves bytes from a fixed buffer, for dispatch tests.
struct RamBacking {
    data: Vec<u8>,
    read_only: bool,
}

impl RamBacking {
    fn read_at(&self, offset: u64, buf: &mut [u8]) -> usize {
        let off = offset as usize;
        if off >= self.data.len() {
            return 0;
        }
        let n = buf.len().min(self.data.len() - off);
        buf[..n].copy_from_slice(&self.data[off..off + n]);
        n
    }
}

impl BlockBacking for RamBacking {
    fn len_bytes(&self) -> u64 {
        self.data.len() as u64
    }

    fn get_id(&self) -> [u8; 20] {
        *b"ram-backing-test-id\0"
    }

    fn is_read_only(&self) -> bool {
        self.read_only
    }

    fn logical_block_size(&self) -> u32 {
        512
    }

    fn physical_block_size(&self) -> u32 {
        512
    }

    fn max_segments(&self) -> Option<u32> {
        None
    }
}

struct Facts {
    len_bytes: u64,
    logical: u32,
    physical: u32,
    max_segments: Option<u32>,
    read_only: bool,
}

impl BlockBacking for Facts {
    fn len_bytes(&self) -> u64 {
        self.len_bytes
    }

    fn get_id(&self) -> [u8; 20] {
        [0u8; 20]
    }

    fn is_read_only(&self) -> bool {
        self.read_only
    }

    fn logical_block_size(&self) -> u32 {
        self.logical
    }

    fn physical_block_size(&self) -> u32 {
        self.physical
    }

    fn max_segments(&self) -> Option<u32> {
        self.max_segments
    }
}

fn blk_from(
    len_bytes: u64,
    logical: u32,
    physical: u32,
    max_segments: Option<u32>,
    read_only: bool,
) -> VirtioBlk<Facts> {
    VirtioBlk::new(Facts { len_bytes, logical, physical, max_segments, read_only }, false, read_only)
}

#[test]
fn features_default_backing_minimal() {
    let blk = blk_from(1024 * 1024, 512, 512, None, false);
    let expected = VIRTIO_F_VERSION_1 | VIRTIO_BLK_F_FLUSH | VIRTIO_BLK_F_BLK_SIZE;
    assert_eq!(blk.features(), expected);
}

#[test]
fn features_ro_sets_ro_bit() {
    let blk = blk_from(1024 * 1024, 512, 512, None, true);
    assert_ne!(blk.features() & VIRTIO_BLK_F_RO, 0);
}

#[test]
fn features_vgpt_style_sets_topology_and_seg_max() {
    let blk = blk_from(1024 * 1024, 512, 4096, Some(254), true);
    let expected = VIRTIO_F_VERSION_1
        | VIRTIO_BLK_F_FLUSH
        | VIRTIO_BLK_F_BLK_SIZE
        | VIRTIO_BLK_F_RO
        | VIRTIO_BLK_F_TOPOLOGY
        | VIRTIO_BLK_F_SEG_MAX;
    assert_eq!(blk.features(), expected);
}

#[test]
fn read_config_vgpt_layout() {
    let blk = blk_from(1024 * 1024, 512, 4096, Some(254), true);
    let capacity = 1024u64 * 1024 / SECTOR_SIZE;
    let mut buf = [0u8; 32];
    blk.read_config_bytes(0, &mut buf);
    assert_eq!(&buf[0..8], &capacity.to_le_bytes());
    assert_eq!(&buf[12..16], &254u32.to_le_bytes());
    assert_eq!(&buf[20..24], &512u32.to_le_bytes());
    assert_eq!(buf[24], 3); // log2(4096/512)
    assert_eq!(&buf[26..28], &1u16.to_le_bytes());
    assert_eq!(&buf[28..32], &8u32.to_le_bytes());
}

#[test]
fn read_config_default_writes_capacity_and_blk_size_only() {
    let blk = blk_from(1024 * 1024, 512, 512, None, false);
    let capacity = 1024u64 * 1024 / SECTOR_SIZE;
    let mut buf = [0u8; 32];
    blk.read_config_bytes(0, &mut buf);
    assert_eq!(&buf[0..8], &capacity.to_le_bytes());
    assert_eq!(&buf[8..20], &[0u8; 12]);
    assert_eq!(&buf[20..24], &512u32.to_le_bytes());
    assert_eq!(&buf[24..32], &[0u8; 8]);
}

/// Performs the actions of a request on guest memory and a backing, and gives the
/// length that the driver is told.
fn run(mut request: BlkRequest, mem: &MappedSharedMemory, backing: &mut RamBacking) -> u32 {
    let claim = |gpa: u64, size: u64| {
        mem.region(SharedRange { gpa, size, access: SharedAccess::ReadWrite }).expect("region")
    };
    let mut action = request.start();
    loop {
        let event = match action {
            BlkAction::ReadHeader { addr } => {
                let mut header = [0u8; 16];
                claim(addr, 16).read(0, &mut header).expect("header");
                BlkEvent::Header(header)
            }
            BlkAction::Fetch { offset, addr, len } => {
                let mut buf = vec![0u8; len as usize];
                let n = backing.read_at(offset, &mut buf);
                claim(addr, u64::from(len)).write(0, &buf[..n]).expect("data");
                BlkEvent::Moved(n as u64)
            }
            BlkAction::Store { offset, addr, len } => {
                let mut buf = vec![0u8; len as usize];
                claim(addr, u64::from(len)).read(0, &mut buf).expect("data");
                let off = offset as usize;
                backing.data[off..off + buf.len()].copy_from_slice(&buf);
                BlkEvent::Moved(u64::from(len))
            }
            BlkAction::Flush => BlkEvent::Done,
            BlkAction::StoreId { addr } => {
                claim(addr, 20).write(0, &backing.get_id()).expect("id");
                BlkEvent::Done
            }
            BlkAction::Finish { status, used } => {
                let (addr, len) = request.completion(used);
                if let Some(addr) = addr {
                    claim(addr, 1).write(0, &[status]).expect("status");
                }
                return len;
            }
        };
        assert!(request.can_take(event));
        action = request.step(event);
    }
}

fn guest() -> (GuestMemoryMmap, MappedSharedMemory) {
    let mem = GuestMemoryMmap::from_ranges(&[(GuestAddress(0), 0x10000)]).unwrap();
    let shared = MappedSharedMemory::new(
        mem.clone(),
        SharedMemoryRequirement {
            range: AddressRange { base: 0, size: 0x10000 },
            access: SharedAccess::ReadWrite,
        },
    );
    (mem, shared)
}

const HEADER_BUF: u64 = 0x5000;
const DATA_BUF: u64 = 0x6000;
const STATUS_BUF: u64 = 0x7000;

fn write_header(mem: &GuestMemoryMmap, kind: u32, sector: u64) {
    let mut hdr = [0u8; 16];
    hdr[0..4].copy_from_slice(&kind.to_le_bytes());
    hdr[8..16].copy_from_slice(&sector.to_le_bytes());
    mem.write_slice(&hdr, GuestAddress(HEADER_BUF)).unwrap();
}

fn chain(data_is_writable: bool, len: u32) -> [ChainDesc; 3] {
    [
        ChainDesc { addr: HEADER_BUF, len: 16, write: false },
        ChainDesc { addr: DATA_BUF, len, write: data_is_writable },
        ChainDesc { addr: STATUS_BUF, len: 1, write: true },
    ]
}

#[test]
fn read_request_fills_buffer_and_sets_status_ok() {
    let (mem, shared) = guest();

    // Request header: type=IN(0), reserved=0, sector=1.
    write_header(&mem, 0, 1);

    // Backing: sector 1 (offset 512) holds 0xAB repeated.
    let mut data = vec![0u8; 4096];
    for b in &mut data[512..1024] {
        *b = 0xAB;
    }
    let mut backing = RamBacking { data, read_only: false };
    let blk = VirtioBlk::new(RamBacking { data: vec![0; 4096], read_only: false }, false, false);
    let (readable, writable) = split_chain(&chain(true, 512));
    let used_len = run(blk.request(readable, writable), &shared, &mut backing);

    // Guest data buffer filled with backing bytes.
    let mut out = [0u8; 512];
    mem.read_slice(&mut out, GuestAddress(DATA_BUF)).unwrap();
    assert!(out.iter().all(|&b| b == 0xAB), "data buffer not filled");

    // Status byte = S_OK.
    let status: u8 = mem.read_obj(GuestAddress(STATUS_BUF)).unwrap();
    assert_eq!(status, VIRTIO_BLK_S_OK);

    // 512 (data) + 1 (status).
    assert_eq!(used_len, 513);
}

fn run_one(kind: u32, data_is_writable: bool, len: u32, writable: bool) -> (u8, u32, Vec<u8>) {
    let (mem, shared) = guest();
    write_header(&mem, kind, 2);
    mem.write_slice(&[0x5A; 512], GuestAddress(DATA_BUF)).unwrap();
    let mut backing = RamBacking { data: vec![0; 4096], read_only: !writable };
    let blk =
        VirtioBlk::new(RamBacking { data: vec![0; 4096], read_only: !writable }, writable, false);
    let (ins, outs) = split_chain(&chain(data_is_writable, len));
    let used = run(blk.request(ins, outs), &shared, &mut backing);
    let status: u8 = mem.read_obj(GuestAddress(STATUS_BUF)).unwrap();
    (status, used, backing.data)
}

#[test]
fn write_request_reaches_a_writable_disk() {
    let (status, used, data) = run_one(1, false, 512, true);
    assert_eq!((status, used), (VIRTIO_BLK_S_OK, 1));
    assert!(data[1024..1536].iter().all(|&b| b == 0x5A));
}

#[test]
fn read_only_disk_is_never_written() {
    let (status, used, data) = run_one(1, false, 512, false);
    assert_eq!((status, used), (VIRTIO_BLK_S_IOERR, 1));
    assert!(data.iter().all(|&b| b == 0));
}

#[test]
fn other_requests() {
    assert_eq!(run_one(4, false, 512, true).0, VIRTIO_BLK_S_OK);
    assert_eq!(run_one(9, false, 512, true).0, VIRTIO_BLK_S_UNSUPP);
    let (status, used, _) = run_one(8, true, 20, true);
    assert_eq!((status, used), (VIRTIO_BLK_S_OK, 21));
    assert_eq!(run_one(8, true, 19, true).0, VIRTIO_BLK_S_IOERR);
}

#[test]
fn chains_are_split() {
    let (readable, writable) = split_chain(&chain(true, 512));
    assert_eq!(readable, vec![Desc { addr: HEADER_BUF, len: 16 }]);
    assert_eq!(
        writable,
        vec![Desc { addr: DATA_BUF, len: 512 }, Desc { addr: STATUS_BUF, len: 1 }]
    );
}

#[test]
fn malformed_chains_are_not_served() {
    let blk = blk_from(1024, 512, 512, None, false);
    assert!(blk.take_chain(&chain(true, 512)).is_some());
    assert!(blk.take_chain(&chain(true, 512)[..1]).is_none());
    assert!(blk.take_chain(&chain(true, 512)[1..]).is_none());
    assert!(blk.take_chain(&[]).is_none());
}

#[test]
fn activation_takes_one_queue() {
    let mut blk = blk_from(1024, 512, 512, None, false);
    assert_eq!((blk.device_type(), blk.num_queues()), (2, 1));
    assert_eq!(
        blk.check_activation(2, 1),
        Err(ActivateError::WrongQueues { queues: 2, queue_evts: 1 })
    );
    assert_eq!(blk.check_activation(1, 1), Ok(()));
    blk.activation_started();
    assert_eq!(blk.check_activation(1, 1), Err(ActivateError::AlreadyActivated));
}
