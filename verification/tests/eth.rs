use std::collections::HashMap;

use luwen::eth_queue::{
    get_rack_addr, get_sys_addr, is_command_q_full, next_queue_ptr, EthAccess, EthAction,
    EthCommCoord, EthError, EthExchange, EthRequest,
};
use luwen::remote::EthAddr;

fn coord() -> EthCommCoord {
    EthCommCoord {
        coord: EthAddr { shelf_x: 1, shelf_y: 2, rack_x: 3, rack_y: 4 },
        noc_id: 1,
        noc_x: 5,
        noc_y: 6,
        offset: 0x1234,
    }
}

#[test]
fn addresses_of_a_remote_register() {
    assert_eq!(get_rack_addr(&coord()), 0x0403);
    let sys = get_sys_addr(&coord());
    assert_eq!(sys, (((2u64 << 18) | (1 << 12) | (6 << 6) | 5) << 36) | 0x1234);
}

#[test]
fn queue_pointers() {
    assert!(!is_command_q_full(3, 3));
    assert!(is_command_q_full(5, 1));
    assert!(!is_command_q_full(5, 2));
    assert_eq!(next_queue_ptr(7), 0);
    assert_eq!(next_queue_ptr(2), 3);
}

/// A fake ethernet core: plain registers, and a response queue that answers
/// a request with `flags` and `data` as soon as the request pointer moves.
struct FakeCore {
    regs: HashMap<u64, u32>,
    cq: u32,
    flags: u32,
    data: u32,
}

impl FakeCore {
    fn read(&mut self, addr: u64) -> u32 {
        *self.regs.get(&addr).unwrap_or(&0)
    }

    fn write(&mut self, addr: u64, value: u32) {
        self.regs.insert(addr, value);
        let req_wptr = (self.cq + 0x80 + 32) as u64;
        if addr == req_wptr {
            // The core takes the request at once, and where one is wanted
            // posts a response at the response queue's read pointer.
            self.regs.insert((self.cq + 0x80 + 48) as u64, value);
            let rptr = self.read((self.cq + 0x200 + 48) as u64);
            let entry = (self.cq + 0x200 + 64 + (rptr % 4) * 32) as u64;
            self.regs.insert(entry + 12, self.flags);
            self.regs.insert(entry + 8, self.data);
            self.regs.insert((self.cq + 0x200 + 32) as u64, (rptr + 1) % 8);
        }
    }

    fn run(&mut self, request: EthRequest) -> (Result<u32, EthError>, Vec<(u64, u32)>) {
        let mut writes = Vec::new();
        let (mut x, mut action) = EthExchange::start(self.cq, coord(), request);
        for _ in 0..100 {
            let mut last = 0;
            match action {
                EthAction::Finish(r) => return (r, writes),
                EthAction::WaitAndPoll(addr) => last = self.read(addr),
                EthAction::Access(v) => {
                    for a in v {
                        match a {
                            EthAccess::Read(addr) => last = self.read(addr),
                            EthAccess::Write(addr, value) => {
                                writes.push((addr, value));
                                self.write(addr, value)
                            }
                            _ => {}
                        }
                    }
                }
            }
            let (nx, na) = x.step(last);
            x = nx;
            action = na;
        }
        panic!("transaction did not finish");
    }
}

#[test]
fn word_read_through_the_queue() {
    let mut core = FakeCore { regs: HashMap::new(), cq: 0x1000, flags: 0x8, data: 0xabcd };
    let (r, writes) = core.run(EthRequest::Read32);
    assert_eq!(r, Ok(0xabcd));
    let cmd = 0x1000 + 0x80 + 64;
    let sys = get_sys_addr(&coord());
    assert_eq!(writes[0], (cmd, sys as u32));
    assert_eq!(writes[1], (cmd + 4, (sys >> 32) as u32));
    assert_eq!(writes[2], (cmd + 16, 0x0403));
    assert_eq!(writes[3], (cmd + 12, 0x4 | 0x200));
    assert_eq!(writes[4], (0x1000 + 0x80 + 32, 1));
    // The response was consumed.
    assert_eq!(*writes.last().unwrap(), (0x1000 + 0x200 + 48, 1));
}

#[test]
fn word_read_errors() {
    let mut core = FakeCore { regs: HashMap::new(), cq: 0, flags: 0x8000_0000, data: 0 };
    assert_eq!(core.run(EthRequest::Read32).0, Err(EthError::DestinationUnreachable));
    let mut core = FakeCore { regs: HashMap::new(), cq: 0, flags: 0xc000_0000, data: 0 };
    assert_eq!(core.run(EthRequest::Read32).0, Err(EthError::DataBlockUnavailable));
    let mut core = FakeCore { regs: HashMap::new(), cq: 0, flags: 0x48, data: 0 };
    assert_eq!(core.run(EthRequest::Read32).0, Err(EthError::UnexpectedBlockResponse));
    assert_eq!(EthError::DestinationUnreachable.message(), "Destination Unreachable.");
}

#[test]
fn failed_word_read_still_consumes_its_response() {
    let mut core = FakeCore { regs: HashMap::new(), cq: 0, flags: 0x8000_0000, data: 0 };
    let (r, writes) = core.run(EthRequest::Read32);
    assert_eq!(r, Err(EthError::DestinationUnreachable));
    assert_eq!(*writes.last().unwrap(), (0x200 + 48, 1));
}

#[test]
fn word_write_posts_a_request() {
    let mut core = FakeCore { regs: HashMap::new(), cq: 0x100, flags: 0, data: 0 };
    let (r, writes) = core.run(EthRequest::Write32(0x5555));
    assert_eq!(r, Ok(0));
    let cmd = 0x100 + 0x80 + 64;
    assert!(writes.contains(&(cmd + 8, 0x5555)));
    assert!(writes.contains(&(cmd + 12, 0x1 | 0x200)));
}

#[test]
fn full_queue_is_waited_on() {
    // Write pointer 4 and read pointer 0 select the same entry: full.
    let (x, a) = EthExchange::start(0, coord(), EthRequest::Read32);
    assert!(matches!(a, EthAction::Access(_)));
    let (x, _) = x.step(4);
    let (_, a) = x.step(0);
    assert!(matches!(a, EthAction::WaitAndPoll(0xa0)));
}

#[test]
fn block_read_moves_slices_through_the_buffer() {
    let mut core = FakeCore { regs: HashMap::new(), cq: 0, flags: 0x48, data: 0 };
    let request = EthRequest::BlockRead { len: 10, slice_len: 4, dma_phys: 0x8000 };
    let (mut x, mut action) = EthExchange::start(0, coord(), request);
    let mut copies = Vec::new();
    for _ in 0..200 {
        let mut last = 0;
        match action {
            EthAction::Finish(r) => {
                assert_eq!(r, Ok(0));
                break;
            }
            EthAction::WaitAndPoll(addr) => last = core.read(addr),
            EthAction::Access(v) => {
                for a in v {
                    match a {
                        EthAccess::Read(addr) => last = core.read(addr),
                        EthAccess::Write(addr, value) => core.write(addr, value),
                        EthAccess::FromDma { dma_offset, pos, len } => copies.push((dma_offset, pos, len)),
                        EthAccess::ToDma { .. } => panic!("a read copies nothing to the buffer"),
                    }
                }
            }
        }
        let (nx, na) = x.step(last);
        x = nx;
        action = na;
    }
    let positions: Vec<u64> = copies.iter().map(|c| c.1).collect();
    let lens: Vec<u64> = copies.iter().map(|c| c.2).collect();
    assert_eq!(positions, vec![0, 4, 8]);
    assert_eq!(lens, vec![4, 4, 2]);
}

#[test]
fn empty_block_transfer_is_done_at_once() {
    let (_, a) = EthExchange::start(
        0,
        coord(),
        EthRequest::BlockWrite { len: 0, slice_len: 4, dma_phys: 0 },
    );
    assert!(matches!(a, EthAction::Finish(Ok(0))));
}

#[test]
fn queue_dump_is_decoded() {
    let dump: Vec<u32> = (0..14 * 48).collect();
    let q = luwen::eth_queue::queue_state(&dump, 2);
    assert_eq!((q.wptr, q.rptr), (96 + 8, 96 + 12));
    assert_eq!(q.commands.len(), 4);
    assert_eq!(q.commands[1].addr_l, 96 + 16 + 8);
    assert_eq!(q.commands[3].src_addr_tag, 96 + 16 + 24 + 7);
}

#[test]
fn response_queue_is_brought_back_in_step() {
    assert_eq!(luwen::eth_queue::response_pointer_addrs(0x100), (0x320, 0x330));
    assert_eq!(luwen::eth_queue::response_queue_fixup(0x100, 3, 1), Some((0x330, 3)));
    assert_eq!(luwen::eth_queue::response_queue_fixup(0x100, 3, 3), None);
}

#[test]
fn word_accesses_cover_a_block_four_bytes_at_a_time() {
    let c = coord();
    let words = luwen::eth_queue::word_coords(c, 12);
    assert_eq!(words.len(), 3);
    assert_eq!(words[2].offset, c.offset + 8);
    assert_eq!(words[1].noc_x, c.noc_x);
}
