//! Choosing the device and the bulk IN endpoint, and the decisions of the
//! continuous I/Q capture loop.
use vstd::prelude::*;
use crate::constants::{is_rtl_pid_spec, RTL_PID_RTL2832U, RTL_VID};

verus! {

/// Realtek's vendor id with an RTL2832U product id.
pub open spec fn is_rtl_device(vid: u16, pid: u16) -> bool {
    vid == RTL_VID && is_rtl_pid_spec(pid)
}

/// Whether a vendor/product id pair is an RTL2832U dongle.
pub fn is_rtl_device_id(vid: u16, pid: u16) -> (found: bool)
    ensures
        found == is_rtl_device(vid, pid),
{
    vid == RTL_VID && pid == RTL_PID_RTL2832U
}

/// The device at `i` has a readable descriptor with RTL2832U ids.
pub open spec fn matches_at(ids: Seq<Option<(u16, u16)>>, i: int) -> bool {
    ids[i] matches Some(p) && is_rtl_device(p.0, p.1)
}

/// Picks the first enumerated device whose descriptor names an RTL2832U.
/// `ids` holds each device's (vendor, product) ids, or `None` where its
/// descriptor could not be read; such devices are skipped. No match is
/// `NoDevice`.
pub fn find_rtl_device(ids: &Vec<Option<(u16, u16)>>) -> (result: Result<usize, rusb::Error>)
    ensures
        result matches Ok(i) ==> {
            &&& 0 <= i < ids@.len()
            &&& matches_at(ids@, i as int)
            &&& forall|j: int| 0 <= j < i ==> !matches_at(ids@, j)
        },
        result is Err ==> {
            &&& result matches Err(rusb::Error::NoDevice)
            &&& forall|j: int| 0 <= j < ids@.len() ==> !matches_at(ids@, j)
        },
{
    let mut i: usize = 0;
    while i < ids.len()
        invariant
            i <= ids@.len(),
            forall|j: int| 0 <= j < i ==> !matches_at(ids@, j),
        decreases ids@.len() - i,
    {
        match ids[i] {
            Some((vid, pid)) => {
                if is_rtl_device_id(vid, pid) {
                    return Ok(i);
                }
            },
            None => {},
        }
        i = i + 1;
    }
    Err(rusb::Error::NoDevice)
}

/// One endpoint descriptor of the active configuration, in descriptor order.
pub struct EndpointInfo {
    pub interface_number: u8,
    pub address: u8,
    pub direction_in: bool,
    pub bulk: bool,
}

/// A bulk IN endpoint of interface 0.
pub open spec fn is_bulk_in_of_interface0(e: EndpointInfo) -> bool {
    e.interface_number == 0 && e.direction_in && e.bulk
}

/// The address of the first bulk IN endpoint of interface 0, or `Pipe`
/// when there is none.
pub fn find_bulk_in_endpoint(endpoints: &Vec<EndpointInfo>) -> (result: Result<u8, rusb::Error>)
    ensures
        result matches Ok(addr) ==> exists|i: int|
            0 <= i < endpoints@.len() && is_bulk_in_of_interface0(#[trigger] endpoints@[i])
                && endpoints@[i].address == addr && forall|j: int|
                0 <= j < i ==> !is_bulk_in_of_interface0(#[trigger] endpoints@[j]),
        result is Err ==> {
            &&& result matches Err(rusb::Error::Pipe)
            &&& forall|j: int|
                0 <= j < endpoints@.len() ==> !is_bulk_in_of_interface0(#[trigger] endpoints@[j])
        },
{
    let mut i: usize = 0;
    while i < endpoints.len()
        invariant
            i <= endpoints@.len(),
            forall|j: int| 0 <= j < i ==> !is_bulk_in_of_interface0(#[trigger] endpoints@[j]),
        decreases endpoints@.len() - i,
    {
        let e = &endpoints[i];
        if e.interface_number == 0 && e.direction_in && e.bulk {
            assert(is_bulk_in_of_interface0(endpoints@[i as int]));
            return Ok(e.address);
        }
        i = i + 1;
    }
    Err(rusb::Error::Pipe)
}

/// Size of the buffer each bulk read fills.
pub const CAPTURE_BUFFER_LEN: usize = 16384;

/// Timeout of one bulk read, in milliseconds.
pub const CAPTURE_TIMEOUT_MS: u64 = 1000;

/// How many bytes of a block are shown.
pub const SHOW_BYTES: usize = 32;

/// Progress of the capture loop.
pub struct CaptureState {
    /// Bulk reads started so far.
    pub iterations: u64,
    /// Bytes received so far.
    pub total_bytes: u64,
    /// Whether blocks still go to the output file.
    pub file_output: bool,
}

/// What the loop does after a bulk read.
pub enum CaptureAction {
    /// A block arrived: append it to the file if `write_to_file`, and if
    /// `report`, log it with its first `show` bytes.
    Block { write_to_file: bool, report: bool, show: usize },
    /// The read timed out; log that if `report`.
    TimedOut { report: bool },
    /// The endpoint stalled: clear the halt, then go on or stop.
    ClearHalt,
    /// Any other error: stop the loop.
    Stop,
}

/// Blocks of the first five reads and of every hundredth are logged.
pub open spec fn reported_block(iteration: u64) -> bool {
    iteration <= 5 || iteration % 100 == 0
}

/// The state after a read with outcome `r`.
pub open spec fn after_read(s: CaptureState, r: Result<usize, rusb::Error>) -> CaptureState {
    match r {
        Ok(n) => CaptureState { total_bytes: (s.total_bytes + n) as u64, ..s },
        Err(_) => s,
    }
}

/// The action for a read with outcome `r` in state `s`.
pub open spec fn action_for(s: CaptureState, r: Result<usize, rusb::Error>) -> CaptureAction {
    match r {
        Ok(n) => CaptureAction::Block {
            write_to_file: s.file_output,
            report: reported_block(s.iterations),
            show: if n < SHOW_BYTES { n } else { SHOW_BYTES },
        },
        Err(rusb::Error::Timeout) => CaptureAction::TimedOut { report: s.iterations % 100 == 0 },
        Err(rusb::Error::Pipe) => CaptureAction::ClearHalt,
        Err(_) => CaptureAction::Stop,
    }
}

/// The bytes received in the successful reads of `rs`.
pub open spec fn bytes_received(rs: Seq<Result<usize, rusb::Error>>) -> int
    decreases rs.len(),
{
    if rs.len() == 0 {
        0
    } else {
        bytes_received(rs.drop_last()) + match rs.last() {
            Ok(n) => n as int,
            Err(_) => 0,
        }
    }
}

/// The state after the reads `rs`, one iteration each.
pub open spec fn after_reads(s: CaptureState, rs: Seq<Result<usize, rusb::Error>>) -> CaptureState
    decreases rs.len(),
{
    if rs.len() == 0 {
        s
    } else {
        let prev = after_reads(s, rs.drop_last());
        after_read(CaptureState { iterations: (prev.iterations + 1) as u64, ..prev }, rs.last())
    }
}

/// Over any sequence of reads that stays within the counters' range, the
/// byte total grows by exactly the bytes of the successful reads, the
/// iteration count by the number of reads, and the file output switch is
/// untouched.
pub proof fn lemma_capture_totals(s: CaptureState, rs: Seq<Result<usize, rusb::Error>>)
    requires
        s.iterations + rs.len() <= u64::MAX,
        s.total_bytes + bytes_received(rs) <= u64::MAX,
    ensures
        after_reads(s, rs).total_bytes == s.total_bytes + bytes_received(rs),
        after_reads(s, rs).iterations == s.iterations + rs.len(),
        after_reads(s, rs).file_output == s.file_output,
    decreases rs.len(),
{
    if rs.len() > 0 {
        let init = rs.drop_last();
        assert(bytes_received(init) <= bytes_received(rs)) by {
            match rs.last() {
                Ok(n) => {},
                Err(_) => {},
            }
        }
        lemma_capture_totals(s, init);
    }
}

impl CaptureState {
    /// A fresh loop, writing to the output file when `file_output`.
    pub fn new(file_output: bool) -> (s: CaptureState)
        ensures
            s.iterations == 0,
            s.total_bytes == 0,
            s.file_output == file_output,
    {
        CaptureState { iterations: 0, total_bytes: 0, file_output }
    }

    /// Counts the start of a new bulk read.
    pub fn start_iteration(&mut self)
        requires
            old(self).iterations < u64::MAX,
        ensures
            final(self).iterations == old(self).iterations + 1,
            final(self).total_bytes == old(self).total_bytes,
            final(self).file_output == old(self).file_output,
    {
        self.iterations = self.iterations + 1;
    }

    /// Takes in the outcome of the current bulk read and says what to do.
    pub fn on_bulk_result(&mut self, r: &Result<usize, rusb::Error>) -> (action: CaptureAction)
        requires
            *r matches Ok(n) ==> old(self).total_bytes + n <= u64::MAX,
        ensures
            *final(self) == after_read(*old(self), *r),
            action == action_for(*old(self), *r),
    {
        match r {
            Ok(n) => {
                self.total_bytes = self.total_bytes + *n as u64;
                let show = if *n < SHOW_BYTES {
                    *n
                } else {
                    SHOW_BYTES
                };
                CaptureAction::Block {
                    write_to_file: self.file_output,
                    report: self.iterations <= 5 || self.iterations % 100 == 0,
                    show,
                }
            },
            Err(rusb::Error::Timeout) => CaptureAction::TimedOut { report: self.iterations % 100 == 0 },
            Err(rusb::Error::Pipe) => CaptureAction::ClearHalt,
            Err(_) => CaptureAction::Stop,
        }
    }

    /// Stops writing blocks to the output file after a failed write.
    pub fn disable_file_output(&mut self)
        ensures
            final(self).file_output == false,
            final(self).iterations == old(self).iterations,
            final(self).total_bytes == old(self).total_bytes,
    {
        self.file_output = false;
    }
}

/// Whether the loop goes on after clearing a stalled endpoint: only if
/// clearing the halt worked.
pub fn continue_after_clear_halt(r: &Result<(), rusb::Error>) -> (go_on: bool)
    ensures
        go_on == r is Ok,
{
    r.is_ok()
}

} // verus!
