//! The USB device handle, the ghost record of the control transfers and
//! endpoint operations made through it, and the trusted calls into `rusb`.
use vstd::prelude::*;

verus! {

/// `rusb::Error`, the error of every USB call: a plain enum without fields,
/// whose variants the driver returns and matches.
#[verifier::external_type_specification]
pub struct ExUsbError(rusb::Error);

/// An open `rusb` device handle, carried as an opaque value: nothing of it
/// is read but through the calls of `RtlDevice`.
#[verifier::external_body]
pub struct UsbHandle(pub rusb::DeviceHandle<rusb::GlobalContext>);

/// bmRequestType of a vendor request, device to host.
pub const CTRL_IN: u8 = 0xC0;

/// bmRequestType of a vendor request, host to device.
pub const CTRL_OUT: u8 = 0x40;

/// Timeout of every control transfer, in milliseconds.
pub const CTRL_TIMEOUT_MS: u64 = 1000;

/// One control transfer as the device saw it: the setup packet, the bytes
/// that travelled (sent for an OUT transfer, in the buffer afterwards for an
/// IN transfer), the timeout given, and what the call returned.
pub struct ControlTransfer {
    pub request_type: u8,
    pub request: u8,
    pub value: u16,
    pub index: u16,
    pub data: Seq<u8>,
    pub timeout_ms: u64,
    pub outcome: Result<usize, rusb::Error>,
}

/// A vendor OUT request with bRequest 0: the setup words and the payload.
pub struct OutRequest {
    pub value: u16,
    pub index: u16,
    pub data: Seq<u8>,
}

/// `t` is a vendor read (bRequest 0) of `len` bytes at `value`/`index`.
pub open spec fn is_vendor_read(t: ControlTransfer, value: u16, index: u16, len: nat) -> bool {
    &&& t.request_type == CTRL_IN
    &&& t.request == 0
    &&& t.value == value
    &&& t.index == index
    &&& t.data.len() == len
    &&& t.timeout_ms == CTRL_TIMEOUT_MS
}

/// `t` is the vendor write `w`.
pub open spec fn is_vendor_write(t: ControlTransfer, w: OutRequest) -> bool {
    &&& t.request_type == CTRL_OUT
    &&& t.request == 0
    &&& t.value == w.value
    &&& t.index == w.index
    &&& t.data == w.data
    &&& t.timeout_ms == CTRL_TIMEOUT_MS
}

/// Success or failure of a transfer, forgetting the byte count.
pub open spec fn completion(outcome: Result<usize, rusb::Error>) -> Result<(), rusb::Error> {
    match outcome {
        Ok(_) => Ok(()),
        Err(e) => Err(e),
    }
}

/// `after` is `before` with transfers added at the end.
pub open spec fn extends(before: Seq<ControlTransfer>, after: Seq<ControlTransfer>) -> bool {
    before.len() <= after.len() && after.subrange(0, before.len() as int) == before
}

/// The transfers that `after` has beyond `before`.
pub open spec fn added(before: Seq<ControlTransfer>, after: Seq<ControlTransfer>) -> Seq<
    ControlTransfer,
> {
    after.subrange(before.len() as int, after.len() as int)
}

/// `ops` is what making the writes of `plan` in order leaves in the record,
/// where the first failed transfer ends the run, and `result` is what the
/// run reports: success when every write went through, else the first error.
pub open spec fn ran_writes(
    ops: Seq<ControlTransfer>,
    plan: Seq<OutRequest>,
    result: Result<(), rusb::Error>,
) -> bool {
    &&& ops.len() <= plan.len()
    &&& forall|i: int| 0 <= i < ops.len() ==> is_vendor_write(#[trigger] ops[i], plan[i])
    &&& forall|i: int| 0 <= i < ops.len() - 1 ==> (#[trigger] ops[i]).outcome is Ok
    &&& match result {
        Ok(()) => ops.len() == plan.len() && (ops.len() > 0 ==> ops.last().outcome is Ok),
        Err(e) => ops.len() > 0 && ops.last().outcome == Err::<usize, rusb::Error>(e),
    }
}

/// `ops` runs the writes of `plan`; when they all go through, the caller
/// then reports `then`, otherwise the first failed write's error.
pub open spec fn ran_writes_then(
    ops: Seq<ControlTransfer>,
    plan: Seq<OutRequest>,
    then: Result<(), rusb::Error>,
    result: Result<(), rusb::Error>,
) -> bool {
    match result {
        Ok(()) => then is Ok && ran_writes(ops, plan, Ok(())),
        Err(e) => ran_writes(ops, plan, Err(e)) || (ran_writes(ops, plan, Ok(())) && then == Err::<
            (),
            rusb::Error,
        >(e)),
    }
}

/// The first transfer of `ops` is a one-byte vendor read at `value` and
/// `index`. When it fails the run ends with its error; when it succeeds the
/// rest of `ops` runs the writes that `writes` gives for the byte read.
pub open spec fn read_modify_write_ran(
    ops: Seq<ControlTransfer>,
    value: u16,
    index: u16,
    writes: spec_fn(u8) -> Seq<OutRequest>,
    result: Result<(), rusb::Error>,
) -> bool {
    &&& ops.len() >= 1
    &&& is_vendor_read(ops[0], value, index, 1)
    &&& match ops[0].outcome {
        Err(e) => ops.len() == 1 && result == Err::<(), rusb::Error>(e),
        Ok(_) => ran_writes(ops.skip(1), writes(ops[0].data[0]), result),
    }
}

pub proof fn lemma_extends_push(before: Seq<ControlTransfer>, t: ControlTransfer)
    ensures
        extends(before, before.push(t)),
        added(before, before.push(t)) == seq![t],
{
    assert(before.push(t).subrange(0, before.len() as int) =~= before);
    assert(added(before, before.push(t)) =~= seq![t]);
}

pub proof fn lemma_extends_refl(s: Seq<ControlTransfer>)
    ensures
        extends(s, s),
        added(s, s) == Seq::<ControlTransfer>::empty(),
{
    assert(s.subrange(0, s.len() as int) =~= s);
    assert(added(s, s) =~= Seq::<ControlTransfer>::empty());
}

pub proof fn lemma_extends_trans(
    a: Seq<ControlTransfer>,
    b: Seq<ControlTransfer>,
    c: Seq<ControlTransfer>,
)
    requires
        extends(a, b),
        extends(b, c),
    ensures
        extends(a, c),
        added(a, c) == added(a, b) + added(b, c),
{
    assert(c.subrange(0, a.len() as int) =~= b.subrange(0, a.len() as int)) by {
        assert forall|i: int| 0 <= i < a.len() implies c.subrange(0, a.len() as int)[i]
            == b.subrange(0, a.len() as int)[i] by {
            assert(c[i] == c.subrange(0, b.len() as int)[i]);
        }
    }
    assert(added(a, c) =~= added(a, b) + added(b, c)) by {
        assert forall|i: int| 0 <= i < b.len() - a.len() implies added(a, c)[i] == added(a, b)[i] by {
            assert(c[a.len() + i] == c.subrange(0, b.len() as int)[a.len() + i]);
        }
    }
}

/// A finished run of `p` followed by a run of `q` is a run of `p + q`.
pub proof fn lemma_ran_writes_concat(
    a: Seq<ControlTransfer>,
    p: Seq<OutRequest>,
    b: Seq<ControlTransfer>,
    q: Seq<OutRequest>,
    r: Result<(), rusb::Error>,
)
    requires
        ran_writes(a, p, Ok(())),
        ran_writes(b, q, r),
    ensures
        ran_writes(a + b, p + q, r),
{
    let ab = a + b;
    let pq = p + q;
    assert forall|i: int| 0 <= i < ab.len() implies is_vendor_write(#[trigger] ab[i], pq[i]) by {
        if i < a.len() {
            assert(is_vendor_write(a[i], p[i]));
        } else {
            assert(is_vendor_write(b[i - a.len()], q[i - a.len()]));
        }
    }
    assert forall|i: int| 0 <= i < ab.len() - 1 implies (#[trigger] ab[i]).outcome is Ok by {
        if i < a.len() {
            if i < a.len() - 1 {
                assert(a[i].outcome is Ok);
            } else {
                assert(a.last().outcome is Ok);
            }
        } else {
            assert(b[i - a.len()].outcome is Ok);
        }
    }
    if b.len() == 0 {
        assert(ab =~= a);
    } else {
        assert(ab.last() == b.last());
    }
}

/// A failed run of `p` is also a failed run of `p + q`.
pub proof fn lemma_ran_writes_failed_prefix(
    a: Seq<ControlTransfer>,
    p: Seq<OutRequest>,
    q: Seq<OutRequest>,
    e: rusb::Error,
)
    requires
        ran_writes(a, p, Err(e)),
    ensures
        ran_writes(a, p + q, Err(e)),
{
    assert forall|i: int| 0 <= i < a.len() implies is_vendor_write(#[trigger] a[i], (p + q)[i]) by {
        assert(is_vendor_write(a[i], p[i]));
    }
}

/// A bulk read or a halt clear on a data endpoint, as the device saw it.
pub enum EndpointOp {
    /// A bulk read from `endpoint` into a buffer of `len` bytes, holding
    /// `data` afterwards, waiting up to `timeout_ms`.
    BulkRead {
        endpoint: u8,
        len: nat,
        data: Seq<u8>,
        timeout_ms: u64,
        outcome: Result<usize, rusb::Error>,
    },
    /// Clearing a halt (STALL) on `endpoint`.
    ClearHalt { endpoint: u8, outcome: Result<(), rusb::Error> },
}

/// An open RTL2832U together with the sequence of control transfers, and
/// the sequence of data endpoint operations, that the library has issued to
/// it.
pub struct RtlDevice {
    usb: UsbHandle,
    log: Ghost<Seq<ControlTransfer>>,
    endpoint_log: Ghost<Seq<EndpointOp>>,
}

impl RtlDevice {
    /// Every control transfer made through this device, oldest first.
    pub closed spec fn transfers(&self) -> Seq<ControlTransfer> {
        self.log@
    }

    /// Every bulk read and halt clear made through this device, oldest first.
    pub closed spec fn endpoint_ops(&self) -> Seq<EndpointOp> {
        self.endpoint_log@
    }

    pub fn new(usb: UsbHandle) -> (dev: RtlDevice)
        ensures
            dev.transfers() == Seq::<ControlTransfer>::empty(),
            dev.endpoint_ops() == Seq::<EndpointOp>::empty(),
    {
        RtlDevice { usb, log: Ghost(Seq::empty()), endpoint_log: Ghost(Seq::empty()) }
    }

    /// Calls `rusb::DeviceHandle::read_control` with a timeout of at least 1 ms
    /// that fits the 32-bit millisecond count the crate hands to libusb (a
    /// shorter one blocks forever), on a buffer whose length fits the 16-bit
    /// wLength. Claims: the buffer keeps its length, a success reports no more
    /// bytes than the buffer holds (the crate documents that `n` bytes were
    /// read into it), a request type without the IN direction bit is refused
    /// with `InvalidParam`, and the transfer is appended to the record, with
    /// the buffer as it is after the call. What the device sends is not stated.
    #[verifier::external_body]
    pub(crate) fn read_control(
        &mut self,
        request_type: u8,
        request: u8,
        value: u16,
        index: u16,
        buf: &mut [u8],
        timeout_ms: u64,
    ) -> (result: Result<usize, rusb::Error>)
        requires
            1 <= timeout_ms <= u32::MAX,
            old(buf)@.len() <= 0xFFFF,
        ensures
            request_type & 0x80 != 0x80 ==> result matches Err(rusb::Error::InvalidParam),
            final(buf)@.len() == old(buf)@.len(),
            result matches Ok(n) ==> n <= old(buf)@.len(),
            final(self).transfers() == old(self).transfers().push(
                ControlTransfer {
                    request_type,
                    request,
                    value,
                    index,
                    data: final(buf)@,
                    timeout_ms,
                    outcome: result,
                },
            ),
            final(self).endpoint_ops() == old(self).endpoint_ops(),
    {
        let timeout = std::time::Duration::from_millis(timeout_ms);
        self.usb.0.read_control(request_type, request, value, index, buf, timeout)
    }

    /// Calls `rusb::DeviceHandle::write_control` with a timeout of at least 1
    /// ms that fits the 32-bit millisecond count (a shorter one blocks
    /// forever), on data whose length fits the 16-bit wLength. Claims: a
    /// success reports no more bytes than were handed over (the crate documents
    /// that `n` bytes of the buffer were transferred), a request type with the
    /// IN direction bit is refused with `InvalidParam`, and the transfer is
    /// appended to the record. Whether the device accepts it is not stated.
    #[verifier::external_body]
    pub(crate) fn write_control(
        &mut self,
        request_type: u8,
        request: u8,
        value: u16,
        index: u16,
        data: &[u8],
        timeout_ms: u64,
    ) -> (result: Result<usize, rusb::Error>)
        requires
            1 <= timeout_ms <= u32::MAX,
            data@.len() <= 0xFFFF,
        ensures
            request_type & 0x80 != 0 ==> result matches Err(rusb::Error::InvalidParam),
            result matches Ok(n) ==> n <= data@.len(),
            final(self).transfers() == old(self).transfers().push(
                ControlTransfer {
                    request_type,
                    request,
                    value,
                    index,
                    data: data@,
                    timeout_ms,
                    outcome: result,
                },
            ),
            final(self).endpoint_ops() == old(self).endpoint_ops(),
    {
        let timeout = std::time::Duration::from_millis(timeout_ms);
        self.usb.0.write_control(request_type, request, value, index, data, timeout)
    }

    /// Calls `rusb::DeviceHandle::read_bulk` with a timeout of at least 1 ms
    /// that fits the 32-bit millisecond count (a shorter one blocks forever),
    /// on a buffer whose length fits the C `int` length. Claims: the buffer
    /// keeps its length, a success reports no more bytes than the buffer holds
    /// (the crate documents that `n` bytes were read into it), an endpoint
    /// address without the IN bit is refused with `InvalidParam`, the read is
    /// appended to the endpoint record and the control-transfer record is
    /// unchanged. What the device sends is not stated.
    #[verifier::external_body]
    fn bulk_read(&mut self, endpoint: u8, buf: &mut [u8], timeout_ms: u64) -> (result: Result<
        usize,
        rusb::Error,
    >)
        requires
            1 <= timeout_ms <= u32::MAX,
            old(buf)@.len() <= i32::MAX,
        ensures
            endpoint & 0x80 != 0x80 ==> result matches Err(rusb::Error::InvalidParam),
            final(buf)@.len() == old(buf)@.len(),
            result matches Ok(n) ==> n <= old(buf)@.len(),
            final(self).transfers() == old(self).transfers(),
            final(self).endpoint_ops() == old(self).endpoint_ops().push(
                EndpointOp::BulkRead {
                    endpoint,
                    len: old(buf)@.len(),
                    data: final(buf)@,
                    timeout_ms,
                    outcome: result,
                },
            ),
    {
        let timeout = std::time::Duration::from_millis(timeout_ms);
        self.usb.0.read_bulk(endpoint, buf, timeout)
    }

    /// Calls `rusb::DeviceHandle::clear_halt`. Claims that the call is
    /// appended to the endpoint record and the control-transfer record is
    /// unchanged; the outcome is the device's and is not stated.
    #[verifier::external_body]
    fn halt_clear(&mut self, endpoint: u8) -> (result: Result<(), rusb::Error>)
        ensures
            final(self).transfers() == old(self).transfers(),
            final(self).endpoint_ops() == old(self).endpoint_ops().push(
                EndpointOp::ClearHalt { endpoint, outcome: result },
            ),
    {
        self.usb.0.clear_halt(endpoint)
    }

    /// Reads from a bulk IN endpoint into `buf`, waiting up to `timeout_ms`
    /// (at least 1 ms).
    pub fn read_bulk(&mut self, endpoint: u8, buf: &mut [u8], timeout_ms: u64) -> (result: Result<
        usize,
        rusb::Error,
    >)
        requires
            1 <= timeout_ms <= u32::MAX,
            old(buf)@.len() <= i32::MAX,
        ensures
            endpoint & 0x80 != 0x80 ==> result matches Err(rusb::Error::InvalidParam),
            final(buf)@.len() == old(buf)@.len(),
            result matches Ok(n) ==> n <= old(buf)@.len(),
            final(self).transfers() == old(self).transfers(),
            final(self).endpoint_ops() == old(self).endpoint_ops().push(
                EndpointOp::BulkRead {
                    endpoint,
                    len: old(buf)@.len(),
                    data: final(buf)@,
                    timeout_ms,
                    outcome: result,
                },
            ),
    {
        self.bulk_read(endpoint, buf, timeout_ms)
    }
}

/// Clears a STALL condition on a bulk endpoint.
pub fn clear_bulk_endpoint_halt(dev: &mut RtlDevice, endpoint: u8) -> (result: Result<
    (),
    rusb::Error,
>)
    ensures
        final(dev).transfers() == old(dev).transfers(),
        final(dev).endpoint_ops() == old(dev).endpoint_ops().push(
            EndpointOp::ClearHalt { endpoint, outcome: result },
        ),
{
    dev.halt_clear(endpoint)
}

} // verus!
