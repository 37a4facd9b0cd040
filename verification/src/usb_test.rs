//! The USB test server: its name, the requests it answers, the
//! subscription it passes on to its connection manager, and what it does to
//! the buffer a client lends it.
use vstd::prelude::*;

verus! {

/// The name under which the server registers.
pub const SERVER_NAME_USBTEST: &'static str = "_USB test and development server_";

/// Requests the USB test server answers, numbered from zero in this order.
#[derive(Copy, Clone, Debug, PartialEq, Eq, Structural)]
pub enum Opcode {
    /// A test opcode
    Test1,
    /// a test case
    SubscribeWifiStats,
    /// Suspend/resume callback
    SuspendResume,
    /// Exits the server
    Quit,
}

/// The message number of each request.
pub open spec fn opcode_number(op: Opcode) -> nat {
    match op {
        Opcode::Test1 => 0,
        Opcode::SubscribeWifiStats => 1,
        Opcode::SuspendResume => 2,
        Opcode::Quit => 3,
    }
}

impl Opcode {
    /// The request that a message number stands for, if any.
    pub fn from_usize(n: usize) -> (op: Option<Opcode>)
        ensures
            op is Some <==> n < 4,
            op matches Some(o) ==> opcode_number(o) == n,
    {
        match n {
            0 => Some(Opcode::Test1),
            1 => Some(Opcode::SubscribeWifiStats),
            2 => Some(Opcode::SuspendResume),
            3 => Some(Opcode::Quit),
            _ => None,
        }
    }

    /// The message number of this request.
    pub fn to_usize(&self) -> (n: usize)
        ensures
            n == opcode_number(*self),
    {
        match self {
            Opcode::Test1 => 0,
            Opcode::SubscribeWifiStats => 1,
            Opcode::SuspendResume => 2,
            Opcode::Quit => 3,
        }
    }

    /// The message number of this request, as a `u32`.
    pub fn to_u32(&self) -> (n: u32)
        ensures
            n == opcode_number(*self),
    {
        match self {
            Opcode::Test1 => 0,
            Opcode::SubscribeWifiStats => 1,
            Opcode::SuspendResume => 2,
            Opcode::Quit => 3,
        }
    }
}

/// Distinct requests have distinct numbers, and every number below four
/// stands for exactly one request.
pub proof fn lemma_opcode_numbering(a: Opcode, b: Opcode)
    ensures
        opcode_number(a) < 4,
        opcode_number(a) == opcode_number(b) ==> a == b,
{
}

/// Requests the connection manager answers, numbered from zero in this
/// order.
#[derive(Copy, Clone, Debug, PartialEq, Eq, Structural)]
pub enum ConnectionManagerOpcode {
    SubscribeWifiStats,
    Quit,
}

/// The message number of each connection manager request.
pub open spec fn cm_opcode_number(op: ConnectionManagerOpcode) -> nat {
    match op {
        ConnectionManagerOpcode::SubscribeWifiStats => 0,
        ConnectionManagerOpcode::Quit => 1,
    }
}

impl ConnectionManagerOpcode {
    /// The request that a message number stands for, if any.
    pub fn from_usize(n: usize) -> (op: Option<ConnectionManagerOpcode>)
        ensures
            op is Some <==> n < 2,
            op matches Some(o) ==> cm_opcode_number(o) == n,
    {
        match n {
            0 => Some(ConnectionManagerOpcode::SubscribeWifiStats),
            1 => Some(ConnectionManagerOpcode::Quit),
            _ => None,
        }
    }

    /// The message number of this request.
    pub fn to_usize(&self) -> (n: usize)
        ensures
            n == cm_opcode_number(*self),
    {
        match self {
            ConnectionManagerOpcode::SubscribeWifiStats => 0,
            ConnectionManagerOpcode::Quit => 1,
        }
    }

    /// The message number of this request, as a `u32`.
    pub fn to_u32(&self) -> (n: u32)
        ensures
            n == cm_opcode_number(*self),
    {
        match self {
            ConnectionManagerOpcode::SubscribeWifiStats => 0,
            ConnectionManagerOpcode::Quit => 1,
        }
    }
}

/// Distinct connection manager requests have distinct numbers.
pub proof fn lemma_cm_opcode_numbering(a: ConnectionManagerOpcode, b: ConnectionManagerOpcode)
    ensures
        cm_opcode_number(a) < 2,
        cm_opcode_number(a) == cm_opcode_number(b) ==> a == b,
{
}

/// A request to be told about the state of the WiFi link: the server to
/// notify and the message number to notify it with.
#[derive(Debug, Copy, Clone)]
pub struct WifiStateSubscription {
    pub sid: [u32; 4],
    pub opcode: u32,
}

/// The USB test device. On the hosted platform there is no hardware, so it
/// holds nothing and suspending and resuming do nothing.
pub struct UsbTest {}

impl UsbTest {
    pub fn new() -> (t: UsbTest) {
        UsbTest {  }
    }

    pub fn suspend(&self) {
    }

    pub fn resume(&self) {
    }
}

/// The `Test1` request: every byte of the lent buffer goes up by one.
/// A byte already at 255 has no successor.
pub fn increment_bytes(buf: &mut [u8])
    requires
        forall|i: int| 0 <= i < old(buf)@.len() ==> old(buf)@[i] < 255,
    ensures
        final(buf)@.len() == old(buf)@.len(),
        forall|i: int| 0 <= i < old(buf)@.len() ==> #[trigger] final(buf)@[i] == old(buf)@[i] + 1,
{
    let n = buf.len();
    let mut i: usize = 0;
    while i < n
        invariant
            n == old(buf)@.len(),
            buf@.len() == n,
            i <= n,
            forall|j: int| 0 <= j < i ==> #[trigger] buf@[j] == old(buf)@[j] + 1,
            forall|j: int| i <= j < n ==> #[trigger] buf@[j] == old(buf)@[j],
            forall|j: int| 0 <= j < n ==> old(buf)@[j] < 255,
        decreases n - i,
    {
        let b = buf[i];
        buf[i] = b + 1;
        i = i + 1;
    }
}

} // verus!
