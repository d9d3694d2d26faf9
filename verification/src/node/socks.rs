//! SOCKS5 as far as a local application needs it: `CONNECT`, without authentication.
//!
//! The dialogue is a state machine. It says how many bytes to read next; given them,
//! it says what to write and how to go on.

use crate::text;
use crate::wire::address::{Addr, AddrView};
use crate::wire::octets;
use vstd::prelude::*;

verus! {

const VER: u8 = 5;

const CMD_CONNECT: u8 = 1;

const ATYP_IPV4: u8 = 1;

const ATYP_DOMAIN: u8 = 3;

const ATYP_IPV6: u8 = 4;

/// Why a dialogue failed.
#[derive(Debug, Clone, Copy, PartialEq, Eq, Structural)]
pub enum SocksError {
    /// The greeting is not SOCKS5.
    NotSocks5,
    /// The request is not SOCKS5.
    BadRequestVersion,
    /// The command is not `CONNECT`.
    NotConnect,
    /// The domain name is not UTF-8.
    DomainNotUtf8,
    /// The address type is unknown.
    BadAddressType,
}

/// Where a dialogue stands: what is read next.
#[derive(Debug, Clone, PartialEq, Eq)]
pub enum SocksState {
    /// Version and number of methods.
    Greeting,
    /// The methods.
    Methods { count: u8 },
    /// Version, command, a reserved byte and the address type.
    Request,
    /// An IPv4 address.
    Ipv4,
    /// The length of a domain name.
    DomainLen,
    /// A domain name.
    Domain { len: u8 },
    /// An IPv6 address.
    Ipv6,
    /// The port.
    Port { addr: Addr },
}

/// What a state says.
pub enum StateView {
    Greeting,
    Methods { count: u8 },
    Request,
    Ipv4,
    DomainLen,
    Domain { len: u8 },
    Ipv6,
    Port { addr: AddrView },
}

impl View for SocksState {
    type V = StateView;

    open spec fn view(&self) -> StateView {
        match self {
            SocksState::Greeting => StateView::Greeting,
            SocksState::Methods { count } => StateView::Methods { count: *count },
            SocksState::Request => StateView::Request,
            SocksState::Ipv4 => StateView::Ipv4,
            SocksState::DomainLen => StateView::DomainLen,
            SocksState::Domain { len } => StateView::Domain { len: *len },
            SocksState::Ipv6 => StateView::Ipv6,
            SocksState::Port { addr } => StateView::Port { addr: addr@ },
        }
    }
}

/// How a dialogue goes on.
#[derive(Debug, Clone, PartialEq, Eq)]
pub enum SocksStep {
    /// Write `reply`, which may be empty, and read for `state`.
    Next { state: SocksState, reply: Vec<u8> },
    /// Write `reply` and connect.
    Done { addr: Addr, port: u16, reply: Vec<u8> },
    /// Write `reply`, which may be empty, and give up.
    Failed { error: SocksError, reply: Vec<u8> },
}

/// What a step says.
pub enum StepView {
    Next { state: StateView, reply: Seq<u8> },
    Done { addr: AddrView, port: u16, reply: Seq<u8> },
    Failed { error: SocksError, reply: Seq<u8> },
}

impl View for SocksStep {
    type V = StepView;

    open spec fn view(&self) -> StepView {
        match self {
            SocksStep::Next { state, reply } => StepView::Next { state: state@, reply: reply@ },
            SocksStep::Done { addr, port, reply } => StepView::Done {
                addr: addr@,
                port: *port,
                reply: reply@,
            },
            SocksStep::Failed { error, reply } => StepView::Failed {
                error: *error,
                reply: reply@,
            },
        }
    }
}

/// A reply with this code and the address `0.0.0.0:0`.
pub open spec fn reply_bytes(code: u8) -> Seq<u8> {
    seq![5u8, code, 0, 1, 0, 0, 0, 0, 0, 0]
}

impl StateView {
    /// How many bytes are read next.
    pub open spec fn need(self) -> nat {
        match self {
            StateView::Greeting => 2,
            StateView::Methods { count } => count as nat,
            StateView::Request => 4,
            StateView::Ipv4 => 4,
            StateView::DomainLen => 1,
            StateView::Domain { len } => len as nat,
            StateView::Ipv6 => 16,
            StateView::Port { addr } => 2,
        }
    }

    /// How the dialogue goes on when these bytes were read.
    pub open spec fn step(self, b: Seq<u8>) -> StepView {
        let none = Seq::<u8>::empty();
        match self {
            StateView::Greeting => if b[0] != 5 {
                StepView::Failed { error: SocksError::NotSocks5, reply: none }
            } else {
                StepView::Next { state: StateView::Methods { count: b[1] }, reply: none }
            },
            StateView::Methods { count } => StepView::Next {
                state: StateView::Request,
                reply: seq![5u8, 0u8],
            },
            StateView::Request => if b[0] != 5 {
                StepView::Failed { error: SocksError::BadRequestVersion, reply: none }
            } else if b[1] != 1 {
                StepView::Failed { error: SocksError::NotConnect, reply: reply_bytes(7) }
            } else if b[3] == 1 {
                StepView::Next { state: StateView::Ipv4, reply: none }
            } else if b[3] == 3 {
                StepView::Next { state: StateView::DomainLen, reply: none }
            } else if b[3] == 4 {
                StepView::Next { state: StateView::Ipv6, reply: none }
            } else {
                StepView::Failed { error: SocksError::BadAddressType, reply: reply_bytes(8) }
            },
            StateView::Ipv4 => StepView::Next {
                state: StateView::Port { addr: AddrView::Ipv4(b) },
                reply: none,
            },
            StateView::DomainLen => StepView::Next {
                state: StateView::Domain { len: b[0] },
                reply: none,
            },
            StateView::Domain { len } => if vstd::utf8::valid_utf8(b) {
                StepView::Next {
                    state: StateView::Port { addr: AddrView::Domain(vstd::utf8::decode_utf8(b)) },
                    reply: none,
                }
            } else {
                StepView::Failed { error: SocksError::DomainNotUtf8, reply: none }
            },
            StateView::Ipv6 => StepView::Next {
                state: StateView::Port { addr: AddrView::Ipv6(b) },
                reply: none,
            },
            StateView::Port { addr } => StepView::Done {
                addr,
                port: octets::be16_value(b[0], b[1]) as u16,
                reply: reply_bytes(0),
            },
        }
    }
}

/// A reply with this code and the address `0.0.0.0:0`.
fn reply(code: u8) -> (r: Vec<u8>)
    ensures
        r@ == reply_bytes(code),
{
    let r: Vec<u8> = vec![VER, code, 0, ATYP_IPV4, 0, 0, 0, 0, 0, 0];
    assert(r@ =~= reply_bytes(code));
    r
}

fn next(state: SocksState) -> (s: SocksStep)
    ensures
        s@ == (StepView::Next { state: state@, reply: Seq::<u8>::empty() }),
{
    SocksStep::Next { state, reply: Vec::new() }
}

fn failed(error: SocksError) -> (s: SocksStep)
    ensures
        s@ == (StepView::Failed { error, reply: Seq::<u8>::empty() }),
{
    SocksStep::Failed { error, reply: Vec::new() }
}

impl SocksState {
    /// A dialogue begins.
    pub fn new() -> (s: Self)
        ensures
            s@ == StateView::Greeting,
    {
        SocksState::Greeting
    }

    /// How many bytes to read next.
    pub fn need(&self) -> (n: usize)
        ensures
            n == self@.need(),
    {
        match self {
            SocksState::Greeting => 2,
            SocksState::Methods { count } => *count as usize,
            SocksState::Request => 4,
            SocksState::Ipv4 => 4,
            SocksState::DomainLen => 1,
            SocksState::Domain { len } => *len as usize,
            SocksState::Ipv6 => 16,
            SocksState::Port { .. } => 2,
        }
    }

    /// Goes on with the bytes that were read.
    pub fn step(self, bytes: &[u8]) -> (s: SocksStep)
        requires
            bytes@.len() == self@.need(),
        ensures
            s@ == self@.step(bytes@),
    {
        match self {
            SocksState::Greeting => {
                if bytes[0] != VER {
                    return failed(SocksError::NotSocks5);
                }
                next(SocksState::Methods { count: bytes[1] })
            },
            SocksState::Methods { .. } => {
                let accept: Vec<u8> = vec![VER, 0];
                assert(accept@ =~= seq![5u8, 0u8]);
                SocksStep::Next { state: SocksState::Request, reply: accept }
            },
            SocksState::Request => {
                if bytes[0] != VER {
                    return failed(SocksError::BadRequestVersion);
                }
                if bytes[1] != CMD_CONNECT {
                    return SocksStep::Failed { error: SocksError::NotConnect, reply: reply(7) };
                }
                match bytes[3] {
                    ATYP_IPV4 => next(SocksState::Ipv4),
                    ATYP_DOMAIN => next(SocksState::DomainLen),
                    ATYP_IPV6 => next(SocksState::Ipv6),
                    _ => SocksStep::Failed {
                        error: SocksError::BadAddressType,
                        reply: reply(8),
                    },
                }
            },
            SocksState::Ipv4 => {
                let ip: [u8; 4] = [bytes[0], bytes[1], bytes[2], bytes[3]];
                assert(ip@ =~= bytes@);
                next(SocksState::Port { addr: Addr::Ipv4(ip) })
            },
            SocksState::DomainLen => next(SocksState::Domain { len: bytes[0] }),
            SocksState::Domain { .. } => match text::from_utf8(bytes) {
                Some(name) => next(SocksState::Port { addr: Addr::Domain(name.to_owned()) }),
                None => failed(SocksError::DomainNotUtf8),
            },
            SocksState::Ipv6 => {
                let ip = octets::array16(bytes, 0);
                assert(ip@ =~= bytes@);
                next(SocksState::Port { addr: Addr::Ipv6(ip) })
            },
            SocksState::Port { addr } => {
                let port: u16 = octets::get_u16(bytes[0], bytes[1]);
                SocksStep::Done { addr, port, reply: reply(0) }
            },
        }
    }
}

/// The state and the bytes with which an address is sent behind a request.
pub open spec fn address_request(addr: AddrView) -> (u8, Seq<u8>) {
    match addr {
        AddrView::Ipv4(ip) => (1u8, ip),
        AddrView::Domain(d) => (3u8, vstd::utf8::encode_utf8(d)),
        AddrView::Ipv6(ip) => (4u8, ip),
    }
}

/// A client that offers any methods and asks to connect gets to the address and the
/// port that it named, with the replies of the protocol: the choice of no
/// authentication, and success.
pub proof fn law_connect_reaches_target(
    methods: Seq<u8>,
    reserved: u8,
    addr: AddrView,
    port: u16,
)
    requires
        methods.len() <= 255,
        addr.well_formed(),
        addr.fits(),
    ensures
        ({
            let (atyp, bytes) = address_request(addr);
            let none = Seq::<u8>::empty();
            let request = StateView::Request.step(seq![5u8, 1u8, reserved, atyp]);
            let at_address = match addr {
                AddrView::Ipv4(ip) => StateView::Ipv4,
                AddrView::Domain(d) => StateView::Domain { len: bytes.len() as u8 },
                AddrView::Ipv6(ip) => StateView::Ipv6,
            };
            &&& StateView::Greeting.step(seq![5u8, methods.len() as u8]) == (StepView::Next {
                state: StateView::Methods { count: methods.len() as u8 },
                reply: none,
            })
            &&& StateView::Methods { count: methods.len() as u8 }.need() == methods.len()
            &&& StateView::Methods { count: methods.len() as u8 }.step(methods) == (StepView::Next {
                state: StateView::Request,
                reply: seq![5u8, 0u8],
            })
            &&& request == (StepView::Next {
                state: if addr is Domain {
                    StateView::DomainLen
                } else {
                    at_address
                },
                reply: none,
            })
            &&& addr is Domain ==> StateView::DomainLen.step(seq![bytes.len() as u8]) == (
            StepView::Next { state: at_address, reply: none })
            &&& at_address.need() == bytes.len()
            &&& at_address.step(bytes) == (StepView::Next {
                state: StateView::Port { addr },
                reply: none,
            })
            &&& StateView::Port { addr }.step(octets::be16(port as int)) == (StepView::Done {
                addr,
                port,
                reply: reply_bytes(0),
            })
        }),
{
    broadcast use vstd::utf8::encode_utf8_decode_utf8;
    broadcast use vstd::utf8::encode_utf8_valid_utf8;

    octets::lemma_be16_value(port as int);
}

/// What a dialogue asks for and answers, byte by byte of the protocol: a greeting of version
/// 5 is followed by as many methods as it counts; any of them is answered with the choice of
/// no authentication; a request to connect names an IPv4 address with the type 1, a domain
/// with the type 3 and its length, an IPv6 address with the type 4.
pub proof fn law_dialogue(count: u8, b: Seq<u8>)
    ensures
        ({
            let none = Seq::<u8>::empty();
            let greeting = StateView::Greeting;
            let methods = StateView::Methods { count };
            let request = StateView::Request;
            let ipv4 = StateView::Ipv4;
            let ipv6 = StateView::Ipv6;
            let length = StateView::DomainLen;
            let name = StateView::Domain { len: count };
            &&& greeting.need() == 2
            &&& b.len() == 2 && b[0] == 5 && b[1] == count ==> greeting.step(b) == (StepView::Next {
                state: methods,
                reply: none,
            })
            &&& methods.need() == count
            &&& methods.step(b) == (StepView::Next { state: request, reply: seq![5u8, 0u8] })
            &&& request.need() == 4
            &&& b.len() == 4 && b[0] == 5 && b[1] == 1 ==> {
                let next = request.step(b);
                &&& b[3] == 1 <==> next == (StepView::Next { state: ipv4, reply: none })
                &&& b[3] == 3 <==> next == (StepView::Next { state: length, reply: none })
                &&& b[3] == 4 <==> next == (StepView::Next { state: ipv6, reply: none })
            }
            &&& ipv4.need() == 4
            &&& ipv4.step(b) == (StepView::Next {
                state: StateView::Port { addr: AddrView::Ipv4(b) },
                reply: none,
            })
            &&& length.need() == 1
            &&& b.len() == 1 && b[0] == count ==> length.step(b) == (StepView::Next {
                state: name,
                reply: none,
            })
            &&& name.need() == count
            &&& ipv6.need() == 16
            &&& ipv6.step(b) == (StepView::Next {
                state: StateView::Port { addr: AddrView::Ipv6(b) },
                reply: none,
            })
        }),
{
}

/// The end of a dialogue: the address is the one that was named before, the port is made of
/// the two bytes, the high one first, and the reply is success without an address.
pub proof fn law_dialogue_ends_at_target(addr: AddrView, b: Seq<u8>)
    requires
        b.len() == 2,
    ensures
        ({
            let at_port = StateView::Port { addr };
            &&& at_port.need() == 2
            &&& at_port.step(b) == (StepView::Done {
                addr,
                port: (256 * b[0] + b[1]) as u16,
                reply: seq![5u8, 0, 0, 1, 0, 0, 0, 0, 0, 0],
            })
        }),
{
}

/// A name is taken as it is, if it is UTF-8; anything else is given up without an answer.
pub proof fn law_named_domain(len: u8, name: Seq<char>, b: Seq<u8>)
    ensures
        ({
            let none = Seq::<u8>::empty();
            let at_name = StateView::Domain { len };
            &&& at_name.step(vstd::utf8::encode_utf8(name)) == (StepView::Next {
                state: StateView::Port { addr: AddrView::Domain(name) },
                reply: none,
            })
            &&& !vstd::utf8::valid_utf8(b) <==> at_name.step(b) == (StepView::Failed {
                error: SocksError::DomainNotUtf8,
                reply: none,
            })
        }),
{
    broadcast use vstd::utf8::encode_utf8_decode_utf8;
    broadcast use vstd::utf8::encode_utf8_valid_utf8;

}

/// What a dialogue is given up for, and what is answered: another version is not answered;
/// another command than to connect is answered with code 7, an unknown type of address with
/// code 8. The version is looked at first, then the command.
pub proof fn law_dialogue_refusals(b: Seq<u8>)
    ensures
        b.len() == 2 ==> (StateView::Greeting.step(b) is Failed <==> b[0] != 5),
        b.len() == 2 && b[0] != 5 ==> StateView::Greeting.step(b) == (StepView::Failed {
            error: SocksError::NotSocks5,
            reply: Seq::<u8>::empty(),
        }),
        b.len() == 4 ==> {
            let r = StateView::Request.step(b);
            &&& r is Failed <==> b[0] != 5 || b[1] != 1 || !(b[3] == 1 || b[3] == 3 || b[3] == 4)
            &&& b[0] != 5 ==> r == (StepView::Failed {
                error: SocksError::BadRequestVersion,
                reply: Seq::<u8>::empty(),
            })
            &&& b[0] == 5 && b[1] != 1 ==> r == (StepView::Failed {
                error: SocksError::NotConnect,
                reply: seq![5u8, 7, 0, 1, 0, 0, 0, 0, 0, 0],
            })
            &&& b[0] == 5 && b[1] == 1 && !(b[3] == 1 || b[3] == 3 || b[3] == 4) ==> r == (
            StepView::Failed {
                error: SocksError::BadAddressType,
                reply: seq![5u8, 8, 0, 1, 0, 0, 0, 0, 0, 0],
            })
        },
{
}

} // verus!
