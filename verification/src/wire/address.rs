//! Address frames: where a logical stream is to be connected.
//!
//! ```text
//! +-----------+--------+--------+-----------+---------+
//! |   2 B     |  1 B   |  2 B   |    1 B    |   N B   |
//! +-----------+--------+--------+-----------+---------+
//! | streamId  |  cmd   |  port  | addrType  |  addr   |
//! +-----------+--------+--------+-----------+---------+
//! ```
//!
//! An IPv4 address takes four bytes and an IPv6 address sixteen; a domain name is one
//! length byte and its UTF-8 bytes. A domain stays a name until the far end resolves
//! it, so that no DNS query of the near end tells where it leads.

use super::octets;
use crate::text;
use vstd::prelude::*;

verus! {

/// How to reach the target.
#[derive(Debug, Clone, Copy, PartialEq, Eq, Structural)]
pub enum Cmd {
    Tcp,
    Udp,
}

/// The address of a target.
#[derive(Debug, Clone, PartialEq, Eq)]
pub enum Addr {
    Ipv4([u8; 4]),
    /// A domain name of at most `MAX_DOMAIN_LEN` bytes.
    Domain(String),
    Ipv6([u8; 16]),
}

const ADDR_IPV4: u8 = 1;

const ADDR_DOMAIN: u8 = 2;

const ADDR_IPV6: u8 = 3;

/// The longest domain name in bytes: its length takes one byte.
pub const MAX_DOMAIN_LEN: usize = 255;

/// Why an address frame could not be written or read.
#[derive(Debug, Clone, Copy, PartialEq, Eq)]
pub enum AddressError {
    /// The buffer ends inside a field.
    Truncated { field: &'static str },
    /// The command byte stands for no command.
    BadCmd(u8),
    /// The address type byte stands for no address type.
    BadAddrType(u8),
    /// The domain name is longer than `MAX_DOMAIN_LEN` bytes.
    DomainTooLong(usize),
    /// The domain name is not UTF-8.
    DomainNotUtf8,
    /// Bytes are left over behind the address.
    TrailingBytes(usize),
}

/// Opens a logical stream to an address.
#[derive(Debug, Clone, PartialEq, Eq)]
pub struct AddressFrame {
    pub stream_id: u16,
    pub cmd: Cmd,
    pub port: u16,
    pub addr: Addr,
}

/// What an address is: its octets, or the characters of its name.
pub enum AddrView {
    Ipv4(Seq<u8>),
    Domain(Seq<char>),
    Ipv6(Seq<u8>),
}

/// What an address frame says.
pub struct AddressView {
    pub stream_id: u16,
    pub cmd: Cmd,
    pub port: u16,
    pub addr: AddrView,
}

impl View for Addr {
    type V = AddrView;

    open spec fn view(&self) -> AddrView {
        match self {
            Addr::Ipv4(ip) => AddrView::Ipv4(ip@),
            Addr::Domain(d) => AddrView::Domain(d@),
            Addr::Ipv6(ip) => AddrView::Ipv6(ip@),
        }
    }
}

impl View for AddressFrame {
    type V = AddressView;

    open spec fn view(&self) -> AddressView {
        AddressView {
            stream_id: self.stream_id,
            cmd: self.cmd,
            port: self.port,
            addr: self.addr@,
        }
    }
}

impl AddrView {
    /// Whether the octets have the length of the address type.
    pub open spec fn well_formed(self) -> bool {
        match self {
            AddrView::Ipv4(ip) => ip.len() == 4,
            AddrView::Domain(d) => true,
            AddrView::Ipv6(ip) => ip.len() == 16,
        }
    }

    /// Whether the address can be written.
    pub open spec fn fits(self) -> bool {
        match self {
            AddrView::Domain(d) => vstd::utf8::encode_utf8(d).len() <= MAX_DOMAIN_LEN,
            _ => true,
        }
    }
}

/// The byte that stands for a command.
pub open spec fn cmd_code(c: Cmd) -> u8 {
    match c {
        Cmd::Tcp => 1,
        Cmd::Udp => 2,
    }
}

/// The command that a byte stands for.
pub open spec fn cmd_of_code(v: u8) -> Option<Cmd> {
    if v == 1 {
        Some(Cmd::Tcp)
    } else if v == 2 {
        Some(Cmd::Udp)
    } else {
        None
    }
}

/// The address type and the address.
pub open spec fn addr_bytes(a: AddrView) -> Seq<u8> {
    match a {
        AddrView::Ipv4(ip) => seq![1u8] + ip,
        AddrView::Domain(d) => {
            let name = vstd::utf8::encode_utf8(d);
            seq![2u8, name.len() as u8] + name
        },
        AddrView::Ipv6(ip) => seq![3u8] + ip,
    }
}

/// The bytes of an address frame.
pub open spec fn address_bytes(f: AddressView) -> Seq<u8> {
    octets::be16(f.stream_id as int) + seq![cmd_code(f.cmd)] + octets::be16(f.port as int)
        + addr_bytes(f.addr)
}

/// The address in `buf`, which starts at the address type, and how many bytes it
/// takes; or the reason why there is none.
pub open spec fn parse_addr(buf: Seq<u8>) -> Result<(AddrView, nat), AddressError> {
    if buf[0] == 1 {
        if buf.len() < 5 {
            Err(AddressError::Truncated { field: "ipv4" })
        } else {
            Ok((AddrView::Ipv4(buf.subrange(1, 5)), 5))
        }
    } else if buf[0] == 2 {
        if buf.len() < 2 {
            Err(AddressError::Truncated { field: "domain_len" })
        } else if buf.len() < 2 + buf[1] {
            Err(AddressError::Truncated { field: "domain" })
        } else {
            let name = buf.subrange(2, 2 + buf[1]);
            if vstd::utf8::valid_utf8(name) {
                Ok((AddrView::Domain(vstd::utf8::decode_utf8(name)), (2 + buf[1]) as nat))
            } else {
                Err(AddressError::DomainNotUtf8)
            }
        }
    } else if buf[0] == 3 {
        if buf.len() < 17 {
            Err(AddressError::Truncated { field: "ipv6" })
        } else {
            Ok((AddrView::Ipv6(buf.subrange(1, 17)), 17))
        }
    } else {
        Err(AddressError::BadAddrType(buf[0]))
    }
}

/// What `buf` holds: an address frame that takes all of it, or the first reason, in
/// the order of the fields, why it is none.
pub open spec fn parse_address(buf: Seq<u8>) -> Result<AddressView, AddressError> {
    if buf.len() < 2 {
        Err(AddressError::Truncated { field: "stream_id" })
    } else if buf.len() < 3 {
        Err(AddressError::Truncated { field: "cmd" })
    } else if cmd_of_code(buf[2]) is None {
        Err(AddressError::BadCmd(buf[2]))
    } else if buf.len() < 5 {
        Err(AddressError::Truncated { field: "port" })
    } else if buf.len() < 6 {
        Err(AddressError::Truncated { field: "addr_type" })
    } else {
        match parse_addr(buf.subrange(5, buf.len() as int)) {
            Err(e) => Err(e),
            Ok((addr, used)) => if buf.len() != 5 + used {
                Err(AddressError::TrailingBytes((buf.len() - 5 - used) as usize))
            } else {
                Ok(
                    AddressView {
                        stream_id: octets::be16_value(buf[0], buf[1]) as u16,
                        cmd: cmd_of_code(buf[2])->Some_0,
                        port: octets::be16_value(buf[3], buf[4]) as u16,
                        addr,
                    },
                )
            },
        }
    }
}

/// The outcome of reading an address frame, as `parse_address` states it.
pub open spec fn read_view(r: Result<AddressFrame, AddressError>) -> Result<
    AddressView,
    AddressError,
> {
    match r {
        Ok(f) => Ok(f@),
        Err(e) => Err(e),
    }
}

impl Cmd {
    /// The command byte.
    pub fn to_u8(self) -> (v: u8)
        ensures
            v == cmd_code(self),
    {
        match self {
            Cmd::Tcp => 1,
            Cmd::Udp => 2,
        }
    }

    /// Reads a command byte.
    pub fn from_u8(v: u8) -> (c: Option<Self>)
        ensures
            c == cmd_of_code(v),
    {
        match v {
            1 => Some(Cmd::Tcp),
            2 => Some(Cmd::Udp),
            _ => None,
        }
    }
}

impl Addr {
    /// How many bytes the name takes; 0 for an IP address.
    fn name_len(&self) -> (n: usize)
        ensures
            n == (match self@ {
                AddrView::Domain(d) => vstd::utf8::encode_utf8(d).len(),
                _ => 0,
            }),
    {
        match self {
            Addr::Domain(d) => {
                let name = d.as_str().as_bytes();
                name.len()
            },
            _ => 0,
        }
    }

    /// Appends the address type and the address.
    fn put(&self, buf: &mut Vec<u8>)
        requires
            self@.fits(),
        ensures
            final(buf)@ == old(buf)@ + addr_bytes(self@),
    {
        match self {
            Addr::Ipv4(ip) => {
                buf.push(ADDR_IPV4);
                octets::put_bytes(buf, ip.as_slice());
            },
            Addr::Domain(d) => {
                let name = d.as_str().as_bytes();
                buf.push(ADDR_DOMAIN);
                buf.push(name.len() as u8);
                octets::put_bytes(buf, name);
            },
            Addr::Ipv6(ip) => {
                buf.push(ADDR_IPV6);
                octets::put_bytes(buf, ip.as_slice());
            },
        }
        assert(buf@ =~= old(buf)@ + addr_bytes(self@));
    }

    /// Reads the address in `buf`, which starts at the address type, and says how
    /// many bytes it takes.
    fn take(buf: &[u8]) -> (r: Result<(Addr, usize), AddressError>)
        requires
            buf@.len() >= 1,
        ensures
            match r {
                Ok((addr, used)) => parse_addr(buf@) == Ok::<(AddrView, nat), AddressError>(
                    (addr@, used as nat),
                ) && used <= buf@.len(),
                Err(e) => parse_addr(buf@) == Err::<(AddrView, nat), AddressError>(e),
            },
    {
        match buf[0] {
            ADDR_IPV4 => {
                if buf.len() < 5 {
                    return Err(AddressError::Truncated { field: "ipv4" });
                }
                let ip: [u8; 4] = [buf[1], buf[2], buf[3], buf[4]];
                assert(ip@ =~= buf@.subrange(1, 5));
                Ok((Addr::Ipv4(ip), 5))
            },
            ADDR_DOMAIN => {
                if buf.len() < 2 {
                    return Err(AddressError::Truncated { field: "domain_len" });
                }
                let end: usize = 2 + buf[1] as usize;
                if buf.len() < end {
                    return Err(AddressError::Truncated { field: "domain" });
                }
                match text::from_utf8(&buf[2..end]) {
                    Some(name) => Ok((Addr::Domain(name.to_owned()), end)),
                    None => Err(AddressError::DomainNotUtf8),
                }
            },
            ADDR_IPV6 => {
                if buf.len() < 17 {
                    return Err(AddressError::Truncated { field: "ipv6" });
                }
                let ip = octets::array16(buf, 1);
                Ok((Addr::Ipv6(ip), 17))
            },
            other => Err(AddressError::BadAddrType(other)),
        }
    }
}

impl AddressFrame {
    /// An address frame of these parts.
    pub fn new(stream_id: u16, cmd: Cmd, port: u16, addr: Addr) -> (f: Self)
        ensures
            f == (AddressFrame { stream_id, cmd, port, addr }),
    {
        AddressFrame { stream_id, cmd, port, addr }
    }

    /// Writes the frame. Only a domain name that is too long stands in the way.
    pub fn encode(&self) -> (r: Result<Vec<u8>, AddressError>)
        ensures
            self@.addr.fits() ==> r is Ok && r->Ok_0@ == address_bytes(self@),
            !self@.addr.fits() ==> r == Err::<Vec<u8>, AddressError>(
                AddressError::DomainTooLong(
                    vstd::utf8::encode_utf8(self@.addr->Domain_0).len() as usize,
                ),
            ),
    {
        let name_len: usize = self.addr.name_len();
        if name_len > MAX_DOMAIN_LEN {
            return Err(AddressError::DomainTooLong(name_len));
        }
        let mut buf: Vec<u8> = Vec::new();
        octets::put_u16(&mut buf, self.stream_id);
        buf.push(self.cmd.to_u8());
        octets::put_u16(&mut buf, self.port);
        self.addr.put(&mut buf);
        assert(buf@ =~= address_bytes(self@));
        Ok(buf)
    }

    /// Reads a frame that takes the whole buffer.
    pub fn decode(buf: &[u8]) -> (r: Result<AddressFrame, AddressError>)
        ensures
            read_view(r) == parse_address(buf@),
    {
        if buf.len() < 2 {
            return Err(AddressError::Truncated { field: "stream_id" });
        }
        if buf.len() < 3 {
            return Err(AddressError::Truncated { field: "cmd" });
        }
        let stream_id: u16 = octets::get_u16(buf[0], buf[1]);
        let cmd = match Cmd::from_u8(buf[2]) {
            Some(c) => c,
            None => return Err(AddressError::BadCmd(buf[2])),
        };
        if buf.len() < 5 {
            return Err(AddressError::Truncated { field: "port" });
        }
        let port: u16 = octets::get_u16(buf[3], buf[4]);
        if buf.len() < 6 {
            return Err(AddressError::Truncated { field: "addr_type" });
        }
        match Addr::take(&buf[5..buf.len()]) {
            Err(e) => Err(e),
            Ok((addr, used)) => {
                let remaining: usize = buf.len() - 5 - used;
                if remaining != 0 {
                    return Err(AddressError::TrailingBytes(remaining));
                }
                Ok(AddressFrame { stream_id, cmd, port, addr })
            },
        }
    }
}

/// Reading gives back what was written.
pub proof fn law_address_roundtrip(f: AddressView)
    requires
        f.addr.well_formed(),
        f.addr.fits(),
    ensures
        parse_address(address_bytes(f)) == Ok::<AddressView, AddressError>(f),
{
    broadcast use vstd::utf8::encode_utf8_decode_utf8;
    broadcast use vstd::utf8::encode_utf8_valid_utf8;

    let buf = address_bytes(f);
    octets::lemma_be16_value(f.stream_id as int);
    octets::lemma_be16_value(f.port as int);
    let tail = buf.subrange(5, buf.len() as int);
    assert(tail =~= addr_bytes(f.addr));
    assert(buf[0] == octets::be16(f.stream_id as int)[0]);
    assert(buf[1] == octets::be16(f.stream_id as int)[1]);
    assert(buf[3] == octets::be16(f.port as int)[0]);
    assert(buf[4] == octets::be16(f.port as int)[1]);
    match f.addr {
        AddrView::Ipv4(ip) => {
            assert(tail.subrange(1, 5) =~= ip);
        },
        AddrView::Domain(d) => {
            let name = vstd::utf8::encode_utf8(d);
            assert(tail[1] == name.len());
            assert(tail.subrange(2, 2 + tail[1]) =~= name);
        },
        AddrView::Ipv6(ip) => {
            assert(tail.subrange(1, 17) =~= ip);
        },
    }
}

/// A buffer that reads as an address frame is the one way to write that frame.
pub proof fn law_address_read_is_written(buf: Seq<u8>)
    requires
        parse_address(buf) is Ok,
    ensures
        ({
            let f = parse_address(buf)->Ok_0;
            f.addr.well_formed() && f.addr.fits() && address_bytes(f) == buf
        }),
{
    broadcast use vstd::utf8::decode_utf8_encode_utf8;

    let f = parse_address(buf)->Ok_0;
    octets::lemma_be16_bytes(buf[0], buf[1]);
    octets::lemma_be16_bytes(buf[3], buf[4]);
    let tail = buf.subrange(5, buf.len() as int);
    assert(addr_bytes(f.addr) =~= tail) by {
        if tail[0] == 2 {
            let name = tail.subrange(2, 2 + tail[1]);
            assert(vstd::utf8::encode_utf8(vstd::utf8::decode_utf8(name)) == name);
        }
    }
    assert(octets::be16(f.stream_id as int) =~= seq![buf[0], buf[1]]);
    assert(octets::be16(f.port as int) =~= seq![buf[3], buf[4]]);
    assert(address_bytes(f) =~= buf);
}

/// A command is written as its number, TCP 1 and UDP 2, and no other number stands for one.
pub proof fn law_command_numbers(c: Cmd, v: u8)
    ensures
        c == Cmd::Tcp <==> cmd_code(c) == 1,
        c == Cmd::Udp <==> cmd_code(c) == 2,
        cmd_of_code(v) == Some(c) <==> v == cmd_code(c),
        cmd_of_code(v) is Some <==> v == 1 || v == 2,
{
}

/// Where each field of an address frame stands: the stream, the command, the port, the type
/// of the address (1 for IPv4, 2 for a domain with its length, 3 for IPv6) and the address,
/// numbers with the high byte first.
pub proof fn law_address_layout(f: AddressView)
    requires
        f.addr.well_formed(),
        f.addr.fits(),
    ensures
        ({
            let b = address_bytes(f);
            &&& 256 * b[0] + b[1] == f.stream_id
            &&& b[2] == 1 <==> f.cmd == Cmd::Tcp
            &&& b[2] == 2 <==> f.cmd == Cmd::Udp
            &&& 256 * b[3] + b[4] == f.port
            &&& match f.addr {
                AddrView::Ipv4(ip) => b.len() == 10 && b[5] == 1 && b.skip(6) == ip,
                AddrView::Domain(d) => {
                    let name = vstd::utf8::encode_utf8(d);
                    &&& name.len() <= 255
                    &&& b.len() == 7 + name.len()
                    &&& b[5] == 2
                    &&& b[6] == name.len()
                    &&& b.skip(7) == name
                },
                AddrView::Ipv6(ip) => b.len() == 22 && b[5] == 3 && b.skip(6) == ip,
            }
        }),
{
    octets::law_big_endian(f.stream_id as int, 0, 0);
    octets::law_big_endian(f.port as int, 0, 0);
    let b = address_bytes(f);
    match f.addr {
        AddrView::Ipv4(ip) => {
            assert(b.skip(6) =~= ip);
        },
        AddrView::Domain(d) => {
            assert(b.skip(7) =~= vstd::utf8::encode_utf8(d));
        },
        AddrView::Ipv6(ip) => {
            assert(b.skip(6) =~= ip);
        },
    }
}

/// Which addresses can be written: all but names of more than 255 bytes.
pub proof fn law_only_long_names_do_not_fit(a: AddrView)
    ensures
        !a.fits() <==> (a matches AddrView::Domain(d) && vstd::utf8::encode_utf8(d).len() > 255),
        a.well_formed() <==> match a {
            AddrView::Ipv4(ip) => ip.len() == 4,
            AddrView::Domain(d) => true,
            AddrView::Ipv6(ip) => ip.len() == 16,
        },
{
}

/// What each buffer that is no address frame is refused for, the first reason first.
pub proof fn law_address_verdict(buf: Seq<u8>)
    requires
        buf.len() <= usize::MAX,
    ensures
        buf.len() < 2 ==> parse_address(buf) == Err::<AddressView, AddressError>(
            AddressError::Truncated { field: "stream_id" },
        ),
        buf.len() == 2 ==> parse_address(buf) == Err::<AddressView, AddressError>(
            AddressError::Truncated { field: "cmd" },
        ),
        buf.len() >= 3 && buf[2] != 1 && buf[2] != 2 ==> parse_address(buf) == Err::<
            AddressView,
            AddressError,
        >(AddressError::BadCmd(buf[2])),
        buf.len() >= 3 && (buf[2] == 1 || buf[2] == 2) ==> {
            &&& buf.len() < 5 ==> parse_address(buf) == Err::<AddressView, AddressError>(
                AddressError::Truncated { field: "port" },
            )
            &&& buf.len() == 5 ==> parse_address(buf) == Err::<AddressView, AddressError>(
                AddressError::Truncated { field: "addr_type" },
            )
            &&& buf.len() > 5 && !(1 <= buf[5] <= 3) ==> parse_address(buf) == Err::<
                AddressView,
                AddressError,
            >(AddressError::BadAddrType(buf[5]))
            &&& buf.len() > 5 && buf[5] == 1 ==> if buf.len() < 10 {
                parse_address(buf) == Err::<AddressView, AddressError>(
                    AddressError::Truncated { field: "ipv4" },
                )
            } else if buf.len() > 10 {
                parse_address(buf) == Err::<AddressView, AddressError>(
                    AddressError::TrailingBytes((buf.len() - 10) as usize),
                )
            } else {
                parse_address(buf) is Ok
            }
            &&& buf.len() > 5 && buf[5] == 3 ==> if buf.len() < 22 {
                parse_address(buf) == Err::<AddressView, AddressError>(
                    AddressError::Truncated { field: "ipv6" },
                )
            } else if buf.len() > 22 {
                parse_address(buf) == Err::<AddressView, AddressError>(
                    AddressError::TrailingBytes((buf.len() - 22) as usize),
                )
            } else {
                parse_address(buf) is Ok
            }
            &&& buf.len() == 6 && buf[5] == 2 ==> parse_address(buf) == Err::<
                AddressView,
                AddressError,
            >(AddressError::Truncated { field: "domain_len" })
            &&& buf.len() > 6 && buf[5] == 2 ==> if buf.len() < 7 + buf[6] {
                parse_address(buf) == Err::<AddressView, AddressError>(
                    AddressError::Truncated { field: "domain" },
                )
            } else if !vstd::utf8::valid_utf8(buf.subrange(7, 7 + buf[6])) {
                parse_address(buf) == Err::<AddressView, AddressError>(AddressError::DomainNotUtf8)
            } else if buf.len() > 7 + buf[6] {
                parse_address(buf) == Err::<AddressView, AddressError>(
                    AddressError::TrailingBytes((buf.len() - 7 - buf[6]) as usize),
                )
            } else {
                parse_address(buf) is Ok
            }
        },
{
    if buf.len() > 6 && buf[5] == 2 && buf.len() >= 7 + buf[6] {
        let tail = buf.subrange(5, buf.len() as int);
        assert(tail.subrange(2, 2 + tail[1]) =~= buf.subrange(7, 7 + buf[6]));
    }
}

} // verus!
