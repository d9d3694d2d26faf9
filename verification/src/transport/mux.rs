//! Logical streams over one session.
//!
//! A stream is opened by an address frame. The payload of a data frame is the stream's
//! number and the data, that of a closing frame the number alone.

use crate::wire::address;
use crate::wire::address::{AddressError, AddressFrame, AddressView};
use crate::wire::frame::{Frame, FrameType, FrameView};
use crate::wire::octets;
use vstd::prelude::*;

verus! {

/// What happens to logical streams.
#[derive(Debug, Clone, PartialEq, Eq)]
pub enum MuxEvent {
    /// Open a stream; the frame holds its number.
    Open(AddressFrame),
    /// Data of a stream.
    Data { stream_id: u16, data: Vec<u8> },
    /// Close a stream.
    Close { stream_id: u16 },
    /// Nothing but a sign of life.
    KeepAlive,
}

/// Why a frame is no event.
#[derive(Debug, Clone, Copy, PartialEq, Eq)]
pub enum MuxError {
    /// The payload is too short for a stream's number.
    MissingStreamId(FrameType),
    /// The address frame is malformed.
    BadAddress(AddressError),
    /// Frames of this type are no events.
    UnexpectedType(FrameType),
}

/// What an event says.
pub enum EventView {
    Open(AddressView),
    Data { stream_id: u16, data: Seq<u8> },
    Close { stream_id: u16 },
    KeepAlive,
}

impl View for MuxEvent {
    type V = EventView;

    open spec fn view(&self) -> EventView {
        match self {
            MuxEvent::Open(af) => EventView::Open(af@),
            MuxEvent::Data { stream_id, data } => EventView::Data {
                stream_id: *stream_id,
                data: data@,
            },
            MuxEvent::Close { stream_id } => EventView::Close { stream_id: *stream_id },
            MuxEvent::KeepAlive => EventView::KeepAlive,
        }
    }
}

impl EventView {
    /// Whether the event can be written: only an address can be in the way.
    pub open spec fn fits(self) -> bool {
        match self {
            EventView::Open(af) => af.addr.fits(),
            _ => true,
        }
    }

    /// Whether an address in it has the octets of its type.
    pub open spec fn well_formed(self) -> bool {
        match self {
            EventView::Open(af) => af.addr.well_formed(),
            _ => true,
        }
    }
}

/// The frame that carries an event.
pub open spec fn event_frame(ev: EventView) -> FrameView {
    match ev {
        EventView::Open(af) => FrameView {
            ftype: FrameType::Address,
            payload: address::address_bytes(af),
        },
        EventView::Data { stream_id, data } => FrameView {
            ftype: FrameType::StreamData,
            payload: octets::be16(stream_id as int) + data,
        },
        EventView::Close { stream_id } => FrameView {
            ftype: FrameType::StreamClose,
            payload: octets::be16(stream_id as int),
        },
        EventView::KeepAlive => FrameView {
            ftype: FrameType::KeepAlive,
            payload: Seq::<u8>::empty(),
        },
    }
}

/// The event that a frame carries, or the reason why it carries none. What follows the
/// number in a closing frame, and all of a sign of life, is ignored.
pub open spec fn parse_event(f: FrameView) -> Result<EventView, MuxError> {
    match f.ftype {
        FrameType::Address => match address::parse_address(f.payload) {
            Ok(af) => Ok(EventView::Open(af)),
            Err(e) => Err(MuxError::BadAddress(e)),
        },
        FrameType::StreamData => if f.payload.len() < 2 {
            Err(MuxError::MissingStreamId(f.ftype))
        } else {
            Ok(
                EventView::Data {
                    stream_id: octets::be16_value(f.payload[0], f.payload[1]) as u16,
                    data: f.payload.skip(2),
                },
            )
        },
        FrameType::StreamClose => if f.payload.len() < 2 {
            Err(MuxError::MissingStreamId(f.ftype))
        } else {
            Ok(
                EventView::Close {
                    stream_id: octets::be16_value(f.payload[0], f.payload[1]) as u16,
                },
            )
        },
        FrameType::KeepAlive => Ok(EventView::KeepAlive),
        _ => Err(MuxError::UnexpectedType(f.ftype)),
    }
}

/// The outcome of reading an event, as `parse_event` states it.
pub open spec fn read_view(r: Result<MuxEvent, MuxError>) -> Result<EventView, MuxError> {
    match r {
        Ok(ev) => Ok(ev@),
        Err(e) => Err(e),
    }
}

/// Puts an event into a frame.
pub fn encode(ev: &MuxEvent) -> (f: Frame)
    requires
        ev@.fits(),
    ensures
        f@ == event_frame(ev@),
{
    match ev {
        MuxEvent::Open(af) => {
            let payload = match af.encode() {
                Ok(payload) => payload,
                Err(_) => Vec::new(),
            };
            Frame::new(FrameType::Address, payload)
        },
        MuxEvent::Data { stream_id, data } => {
            let mut payload: Vec<u8> = Vec::new();
            octets::put_u16(&mut payload, *stream_id);
            octets::put_bytes(&mut payload, data.as_slice());
            assert(payload@ =~= octets::be16(*stream_id as int) + data@);
            Frame::new(FrameType::StreamData, payload)
        },
        MuxEvent::Close { stream_id } => {
            let mut payload: Vec<u8> = Vec::new();
            octets::put_u16(&mut payload, *stream_id);
            assert(payload@ =~= octets::be16(*stream_id as int));
            Frame::new(FrameType::StreamClose, payload)
        },
        MuxEvent::KeepAlive => Frame::keepalive(),
    }
}

/// Reads the event that a frame carries.
pub fn decode(frame: &Frame) -> (r: Result<MuxEvent, MuxError>)
    ensures
        read_view(r) == parse_event(frame@),
{
    match frame.ftype {
        FrameType::Address => match AddressFrame::decode(frame.payload.as_slice()) {
            Ok(af) => Ok(MuxEvent::Open(af)),
            Err(e) => Err(MuxError::BadAddress(e)),
        },
        FrameType::StreamData => match split_stream_id(frame.ftype, frame.payload.as_slice()) {
            Ok((stream_id, data)) => Ok(
                MuxEvent::Data { stream_id, data: octets::copy_bytes(data) },
            ),
            Err(e) => Err(e),
        },
        FrameType::StreamClose => match split_stream_id(frame.ftype, frame.payload.as_slice()) {
            Ok((stream_id, _)) => Ok(MuxEvent::Close { stream_id }),
            Err(e) => Err(e),
        },
        FrameType::KeepAlive => Ok(MuxEvent::KeepAlive),
        other => Err(MuxError::UnexpectedType(other)),
    }
}

/// Parts the stream's number from what follows it.
fn split_stream_id(ft: FrameType, payload: &[u8]) -> (r: Result<(u16, &[u8]), MuxError>)
    ensures
        match r {
            Ok((id, rest)) => {
                &&& payload@.len() >= 2
                &&& id == octets::be16_value(payload@[0], payload@[1])
                &&& rest@ == payload@.skip(2)
            },
            Err(e) => payload@.len() < 2 && e == MuxError::MissingStreamId(ft),
        },
{
    if payload.len() < 2 {
        return Err(MuxError::MissingStreamId(ft));
    }
    let id: u16 = octets::get_u16(payload[0], payload[1]);
    let rest = &payload[2..payload.len()];
    assert(rest@ =~= payload@.skip(2));
    Ok((id, rest))
}

/// Reading gives back the event that was written.
pub proof fn law_event_roundtrip(ev: EventView)
    requires
        ev.well_formed(),
        ev.fits(),
    ensures
        parse_event(event_frame(ev)) == Ok::<EventView, MuxError>(ev),
{
    match ev {
        EventView::Open(af) => {
            address::law_address_roundtrip(af);
        },
        EventView::Data { stream_id, data } => {
            octets::lemma_be16_value(stream_id as int);
            let p = octets::be16(stream_id as int) + data;
            assert(p.skip(2) =~= data);
            assert(p[0] == octets::be16(stream_id as int)[0]);
            assert(p[1] == octets::be16(stream_id as int)[1]);
        },
        EventView::Close { stream_id } => {
            octets::lemma_be16_value(stream_id as int);
        },
        EventView::KeepAlive => {},
    }
}

/// Which frame carries an event: its type, and behind it the stream's number with the high
/// byte first, the data, or the address. A sign of life carries nothing.
pub proof fn law_event_layout(ev: EventView)
    ensures
        ({
            let f = event_frame(ev);
            match ev {
                EventView::Open(af) => f.ftype == FrameType::Address && f.payload
                    == address::address_bytes(af),
                EventView::Data { stream_id, data } => {
                    &&& f.ftype == FrameType::StreamData
                    &&& f.payload.len() == 2 + data.len()
                    &&& 256 * f.payload[0] + f.payload[1] == stream_id
                    &&& f.payload.skip(2) == data
                },
                EventView::Close { stream_id } => {
                    &&& f.ftype == FrameType::StreamClose
                    &&& f.payload.len() == 2
                    &&& 256 * f.payload[0] + f.payload[1] == stream_id
                },
                EventView::KeepAlive => f.ftype == FrameType::KeepAlive && f.payload.len() == 0,
            }
        }),
{
    match ev {
        EventView::Data { stream_id, data } => {
            octets::law_big_endian(stream_id as int, 0, 0);
            assert(event_frame(ev).payload.skip(2) =~= data);
        },
        EventView::Close { stream_id } => {
            octets::law_big_endian(stream_id as int, 0, 0);
        },
        _ => {},
    }
}

/// What each frame is taken for, whatever stands in it: data and closes of the stream whose
/// number stands first, a sign of life, a stream to open; frames for keys and bare openings
/// are no events, and neither are those too short for a number.
pub proof fn law_event_verdict(f: FrameView)
    ensures
        match f.ftype {
            FrameType::StreamData => if f.payload.len() < 2 {
                parse_event(f) == Err::<EventView, MuxError>(MuxError::MissingStreamId(f.ftype))
            } else {
                parse_event(f) matches Ok(EventView::Data { stream_id, data }) && stream_id == 256
                    * f.payload[0] + f.payload[1] && data == f.payload.skip(2)
            },
            FrameType::StreamClose => if f.payload.len() < 2 {
                parse_event(f) == Err::<EventView, MuxError>(MuxError::MissingStreamId(f.ftype))
            } else {
                parse_event(f) matches Ok(EventView::Close { stream_id }) && stream_id == 256
                    * f.payload[0] + f.payload[1]
            },
            FrameType::KeepAlive => parse_event(f) == Ok::<EventView, MuxError>(
                EventView::KeepAlive,
            ),
            FrameType::Address => match address::parse_address(f.payload) {
                Ok(af) => parse_event(f) == Ok::<EventView, MuxError>(EventView::Open(af)),
                Err(e) => parse_event(f) == Err::<EventView, MuxError>(MuxError::BadAddress(e)),
            },
            FrameType::StreamOpen => parse_event(f) == Err::<EventView, MuxError>(
                MuxError::UnexpectedType(FrameType::StreamOpen),
            ),
            FrameType::Rekey => parse_event(f) == Err::<EventView, MuxError>(
                MuxError::UnexpectedType(FrameType::Rekey),
            ),
        },
{
}

/// Only an address stands in the way of an event.
pub proof fn law_every_event_fits_but_long_names(ev: EventView)
    ensures
        !ev.fits() ==> (ev matches EventView::Open(af) && !af.addr.fits()),
        ev matches EventView::Open(af) ==> ev.fits() == af.addr.fits() && ev.well_formed()
            == af.addr.well_formed(),
        !(ev is Open) ==> ev.well_formed(),
{
}

} // verus!
