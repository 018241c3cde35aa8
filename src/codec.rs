//! The calls into `dns_protocol` and `heapless` that the engine relies on,
//! with the contracts that it assumes of them.

use vstd::prelude::*;
use vstd::string::StringSliceAdditionalSpecFns;
use vstd::utf8::{decode_utf8, valid_utf8};
use crate::name::{dot_split, valid_name};
use crate::response::{LabelPart, Record, Response, ResponseView};
use dns_protocol::{Flags, LabelSegment, Message, Question, ResourceRecord, ResourceType};

verus! {

#[verifier::external_type_specification]
#[verifier::external_body]
pub struct ExDnsError(dns_protocol::Error);

#[verifier::external_type_specification]
#[verifier::external_body]
pub struct ExResourceRecord<'a>(dns_protocol::ResourceRecord<'a>);

#[verifier::external_type_specification]
#[verifier::external_body]
pub struct ExBoundedString<const N: usize>(heapless::String<N>);

/// The most slots per section that the codec accepts: a section's record
/// count is a `u16`.
pub const MAX_SLOTS: usize = 65535;

/// The slots per section given to the codec for a datagram of `n` bytes: one
/// per byte, up to `MAX_SLOTS`. Either bound is at least any section's count.
pub open spec fn slot_count(n: nat) -> nat {
    if n <= MAX_SLOTS {
        n
    } else {
        MAX_SLOTS as nat
    }
}

/// The record type code of a PTR query.
pub const TYPE_PTR: u16 = 12;

/// A DNS name on the wire: each label behind its length byte, then a zero byte.
pub open spec fn encode_labels(labels: Seq<Seq<u8>>) -> Seq<u8>
    decreases labels.len(),
{
    if labels.len() == 0 {
        seq![0u8]
    } else {
        seq![labels[0].len() as u8] + labels[0] + encode_labels(labels.drop_first())
    }
}

/// A DNS message with id 0, no flags set, and one PTR question for
/// `labels` with class `class`: the header, the name, the type, the class.
pub open spec fn ptr_query_wire(labels: Seq<Seq<u8>>, class: u16) -> Seq<u8> {
    seq![0u8, 0u8, 0u8, 0u8, 0u8, 1u8, 0u8, 0u8, 0u8, 0u8, 0u8, 0u8] + encode_labels(labels) + seq![
        0u8,
        TYPE_PTR as u8,
        (class / 256) as u8,
        (class % 256) as u8,
    ]
}

/// The sections that `dns_protocol` decodes from the message `b`, given room
/// for `cap` records in each section; `None` where it reports an error.
pub uninterp spec fn decoded_message(b: Seq<u8>, cap: nat) -> Option<ResponseView>;

/// The text that a `heapless::String<255>` holds.
pub uninterp spec fn bounded_text(s: heapless::String<255>) -> Seq<char>;

/// Relies on `dns_protocol::Message::write`, on a buffer of `space_needed`
/// bytes: the 12-byte header, then the question, whose name the crate cuts at
/// dots (labels of 63 bytes or fewer are written, never an error).
#[verifier::external_body]
pub(crate) fn encode_ptr_query(name: &str, class: u16) -> (r: Result<Vec<u8>, dns_protocol::Error>)
    requires
        valid_name(name.spec_bytes()),
    ensures
        r is Ok,
        r matches Ok(b) ==> b@ == ptr_query_wire(dot_split(name.spec_bytes()), class),
{
    let mut questions = [Question::new(name, ResourceType::Ptr, class)];
    let flags = *Flags::default().set_recursive(false);
    let msg = Message::new(0, flags, &mut questions, &mut [], &mut [], &mut []);
    let mut buf = vec![0u8; msg.space_needed()];
    let n = msg.write(&mut buf)?;
    buf.truncate(n);
    Ok(buf)
}

/// Relies on `dns_protocol::Message::read`, with `cap` slots for each
/// section; each answer and additional record is copied by `record_of`.
/// `Message::read` panics when a slot count does not fit in a `u16`.
#[verifier::external_body]
pub(crate) fn read_message(data: &[u8], cap: usize) -> (r: Result<Response, dns_protocol::Error>)
    requires
        cap <= MAX_SLOTS,
    ensures
        match decoded_message(data@, cap as nat) {
            None => r is Err,
            Some(m) => r matches Ok(resp) && resp@ == m,
        },
{
    let (mut q, mut au) = (vec![Question::default(); cap], vec![ResourceRecord::default(); cap]);
    let (mut an, mut ad) = (au.clone(), au.clone());
    let m = Message::read(data, &mut q, &mut an, &mut au, &mut ad)?;
    let answers = m.answers().iter().map(record_of).collect();
    Ok(Response { answers, additional: m.additional().iter().map(record_of).collect() })
}

/// Relies on `ResourceRecord::name`, `Label::segments`, `ResourceRecord::ty`
/// and `ResourceRecord::data`: copies one decoded record into plain values,
/// one segment for each segment of its name. What the copies hold is stated
/// by `read_message`, its one caller.
#[verifier::external_body]
fn record_of<'a>(r: &ResourceRecord<'a>) -> Record {
    let name = r.name().segments().map(|s| match s {
        LabelSegment::String(t) => LabelPart::Text(t.as_bytes().to_vec()),
        LabelSegment::Pointer(p) => LabelPart::Pointer(p),
        LabelSegment::Empty => LabelPart::End,
    });
    Record { name: name.collect(), rtype: r.ty().into(), data: r.data().to_vec() }
}

/// Relies on `core::str::from_utf8`: it accepts exactly the valid UTF-8
/// byte sequences.
#[verifier::external_body]
pub(crate) fn utf8_str(b: &[u8]) -> (r: Option<&str>)
    ensures
        r is Some <==> valid_utf8(b@),
        r matches Some(s) ==> s@ == decode_utf8(b@),
{
    core::str::from_utf8(b).ok()
}

/// Relies on `heapless::String::<255>::try_from(&str)`: it holds the text
/// when it takes at most 255 bytes, and fails otherwise.
#[verifier::external_body]
pub(crate) fn to_bounded(s: &str) -> (r: Option<heapless::String<255>>)
    ensures
        r is Some <==> s.spec_bytes().len() <= 255,
        r matches Some(h) ==> bounded_text(h) == s@,
{
    heapless::String::<255>::try_from(s).ok()
}

/// Relies on `heapless::String::<255>::new`: an empty string.
#[verifier::external_body]
pub(crate) fn empty_bounded() -> (r: heapless::String<255>)
    ensures
        bounded_text(r) == Seq::<char>::empty(),
{
    heapless::String::<255>::new()
}

} // verus!
