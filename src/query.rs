//! The query engine: the encoded PTR query, the resend timer, and the
//! handling of one received datagram.

use vstd::prelude::*;
use vstd::string::StringSliceAdditionalSpecFns;
use vstd::utf8::{decode_utf8, decode_utf8_encode_utf8, encode_utf8, valid_utf8};
use crate::codec::{
    MAX_SLOTS, bounded_text, decoded_message, empty_bounded, encode_ptr_query, ptr_query_wire,
    read_message, slot_count, to_bounded, utf8_str,
};
use crate::name::{dot_split, labels_are_valid, labels_view, split_labels, valid_name};
use crate::response::{
    MAX_RECORDS, Response, ResponseView, all_entries, clip_response, extract, first_value,
    ip_of, lookup, matches_labels, port_of, response_matches,
};

verus! {

/// Class IN (1) with the top bit set, which asks for unicast replies.
pub const QUERY_CLASS: u16 = 0x8001;

/// What can go wrong in the engine.
#[derive(Debug, PartialEq, Eq, Structural)]
pub enum MdnsError {
    /// The service name has an empty label or one longer than 63 bytes.
    InvalidName,
    /// The datagram is not a DNS message that the codec can decode.
    Decode,
}

/// A discovery session for one service name.
pub struct MdnsQuery {
    query_str: String,
    labels: Vec<Vec<u8>>,
    buff: Vec<u8>,
    resend_interval: u64,
    last_mdns_sent: Option<u64>,
}

/// The state of a session: its name and labels, the encoded query, the
/// resend interval in milliseconds, and when the query was last sent.
pub struct QueryView {
    pub name: Seq<char>,
    pub labels: Seq<Seq<u8>>,
    pub encoded: Seq<u8>,
    pub interval: u64,
    pub last_sent: Option<u64>,
}

impl View for MdnsQuery {
    type V = QueryView;

    closed spec fn view(&self) -> QueryView {
        QueryView {
            name: self.query_str@,
            labels: labels_view(self.labels@),
            encoded: self.buff@,
            interval: self.resend_interval,
            last_sent: self.last_mdns_sent,
        }
    }
}

impl QueryView {
    /// The labels and the encoded query are those of the name.
    pub open spec fn wf(self) -> bool {
        let bytes = encode_utf8(self.name);
        &&& valid_name(bytes)
        &&& self.labels == dot_split(bytes)
        &&& self.encoded == ptr_query_wire(self.labels, QUERY_CLASS)
    }
}

/// Whether the query is due at `now`: it has never been sent, or more than
/// `interval` milliseconds have passed since it last was.
pub open spec fn send_due(last_sent: Option<u64>, interval: u64, now: u64) -> bool {
    match last_sent {
        None => true,
        Some(t) => now - t > interval,
    }
}

/// The state after the resend timer is polled at `now`.
pub open spec fn after_poll(q: QueryView, now: u64) -> QueryView {
    if send_due(q.last_sent, q.interval, now) {
        QueryView { last_sent: Some(now), ..q }
    } else {
        q
    }
}

/// A session that has never sent is due at any time, and once it has
/// sent at `now` it is not due again at that same `now`.
pub proof fn lemma_first_send(q: QueryView, now: u64)
    requires
        q.last_sent is None,
    ensures
        send_due(q.last_sent, q.interval, now),
        !send_due(after_poll(q, now).last_sent, after_poll(q, now).interval, now),
{
}

/// After a send at `t1`, the query is due again at `t2` exactly when more
/// than the interval has passed between them.
pub proof fn lemma_resend_after_interval(q: QueryView, t1: u64, t2: u64)
    requires
        send_due(q.last_sent, q.interval, t1),
    ensures
        after_poll(q, t1).last_sent == Some(t1),
        send_due(after_poll(q, t1).last_sent, after_poll(q, t1).interval, t2) <==> t2 - t1
            > q.interval,
{
}

/// The text kept of a TXT value: the value decoded as UTF-8 when it is valid
/// and at most 255 bytes long, and empty otherwise.
pub open spec fn value_text(v: Seq<u8>) -> Seq<char> {
    if valid_utf8(v) && v.len() <= 255 {
        decode_utf8(v)
    } else {
        Seq::<char>::empty()
    }
}

/// The outcome of a datagram for the query with labels `labels`: the
/// address, the port and, for a key, the text of its first TXT value;
/// the zero address, port 0 and no text when it does not match.
pub open spec fn outcome_holds(
    labels: Seq<Seq<u8>>,
    resp: Option<ResponseView>,
    key: Option<Seq<u8>>,
    r: ([u8; 4], u16, Option<heapless::String<255>>),
) -> bool {
    match resp {
        Some(m) if response_matches(labels, m) => {
            &&& r.0@ == ip_of(m.additional)
            &&& r.1 == port_of(m.additional)
            &&& match key {
                None => r.2 is None,
                Some(k) => match first_value(all_entries(m.additional), k) {
                    None => r.2 is None,
                    Some(v) => r.2 matches Some(h) && bounded_text(h) == value_text(v),
                },
            }
        },
        _ => r.0@ == seq![0u8, 0u8, 0u8, 0u8] && r.1 == 0 && r.2 is None,
    }
}

/// The bounded string that holds the text of the TXT value `v`.
pub fn txt_value(v: &[u8]) -> (r: heapless::String<255>)
    ensures
        bounded_text(r) == value_text(v@),
{
    match utf8_str(v) {
        Some(s) => {
            proof {
                decode_utf8_encode_utf8(v@);
            }
            match to_bounded(s) {
                Some(h) => h,
                None => empty_bounded(),
            }
        },
        None => empty_bounded(),
    }
}

/// Decodes a datagram, keeping at most `MAX_RECORDS` records of the answer
/// and additional sections. The codec gets one slot per section for each
/// byte of the datagram, up to the 65535 records that a section's `u16`
/// count can announce, so it never runs out of slots; an oversized section
/// is cut here instead of failing the decode.
pub fn decode_response(data: &[u8]) -> (r: Result<Response, MdnsError>)
    ensures
        match decoded_message(data@, slot_count(data@.len())) {
            None => r == Err::<Response, MdnsError>(MdnsError::Decode),
            Some(m) => r matches Ok(resp) && resp@ == clip_response(m),
        },
{
    let cap = if data.len() <= MAX_SLOTS {
        data.len()
    } else {
        MAX_SLOTS
    };
    match read_message(data, cap) {
        Ok(mut resp) => {
            if resp.answers.len() > MAX_RECORDS {
                let _rest = resp.answers.split_off(MAX_RECORDS);
            }
            if resp.additional.len() > MAX_RECORDS {
                let _rest = resp.additional.split_off(MAX_RECORDS);
            }
            proof {
                let m = decoded_message(data@, slot_count(data@.len())).unwrap();
                assert(resp@.answers =~= clip_response(m).answers);
                assert(resp@.additional =~= clip_response(m).additional);
            }
            Ok(resp)
        },
        Err(_) => Err(MdnsError::Decode),
    }
}

impl MdnsQuery {
    /// Starts a session for the service `query`, encoding its PTR query once.
    pub fn new(query: &str, resend_interval: u64) -> (r: Result<MdnsQuery, MdnsError>)
        ensures
            r is Ok <==> valid_name(query.spec_bytes()),
            r matches Err(e) ==> e == MdnsError::InvalidName,
            r matches Ok(q) ==> q@.wf() && q@.name == query@ && q@.labels == dot_split(
                query.spec_bytes(),
            ) && q@.encoded == ptr_query_wire(dot_split(query.spec_bytes()), QUERY_CLASS)
                && q@.interval == resend_interval && q@.last_sent is None,
    {
        let labels = split_labels(query.as_bytes());
        if !labels_are_valid(&labels) {
            return Err(MdnsError::InvalidName);
        }
        let buff = match encode_ptr_query(query, QUERY_CLASS) {
            Ok(b) => b,
            Err(_) => return Err(MdnsError::InvalidName),
        };
        Ok(MdnsQuery {
            query_str: query.to_owned(),
            labels,
            buff,
            resend_interval,
            last_mdns_sent: None,
        })
    }

    /// The service name of this session.
    pub fn query_str(&self) -> (r: &str)
        ensures
            r@ == self@.name,
    {
        self.query_str.as_str()
    }

    /// The resend timer: hands out the encoded query and records `now` as the
    /// time of sending when the query is due, and changes nothing otherwise.
    pub fn should_send_mdns_packet(&mut self, now: u64) -> (r: Option<&[u8]>)
        ensures
            r is Some <==> send_due(old(self)@.last_sent, old(self)@.interval, now),
            r matches Some(b) ==> b@ == old(self)@.encoded,
            final(self)@ == after_poll(old(self)@, now),
    {
        let due = match self.last_mdns_sent {
            None => true,
            Some(t) => now >= t && now - t > self.resend_interval,
        };
        if due {
            self.last_mdns_sent = Some(now);
            Some(self.buff.as_slice())
        } else {
            None
        }
    }

    /// Whether `resp` answers this query: it has answers and additional
    /// records, and the first answer's name starts with the query's labels,
    /// in order, all plain.
    pub fn matches(&self, resp: &Response) -> (r: bool)
        ensures
            r == response_matches(self@.labels, resp@),
            resp.answers.len() == 0 ==> !r,
    {
        matches_labels(&self.labels, resp)
    }

    /// The address, port and (for a key) TXT value of the matching response
    /// `resp`; the defaults when it does not match.
    pub fn parse_response(&self, resp: &Response, key: Option<&str>) -> (r: (
        [u8; 4],
        u16,
        Option<heapless::String<255>>,
    ))
        ensures
            outcome_holds(
                self@.labels,
                Some(resp@),
                match key {
                    Some(k) => Some(k.spec_bytes()),
                    None => None,
                },
                r,
            ),
    {
        if !self.matches(resp) {
            let r = ([0u8; 4], 0u16, None);
            assert(r.0@ =~= seq![0u8, 0u8, 0u8, 0u8]);
            return r;
        }
        let info = extract(&resp.additional);
        let txt = match key {
            None => None,
            Some(k) => match lookup(&info.txt, k.as_bytes()) {
                None => None,
                Some(v) => Some(txt_value(v.as_slice())),
            },
        };
        (info.ip, info.port, txt)
    }

    /// Decodes the datagram `data` and, when it answers this query, returns
    /// the service's address, port and (for a key) TXT value; the zero
    /// address, port 0 and no value otherwise.
    pub fn parse_mdns_query(&self, data: &[u8], key: Option<&str>) -> (r: (
        [u8; 4],
        u16,
        Option<heapless::String<255>>,
    ))
        ensures
            outcome_holds(
                self@.labels,
                match decoded_message(data@, slot_count(data@.len())) {
                    Some(m) => Some(clip_response(m)),
                    None => None,
                },
                match key {
                    Some(k) => Some(k.spec_bytes()),
                    None => None,
                },
                r,
            ),
    {
        match decode_response(data) {
            Ok(resp) => self.parse_response(&resp, key),
            Err(_) => {
                let r = ([0u8; 4], 0u16, None);
                assert(r.0@ =~= seq![0u8, 0u8, 0u8, 0u8]);
                r
            },
        }
    }
}

} // verus!
