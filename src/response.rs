//! Decoded DNS responses, the rule that decides whether one answers the
//! query, and the extraction of address, port and TXT metadata from it.

use vstd::prelude::*;
use crate::txt::{TxtEntry, copy_range, entries_view, parse_txt, txt_entries};

verus! {

/// The record type of an IPv4 address record.
pub const TYPE_A: u16 = 1;

/// The record type of a TXT record.
pub const TYPE_TXT: u16 = 16;

/// The record type of an SRV record.
pub const TYPE_SRV: u16 = 33;

/// The most records of one section that are looked at.
pub const MAX_RECORDS: usize = 16;

/// One segment of a decoded DNS name.
pub enum LabelPart {
    /// A plain label.
    Text(Vec<u8>),
    /// A compression pointer, which is not followed.
    Pointer(u16),
    /// The terminating empty label.
    End,
}

pub enum PartView {
    Text(Seq<u8>),
    Pointer(u16),
    End,
}

impl View for LabelPart {
    type V = PartView;

    open spec fn view(&self) -> PartView {
        match self {
            LabelPart::Text(t) => PartView::Text(t@),
            LabelPart::Pointer(p) => PartView::Pointer(*p),
            LabelPart::End => PartView::End,
        }
    }
}

/// A resource record: its name, its type code and its raw data.
pub struct Record {
    pub name: Vec<LabelPart>,
    pub rtype: u16,
    pub data: Vec<u8>,
}

pub struct RecordView {
    pub name: Seq<PartView>,
    pub rtype: u16,
    pub data: Seq<u8>,
}

impl View for Record {
    type V = RecordView;

    open spec fn view(&self) -> RecordView {
        RecordView {
            name: self.name@.map_values(|p: LabelPart| p@),
            rtype: self.rtype,
            data: self.data@,
        }
    }
}

/// The answer and additional sections of a decoded response.
pub struct Response {
    pub answers: Vec<Record>,
    pub additional: Vec<Record>,
}

pub struct ResponseView {
    pub answers: Seq<RecordView>,
    pub additional: Seq<RecordView>,
}

pub open spec fn records_view(v: Seq<Record>) -> Seq<RecordView> {
    v.map_values(|r: Record| r@)
}

impl View for Response {
    type V = ResponseView;

    open spec fn view(&self) -> ResponseView {
        ResponseView { answers: records_view(self.answers@), additional: records_view(self.additional@) }
    }
}

/// At most the first `MAX_RECORDS` records of a section.
pub open spec fn clip(s: Seq<RecordView>) -> Seq<RecordView> {
    if s.len() <= MAX_RECORDS {
        s
    } else {
        s.subrange(0, MAX_RECORDS as int)
    }
}

/// A response with each section cut to its first `MAX_RECORDS` records.
pub open spec fn clip_response(r: ResponseView) -> ResponseView {
    ResponseView { answers: clip(r.answers), additional: clip(r.additional) }
}

/// `name` starts with the plain labels `labels`, in order.
pub open spec fn name_matches(labels: Seq<Seq<u8>>, name: Seq<PartView>) -> bool {
    labels.len() <= name.len() && forall|i: int|
        0 <= i < labels.len() ==> name[i] == PartView::Text(#[trigger] labels[i])
}

/// A response answers the query for `labels` when it has answers and
/// additional records and the name of its first answer matches.
pub open spec fn response_matches(labels: Seq<Seq<u8>>, resp: ResponseView) -> bool {
    resp.answers.len() > 0 && resp.additional.len() > 0 && name_matches(labels, resp.answers[0].name)
}

/// The address of the last A record with at least four data bytes;
/// all zero when there is none.
pub open spec fn ip_of(recs: Seq<RecordView>) -> Seq<u8>
    decreases recs.len(),
{
    if recs.len() == 0 {
        seq![0u8, 0u8, 0u8, 0u8]
    } else {
        let r = recs.last();
        if r.rtype == TYPE_A && r.data.len() >= 4 {
            r.data.subrange(0, 4)
        } else {
            ip_of(recs.drop_last())
        }
    }
}

/// The port (data bytes 4 and 5, big-endian) of the last SRV record with at
/// least six data bytes; zero when there is none.
pub open spec fn port_of(recs: Seq<RecordView>) -> u16
    decreases recs.len(),
{
    if recs.len() == 0 {
        0
    } else {
        let r = recs.last();
        if r.rtype == TYPE_SRV && r.data.len() >= 6 {
            ((r.data[4] as int) * 256 + (r.data[5] as int)) as u16
        } else {
            port_of(recs.drop_last())
        }
    }
}

/// The entries of all TXT records, record after record.
pub open spec fn all_entries(recs: Seq<RecordView>) -> Seq<(Seq<u8>, Seq<u8>)>
    decreases recs.len(),
{
    if recs.len() == 0 {
        seq![]
    } else {
        let r = recs.last();
        all_entries(recs.drop_last()) + if r.rtype == TYPE_TXT {
            txt_entries(r.data)
        } else {
            seq![]
        }
    }
}

/// The value of the first entry whose key is `key`.
pub open spec fn first_value(entries: Seq<(Seq<u8>, Seq<u8>)>, key: Seq<u8>) -> Option<Seq<u8>>
    decreases entries.len(),
{
    if entries.len() == 0 {
        None
    } else if entries[0].0 == key {
        Some(entries[0].1)
    } else {
        first_value(entries.drop_first(), key)
    }
}

/// Whether two byte slices hold the same bytes.
pub fn bytes_equal(a: &[u8], b: &[u8]) -> (r: bool)
    ensures
        r == (a@ == b@),
{
    if a.len() != b.len() {
        return false;
    }
    let mut i: usize = 0;
    while i < a.len()
        invariant
            a@.len() == b@.len(),
            0 <= i <= a@.len(),
            forall|j: int| 0 <= j < i ==> a@[j] == b@[j],
        decreases a.len() - i,
    {
        if a[i] != b[i] {
            return false;
        }
        i += 1;
    }
    assert(a@ =~= b@);
    true
}

/// Whether the name `name` starts with the plain labels `labels`.
pub fn name_starts_with(labels: &Vec<Vec<u8>>, name: &Vec<LabelPart>) -> (r: bool)
    ensures
        r == name_matches(labels@.map_values(|l: Vec<u8>| l@), name@.map_values(|p: LabelPart| p@)),
{
    let ghost ls = labels@.map_values(|l: Vec<u8>| l@);
    let ghost ns = name@.map_values(|p: LabelPart| p@);
    if labels.len() > name.len() {
        return false;
    }
    let mut i: usize = 0;
    while i < labels.len()
        invariant
            labels.len() <= name.len(),
            0 <= i <= labels.len(),
            ls == labels@.map_values(|l: Vec<u8>| l@),
            ns == name@.map_values(|p: LabelPart| p@),
            forall|j: int| 0 <= j < i ==> ns[j] == PartView::Text(#[trigger] ls[j]),
        decreases labels.len() - i,
    {
        let same = match &name[i] {
            LabelPart::Text(t) => bytes_equal(t.as_slice(), labels[i].as_slice()),
            _ => false,
        };
        if !same {
            assert(ns[i as int] != PartView::Text(ls[i as int]));
            return false;
        }
        i += 1;
    }
    true
}

/// Whether `resp` answers the query whose name has the labels `labels`:
/// only the first answer is looked at, and a pointer segment never matches.
pub fn matches_labels(labels: &Vec<Vec<u8>>, resp: &Response) -> (r: bool)
    ensures
        r == response_matches(labels@.map_values(|l: Vec<u8>| l@), resp@),
        resp.answers.len() == 0 ==> !r,
{
    if resp.answers.len() == 0 || resp.additional.len() == 0 {
        return false;
    }
    name_starts_with(labels, &resp.answers[0].name)
}

/// What a matching response says of the service: the address, the port,
/// and the TXT entries of every TXT record, record after record.
pub struct ServiceInfo {
    pub ip: [u8; 4],
    pub port: u16,
    pub txt: Vec<TxtEntry>,
}

/// Scans the additional records once: the last A record gives the
/// address, the last SRV record the port, and every TXT record its entries.
/// A or SRV records too short to hold their field are passed over.
pub fn extract(additional: &Vec<Record>) -> (r: ServiceInfo)
    ensures
        r.ip@ == ip_of(records_view(additional@)),
        r.port == port_of(records_view(additional@)),
        entries_view(r.txt@) == all_entries(records_view(additional@)),
{
    let ghost rv = records_view(additional@);
    let mut ip: [u8; 4] = [0u8; 4];
    let mut port: u16 = 0;
    let mut txt: Vec<TxtEntry> = Vec::new();
    let mut i: usize = 0;
    proof {
        assert(rv.subrange(0, 0) =~= Seq::<RecordView>::empty());
        assert(ip@ =~= seq![0u8, 0u8, 0u8, 0u8]);
    }
    while i < additional.len()
        invariant
            0 <= i <= additional.len(),
            rv == records_view(additional@),
            ip@ == ip_of(rv.subrange(0, i as int)),
            port == port_of(rv.subrange(0, i as int)),
            entries_view(txt@) == all_entries(rv.subrange(0, i as int)),
        decreases additional.len() - i,
    {
        let rec = &additional[i];
        let ghost pre = rv.subrange(0, i as int);
        let ghost next = rv.subrange(0, i + 1);
        proof {
            assert(next.drop_last() =~= pre);
            assert(next.last() == rec@);
        }
        if rec.rtype == TYPE_A && rec.data.len() >= 4 {
            ip = [rec.data[0], rec.data[1], rec.data[2], rec.data[3]];
            assert(ip@ =~= rec.data@.subrange(0, 4));
        } else if rec.rtype == TYPE_SRV && rec.data.len() >= 6 {
            port = (rec.data[4] as u16) * 256 + (rec.data[5] as u16);
        } else if rec.rtype == TYPE_TXT {
            let mut entries = parse_txt(rec.data.as_slice());
            let ghost before = txt@;
            txt.append(&mut entries);
            proof {
                assert(entries_view(txt@) =~= entries_view(before) + txt_entries(rec.data@));
            }
        }
        proof {
            if rec.rtype != TYPE_TXT {
                assert(all_entries(next) =~= all_entries(pre) + Seq::<(Seq<u8>, Seq<u8>)>::empty());
            }
        }
        i += 1;
    }
    assert(rv.subrange(0, additional.len() as int) =~= rv);
    ServiceInfo { ip, port, txt }
}

/// The value of the first entry of `entries` whose key is `key`.
pub fn lookup(entries: &Vec<TxtEntry>, key: &[u8]) -> (r: Option<Vec<u8>>)
    ensures
        match first_value(entries_view(entries@), key@) {
            None => r is None,
            Some(v) => r is Some && r->0@ == v,
        },
{
    let ghost ev = entries_view(entries@);
    let mut i: usize = 0;
    assert(ev.subrange(0, ev.len() as int) =~= ev);
    while i < entries.len()
        invariant
            0 <= i <= entries.len(),
            ev == entries_view(entries@),
            first_value(ev.subrange(i as int, ev.len() as int), key@) == first_value(ev, key@),
        decreases entries.len() - i,
    {
        let ghost rest = ev.subrange(i as int, ev.len() as int);
        assert(rest[0] == entries@[i as int]@);
        if bytes_equal(entries[i].key.as_slice(), key) {
            let v = &entries[i].value;
            return Some(copy_range(v.as_slice(), 0, v.len()));
        }
        assert(rest.drop_first() =~= ev.subrange(i + 1, ev.len() as int));
        i += 1;
    }
    None
}

} // verus!
