use vstd::prelude::*;

verus! {

/// One DNS record's metadata as reported by the provider.
///
/// `name` doubles as the resource's unique identifier inside an encoded
/// collection; this crate does not detect duplicate names. `prio` is kept
/// as an option until the final render step, so that "no priority" and
/// "priority is the empty string" stay distinguishable in between.
pub struct DomainRecord {
    pub name: String,
    pub rec_id: String,
    pub zone_name: String,
    pub prio: Option<String>,
    pub ttl: u32,
    pub record_type: String,
    pub content: String,
}

/// The mathematical image of a record: each text field as a sequence of
/// characters, the time-to-live as a natural number.
pub ghost struct RecordView {
    pub name: Seq<char>,
    pub rec_id: Seq<char>,
    pub zone_name: Seq<char>,
    pub prio: Option<Seq<char>>,
    pub ttl: nat,
    pub record_type: Seq<char>,
    pub content: Seq<char>,
}

impl View for DomainRecord {
    type V = RecordView;

    open spec fn view(&self) -> RecordView {
        RecordView {
            name: self.name@,
            rec_id: self.rec_id@,
            zone_name: self.zone_name@,
            prio: match self.prio {
                Some(p) => Some(p@),
                None => None,
            },
            ttl: self.ttl as nat,
            record_type: self.record_type@,
            content: self.content@,
        }
    }
}

/// The text that the `priority` attribute renders as: the stored string
/// when present, the empty string when absent.
pub open spec fn priority_text(p: Option<Seq<char>>) -> Seq<char> {
    match p {
        Some(s) => s,
        None => Seq::empty(),
    }
}

} // verus!
