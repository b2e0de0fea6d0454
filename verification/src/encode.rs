use vstd::prelude::*;
use vstd::string::StrSliceExecFns;
use vstd::string::StringExecFns;
use crate::digits::dec_digits;
use crate::digits::render_u32;
use crate::record::DomainRecord;
use crate::record::RecordView;
use crate::record::priority_text;

verus! {

// The fragment for one record is a fixed template with the record's fields
// spliced in. The template is cut into the literal pieces between two
// spliced values; each piece below is named after the value it follows.

/// Opening of the resource key, up to the record's name.
pub open spec fn lit_key() -> Seq<char> {
    "\"cloudflare_record."@
}

/// From the end of the name to the `id` attribute of the primary block.
pub open spec fn lit_after_name() -> Seq<char> {
    "\": {\n    \"type\": \"cloudflare_record\",\n    \"primary\": {\n        \"id\": \""@
}

/// From the end of the primary id to the `domain` attribute.
pub open spec fn lit_after_id() -> Seq<char> {
    "\",\n        \"attributes\": {\n            \"domain\": \""@
}

/// From the end of the domain to the `hostname` attribute.
pub open spec fn lit_after_domain() -> Seq<char> {
    "\",\n            \"hostname\": \""@
}

/// From the end of the hostname to the `id` attribute.
pub open spec fn lit_after_hostname() -> Seq<char> {
    "\",\n            \"id\": \""@
}

/// From the end of the id to the `name` attribute.
pub open spec fn lit_after_id2() -> Seq<char> {
    "\",\n            \"name\": \""@
}

/// From the end of the name to the `priority` attribute.
pub open spec fn lit_after_name2() -> Seq<char> {
    "\",\n            \"priority\": \""@
}

/// From the end of the priority to the `ttl` attribute.
pub open spec fn lit_after_priority() -> Seq<char> {
    "\",\n            \"ttl\": \""@
}

/// From the end of the ttl to the `type` attribute.
pub open spec fn lit_after_ttl() -> Seq<char> {
    "\",\n            \"type\": \""@
}

/// From the end of the type to the `value` attribute.
pub open spec fn lit_after_type() -> Seq<char> {
    "\",\n            \"value\": \""@
}

/// Closing of the fragment after the value.
pub open spec fn lit_tail() -> Seq<char> {
    "\"\n        }\n    }\n}"@
}

/// The separator between two fragments in a collection.
pub open spec fn sep() -> Seq<char> {
    ",\n"@
}

/// The resource-state fragment for one record: the template literals with
/// the record's fields spliced in, the ttl in decimal, the priority as
/// `priority_text` renders it. No escaping is performed: a field containing
/// a double quote is spliced in as it stands, faithfully to the format this
/// crate reproduces.
pub open spec fn record_fragment(v: RecordView) -> Seq<char> {
    lit_key() + v.name + lit_after_name() + v.rec_id + lit_after_id() + v.zone_name
        + lit_after_domain() + v.zone_name + lit_after_hostname() + v.rec_id + lit_after_id2()
        + v.name + lit_after_name2() + priority_text(v.prio) + lit_after_priority()
        + dec_digits(v.ttl) + lit_after_ttl() + v.record_type + lit_after_type() + v.content
        + lit_tail()
}

/// The fragments of a sequence of records, joined by the separator:
/// nothing for the empty sequence, otherwise the fragments in input order
/// with one separator between each adjacent pair.
pub open spec fn join_fragments(vs: Seq<RecordView>) -> Seq<char>
    decreases vs.len(),
{
    if vs.len() == 0 {
        Seq::empty()
    } else if vs.len() == 1 {
        record_fragment(vs[0])
    } else {
        record_fragment(vs[0]) + sep() + join_fragments(vs.drop_first())
    }
}

/// The collection fragment: the joined fragments between square brackets.
pub open spec fn collection_fragment(vs: Seq<RecordView>) -> Seq<char> {
    "["@ + join_fragments(vs) + "]"@
}

/// The views of a sequence of records, in order.
pub open spec fn views_of(rs: Seq<DomainRecord>) -> Seq<RecordView> {
    rs.map(|i: int, r: DomainRecord| r@)
}

/// The per-record fragments of a sequence of records, in input order.
pub open spec fn fragments_of(vs: Seq<RecordView>) -> Seq<Seq<char>> {
    vs.map(|i: int, v: RecordView| record_fragment(v))
}

/// Appending one record to a joined sequence extends the join at the end,
/// with a separator exactly when the sequence was nonempty.
pub proof fn lemma_join_push(vs: Seq<RecordView>, v: RecordView)
    ensures
        vs.len() == 0 ==> join_fragments(vs.push(v)) == record_fragment(v),
        vs.len() > 0 ==> join_fragments(vs.push(v)) == join_fragments(vs) + sep()
            + record_fragment(v),
    decreases vs.len(),
{
    if vs.len() == 0 {
        assert(vs.push(v).len() == 1);
        assert(vs.push(v)[0] == v);
    } else if vs.len() == 1 {
        assert(vs.push(v)[0] == vs[0]);
        assert(vs.push(v).drop_first() =~= seq![v]);
        assert(join_fragments(seq![v]) == record_fragment(v));
    } else {
        lemma_join_push(vs.drop_first(), v);
        assert(vs.push(v).drop_first() =~= vs.drop_first().push(v));
        assert(vs.push(v)[0] == vs[0]);
        assert(join_fragments(vs.push(v)) == record_fragment(vs[0]) + sep() + join_fragments(
            vs.drop_first().push(v),
        ));
        assert(record_fragment(vs[0]) + sep() + (join_fragments(vs.drop_first()) + sep()
            + record_fragment(v)) =~= join_fragments(vs) + sep() + record_fragment(v));
    }
}

impl DomainRecord {
    /// Renders this record as one resource-state fragment.
    pub fn encode(&self) -> (s: String)
        ensures
            s@ == record_fragment(self@),
    {
        let mut s = String::new();
        s.append("\"cloudflare_record.");
        s.append(self.name.as_str());
        s.append("\": {\n    \"type\": \"cloudflare_record\",\n    \"primary\": {\n        \"id\": \"");
        s.append(self.rec_id.as_str());
        s.append("\",\n        \"attributes\": {\n            \"domain\": \"");
        s.append(self.zone_name.as_str());
        s.append("\",\n            \"hostname\": \"");
        s.append(self.zone_name.as_str());
        s.append("\",\n            \"id\": \"");
        s.append(self.rec_id.as_str());
        s.append("\",\n            \"name\": \"");
        s.append(self.name.as_str());
        s.append("\",\n            \"priority\": \"");
        match &self.prio {
            Some(p) => s.append(p.as_str()),
            None => (),
        }
        proof {
            assert(s@ =~= lit_key() + self@.name + lit_after_name() + self@.rec_id + lit_after_id()
                + self@.zone_name + lit_after_domain() + self@.zone_name + lit_after_hostname()
                + self@.rec_id + lit_after_id2() + self@.name + lit_after_name2() + priority_text(
                self@.prio,
            ));
        }
        s.append("\",\n            \"ttl\": \"");
        let ttl_text = render_u32(self.ttl);
        s.append(ttl_text.as_str());
        s.append("\",\n            \"type\": \"");
        s.append(self.record_type.as_str());
        s.append("\",\n            \"value\": \"");
        s.append(self.content.as_str());
        s.append("\"\n        }\n    }\n}");
        proof {
            assert(s@ =~= record_fragment(self@));
        }
        s
    }
}

/// Renders an ordered sequence of records as one collection fragment:
/// the records' fragments in input order, separated by the separator,
/// between square brackets. The empty sequence yields `[]`.
pub fn encode_collection(records: &Vec<DomainRecord>) -> (s: String)
    ensures
        s@ == collection_fragment(views_of(records@)),
{
    let mut s = String::from_str("[");
    let mut i: usize = 0;
    while i < records.len()
        invariant
            i <= records.len(),
            s@ == "["@ + join_fragments(views_of(records@).take(i as int)),
        decreases records.len() - i,
    {
        if i > 0 {
            s.append(",\n");
        }
        let frag = records[i].encode();
        s.append(frag.as_str());
        proof {
            let vs = views_of(records@);
            assert(vs.take(i as int + 1) =~= vs.take(i as int).push(records@[i as int]@));
            lemma_join_push(vs.take(i as int), records@[i as int]@);
            assert(s@ =~= "["@ + join_fragments(vs.take(i as int + 1)));
        }
        i += 1;
    }
    proof {
        assert(views_of(records@).take(records@.len() as int) =~= views_of(records@));
    }
    s.append("]");
    proof {
        assert(s@ =~= collection_fragment(views_of(records@)));
    }
    s
}

} // verus!
