use vstd::prelude::*;
use crate::digits::dec_digits;
use crate::digits::lemma_dec_digits_no_quote;
use crate::encode::lit_after_domain;
use crate::encode::lit_after_hostname;
use crate::encode::lit_after_id;
use crate::encode::lit_after_id2;
use crate::encode::lit_after_name;
use crate::encode::lit_after_name2;
use crate::encode::lit_after_priority;
use crate::encode::lit_after_ttl;
use crate::encode::lit_after_type;
use crate::encode::lit_key;
use crate::encode::lit_tail;
use crate::encode::record_fragment;
use crate::record::RecordView;
use crate::record::priority_text;

verus! {

// A consumer of the encoded output reads each spliced value as "the text up
// to the next double quote". This module states that reading, and proves
// that it recovers every field of the record the fragment was encoded from,
// provided the fields contain no double quote — the one class of input on
// which the unescaped format is ambiguous.

/// True when the sequence contains no double quote.
pub open spec fn quote_free(s: Seq<char>) -> bool {
    forall|i: int| 0 <= i < s.len() ==> s[i] != '"'
}

/// The longest quote-free prefix of `s`: what a reader of the target format
/// takes as one quoted value.
pub open spec fn until_quote(s: Seq<char>) -> Seq<char>
    decreases s.len(),
{
    if s.len() == 0 || s[0] == '"' {
        Seq::empty()
    } else {
        seq![s[0]] + until_quote(s.drop_first())
    }
}

/// The values a reader of the target structural format extracts from one
/// fragment, in the order they stand in the template.
pub ghost struct ParsedRecord {
    pub name: Seq<char>,
    pub id: Seq<char>,
    pub domain: Seq<char>,
    pub hostname: Seq<char>,
    pub id2: Seq<char>,
    pub name2: Seq<char>,
    pub priority: Seq<char>,
    pub ttl: Seq<char>,
    pub record_type: Seq<char>,
    pub value: Seq<char>,
}

/// Reads the ten quoted values of a fragment in template order: skip the
/// literal text before a value, then take characters up to the next double
/// quote.
pub open spec fn parse_fragment(s: Seq<char>) -> ParsedRecord {
    let s0 = s.skip(lit_key().len() as int);
    let name = until_quote(s0);
    let s1 = s0.skip((name.len() + lit_after_name().len()) as int);
    let id = until_quote(s1);
    let s2 = s1.skip((id.len() + lit_after_id().len()) as int);
    let domain = until_quote(s2);
    let s3 = s2.skip((domain.len() + lit_after_domain().len()) as int);
    let hostname = until_quote(s3);
    let s4 = s3.skip((hostname.len() + lit_after_hostname().len()) as int);
    let id2 = until_quote(s4);
    let s5 = s4.skip((id2.len() + lit_after_id2().len()) as int);
    let name2 = until_quote(s5);
    let s6 = s5.skip((name2.len() + lit_after_name2().len()) as int);
    let priority = until_quote(s6);
    let s7 = s6.skip((priority.len() + lit_after_priority().len()) as int);
    let ttl = until_quote(s7);
    let s8 = s7.skip((ttl.len() + lit_after_ttl().len()) as int);
    let record_type = until_quote(s8);
    let s9 = s8.skip((record_type.len() + lit_after_type().len()) as int);
    let value = until_quote(s9);
    ParsedRecord { name, id, domain, hostname, id2, name2, priority, ttl, record_type, value }
}

/// Reading up to the next quote recovers a quote-free value exactly.
proof fn lemma_until_quote(v: Seq<char>, rest: Seq<char>)
    requires
        quote_free(v),
        rest.len() > 0,
        rest[0] == '"',
    ensures
        until_quote(v + rest) == v,
    decreases v.len(),
{
    if v.len() == 0 {
        assert(v + rest =~= rest);
    } else {
        assert((v + rest)[0] == v[0]);
        assert(v[0] != '"');
        assert(quote_free(v.drop_first())) by {
            assert(forall|i: int|
                0 <= i < v.drop_first().len() ==> v.drop_first()[i] == v[i + 1]);
        }
        lemma_until_quote(v.drop_first(), rest);
        assert((v + rest).drop_first() =~= v.drop_first() + rest);
        assert(seq![v[0]] + v.drop_first() =~= v);
    }
}

/// One parsing step: on `value + literal + rest`, with the value quote-free
/// and the literal opening with a quote, the reader takes exactly the value,
/// and skipping the value and the literal lands on `rest`.
proof fn lemma_parse_step(s: Seq<char>, v: Seq<char>, lit: Seq<char>, rest: Seq<char>)
    requires
        s == v + lit + rest,
        quote_free(v),
        lit.len() > 0,
        lit[0] == '"',
    ensures
        until_quote(s) == v,
        s.skip((v.len() + lit.len()) as int) == rest,
{
    assert(s =~= v + (lit + rest));
    assert((lit + rest)[0] == '"');
    lemma_until_quote(v, lit + rest);
    assert(s.skip((v.len() + lit.len()) as int) =~= rest);
}

/// Every template literal that follows a spliced value opens with the
/// double quote that closes the value.
proof fn lemma_lits_open_with_quote()
    ensures
        lit_after_name().len() > 0 && lit_after_name()[0] == '"',
        lit_after_id().len() > 0 && lit_after_id()[0] == '"',
        lit_after_domain().len() > 0 && lit_after_domain()[0] == '"',
        lit_after_hostname().len() > 0 && lit_after_hostname()[0] == '"',
        lit_after_id2().len() > 0 && lit_after_id2()[0] == '"',
        lit_after_name2().len() > 0 && lit_after_name2()[0] == '"',
        lit_after_priority().len() > 0 && lit_after_priority()[0] == '"',
        lit_after_ttl().len() > 0 && lit_after_ttl()[0] == '"',
        lit_after_type().len() > 0 && lit_after_type()[0] == '"',
        lit_tail().len() > 0 && lit_tail()[0] == '"',
{
    reveal_strlit("\": {\n    \"type\": \"cloudflare_record\",\n    \"primary\": {\n        \"id\": \"");
    reveal_strlit("\",\n        \"attributes\": {\n            \"domain\": \"");
    reveal_strlit("\",\n            \"hostname\": \"");
    reveal_strlit("\",\n            \"id\": \"");
    reveal_strlit("\",\n            \"name\": \"");
    reveal_strlit("\",\n            \"priority\": \"");
    reveal_strlit("\",\n            \"ttl\": \"");
    reveal_strlit("\",\n            \"type\": \"");
    reveal_strlit("\",\n            \"value\": \"");
    reveal_strlit("\"\n        }\n    }\n}");
}

/// Round trip: parsing the fragment encoded from a record recovers every
/// field of the record — the name (twice), the provider id (twice), the
/// zone as both domain and hostname, the rendered priority, the decimal
/// ttl, the record type and the value — provided each spliced text is free
/// of double quotes.
#[verifier::rlimit(100)]
#[verifier::spinoff_prover]
pub proof fn lemma_parse_record_fragment(v: RecordView)
    requires
        quote_free(v.name),
        quote_free(v.rec_id),
        quote_free(v.zone_name),
        quote_free(priority_text(v.prio)),
        quote_free(v.record_type),
        quote_free(v.content),
    ensures
        parse_fragment(record_fragment(v)).name == v.name,
        parse_fragment(record_fragment(v)).id == v.rec_id,
        parse_fragment(record_fragment(v)).domain == v.zone_name,
        parse_fragment(record_fragment(v)).hostname == v.zone_name,
        parse_fragment(record_fragment(v)).id2 == v.rec_id,
        parse_fragment(record_fragment(v)).name2 == v.name,
        parse_fragment(record_fragment(v)).priority == priority_text(v.prio),
        parse_fragment(record_fragment(v)).ttl == dec_digits(v.ttl),
        parse_fragment(record_fragment(v)).record_type == v.record_type,
        parse_fragment(record_fragment(v)).value == v.content,
{
    lemma_lits_open_with_quote();
    lemma_dec_digits_no_quote(v.ttl);
    let pr = priority_text(v.prio);
    let dd = dec_digits(v.ttl);
    let tail9 = v.content + lit_tail();
    let tail8 = v.record_type + lit_after_type() + tail9;
    let tail7 = dd + lit_after_ttl() + tail8;
    let tail6 = pr + lit_after_priority() + tail7;
    let tail5 = v.name + lit_after_name2() + tail6;
    let tail4 = v.rec_id + lit_after_id2() + tail5;
    let tail3 = v.zone_name + lit_after_hostname() + tail4;
    let tail2 = v.zone_name + lit_after_domain() + tail3;
    let tail1 = v.rec_id + lit_after_id() + tail2;
    let tail0 = v.name + lit_after_name() + tail1;
    assert(record_fragment(v) =~= lit_key() + tail0);
    assert(record_fragment(v).skip(lit_key().len() as int) =~= tail0);
    lemma_parse_step(tail0, v.name, lit_after_name(), tail1);
    lemma_parse_step(tail1, v.rec_id, lit_after_id(), tail2);
    lemma_parse_step(tail2, v.zone_name, lit_after_domain(), tail3);
    lemma_parse_step(tail3, v.zone_name, lit_after_hostname(), tail4);
    lemma_parse_step(tail4, v.rec_id, lit_after_id2(), tail5);
    lemma_parse_step(tail5, v.name, lit_after_name2(), tail6);
    lemma_parse_step(tail6, pr, lit_after_priority(), tail7);
    lemma_parse_step(tail7, dd, lit_after_ttl(), tail8);
    lemma_parse_step(tail8, v.record_type, lit_after_type(), tail9);
    assert(tail9 =~= v.content + lit_tail() + Seq::<char>::empty());
    lemma_parse_step(tail9, v.content, lit_tail(), Seq::empty());
}

} // verus!
