use vstd::prelude::*;
use crate::encode::collection_fragment;
use crate::encode::record_fragment;
use crate::record::RecordView;
use crate::record::priority_text;

verus! {

/// The priority attribute renders as the empty string exactly when the
/// record carries no priority — provided a priority that is present is a
/// nonempty string, since a present-but-empty priority renders the same
/// way as an absent one.
pub proof fn lemma_priority_empty_iff_absent(p: Option<Seq<char>>)
    requires
        p matches Some(q) ==> q.len() > 0,
    ensures
        priority_text(p).len() == 0 <==> p is None,
{
}

/// Encoding is a pure function of the record: any two outputs that the
/// record encoder's contract allows for the same record are identical.
pub proof fn lemma_encode_deterministic(v: RecordView, s1: Seq<char>, s2: Seq<char>)
    requires
        s1 == record_fragment(v),
        s2 == record_fragment(v),
    ensures
        s1 == s2,
{
}

/// The empty sequence of records encodes to exactly `[]`.
pub proof fn lemma_empty_collection()
    ensures
        collection_fragment(Seq::empty()) == "[]"@,
{
    reveal_strlit("[");
    reveal_strlit("]");
    reveal_strlit("[]");
    assert(collection_fragment(Seq::empty()) =~= "[]"@);
}

} // verus!
