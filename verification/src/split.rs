use vstd::prelude::*;
use crate::encode::lit_after_domain;
use crate::encode::lit_after_hostname;
use crate::encode::lit_after_id;
use crate::encode::lit_after_id2;
use crate::encode::lit_after_name;
use crate::encode::lit_after_name2;
use crate::encode::lit_after_priority;
use crate::encode::lit_after_ttl;
use crate::encode::lit_after_type;
use crate::encode::lit_key;
use crate::encode::lit_tail;
use crate::encode::collection_fragment;
use crate::encode::fragments_of;
use crate::encode::join_fragments;
use crate::encode::record_fragment;
use crate::encode::sep;
use crate::digits::dec_digits;
use crate::digits::lemma_dec_digits_only_digits;
use crate::record::RecordView;
use crate::record::priority_text;

verus! {

// The collection separator `,\n` also occurs inside every record fragment,
// at the end of each attribute line, so "split the collection on the
// separator" only makes sense at the top level: at brace depth zero. This
// module states that split and proves that it cuts the joined collection
// back into exactly the per-record fragments, one per record, in order.

/// How one character changes the brace depth.
pub open spec fn depth_step(d: int, c: char) -> int {
    if c == '{' {
        d + 1
    } else if c == '}' {
        d - 1
    } else {
        d
    }
}

/// The brace depth after scanning `s` from position `i`, starting at depth `d`.
pub open spec fn end_depth_from(s: Seq<char>, i: int, d: int) -> int
    decreases s.len() - i,
{
    if i < 0 || i >= s.len() {
        d
    } else {
        end_depth_from(s, i + 1, depth_step(d, s[i]))
    }
}

/// True when scanning `s` from position `i` at depth `d` meets no separator
/// pair `,\n` at depth zero.
pub open spec fn no_top_sep_from(s: Seq<char>, i: int, d: int) -> bool
    decreases s.len() - i,
{
    if i < 0 || i >= s.len() {
        true
    } else if d == 0 && s[i] == ',' && i + 1 < s.len() && s[i + 1] == '\n' {
        false
    } else {
        no_top_sep_from(s, i + 1, depth_step(d, s[i]))
    }
}

/// The parts of `s` from position `i` at depth `d`, cut at every separator
/// pair `,\n` that stands at depth zero. Splitting an empty remainder gives
/// one empty part, as splitting a text on a separator always yields one
/// part more than there are separators.
pub open spec fn split_from(s: Seq<char>, i: int, d: int) -> Seq<Seq<char>>
    decreases s.len() - i,
{
    if i < 0 || i >= s.len() {
        seq![Seq::<char>::empty()]
    } else if d == 0 && s[i] == ',' && i + 1 < s.len() && s[i + 1] == '\n' {
        seq![Seq::<char>::empty()] + split_from(s, i + 2, 0)
    } else {
        let rest = split_from(s, i + 1, depth_step(d, s[i]));
        seq![seq![s[i]] + rest[0]] + rest.skip(1)
    }
}

/// A split always yields at least one part.
proof fn lemma_split_from_len(s: Seq<char>, i: int, d: int)
    ensures
        split_from(s, i, d).len() >= 1,
    decreases s.len() - i,
{
    if i < 0 || i >= s.len() {
    } else if d == 0 && s[i] == ',' && i + 1 < s.len() && s[i + 1] == '\n' {
        lemma_split_from_len(s, i + 2, 0);
    } else {
        lemma_split_from_len(s, i + 1, depth_step(d, s[i]));
    }
}

/// Scanning the second half of a concatenation is scanning it alone.
proof fn lemma_end_depth_shift(a: Seq<char>, b: Seq<char>, j: int, d: int)
    requires
        0 <= j,
    ensures
        end_depth_from(a + b, a.len() + j, d) == end_depth_from(b, j, d),
    decreases b.len() - j,
{
    if j < b.len() {
        assert((a + b)[a.len() + j] == b[j]);
        lemma_end_depth_shift(a, b, j + 1, depth_step(d, b[j]));
    }
}

proof fn lemma_no_top_sep_shift(a: Seq<char>, b: Seq<char>, j: int, d: int)
    requires
        0 <= j,
    ensures
        no_top_sep_from(a + b, a.len() + j, d) == no_top_sep_from(b, j, d),
    decreases b.len() - j,
{
    if j < b.len() {
        assert((a + b)[a.len() + j] == b[j]);
        if j + 1 < b.len() {
            assert((a + b)[a.len() + j + 1] == b[j + 1]);
        }
        if d == 0 && b[j] == ',' && j + 1 < b.len() && b[j + 1] == '\n' {
        } else {
            lemma_no_top_sep_shift(a, b, j + 1, depth_step(d, b[j]));
        }
    }
}

proof fn lemma_split_shift(a: Seq<char>, b: Seq<char>, j: int, d: int)
    requires
        0 <= j,
    ensures
        split_from(a + b, a.len() + j, d) == split_from(b, j, d),
    decreases b.len() - j,
{
    if j < b.len() {
        assert((a + b)[a.len() + j] == b[j]);
        if j + 1 < b.len() {
            assert((a + b)[a.len() + j + 1] == b[j + 1]);
        }
        if d == 0 && b[j] == ',' && j + 1 < b.len() && b[j + 1] == '\n' {
            lemma_split_shift(a, b, j + 2, 0);
        } else {
            lemma_split_shift(a, b, j + 1, depth_step(d, b[j]));
        }
    }
}

/// The depth after a concatenation is the depth after the second half,
/// started where the first half ended.
proof fn lemma_end_depth_concat(a: Seq<char>, b: Seq<char>, i: int, d: int)
    requires
        0 <= i <= a.len(),
    ensures
        end_depth_from(a + b, i, d) == end_depth_from(b, 0, end_depth_from(a, i, d)),
    decreases a.len() - i,
{
    if i == a.len() {
        lemma_end_depth_shift(a, b, 0, d);
    } else {
        assert((a + b)[i] == a[i]);
        lemma_end_depth_concat(a, b, i + 1, depth_step(d, a[i]));
    }
}

/// A concatenation has no top-level separator if neither half has one and
/// no separator pair straddles the boundary; the first half not ending in a
/// comma rules the straddle out.
proof fn lemma_no_top_sep_concat(a: Seq<char>, b: Seq<char>, i: int, d: int)
    requires
        0 <= i <= a.len(),
        no_top_sep_from(a, i, d),
        no_top_sep_from(b, 0, end_depth_from(a, i, d)),
        a.len() > 0 ==> a[a.len() - 1] != ',',
    ensures
        no_top_sep_from(a + b, i, d),
    decreases a.len() - i,
{
    if i == a.len() {
        lemma_no_top_sep_shift(a, b, 0, d);
    } else {
        assert((a + b)[i] == a[i]);
        if i + 1 < a.len() {
            assert((a + b)[i + 1] == a[i + 1]);
        } else if i + 1 < (a + b).len() {
            assert((a + b)[i + 1] == b[0]);
            assert(a[i] == a[a.len() - 1]);
        }
        lemma_no_top_sep_concat(a, b, i + 1, depth_step(d, a[i]));
    }
}

/// Splitting `a + b` when `a` is one clean part: `a` is glued onto the
/// first part of `b`'s split, and the remaining parts are `b`'s.
proof fn lemma_split_concat(a: Seq<char>, b: Seq<char>, i: int, d: int)
    requires
        0 <= i <= a.len(),
        no_top_sep_from(a, i, d),
        a.len() > 0 ==> a[a.len() - 1] != ',',
    ensures
        split_from(a + b, i, d) == seq![
            a.skip(i) + split_from(b, 0, end_depth_from(a, i, d))[0],
        ] + split_from(b, 0, end_depth_from(a, i, d)).skip(1),
    decreases a.len() - i,
{
    let e = end_depth_from(a, i, d);
    let parts = split_from(b, 0, e);
    lemma_split_from_len(b, 0, e);
    if i == a.len() {
        lemma_split_shift(a, b, 0, d);
        assert(a.skip(i) =~= Seq::<char>::empty());
        assert(Seq::<char>::empty() + parts[0] =~= parts[0]);
        assert(seq![parts[0]] + parts.skip(1) =~= parts);
    } else {
        assert((a + b)[i] == a[i]);
        if i + 1 < a.len() {
            assert((a + b)[i + 1] == a[i + 1]);
        } else if i + 1 < (a + b).len() {
            assert((a + b)[i + 1] == b[0]);
            assert(a[i] == a[a.len() - 1]);
        }
        lemma_split_concat(a, b, i + 1, depth_step(d, a[i]));
        let rest = split_from(a + b, i + 1, depth_step(d, a[i]));
        assert(rest == seq![a.skip(i + 1) + parts[0]] + parts.skip(1));
        assert(rest[0] == a.skip(i + 1) + parts[0]);
        assert(rest.skip(1) =~= parts.skip(1));
        assert(seq![a[i]] + (a.skip(i + 1) + parts[0]) =~= a.skip(i) + parts[0]);
        assert(split_from(a + b, i, d) == seq![seq![(a + b)[i]] + rest[0]] + rest.skip(1));
        assert(seq![(a + b)[i]] + rest[0] == a.skip(i) + parts[0]);
    }
}

/// True when no character of `s` can affect the top-level split: `s` holds
/// no brace and no comma.
pub open spec fn splits_cleanly(s: Seq<char>) -> bool {
    forall|i: int| 0 <= i < s.len() ==> s[i] != '{' && s[i] != '}' && s[i] != ','
}

/// A clean text leaves the depth unchanged and holds no top-level separator.
proof fn lemma_clean_scan(s: Seq<char>, i: int, d: int)
    requires
        0 <= i <= s.len(),
        splits_cleanly(s),
    ensures
        end_depth_from(s, i, d) == d,
        no_top_sep_from(s, i, d),
    decreases s.len() - i,
{
    if i < s.len() {
        lemma_clean_scan(s, i + 1, d);
    }
}

// The template literals are scanned once each, at the depth they stand at
// inside a fragment: the key prefix at depth zero, the attribute-line
// literals at depth two or three, the closing tail back down to zero.

#[verifier::rlimit(100)]
#[verifier::spinoff_prover]
proof fn lemma_scan_lit_key()
    ensures
        end_depth_from(lit_key(), 0, 0) == 0,
        no_top_sep_from(lit_key(), 0, 0),
        lit_key().len() > 0,
        lit_key()[lit_key().len() - 1] == '.',
{
    reveal_strlit("\"cloudflare_record.");
    reveal_with_fuel(end_depth_from, 30);
    reveal_with_fuel(no_top_sep_from, 30);
}

#[verifier::rlimit(100)]
#[verifier::spinoff_prover]
proof fn lemma_scan_lit_after_name()
    ensures
        end_depth_from(lit_after_name(), 0, 0) == 2,
        no_top_sep_from(lit_after_name(), 0, 0),
        lit_after_name().len() > 0,
        lit_after_name()[lit_after_name().len() - 1] == '"',
{
    reveal_strlit("\": {\n    \"type\": \"cloudflare_record\",\n    \"primary\": {\n        \"id\": \"");
    reveal_with_fuel(end_depth_from, 80);
    reveal_with_fuel(no_top_sep_from, 80);
}

#[verifier::rlimit(100)]
#[verifier::spinoff_prover]
proof fn lemma_scan_lit_after_id()
    ensures
        end_depth_from(lit_after_id(), 0, 2) == 3,
        no_top_sep_from(lit_after_id(), 0, 2),
        lit_after_id().len() > 0,
        lit_after_id()[lit_after_id().len() - 1] == '"',
{
    reveal_strlit("\",\n        \"attributes\": {\n            \"domain\": \"");
    reveal_with_fuel(end_depth_from, 60);
    reveal_with_fuel(no_top_sep_from, 60);
}

#[verifier::rlimit(100)]
#[verifier::spinoff_prover]
proof fn lemma_scan_lit_after_domain()
    ensures
        end_depth_from(lit_after_domain(), 0, 3) == 3,
        no_top_sep_from(lit_after_domain(), 0, 3),
        lit_after_domain().len() > 0,
        lit_after_domain()[lit_after_domain().len() - 1] == '"',
{
    reveal_strlit("\",\n            \"hostname\": \"");
    reveal_with_fuel(end_depth_from, 40);
    reveal_with_fuel(no_top_sep_from, 40);
}

#[verifier::rlimit(100)]
#[verifier::spinoff_prover]
proof fn lemma_scan_lit_after_hostname()
    ensures
        end_depth_from(lit_after_hostname(), 0, 3) == 3,
        no_top_sep_from(lit_after_hostname(), 0, 3),
        lit_after_hostname().len() > 0,
        lit_after_hostname()[lit_after_hostname().len() - 1] == '"',
{
    reveal_strlit("\",\n            \"id\": \"");
    reveal_with_fuel(end_depth_from, 40);
    reveal_with_fuel(no_top_sep_from, 40);
}

#[verifier::rlimit(100)]
#[verifier::spinoff_prover]
proof fn lemma_scan_lit_after_id2()
    ensures
        end_depth_from(lit_after_id2(), 0, 3) == 3,
        no_top_sep_from(lit_after_id2(), 0, 3),
        lit_after_id2().len() > 0,
        lit_after_id2()[lit_after_id2().len() - 1] == '"',
{
    reveal_strlit("\",\n            \"name\": \"");
    reveal_with_fuel(end_depth_from, 40);
    reveal_with_fuel(no_top_sep_from, 40);
}

#[verifier::rlimit(100)]
#[verifier::spinoff_prover]
proof fn lemma_scan_lit_after_name2()
    ensures
        end_depth_from(lit_after_name2(), 0, 3) == 3,
        no_top_sep_from(lit_after_name2(), 0, 3),
        lit_after_name2().len() > 0,
        lit_after_name2()[lit_after_name2().len() - 1] == '"',
{
    reveal_strlit("\",\n            \"priority\": \"");
    reveal_with_fuel(end_depth_from, 40);
    reveal_with_fuel(no_top_sep_from, 40);
}

#[verifier::rlimit(100)]
#[verifier::spinoff_prover]
proof fn lemma_scan_lit_after_priority()
    ensures
        end_depth_from(lit_after_priority(), 0, 3) == 3,
        no_top_sep_from(lit_after_priority(), 0, 3),
        lit_after_priority().len() > 0,
        lit_after_priority()[lit_after_priority().len() - 1] == '"',
{
    reveal_strlit("\",\n            \"ttl\": \"");
    reveal_with_fuel(end_depth_from, 40);
    reveal_with_fuel(no_top_sep_from, 40);
}

#[verifier::rlimit(100)]
#[verifier::spinoff_prover]
proof fn lemma_scan_lit_after_ttl()
    ensures
        end_depth_from(lit_after_ttl(), 0, 3) == 3,
        no_top_sep_from(lit_after_ttl(), 0, 3),
        lit_after_ttl().len() > 0,
        lit_after_ttl()[lit_after_ttl().len() - 1] == '"',
{
    reveal_strlit("\",\n            \"type\": \"");
    reveal_with_fuel(end_depth_from, 40);
    reveal_with_fuel(no_top_sep_from, 40);
}

#[verifier::rlimit(100)]
#[verifier::spinoff_prover]
proof fn lemma_scan_lit_after_type()
    ensures
        end_depth_from(lit_after_type(), 0, 3) == 3,
        no_top_sep_from(lit_after_type(), 0, 3),
        lit_after_type().len() > 0,
        lit_after_type()[lit_after_type().len() - 1] == '"',
{
    reveal_strlit("\",\n            \"value\": \"");
    reveal_with_fuel(end_depth_from, 40);
    reveal_with_fuel(no_top_sep_from, 40);
}

#[verifier::rlimit(100)]
#[verifier::spinoff_prover]
proof fn lemma_scan_lit_tail()
    ensures
        end_depth_from(lit_tail(), 0, 3) == 0,
        no_top_sep_from(lit_tail(), 0, 3),
        lit_tail().len() > 0,
        lit_tail()[lit_tail().len() - 1] == '}',
{
    reveal_strlit("\"\n        }\n    }\n}");
    reveal_with_fuel(end_depth_from, 30);
    reveal_with_fuel(no_top_sep_from, 30);
}

proof fn lemma_sep_chars()
    ensures
        sep().len() == 2,
        sep()[0] == ',',
        sep()[1] == '\n',
{
    reveal_strlit(",\n");
}

/// Extends the scan facts of a prefix by one more piece of the template.
proof fn lemma_scan_extend(p: Seq<char>, piece: Seq<char>, dp: int, dq: int)
    requires
        no_top_sep_from(p, 0, 0),
        end_depth_from(p, 0, 0) == dp,
        no_top_sep_from(piece, 0, dp),
        end_depth_from(piece, 0, dp) == dq,
        p.len() > 0,
        p[p.len() - 1] != ',',
    ensures
        no_top_sep_from(p + piece, 0, 0),
        end_depth_from(p + piece, 0, 0) == dq,
        (p + piece).len() > 0,
        piece.len() > 0 ==> (p + piece)[(p + piece).len() - 1] == piece[piece.len() - 1],
        piece.len() == 0 ==> (p + piece)[(p + piece).len() - 1] == p[p.len() - 1],
{
    lemma_end_depth_concat(p, piece, 0, 0);
    lemma_no_top_sep_concat(p, piece, 0, 0);
}

/// True when every field a record splices into its fragment is clean for
/// the top-level split.
pub open spec fn record_splits_cleanly(v: RecordView) -> bool {
    splits_cleanly(v.name) && splits_cleanly(v.rec_id) && splits_cleanly(v.zone_name)
        && splits_cleanly(priority_text(v.prio)) && splits_cleanly(v.record_type)
        && splits_cleanly(v.content)
}

/// A fragment encoded from a clean record is one clean part: its braces
/// are balanced back to depth zero, it holds no top-level separator, and
/// it ends with a closing brace.
#[verifier::rlimit(100)]
#[verifier::spinoff_prover]
proof fn lemma_fragment_scan(v: RecordView)
    requires
        record_splits_cleanly(v),
    ensures
        record_fragment(v).len() > 0,
        record_fragment(v)[record_fragment(v).len() - 1] == '}',
        end_depth_from(record_fragment(v), 0, 0) == 0,
        no_top_sep_from(record_fragment(v), 0, 0),
{
    let dd = dec_digits(v.ttl);
    let pr = priority_text(v.prio);
    assert(splits_cleanly(dd)) by {
        lemma_dec_digits_only_digits(v.ttl);
    }
    lemma_scan_lit_key();
    lemma_scan_lit_after_name();
    lemma_scan_lit_after_id();
    lemma_scan_lit_after_domain();
    lemma_scan_lit_after_hostname();
    lemma_scan_lit_after_id2();
    lemma_scan_lit_after_name2();
    lemma_scan_lit_after_priority();
    lemma_scan_lit_after_ttl();
    lemma_scan_lit_after_type();
    lemma_scan_lit_tail();
    lemma_clean_scan(v.name, 0, 0);
    lemma_clean_scan(v.rec_id, 0, 2);
    lemma_clean_scan(v.zone_name, 0, 3);
    lemma_clean_scan(v.rec_id, 0, 3);
    lemma_clean_scan(v.name, 0, 3);
    lemma_clean_scan(pr, 0, 3);
    lemma_clean_scan(dd, 0, 3);
    lemma_clean_scan(v.record_type, 0, 3);
    lemma_clean_scan(v.content, 0, 3);
    let p1 = lit_key() + v.name;
    lemma_scan_extend(lit_key(), v.name, 0, 0);
    assert(p1[p1.len() - 1] != ',');
    let p2 = p1 + lit_after_name();
    lemma_scan_extend(p1, lit_after_name(), 0, 2);
    let p3 = p2 + v.rec_id;
    lemma_scan_extend(p2, v.rec_id, 2, 2);
    assert(p3[p3.len() - 1] != ',');
    let p4 = p3 + lit_after_id();
    lemma_scan_extend(p3, lit_after_id(), 2, 3);
    let p5 = p4 + v.zone_name;
    lemma_scan_extend(p4, v.zone_name, 3, 3);
    assert(p5[p5.len() - 1] != ',');
    let p6 = p5 + lit_after_domain();
    lemma_scan_extend(p5, lit_after_domain(), 3, 3);
    let p7 = p6 + v.zone_name;
    lemma_scan_extend(p6, v.zone_name, 3, 3);
    assert(p7[p7.len() - 1] != ',');
    let p8 = p7 + lit_after_hostname();
    lemma_scan_extend(p7, lit_after_hostname(), 3, 3);
    let p9 = p8 + v.rec_id;
    lemma_scan_extend(p8, v.rec_id, 3, 3);
    assert(p9[p9.len() - 1] != ',');
    let p10 = p9 + lit_after_id2();
    lemma_scan_extend(p9, lit_after_id2(), 3, 3);
    let p11 = p10 + v.name;
    lemma_scan_extend(p10, v.name, 3, 3);
    assert(p11[p11.len() - 1] != ',');
    let p12 = p11 + lit_after_name2();
    lemma_scan_extend(p11, lit_after_name2(), 3, 3);
    let p13 = p12 + pr;
    lemma_scan_extend(p12, pr, 3, 3);
    assert(p13[p13.len() - 1] != ',');
    let p14 = p13 + lit_after_priority();
    lemma_scan_extend(p13, lit_after_priority(), 3, 3);
    let p15 = p14 + dd;
    lemma_scan_extend(p14, dd, 3, 3);
    assert(p15[p15.len() - 1] != ',');
    let p16 = p15 + lit_after_ttl();
    lemma_scan_extend(p15, lit_after_ttl(), 3, 3);
    let p17 = p16 + v.record_type;
    lemma_scan_extend(p16, v.record_type, 3, 3);
    assert(p17[p17.len() - 1] != ',');
    let p18 = p17 + lit_after_type();
    lemma_scan_extend(p17, lit_after_type(), 3, 3);
    let p19 = p18 + v.content;
    lemma_scan_extend(p18, v.content, 3, 3);
    assert(p19[p19.len() - 1] != ',');
    let p20 = p19 + lit_tail();
    lemma_scan_extend(p19, lit_tail(), 3, 0);
    assert(record_fragment(v) == p20);
}

/// Splitting the joined fragments of a nonempty clean sequence yields
/// exactly the per-record fragments.
proof fn lemma_split_join(vs: Seq<RecordView>)
    requires
        vs.len() > 0,
        forall|k: int| 0 <= k < vs.len() ==> record_splits_cleanly(#[trigger] vs[k]),
    ensures
        split_from(join_fragments(vs), 0, 0) == fragments_of(vs),
    decreases vs.len(),
{
    let f0 = record_fragment(vs[0]);
    lemma_fragment_scan(vs[0]);
    if vs.len() == 1 {
        let empty = Seq::<char>::empty();
        lemma_split_concat(f0, empty, 0, 0);
        assert(f0 + empty =~= f0);
        assert(split_from(empty, 0, 0) == seq![empty]);
        assert(f0.skip(0) =~= f0);
        assert(f0 + seq![empty][0] =~= f0);
        assert(seq![f0 + seq![empty][0]] + seq![empty].skip(1) =~= seq![f0]);
        assert(fragments_of(vs) =~= seq![f0]);
    } else {
        let jr = join_fragments(vs.drop_first());
        let b = sep() + jr;
        assert(join_fragments(vs) =~= f0 + b);
        lemma_split_concat(f0, b, 0, 0);
        assert(f0.skip(0) =~= f0);
        lemma_sep_chars();
        assert(b[0] == ',' && b[1] == '\n');
        assert(b.len() >= 2);
        assert(split_from(b, 0, 0) == seq![Seq::<char>::empty()] + split_from(b, 2, 0));
        lemma_split_shift(sep(), jr, 0, 0);
        assert(split_from(b, 2, 0) == split_from(jr, 0, 0));
        assert(forall|k: int|
            0 <= k < vs.drop_first().len() ==> record_splits_cleanly(
                #[trigger] vs.drop_first()[k],
            ));
        lemma_split_join(vs.drop_first());
        let parts = split_from(b, 0, 0);
        assert(parts[0] == Seq::<char>::empty());
        assert(parts.skip(1) =~= fragments_of(vs.drop_first()));
        assert(f0 + parts[0] =~= f0);
        assert(fragments_of(vs) =~= seq![f0] + fragments_of(vs.drop_first()));
    }
}

/// For every ordered sequence of records whose fields are clean for the
/// split, the collection output, cut on the top-level separator — the
/// `,\n` pairs that stand at brace depth zero between the brackets —
/// yields exactly one part per input record, in input order, and each part
/// is that record's own fragment. The empty sequence joins to the empty
/// text between the brackets.
pub proof fn lemma_collection_splits_into_fragments(vs: Seq<RecordView>)
    requires
        forall|k: int| 0 <= k < vs.len() ==> record_splits_cleanly(#[trigger] vs[k]),
    ensures
        collection_fragment(vs) == "["@ + join_fragments(vs) + "]"@,
        vs.len() == 0 ==> join_fragments(vs) == Seq::<char>::empty(),
        vs.len() > 0 ==> split_from(join_fragments(vs), 0, 0) == fragments_of(vs),
        fragments_of(vs).len() == vs.len(),
        forall|i: int| 0 <= i < vs.len() ==> fragments_of(vs)[i] == record_fragment(vs[i]),
{
    if vs.len() > 0 {
        lemma_split_join(vs);
    }
}

} // verus!
