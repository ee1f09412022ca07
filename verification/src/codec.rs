//! The backing-file document format: a structured text document holding
//! the ordered list of queue entries, with an encoder, a parser, and the
//! proof that a document written by the encoder parses back to the exact
//! sequence it was written from.
//!
//! The format is a restricted form of the usual brace-and-quote notation:
//! one object with a `students` list, each entry an object with its `info`
//! fields and its `id`, every string quoted with `"` and `\` escaped by a
//! backslash, and no whitespace between tokens. A document that does not
//! match this shape parses to nothing, which the store treats as empty.

use vstd::prelude::*;

use crate::queue::Purpose;
use crate::queue::StudentInfo;
use crate::queue::StudentInfoV;
use crate::queue::StudentRequest;
use crate::queue::StudentRequestV;
use crate::queue::reqs_view;
use crate::textfmt::push_char;
use vstd::string::StrSliceExecFns;
use vstd::string::StringExecFns;

verus! {

// ------------------------------------------------------------------
// The encoding, as a mathematical function of the entry sequence.
// ------------------------------------------------------------------
/// How one character stands in a quoted string: `"` and `\` get a
/// backslash before them, every other character stands as itself.
pub open spec fn esc_char(c: char) -> Seq<char> {
    if c == '"' || c == '\\' {
        seq!['\\', c]
    } else {
        seq![c]
    }
}

/// A string's characters, each escaped.
pub open spec fn esc(s: Seq<char>) -> Seq<char>
    decreases s.len(),
{
    if s.len() == 0 {
        Seq::empty()
    } else {
        esc_char(s[0]) + esc(s.drop_first())
    }
}

/// A quoted, escaped string.
pub open spec fn enc_str(s: Seq<char>) -> Seq<char> {
    seq!['"'] + esc(s) + seq!['"']
}

/// The name under which a purpose is stored.
pub open spec fn purpose_name(p: Purpose) -> Seq<char> {
    match p {
        Purpose::ConceptualMaterial => "ConceptualMaterial"@,
        Purpose::ConceptualLab => "ConceptualLab"@,
        Purpose::Debugging => "Debugging"@,
        Purpose::Other => "Other"@,
    }
}

/// The purpose a stored name denotes, if any.
pub open spec fn purpose_of_name(s: Seq<char>) -> Option<Purpose> {
    if s == purpose_name(Purpose::ConceptualMaterial) {
        Some(Purpose::ConceptualMaterial)
    } else if s == purpose_name(Purpose::ConceptualLab) {
        Some(Purpose::ConceptualLab)
    } else if s == purpose_name(Purpose::Debugging) {
        Some(Purpose::Debugging)
    } else if s == purpose_name(Purpose::Other) {
        Some(Purpose::Other)
    } else {
        None
    }
}

/// The encoding of one entry's information object.
pub open spec fn enc_info(iv: StudentInfoV) -> Seq<char> {
    "{\"name\":"@ + enc_str(iv.name) + ",\"csid\":"@ + enc_str(iv.csid) + ",\"purpose\":"@
        + enc_str(purpose_name(iv.purpose)) + ",\"details\":"@ + enc_str(iv.details)
        + ",\"steps\":"@ + enc_str(iv.steps) + "}"@
}

/// The encoding of one entry.
pub open spec fn enc_req(rv: StudentRequestV) -> Seq<char> {
    "{\"info\":"@ + enc_info(rv.info) + ",\"id\":"@ + enc_str(rv.id) + "}"@
}

/// The encoding of the entry list, comma-separated.
pub open spec fn enc_entries(es: Seq<StudentRequestV>) -> Seq<char>
    decreases es.len(),
{
    if es.len() == 0 {
        Seq::empty()
    } else if es.len() == 1 {
        enc_req(es[0])
    } else {
        enc_req(es[0]) + seq![','] + enc_entries(es.drop_first())
    }
}

/// The whole document.
pub open spec fn enc_doc(es: Seq<StudentRequestV>) -> Seq<char> {
    "{\"students\":["@ + enc_entries(es) + "]}"@
}

// ------------------------------------------------------------------
// The parser, as a mathematical function of the document text. Each
// piece returns the parsed value and the unconsumed remainder.
// ------------------------------------------------------------------
/// True when `lit` opens `v`.
pub open spec fn starts_with(v: Seq<char>, lit: Seq<char>) -> bool {
    lit.len() <= v.len() && v.subrange(0, lit.len() as int) == lit
}

/// Consumes the exact token `lit`, or fails.
pub open spec fn sp_expect(v: Seq<char>, lit: Seq<char>) -> Option<Seq<char>> {
    if starts_with(v, lit) {
        Some(v.skip(lit.len() as int))
    } else {
        None
    }
}

/// Consumes the body of a quoted string after the opening quote, undoing
/// the escapes, up to and including the closing quote.
pub open spec fn sp_str_body(v: Seq<char>) -> Option<(Seq<char>, Seq<char>)>
    decreases v.len(),
{
    if v.len() == 0 {
        None
    } else if v[0] == '"' {
        Some((Seq::empty(), v.drop_first()))
    } else if v[0] == '\\' {
        if v.len() >= 2 && (v[1] == '\\' || v[1] == '"') {
            match sp_str_body(v.skip(2)) {
                Some((s, rest)) => Some((seq![v[1]] + s, rest)),
                None => None,
            }
        } else {
            None
        }
    } else {
        match sp_str_body(v.drop_first()) {
            Some((s, rest)) => Some((seq![v[0]] + s, rest)),
            None => None,
        }
    }
}

/// Consumes one quoted string.
pub open spec fn sp_parse_string(v: Seq<char>) -> Option<(Seq<char>, Seq<char>)> {
    if v.len() > 0 && v[0] == '"' {
        sp_str_body(v.drop_first())
    } else {
        None
    }
}

/// Consumes one quoted purpose name.
pub open spec fn sp_parse_purpose(v: Seq<char>) -> Option<(Purpose, Seq<char>)> {
    match sp_parse_string(v) {
        Some((s, rest)) => match purpose_of_name(s) {
            Some(p) => Some((p, rest)),
            None => None,
        },
        None => None,
    }
}

/// Consumes one information object.
pub open spec fn sp_parse_info(v: Seq<char>) -> Option<(StudentInfoV, Seq<char>)> {
    match sp_expect(v, "{\"name\":"@) {
        None => None,
        Some(v1) => match sp_parse_string(v1) {
            None => None,
            Some((name, v2)) => match sp_expect(v2, ",\"csid\":"@) {
                None => None,
                Some(v3) => match sp_parse_string(v3) {
                    None => None,
                    Some((csid, v4)) => match sp_expect(v4, ",\"purpose\":"@) {
                        None => None,
                        Some(v5) => match sp_parse_purpose(v5) {
                            None => None,
                            Some((purpose, v6)) => match sp_expect(v6, ",\"details\":"@) {
                                None => None,
                                Some(v7) => match sp_parse_string(v7) {
                                    None => None,
                                    Some((details, v8)) => match sp_expect(v8, ",\"steps\":"@) {
                                        None => None,
                                        Some(v9) => match sp_parse_string(v9) {
                                            None => None,
                                            Some((steps, v10)) => match sp_expect(v10, "}"@) {
                                                None => None,
                                                Some(v11) => Some(
                                                    (
                                                        StudentInfoV {
                                                            name,
                                                            csid,
                                                            purpose,
                                                            details,
                                                            steps,
                                                        },
                                                        v11,
                                                    ),
                                                ),
                                            },
                                        },
                                    },
                                },
                            },
                        },
                    },
                },
            },
        },
    }
}

/// Consumes one entry object.
pub open spec fn sp_parse_req(v: Seq<char>) -> Option<(StudentRequestV, Seq<char>)> {
    match sp_expect(v, "{\"info\":"@) {
        None => None,
        Some(v1) => match sp_parse_info(v1) {
            None => None,
            Some((info, v2)) => match sp_expect(v2, ",\"id\":"@) {
                None => None,
                Some(v3) => match sp_parse_string(v3) {
                    None => None,
                    Some((id, v4)) => match sp_expect(v4, "}"@) {
                        None => None,
                        Some(v5) => Some((StudentRequestV { info, id }, v5)),
                    },
                },
            },
        },
    }
}

/// Consumes one or more comma-separated entries.
pub open spec fn sp_parse_entries(v: Seq<char>) -> Option<(Seq<StudentRequestV>, Seq<char>)>
    decreases v.len(),
{
    match sp_parse_req(v) {
        None => None,
        Some((r, rest)) => if rest.len() > 0 && rest[0] == ',' && rest.len() < v.len() {
            match sp_parse_entries(rest.drop_first()) {
                None => None,
                Some((es, rest2)) => Some((seq![r] + es, rest2)),
            }
        } else {
            Some((seq![r], rest))
        },
    }
}

/// Parses a whole document; anything but the exact shape, with nothing
/// trailing, parses to nothing.
pub open spec fn sp_parse_doc(v: Seq<char>) -> Option<Seq<StudentRequestV>> {
    match sp_expect(v, "{\"students\":["@) {
        None => None,
        Some(v1) => if v1.len() > 0 && v1[0] == ']' {
            match sp_expect(v1, "]}"@) {
                None => None,
                Some(v2) => if v2.len() == 0 {
                    Some(Seq::empty())
                } else {
                    None
                },
            }
        } else {
            match sp_parse_entries(v1) {
                None => None,
                Some((es, v2)) => match sp_expect(v2, "]}"@) {
                    None => None,
                    Some(v3) => if v3.len() == 0 {
                        Some(es)
                    } else {
                        None
                    },
                },
            }
        },
    }
}

// ------------------------------------------------------------------
// Round trip: a document written by the encoder parses back to the
// sequence it was written from.
// ------------------------------------------------------------------
/// A token consumes exactly itself.
pub proof fn lemma_expect_prefix(lit: Seq<char>, rest: Seq<char>)
    ensures
        sp_expect(lit + rest, lit) == Some(rest),
{
    let v = lit + rest;
    assert(v.subrange(0, lit.len() as int) =~= lit);
    assert(v.skip(lit.len() as int) =~= rest);
}

/// The body parser undoes the escapes and stops at the closing quote.
pub proof fn lemma_str_body_roundtrip(s: Seq<char>, rest: Seq<char>)
    ensures
        sp_str_body(esc(s) + seq!['"'] + rest) == Some((s, rest)),
    decreases s.len(),
{
    let v = esc(s) + seq!['"'] + rest;
    if s.len() == 0 {
        assert(v =~= seq!['"'] + rest);
        assert(v[0] == '"');
        assert(v.drop_first() =~= rest);
        assert(s =~= Seq::<char>::empty());
    } else {
        let c = s[0];
        let tail = s.drop_first();
        lemma_str_body_roundtrip(tail, rest);
        if c == '"' || c == '\\' {
            assert(v =~= seq!['\\', c] + (esc(tail) + seq!['"'] + rest));
            assert(v[0] == '\\' && v[1] == c && v.len() >= 2);
            assert(v.skip(2) =~= esc(tail) + seq!['"'] + rest);
            assert(seq![v[1]] + tail =~= s);
        } else {
            assert(v =~= seq![c] + (esc(tail) + seq!['"'] + rest));
            assert(v[0] == c);
            assert(v.drop_first() =~= esc(tail) + seq!['"'] + rest);
            assert(seq![v[0]] + tail =~= s);
        }
    }
}

/// A quoted string consumes exactly its encoding.
pub proof fn lemma_string_roundtrip(s: Seq<char>, rest: Seq<char>)
    ensures
        sp_parse_string(enc_str(s) + rest) == Some((s, rest)),
{
    let v = enc_str(s) + rest;
    assert(v[0] == '"');
    assert(v.drop_first() =~= esc(s) + seq!['"'] + rest);
    lemma_str_body_roundtrip(s, rest);
}

/// A stored purpose name parses back to its purpose: the four names all
/// have different lengths, so none can be mistaken for another.
pub proof fn lemma_purpose_roundtrip(p: Purpose, rest: Seq<char>)
    ensures
        sp_parse_purpose(enc_str(purpose_name(p)) + rest) == Some((p, rest)),
{
    lemma_string_roundtrip(purpose_name(p), rest);
    reveal_strlit("ConceptualMaterial");
    reveal_strlit("ConceptualLab");
    reveal_strlit("Debugging");
    reveal_strlit("Other");
    assert(purpose_of_name(purpose_name(p)) == Some(p));
}

/// An information object consumes exactly its encoding.
pub proof fn lemma_info_roundtrip(iv: StudentInfoV, rest: Seq<char>)
    ensures
        sp_parse_info(enc_info(iv) + rest) == Some((iv, rest)),
{
    let t9 = "}"@ + rest;
    let t8 = enc_str(iv.steps) + t9;
    let t7 = ",\"steps\":"@ + t8;
    let t6 = enc_str(iv.details) + t7;
    let t5 = ",\"details\":"@ + t6;
    let t4 = enc_str(purpose_name(iv.purpose)) + t5;
    let t3 = ",\"purpose\":"@ + t4;
    let t2 = enc_str(iv.csid) + t3;
    let t1 = ",\"csid\":"@ + t2;
    let t0 = enc_str(iv.name) + t1;
    let v = "{\"name\":"@ + t0;
    assert(enc_info(iv) + rest =~= v);
    lemma_expect_prefix("{\"name\":"@, t0);
    lemma_string_roundtrip(iv.name, t1);
    lemma_expect_prefix(",\"csid\":"@, t2);
    lemma_string_roundtrip(iv.csid, t3);
    lemma_expect_prefix(",\"purpose\":"@, t4);
    lemma_purpose_roundtrip(iv.purpose, t5);
    lemma_expect_prefix(",\"details\":"@, t6);
    lemma_string_roundtrip(iv.details, t7);
    lemma_expect_prefix(",\"steps\":"@, t8);
    lemma_string_roundtrip(iv.steps, t9);
    lemma_expect_prefix("}"@, rest);
}

/// An entry object consumes exactly its encoding.
pub proof fn lemma_req_roundtrip(rv: StudentRequestV, rest: Seq<char>)
    ensures
        sp_parse_req(enc_req(rv) + rest) == Some((rv, rest)),
{
    let t3 = "}"@ + rest;
    let t2 = enc_str(rv.id) + t3;
    let t1 = ",\"id\":"@ + t2;
    let t0 = enc_info(rv.info) + t1;
    let v = "{\"info\":"@ + t0;
    assert(enc_req(rv) + rest =~= v);
    lemma_expect_prefix("{\"info\":"@, t0);
    lemma_info_roundtrip(rv.info, t1);
    lemma_expect_prefix(",\"id\":"@, t2);
    lemma_string_roundtrip(rv.id, t3);
    lemma_expect_prefix("}"@, rest);
}

/// An entry's encoding is never empty and always opens with a brace.
pub proof fn lemma_enc_req_opens(rv: StudentRequestV)
    ensures
        enc_req(rv).len() > 0,
        enc_req(rv)[0] == '{',
{
    reveal_strlit("{\"info\":");
}

/// A non-empty entry list consumes exactly its encoding, provided what
/// follows does not open with the separator.
#[verifier::rlimit(100)]
pub proof fn lemma_entries_roundtrip(es: Seq<StudentRequestV>, rest: Seq<char>)
    requires
        es.len() >= 1,
        rest.len() > 0,
        rest[0] != ',',
    ensures
        sp_parse_entries(enc_entries(es) + rest) == Some((es, rest)),
    decreases es.len(),
{
    if es.len() == 1 {
        lemma_req_roundtrip(es[0], rest);
        assert(seq![es[0]] =~= es);
    } else {
        let tail = es.drop_first();
        let v = enc_entries(es) + rest;
        let r1 = seq![','] + (enc_entries(tail) + rest);
        assert(v =~= enc_req(es[0]) + r1);
        lemma_req_roundtrip(es[0], r1);
        lemma_enc_req_opens(es[0]);
        lemma_entries_roundtrip(tail, rest);
        assert(r1.drop_first() =~= enc_entries(tail) + rest);
        assert(seq![es[0]] + tail =~= es);
    }
}

/// The law the backing file rests on: every document the encoder writes
/// parses back to exactly the entry sequence it encodes.
pub proof fn lemma_doc_roundtrip(es: Seq<StudentRequestV>)
    ensures
        sp_parse_doc(enc_doc(es)) == Some(es),
{
    reveal_strlit("]}");
    let v = enc_doc(es);
    if es.len() == 0 {
        assert(v =~= "{\"students\":["@ + "]}"@);
        lemma_expect_prefix("{\"students\":["@, "]}"@);
        lemma_expect_prefix("]}"@, Seq::empty());
        assert("]}"@ + Seq::<char>::empty() =~= "]}"@);
        assert(es =~= Seq::<StudentRequestV>::empty());
    } else {
        let t1 = enc_entries(es) + "]}"@;
        assert(v =~= "{\"students\":["@ + t1);
        lemma_expect_prefix("{\"students\":["@, t1);
        lemma_enc_req_opens(es[0]);
        if es.len() == 1 {
            assert(t1[0] == enc_req(es[0])[0]);
        } else {
            assert(enc_entries(es)[0] == enc_req(es[0])[0]);
            assert(t1[0] == enc_req(es[0])[0]);
        }
        assert(t1[0] == '{');
        assert(t1[0] != ']');
        assert("]}"@[0] == ']' && "]}"@[0] != ',');
        lemma_entries_roundtrip(es, "]}"@);
        lemma_expect_prefix("]}"@, Seq::empty());
        assert("]}"@ + Seq::<char>::empty() =~= "]}"@);
    }
}

// ------------------------------------------------------------------
// The encoder.
// ------------------------------------------------------------------
/// Escaping distributes over concatenation.
pub proof fn lemma_esc_app(a: Seq<char>, b: Seq<char>)
    ensures
        esc(a + b) == esc(a) + esc(b),
    decreases a.len(),
{
    if a.len() == 0 {
        assert(a + b =~= b);
        assert(esc(a) + esc(b) =~= esc(b));
    } else {
        assert((a + b)[0] == a[0]);
        assert((a + b).drop_first() =~= a.drop_first() + b);
        lemma_esc_app(a.drop_first(), b);
        assert(esc_char(a[0]) + (esc(a.drop_first()) + esc(b)) =~= (esc_char(a[0]) + esc(
            a.drop_first(),
        )) + esc(b));
    }
}

/// Escaping one more character appends its escaped form.
pub proof fn lemma_esc_snoc(a: Seq<char>, c: char)
    ensures
        esc(a.push(c)) == esc(a) + esc_char(c),
{
    assert(a.push(c) =~= a + seq![c]);
    lemma_esc_app(a, seq![c]);
    assert(seq![c].drop_first() =~= Seq::<char>::empty());
    assert(seq![c][0] == c && seq![c].len() == 1);
    assert(esc(seq![c]) == esc_char(c) + esc(Seq::<char>::empty()));
    assert(esc(Seq::<char>::empty()) =~= Seq::<char>::empty());
    assert(esc_char(c) + Seq::<char>::empty() =~= esc_char(c));
}

/// Appends one string field in quoted, escaped form.
fn enc_string_into(out: &mut String, s: &str)
    ensures
        final(out)@ == old(out)@ + enc_str(s@),
{
    push_char(out, '"');
    let ghost base = out@;
    let n = s.unicode_len();
    let mut i: usize = 0;
    while i < n
        invariant
            n == s@.len(),
            i <= n,
            out@ == base + esc(s@.subrange(0, i as int)),
        decreases n - i,
    {
        let c = s.get_char(i);
        proof {
            lemma_esc_snoc(s@.subrange(0, i as int), s@[i as int]);
            assert(s@.subrange(0, i as int + 1) =~= s@.subrange(0, i as int).push(s@[i as int]));
        }
        if c == '"' || c == '\\' {
            push_char(out, '\\');
            push_char(out, c);
        } else {
            push_char(out, c);
        }
        proof {
            assert(out@ =~= base + esc(s@.subrange(0, i as int + 1)));
        }
        i = i + 1;
    }
    proof {
        assert(s@.subrange(0, n as int) =~= s@);
    }
    push_char(out, '"');
    proof {
        assert(out@ =~= old(out)@ + enc_str(s@));
    }
}

/// The text under which a purpose is stored.
pub fn purpose_str(p: &Purpose) -> (r: &'static str)
    ensures
        r@ == purpose_name(*p),
{
    match p {
        Purpose::ConceptualMaterial => "ConceptualMaterial",
        Purpose::ConceptualLab => "ConceptualLab",
        Purpose::Debugging => "Debugging",
        Purpose::Other => "Other",
    }
}

/// Appends one information object.
fn enc_info_into(out: &mut String, info: &StudentInfo)
    ensures
        final(out)@ == old(out)@ + enc_info(info@),
{
    out.append("{\"name\":");
    enc_string_into(out, info.name.as_str());
    out.append(",\"csid\":");
    enc_string_into(out, info.csid.as_str());
    out.append(",\"purpose\":");
    enc_string_into(out, purpose_str(&info.purpose));
    out.append(",\"details\":");
    enc_string_into(out, info.details.as_str());
    out.append(",\"steps\":");
    enc_string_into(out, info.steps.as_str());
    out.append("}");
    proof {
        assert(out@ =~= old(out)@ + enc_info(info@));
    }
}

/// Appends one entry object.
fn enc_req_into(out: &mut String, req: &StudentRequest)
    ensures
        final(out)@ == old(out)@ + enc_req(req@),
{
    out.append("{\"info\":");
    enc_info_into(out, &req.info);
    out.append(",\"id\":");
    enc_string_into(out, req.id.as_str());
    out.append("}");
    proof {
        assert(out@ =~= old(out)@ + enc_req(req@));
    }
}

/// Appending one more entry to a non-empty list adds a separator and the
/// entry's encoding.
pub proof fn lemma_enc_entries_snoc(es: Seq<StudentRequestV>, r: StudentRequestV)
    requires
        es.len() >= 1,
    ensures
        enc_entries(es.push(r)) == enc_entries(es) + seq![','] + enc_req(r),
    decreases es.len(),
{
    let t = es.push(r);
    if es.len() == 1 {
        assert(t.drop_first() =~= seq![r]);
        assert(enc_entries(seq![r]) == enc_req(r));
        assert(enc_req(es[0]) + seq![','] + enc_req(r) =~= enc_entries(es) + seq![','] + enc_req(
            r,
        ));
    } else {
        assert(t.drop_first() =~= es.drop_first().push(r));
        lemma_enc_entries_snoc(es.drop_first(), r);
        assert(enc_req(t[0]) + seq![','] + (enc_entries(es.drop_first()) + seq![','] + enc_req(r))
            =~= (enc_req(es[0]) + seq![','] + enc_entries(es.drop_first())) + seq![','] + enc_req(
            r,
        ));
    }
}

/// Serializes the whole entry list into one document.
pub fn encode_doc(students: &Vec<StudentRequest>) -> (r: String)
    ensures
        r@ == enc_doc(reqs_view(students@)),
{
    let ghost rv = reqs_view(students@);
    let mut out = String::new();
    out.append("{\"students\":[");
    let n = students.len();
    let mut i: usize = 0;
    while i < n
        invariant
            n == students@.len(),
            i <= n,
            rv == reqs_view(students@),
            rv.len() == n,
            out@ == "{\"students\":["@ + enc_entries(rv.subrange(0, i as int)),
        decreases n - i,
    {
        if i > 0 {
            push_char(&mut out, ',');
        }
        enc_req_into(&mut out, &students[i]);
        proof {
            let pre = rv.subrange(0, i as int);
            assert(rv.subrange(0, i as int + 1) =~= pre.push(rv[i as int]));
            assert(students@[i as int]@ == rv[i as int]);
            if i == 0 {
                assert(pre.len() == 0);
                assert(rv.subrange(0, 1) =~= seq![rv[0]]);
                assert(enc_entries(seq![rv[0]]) == enc_req(rv[0]));
                assert(enc_entries(pre) =~= Seq::<char>::empty());
                assert(out@ =~= "{\"students\":["@ + enc_entries(rv.subrange(0, i as int + 1)));
            } else {
                lemma_enc_entries_snoc(pre, rv[i as int]);
                assert(out@ =~= "{\"students\":["@ + enc_entries(rv.subrange(0, i as int + 1)));
            }
        }
        i = i + 1;
    }
    proof {
        assert(rv.subrange(0, n as int) =~= rv);
    }
    out.append("]}");
    proof {
        assert(out@ =~= enc_doc(rv));
    }
    out
}

// ------------------------------------------------------------------
// The parser. Each function consumes from index `i` of the character
// buffer and returns the parsed value with the index it stopped at,
// mirroring the corresponding mathematical parser exactly.
// ------------------------------------------------------------------
/// The characters of `s`, one by one.
pub fn str_to_chars(s: &str) -> (r: Vec<char>)
    ensures
        r@ == s@,
{
    let n = s.unicode_len();
    let mut out: Vec<char> = Vec::new();
    let mut i: usize = 0;
    while i < n
        invariant
            n == s@.len(),
            i <= n,
            out@ == s@.subrange(0, i as int),
        decreases n - i,
    {
        out.push(s.get_char(i));
        proof {
            assert(s@.subrange(0, i as int + 1) =~= s@.subrange(0, i as int).push(s@[i as int]));
        }
        i = i + 1;
    }
    proof {
        assert(s@.subrange(0, n as int) =~= s@);
    }
    out
}

/// Consumes the exact token `lit` at `i`, or fails.
fn expect_lit(v: &Vec<char>, i: usize, lit: &str) -> (r: Option<usize>)
    requires
        i <= v@.len(),
    ensures
        r is Some <==> sp_expect(v@.skip(i as int), lit@) is Some,
        r matches Some(j) ==> i <= j && j <= v@.len() && j == i + lit@.len() && sp_expect(
            v@.skip(i as int),
            lit@,
        ) == Some(v@.skip(j as int)),
{
    let n = lit.unicode_len();
    if n > v.len() - i {
        return None;
    }
    let m: usize = i + n;
    let mut k: usize = 0;
    while k < n
        invariant
            n == lit@.len(),
            i + n <= v@.len(),
            m == i + n,
            k <= n,
            forall|t: int| 0 <= t < k ==> v@[i + t] == lit@[t],
        decreases n - k,
    {
        if v[i + k] != lit.get_char(k) {
            proof {
                let w = v@.skip(i as int);
                assert(w[k as int] == v@[i + k]);
                assert(!starts_with(w, lit@)) by {
                    if starts_with(w, lit@) {
                        assert(w.subrange(0, lit@.len() as int)[k as int] == lit@[k as int]);
                    }
                }
            }
            return None;
        }
        k = k + 1;
    }
    proof {
        let w = v@.skip(i as int);
        assert(w.subrange(0, n as int) =~= lit@);
        assert(w.skip(n as int) =~= v@.skip(i + n));
    }
    Some(i + n)
}

/// Consumes the body of a quoted string after the opening quote, undoing
/// the escapes, up to and including the closing quote.
fn parse_str_body(v: &Vec<char>, i: usize) -> (r: Option<(String, usize)>)
    requires
        i <= v@.len(),
    ensures
        r is Some <==> sp_str_body(v@.skip(i as int)) is Some,
        r matches Some((s, j)) ==> (sp_str_body(v@.skip(i as int)) matches Some((sv, rest))
            && s@ == sv && i <= j && j <= v@.len() && v@.skip(j as int) == rest),
    decreases v@.len() - i,
{
    let ghost w = v@.skip(i as int);
    proof {
        assert(w.len() == v@.len() - i);
    }
    if i == v.len() {
        return None;
    }
    let c = v[i];
    proof {
        assert(w[0] == v@[i as int]);
    }
    if c == '"' {
        proof {
            assert(w.drop_first() =~= v@.skip(i as int + 1));
        }
        return Some((String::new(), i + 1));
    }
    if c == '\\' {
        if i + 1 < v.len() {
            let d = v[i + 1];
            proof {
                assert(w[1] == v@[i as int + 1]);
            }
            if d == '\\' || d == '"' {
                proof {
                    assert(w.skip(2) =~= v@.skip(i as int + 2));
                }
                match parse_str_body(v, i + 2) {
                    Some((s, j)) => {
                        let mut out = String::new();
                        push_char(&mut out, d);
                        out.append(s.as_str());
                        proof {
                            assert(out@ =~= seq![d] + s@);
                        }
                        return Some((out, j));
                    },
                    None => {
                        return None;
                    },
                }
            }
        }
        return None;
    }
    proof {
        assert(w.drop_first() =~= v@.skip(i as int + 1));
    }
    match parse_str_body(v, i + 1) {
        Some((s, j)) => {
            let mut out = String::new();
            push_char(&mut out, c);
            out.append(s.as_str());
            proof {
                assert(out@ =~= seq![c] + s@);
            }
            Some((out, j))
        },
        None => None,
    }
}

/// Consumes one quoted string at `i`.
fn parse_string(v: &Vec<char>, i: usize) -> (r: Option<(String, usize)>)
    requires
        i <= v@.len(),
    ensures
        r is Some <==> sp_parse_string(v@.skip(i as int)) is Some,
        r matches Some((s, j)) ==> (sp_parse_string(v@.skip(i as int)) matches Some((sv, rest))
            && s@ == sv && i <= j && j <= v@.len() && v@.skip(j as int) == rest),
{
    if i < v.len() && v[i] == '"' {
        proof {
            let w = v@.skip(i as int);
            assert(w[0] == v@[i as int]);
            assert(w.drop_first() =~= v@.skip(i as int + 1));
        }
        parse_str_body(v, i + 1)
    } else {
        proof {
            let w = v@.skip(i as int);
            if i < v@.len() {
                assert(w[0] == v@[i as int]);
            }
        }
        None
    }
}

/// Whether text equals a token, character for character.
fn chars_eq(s: &String, lit: &str) -> (r: bool)
    ensures
        r == (s@ == lit@),
{
    let a = s.as_str();
    let n = a.unicode_len();
    if n != lit.unicode_len() {
        return false;
    }
    let mut k: usize = 0;
    while k < n
        invariant
            n == a@.len(),
            n == lit@.len(),
            a@ == s@,
            k <= n,
            forall|t: int| 0 <= t < k ==> a@[t] == lit@[t],
        decreases n - k,
    {
        if a.get_char(k) != lit.get_char(k) {
            return false;
        }
        k = k + 1;
    }
    proof {
        assert(s@ =~= lit@);
    }
    true
}

/// Consumes one quoted purpose name at `i`.
fn parse_purpose(v: &Vec<char>, i: usize) -> (r: Option<(Purpose, usize)>)
    requires
        i <= v@.len(),
    ensures
        r is Some <==> sp_parse_purpose(v@.skip(i as int)) is Some,
        r matches Some((p, j)) ==> (sp_parse_purpose(v@.skip(i as int)) matches Some((pv, rest))
            && p == pv && i <= j && j <= v@.len() && v@.skip(j as int) == rest),
{
    match parse_string(v, i) {
        Some((s, j)) => {
            let p = if chars_eq(&s, "ConceptualMaterial") {
                Some(Purpose::ConceptualMaterial)
            } else if chars_eq(&s, "ConceptualLab") {
                Some(Purpose::ConceptualLab)
            } else if chars_eq(&s, "Debugging") {
                Some(Purpose::Debugging)
            } else if chars_eq(&s, "Other") {
                Some(Purpose::Other)
            } else {
                None
            };
            match p {
                Some(p) => Some((p, j)),
                None => None,
            }
        },
        None => None,
    }
}

/// Consumes one information object at `i`.
fn parse_info(v: &Vec<char>, i: usize) -> (r: Option<(StudentInfo, usize)>)
    requires
        i <= v@.len(),
    ensures
        r is Some <==> sp_parse_info(v@.skip(i as int)) is Some,
        r matches Some((info, j)) ==> (sp_parse_info(v@.skip(i as int)) matches Some((iv, rest))
            && info@ == iv && i <= j && j <= v@.len() && v@.skip(j as int) == rest),
{
    let i1 = match expect_lit(v, i, "{\"name\":") {
        Some(k) => k,
        None => {
            return None;
        },
    };
    let (name, i2) = match parse_string(v, i1) {
        Some(x) => x,
        None => {
            return None;
        },
    };
    let i3 = match expect_lit(v, i2, ",\"csid\":") {
        Some(k) => k,
        None => {
            return None;
        },
    };
    let (csid, i4) = match parse_string(v, i3) {
        Some(x) => x,
        None => {
            return None;
        },
    };
    let i5 = match expect_lit(v, i4, ",\"purpose\":") {
        Some(k) => k,
        None => {
            return None;
        },
    };
    let (purpose, i6) = match parse_purpose(v, i5) {
        Some(x) => x,
        None => {
            return None;
        },
    };
    let i7 = match expect_lit(v, i6, ",\"details\":") {
        Some(k) => k,
        None => {
            return None;
        },
    };
    let (details, i8) = match parse_string(v, i7) {
        Some(x) => x,
        None => {
            return None;
        },
    };
    let i9 = match expect_lit(v, i8, ",\"steps\":") {
        Some(k) => k,
        None => {
            return None;
        },
    };
    let (steps, i10) = match parse_string(v, i9) {
        Some(x) => x,
        None => {
            return None;
        },
    };
    let i11 = match expect_lit(v, i10, "}") {
        Some(k) => k,
        None => {
            return None;
        },
    };
    Some((StudentInfo { name, csid, purpose, details, steps }, i11))
}

/// Consumes one entry object at `i`.
fn parse_req(v: &Vec<char>, i: usize) -> (r: Option<(StudentRequest, usize)>)
    requires
        i <= v@.len(),
    ensures
        r is Some <==> sp_parse_req(v@.skip(i as int)) is Some,
        r matches Some((req, j)) ==> (sp_parse_req(v@.skip(i as int)) matches Some((rv, rest))
            && req@ == rv && i <= j && j <= v@.len() && v@.skip(j as int) == rest),
{
    let i1 = match expect_lit(v, i, "{\"info\":") {
        Some(k) => k,
        None => {
            return None;
        },
    };
    let (info, i2) = match parse_info(v, i1) {
        Some(x) => x,
        None => {
            return None;
        },
    };
    let i3 = match expect_lit(v, i2, ",\"id\":") {
        Some(k) => k,
        None => {
            return None;
        },
    };
    let (id, i4) = match parse_string(v, i3) {
        Some(x) => x,
        None => {
            return None;
        },
    };
    let i5 = match expect_lit(v, i4, "}") {
        Some(k) => k,
        None => {
            return None;
        },
    };
    Some((StudentRequest { info, id }, i5))
}

/// Consumes one or more comma-separated entries at `i`.
fn parse_entries(v: &Vec<char>, i: usize) -> (r: Option<(Vec<StudentRequest>, usize)>)
    requires
        i <= v@.len(),
    ensures
        r is Some <==> sp_parse_entries(v@.skip(i as int)) is Some,
        r matches Some((es, j)) ==> (sp_parse_entries(v@.skip(i as int)) matches Some((esv, rest))
            && reqs_view(es@) == esv && i <= j && j <= v@.len() && v@.skip(j as int) == rest),
    decreases v@.len() - i,
{
    let (req, j) = match parse_req(v, i) {
        Some(x) => x,
        None => {
            return None;
        },
    };
    let ghost w = v@.skip(i as int);
    let ghost rest = v@.skip(j as int);
    proof {
        assert(rest.len() == v@.len() - j);
        if j < v@.len() {
            assert(rest[0] == v@[j as int]);
        }
    }
    if j < v.len() && v[j] == ',' && j > i {
        proof {
            assert(rest.drop_first() =~= v@.skip(j as int + 1));
        }
        match parse_entries(v, j + 1) {
            Some((mut es, k)) => {
                es.insert(0, req);
                proof {
                    assert(reqs_view(es@) =~= seq![req@] + reqs_view(es@.drop_first()));
                }
                Some((es, k))
            },
            None => None,
        }
    } else {
        let mut es: Vec<StudentRequest> = Vec::new();
        es.push(req);
        proof {
            assert(reqs_view(es@) =~= seq![req@]);
        }
        Some((es, j))
    }
}

/// Parses a whole document. Anything but the exact shape, with nothing
/// trailing, parses to nothing — the store treats that as empty.
pub fn parse_doc(v: &Vec<char>) -> (r: Option<Vec<StudentRequest>>)
    ensures
        r is Some <==> sp_parse_doc(v@) is Some,
        r matches Some(es) ==> (sp_parse_doc(v@) matches Some(esv) && reqs_view(es@) == esv),
{
    proof {
        assert(v@.skip(0) =~= v@);
    }
    let i1 = match expect_lit(v, 0, "{\"students\":[") {
        Some(k) => k,
        None => {
            return None;
        },
    };
    let ghost w1 = v@.skip(i1 as int);
    proof {
        if i1 < v@.len() {
            assert(w1[0] == v@[i1 as int]);
        }
        assert(w1.len() == v@.len() - i1);
    }
    if i1 < v.len() && v[i1] == ']' {
        match expect_lit(v, i1, "]}") {
            Some(i2) => {
                if i2 == v.len() {
                    let es: Vec<StudentRequest> = Vec::new();
                    proof {
                        assert(reqs_view(es@) =~= Seq::<StudentRequestV>::empty());
                        assert(v@.skip(i2 as int).len() == 0);
                    }
                    Some(es)
                } else {
                    None
                }
            },
            None => None,
        }
    } else {
        let (es, i2) = match parse_entries(v, i1) {
            Some(x) => x,
            None => {
                return None;
            },
        };
        match expect_lit(v, i2, "]}") {
            Some(i3) => {
                if i3 == v.len() {
                    proof {
                        assert(v@.skip(i3 as int).len() == 0);
                    }
                    Some(es)
                } else {
                    None
                }
            },
            None => None,
        }
    }
}

/// Parses the text of a backing document, if it has the exact shape the
/// encoder writes.
pub fn decode_doc(text: &str) -> (r: Option<Vec<StudentRequest>>)
    ensures
        r is Some <==> sp_parse_doc(text@) is Some,
        r matches Some(es) ==> (sp_parse_doc(text@) matches Some(esv) && reqs_view(es@) == esv),
{
    let chars = str_to_chars(text);
    parse_doc(&chars)
}

} // verus!
