//! The queue store: an ordered collection of student requests with a
//! stable identifier per entry, no duplicate identifiers, and 1-based
//! position reporting.

use vstd::prelude::*;

use crate::codec::decode_doc;
use crate::codec::enc_doc;
use crate::codec::encode_doc;
use crate::codec::sp_parse_doc;
use vstd::string::StringExecFns;

verus! {

/// Why a student is joining the queue. Any variant is a valid choice, so a
/// purpose never counts as an empty field.
#[derive(Clone, Copy, Debug, PartialEq, Eq, Structural)]
pub enum Purpose {
    ConceptualMaterial,
    ConceptualLab,
    Debugging,
    Other,
}

impl Purpose {
    /// A purpose is never empty: every variant is a filled-in answer.
    pub fn is_empty(&self) -> (r: bool)
        ensures
            r == false,
    {
        match self {
            Purpose::ConceptualMaterial => false,
            Purpose::ConceptualLab => false,
            Purpose::Debugging => false,
            Purpose::Other => false,
        }
    }
}

/// What a student fills in when joining the queue.
#[derive(Clone, Debug)]
pub struct StudentInfo {
    pub name: String,
    pub csid: String,
    pub purpose: Purpose,
    pub details: String,
    pub steps: String,
}

/// The mathematical value of a [`StudentInfo`]: its strings as character
/// sequences.
pub struct StudentInfoV {
    pub name: Seq<char>,
    pub csid: Seq<char>,
    pub purpose: Purpose,
    pub details: Seq<char>,
    pub steps: Seq<char>,
}

impl View for StudentInfo {
    type V = StudentInfoV;

    open spec fn view(&self) -> StudentInfoV {
        StudentInfoV {
            name: self.name@,
            csid: self.csid@,
            purpose: self.purpose,
            details: self.details@,
            steps: self.steps@,
        }
    }
}

impl StudentInfoV {
    /// A join request is complete when every free-text field is non-empty;
    /// the purpose, being an enum, is always filled in.
    pub open spec fn is_complete(self) -> bool {
        &&& self.name.len() > 0
        &&& self.csid.len() > 0
        &&& self.details.len() > 0
        &&& self.steps.len() > 0
    }
}

impl StudentInfo {
    pub fn new(name: String, csid: String, purpose: Purpose, details: String, steps: String) -> (r:
        StudentInfo)
        ensures
            r@ == (StudentInfoV {
                name: name@,
                csid: csid@,
                purpose,
                details: details@,
                steps: steps@,
            }),
    {
        StudentInfo { name, csid, purpose, details, steps }
    }

    /// Whether this request may join the queue: every required field is
    /// non-empty (the purpose always is).
    pub fn is_complete(&self) -> (r: bool)
        ensures
            r == self@.is_complete(),
    {
        !(self.name.as_str().is_empty() || self.csid.as_str().is_empty()
            || self.purpose.is_empty() || self.details.as_str().is_empty()
            || self.steps.as_str().is_empty())
    }
}

/// One queued entry: the student's information under a unique identifier
/// that is the entry's sole external handle.
#[derive(Clone, Debug)]
pub struct StudentRequest {
    pub info: StudentInfo,
    pub id: String,
}

/// The mathematical value of a [`StudentRequest`].
pub struct StudentRequestV {
    pub info: StudentInfoV,
    pub id: Seq<char>,
}

impl View for StudentRequest {
    type V = StudentRequestV;

    open spec fn view(&self) -> StudentRequestV {
        StudentRequestV { info: self.info@, id: self.id@ }
    }
}

/// Relies on `uuid::Uuid::new_v4` and the `Display` form of `uuid::Uuid`,
/// which is the hyphenated representation, always 36 characters. The value
/// is random, so nothing more is promised of it.
#[verifier::external_body]
fn fresh_id() -> (r: String)
    ensures
        r@.len() == 36,
{
    uuid::Uuid::new_v4().to_string()
}

impl StudentRequest {
    /// Wraps the information in an entry under a freshly generated
    /// identifier. The identifier is random; only its length is promised.
    pub fn new(info: StudentInfo) -> (r: StudentRequest)
        ensures
            r@.info == info@,
            r@.id.len() == 36,
    {
        StudentRequest { info, id: fresh_id() }
    }
}

/// A query parameter carrying an entry's identifier.
pub struct IdQuery {
    pub id: String,
}

/// The mathematical value of a sequence of entries.
pub open spec fn reqs_view(v: Seq<StudentRequest>) -> Seq<StudentRequestV> {
    Seq::new(v.len(), |i: int| v[i]@)
}

/// True when some entry of `s` carries the identifier `id`.
pub open spec fn contains_entry(s: Seq<StudentRequestV>, id: Seq<char>) -> bool {
    exists|i: int| 0 <= i < s.len() && s[i].id == id
}

/// True when `i` is the index of the first entry of `s` whose identifier is
/// `id`.
pub open spec fn is_first_match(s: Seq<StudentRequestV>, id: Seq<char>, i: int) -> bool {
    &&& 0 <= i < s.len()
    &&& s[i].id == id
    &&& forall|j: int| 0 <= j < i ==> s[j].id != id
}

/// The index of the first entry of `s` carrying `id`.
pub open spec fn first_match_idx(s: Seq<StudentRequestV>, id: Seq<char>) -> int {
    choose|i: int| is_first_match(s, id, i)
}

/// No two entries of `s` carry the same identifier.
pub open spec fn unique_ids(s: Seq<StudentRequestV>) -> bool {
    forall|i: int, j: int| 0 <= i < j < s.len() ==> s[i].id != s[j].id
}

/// At most one index can be the first match for an identifier.
pub proof fn lemma_first_match_unique(s: Seq<StudentRequestV>, id: Seq<char>, i1: int, i2: int)
    requires
        is_first_match(s, id, i1),
        is_first_match(s, id, i2),
    ensures
        i1 == i2,
{
}

/// The ordered, file-backed queue of student requests. The sequence order
/// is arrival order; position 1 is next to be served. The backing path
/// names the document that [`Queue::save`] serializes the queue into.
pub struct Queue {
    pub students: Vec<StudentRequest>,
    path: String,
}

impl View for Queue {
    type V = Seq<StudentRequestV>;

    closed spec fn view(&self) -> Seq<StudentRequestV> {
        reqs_view(self.students@)
    }
}

impl Queue {
    /// The path of the backing document.
    pub closed spec fn path_spec(&self) -> Seq<char> {
        self.path@
    }

    /// An empty queue backed by `path`.
    pub fn new(path: String) -> (q: Queue)
        ensures
            q@ == Seq::<StudentRequestV>::empty(),
            q.path_spec() == path@,
    {
        let q = Queue { students: Vec::new(), path };
        proof {
            assert(q@ =~= Seq::<StudentRequestV>::empty());
        }
        q
    }

    /// The backing path, so the caller can write the serialized document
    /// where the queue expects to be reloaded from.
    pub fn path(&self) -> (r: &String)
        ensures
            r@ == self.path_spec(),
    {
        &self.path
    }

    /// The number of entries currently queued.
    pub fn size(&self) -> (n: usize)
        ensures
            n == self@.len(),
    {
        self.students.len()
    }

    /// Whether an entry with this identifier is queued.
    pub fn contains_id(&self, id: &String) -> (r: bool)
        ensures
            r == contains_entry(self@, id@),
    {
        let n = self.students.len();
        let mut i: usize = 0;
        while i < n
            invariant
                n == self@.len(),
                0 <= i <= n,
                forall|j: int| 0 <= j < i ==> self@[j].id != id@,
            decreases n - i,
        {
            if self.students[i].id == *id {
                proof {
                    assert(self@[i as int].id == id@);
                }
                return true;
            }
            i = i + 1;
        }
        false
    }

    /// Appends a new entry at the tail of the queue. The caller supplies a
    /// fully formed entry whose identifier is not yet queued, which keeps
    /// the identifiers unique.
    pub fn add(&mut self, request: StudentRequest)
        requires
            !contains_entry(old(self)@, request@.id),
        ensures
            final(self)@ == old(self)@.push(request@),
            final(self).path_spec() == old(self).path_spec(),
    {
        self.students.push(request);
        proof {
            assert(self@ =~= old(self)@.push(request@));
        }
    }

    /// Removes the first (by the uniqueness of identifiers, the only)
    /// entry carrying `id`. Fails, leaving the queue unchanged, exactly
    /// when no entry carries `id`.
    pub fn remove(&mut self, id: String) -> (r: Result<(), ()>)
        ensures
            r is Ok <==> contains_entry(old(self)@, id@),
            r is Ok ==> is_first_match(old(self)@, id@, first_match_idx(old(self)@, id@))
                && final(self)@ == old(self)@.remove(first_match_idx(old(self)@, id@)),
            r is Err ==> final(self)@ == old(self)@,
            final(self).path_spec() == old(self).path_spec(),
    {
        let n = self.students.len();
        let mut i: usize = 0;
        while i < n
            invariant
                n == self@.len(),
                0 <= i <= n,
                forall|j: int| 0 <= j < i ==> self@[j].id != id@,
                self@ == old(self)@,
                self.path_spec() == old(self).path_spec(),
                n == self.students@.len(),
            decreases n - i,
        {
            if self.students[i].id == id {
                proof {
                    assert(is_first_match(self@, id@, i as int));
                    lemma_first_match_unique(self@, id@, i as int, first_match_idx(self@, id@));
                }
                self.students.remove(i);
                proof {
                    assert(self@ =~= old(self)@.remove(i as int));
                }
                return Ok(());
            }
            i = i + 1;
        }
        Err(())
    }

    /// Removes the entry standing at `index` (0-based), as the operator's
    /// direct deletion does.
    pub fn remove_at(&mut self, index: usize)
        requires
            index < old(self)@.len(),
        ensures
            final(self)@ == old(self)@.remove(index as int),
            final(self).path_spec() == old(self).path_spec(),
    {
        self.students.remove(index);
        proof {
            assert(self@ =~= old(self)@.remove(index as int));
        }
    }

    /// The 1-based rank of the entry carrying `id` in the current order,
    /// computed from the live in-memory sequence. Fails exactly when no
    /// entry carries `id`.
    pub fn position(&self, id: String) -> (r: Result<usize, ()>)
        ensures
            r is Ok <==> contains_entry(self@, id@),
            r is Ok ==> is_first_match(self@, id@, r->Ok_0 - 1),
    {
        let n = self.students.len();
        let mut i: usize = 0;
        while i < n
            invariant
                n == self@.len(),
                0 <= i <= n,
                forall|j: int| 0 <= j < i ==> self@[j].id != id@,
            decreases n - i,
        {
            if self.students[i].id == id {
                proof {
                    assert(is_first_match(self@, id@, i as int));
                }
                return Ok(i + 1);
            }
            i = i + 1;
        }
        Err(())
    }
}

impl Queue {
    /// Serializes the full current state into the backing document.
    /// Overwrite semantics: the document is the whole state, meant to
    /// replace the file's previous content, not to be appended to it.
    /// The caller writes it at [`Queue::path`]; the queue is consistent
    /// with the disk exactly when that write went through.
    pub fn save(&self) -> (doc: String)
        ensures
            doc@ == enc_doc(self@),
    {
        encode_doc(&self.students)
    }

    /// Rebuilds a store backed by `path` from the text found there. A
    /// missing file (`None`) or one that does not parse yields the empty
    /// store: corrupt or absent data degrades to an empty queue rather
    /// than failing startup.
    pub fn load(path: String, contents: Option<&str>) -> (q: Queue)
        ensures
            q.path_spec() == path@,
            match contents {
                Some(text) => match sp_parse_doc(text@) {
                    Some(es) => q@ == es,
                    None => q@ == Seq::<StudentRequestV>::empty(),
                },
                None => q@ == Seq::<StudentRequestV>::empty(),
            },
    {
        match contents {
            Some(text) => match decode_doc(text) {
                Some(students) => Queue { students, path },
                None => Queue::new(path),
            },
            None => Queue::new(path),
        }
    }

    /// Chooses the backing path — the given one, or `queue.json` under
    /// the caller's home directory — and rebuilds the store from the text
    /// found there, as [`Queue::load`] does. The caller saves once
    /// afterwards, so the file exists and is well-formed on disk.
    pub fn init(path: Option<String>, home: &str, contents: Option<&str>) -> (q: Queue)
        ensures
            q.path_spec() == match path {
                Some(p) => p@,
                None => home@ + "/queue.json"@,
            },
            match contents {
                Some(text) => match sp_parse_doc(text@) {
                    Some(es) => q@ == es,
                    None => q@ == Seq::<StudentRequestV>::empty(),
                },
                None => q@ == Seq::<StudentRequestV>::empty(),
            },
    {
        match path {
            Some(p) => Queue::load(p, contents),
            None => {
                let mut p = String::new();
                p.append(home);
                p.append("/queue.json");
                Queue::load(p, contents)
            },
        }
    }
}

/// Law: a newly appended entry, whose identifier was not yet queued,
/// stands last, so its reported position is one more than the number of
/// entries added before it and still present.
pub proof fn lemma_position_after_add(s: Seq<StudentRequestV>, r: StudentRequestV)
    requires
        !contains_entry(s, r.id),
    ensures
        is_first_match(s.push(r), r.id, s.len() as int),
{
    assert forall|j: int| 0 <= j < s.len() implies s.push(r)[j].id != r.id by {
        assert(s.push(r)[j] == s[j]);
    }
}

/// Law: the reported position of an entry is one more than the number of
/// entries standing ahead of it, namely those added before it and still
/// present.
pub proof fn lemma_position_is_rank(s: Seq<StudentRequestV>, id: Seq<char>, i: int)
    requires
        is_first_match(s, id, i),
    ensures
        i + 1 == 1 + s.subrange(0, i).len(),
{
}

/// Law: removing the entry that carries an identifier leaves no entry with
/// that identifier, so a position query for it fails afterwards.
pub proof fn lemma_position_after_remove(s: Seq<StudentRequestV>, id: Seq<char>, i: int)
    requires
        unique_ids(s),
        is_first_match(s, id, i),
    ensures
        !contains_entry(s.remove(i), id),
{
    let t = s.remove(i);
    assert forall|k: int| 0 <= k < t.len() implies t[k].id != id by {
        if k < i {
            assert(t[k] == s[k]);
        } else {
            assert(t[k] == s[k + 1]);
        }
    }
}

/// Law: removing one entry moves every entry behind it up by one place
/// and leaves the entries ahead of it where they stood, so a position
/// report always counts exactly the entries still present ahead.
pub proof fn lemma_other_positions_after_remove(
    s: Seq<StudentRequestV>,
    i: int,
    id2: Seq<char>,
    j: int,
)
    requires
        unique_ids(s),
        0 <= i < s.len(),
        is_first_match(s, id2, j),
        j != i,
    ensures
        j < i ==> is_first_match(s.remove(i), id2, j),
        j > i ==> is_first_match(s.remove(i), id2, j - 1),
{
    let t = s.remove(i);
    if j < i {
        assert(t[j] == s[j]);
        assert forall|k: int| 0 <= k < j implies t[k].id != id2 by {
            assert(t[k] == s[k]);
        }
    } else {
        assert(t[j - 1] == s[j]);
        assert forall|k: int| 0 <= k < j - 1 implies t[k].id != id2 by {
            if k < i {
                assert(t[k] == s[k]);
            } else {
                assert(t[k] == s[k + 1]);
            }
        }
    }
}

/// Law: the backing file round-trips. The document that [`Queue::save`]
/// produces parses back, as [`Queue::load`] reads it, to exactly the
/// in-memory sequence it was written from, whatever that sequence holds.
pub proof fn lemma_store_roundtrip(entries: Seq<StudentRequestV>)
    ensures
        sp_parse_doc(enc_doc(entries)) == Some(entries),
{
    crate::codec::lemma_doc_roundtrip(entries);
}

/// Law: appending an entry with a fresh identifier keeps the identifiers
/// unique, so any number of additions with distinct fresh identifiers
/// yields as many entries and no duplicates.
pub proof fn lemma_add_keeps_unique(s: Seq<StudentRequestV>, r: StudentRequestV)
    requires
        unique_ids(s),
        !contains_entry(s, r.id),
    ensures
        unique_ids(s.push(r)),
        s.push(r).len() == s.len() + 1,
{
    let t = s.push(r);
    assert forall|i: int, j: int| 0 <= i < j < t.len() implies t[i].id != t[j].id by {
        if j < s.len() {
            assert(t[i] == s[i] && t[j] == s[j]);
        } else {
            assert(t[i] == s[i] && t[j] == r);
        }
    }
}

/// Law: when additions are serialized, every one of them lands. Appending
/// any number of entries whose identifiers are distinct and not yet
/// queued grows the queue by exactly that many entries, in arrival order,
/// with no duplicate identifiers and no entry lost.
pub proof fn lemma_all_adds_land(s: Seq<StudentRequestV>, rs: Seq<StudentRequestV>)
    requires
        unique_ids(s),
        unique_ids(rs),
        forall|k: int| 0 <= k < rs.len() ==> !contains_entry(s, #[trigger] rs[k].id),
    ensures
        (s + rs).len() == s.len() + rs.len(),
        unique_ids(s + rs),
        forall|k: int| 0 <= k < rs.len() ==> (s + rs)[s.len() + k] == #[trigger] rs[k],
{
    let t = s + rs;
    assert forall|i: int, j: int| 0 <= i < j < t.len() implies t[i].id != t[j].id by {
        if i < s.len() && j >= s.len() {
            assert(t[i] == s[i]);
            assert(t[j] == rs[j - s.len()]);
            if t[i].id == t[j].id {
                assert(contains_entry(s, rs[j - s.len()].id));
            }
        } else if i >= s.len() {
            assert(t[i] == rs[i - s.len()] && t[j] == rs[j - s.len()]);
        } else {
            assert(t[i] == s[i] && t[j] == s[j]);
        }
    }
}

/// Law: removing one entry keeps the identifiers unique.
pub proof fn lemma_remove_keeps_unique(s: Seq<StudentRequestV>, i: int)
    requires
        unique_ids(s),
        0 <= i < s.len(),
    ensures
        unique_ids(s.remove(i)),
{
    let t = s.remove(i);
    assert forall|a: int, b: int| 0 <= a < b < t.len() implies t[a].id != t[b].id by {
        let a0 = if a < i { a } else { a + 1 };
        let b0 = if b < i { b } else { b + 1 };
        assert(t[a] == s[a0] && t[b] == s[b0]);
    }
}

} // verus!
