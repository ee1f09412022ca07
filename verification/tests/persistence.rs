use office_queue::codec::decode_doc;
use office_queue::codec::encode_doc;
use office_queue::queue::Purpose;
use office_queue::queue::Queue;
use office_queue::queue::StudentInfo;
use office_queue::queue::StudentRequest;

fn entry(id: &str, name: &str, purpose: Purpose) -> StudentRequest {
    StudentRequest {
        info: StudentInfo::new(
            name.to_string(),
            "csid".to_string(),
            purpose,
            "details".to_string(),
            "steps".to_string(),
        ),
        id: id.to_string(),
    }
}

fn same_entries(a: &Queue, b: &Queue) -> bool {
    if a.students.len() != b.students.len() {
        return false;
    }
    for (x, y) in a.students.iter().zip(b.students.iter()) {
        if x.id != y.id
            || x.info.name != y.info.name
            || x.info.csid != y.info.csid
            || x.info.purpose != y.info.purpose
            || x.info.details != y.info.details
            || x.info.steps != y.info.steps
        {
            return false;
        }
    }
    true
}

#[test]
fn document_has_the_exact_expected_shape() {
    let mut q = Queue::new("p".to_string());
    q.add(entry("id-1", "Alice", Purpose::Debugging));
    let doc = q.save();
    assert_eq!(
        doc,
        "{\"students\":[{\"info\":{\"name\":\"Alice\",\"csid\":\"csid\",\"purpose\":\"Debugging\",\
         \"details\":\"details\",\"steps\":\"steps\"},\"id\":\"id-1\"}]}"
    );
}

#[test]
fn empty_document_has_the_exact_expected_shape() {
    let q = Queue::new("p".to_string());
    assert_eq!(q.save(), "{\"students\":[]}");
}

#[test]
fn save_then_load_is_identity() {
    let mut q = Queue::new("p".to_string());
    q.add(entry("a", "Alice", Purpose::ConceptualMaterial));
    q.add(entry("b", "Bob", Purpose::ConceptualLab));
    q.add(entry("c", "Carol", Purpose::Other));
    let doc = q.save();
    let q2 = Queue::load("p".to_string(), Some(doc.as_str()));
    assert!(same_entries(&q, &q2));
}

#[test]
fn save_then_load_keeps_escaped_characters() {
    let mut q = Queue::new("p".to_string());
    q.add(entry("q\"b\\s", "A\"B\\C", Purpose::Debugging));
    let doc = q.save();
    let q2 = Queue::load("p".to_string(), Some(doc.as_str()));
    assert!(same_entries(&q, &q2));
    assert_eq!(q2.students[0].info.name, "A\"B\\C");
    assert_eq!(q2.students[0].id, "q\"b\\s");
}

#[test]
fn save_then_load_after_each_mutation() {
    let mut q = Queue::new("p".to_string());
    q.add(entry("a", "Alice", Purpose::Other));
    let q2 = Queue::load("p".to_string(), Some(q.save().as_str()));
    assert!(same_entries(&q, &q2));
    q.add(entry("b", "Bob", Purpose::Debugging));
    let q3 = Queue::load("p".to_string(), Some(q.save().as_str()));
    assert!(same_entries(&q, &q3));
    q.remove("a".to_string()).unwrap();
    let q4 = Queue::load("p".to_string(), Some(q.save().as_str()));
    assert!(same_entries(&q, &q4));
}

#[test]
fn missing_file_loads_empty() {
    let q = Queue::load("p".to_string(), None);
    assert_eq!(q.size(), 0);
}

#[test]
fn malformed_documents_load_empty() {
    for text in [
        "",
        "{}",
        "not a document",
        "{\"students\":",
        "{\"students\":[",
        "{\"students\":[{\"info\":{\"name\":\"A\"}}]}",
        "{\"students\":[]}trailing",
        "{ \"students\": [] }",
    ] {
        let q = Queue::load("p".to_string(), Some(text));
        assert_eq!(q.size(), 0, "expected empty store for {:?}", text);
    }
}

#[test]
fn unknown_purpose_name_is_rejected() {
    let text = "{\"students\":[{\"info\":{\"name\":\"A\",\"csid\":\"c\",\"purpose\":\"Chatting\",\
                \"details\":\"d\",\"steps\":\"s\"},\"id\":\"x\"}]}";
    assert!(decode_doc(text).is_none());
}

#[test]
fn decode_reads_back_what_encode_wrote() {
    let students = vec![
        entry("a", "Alice", Purpose::ConceptualMaterial),
        entry("b", "Bob", Purpose::ConceptualLab),
        entry("c", "Carol", Purpose::Debugging),
        entry("d", "Dan", Purpose::Other),
    ];
    let doc = encode_doc(&students);
    let back = decode_doc(doc.as_str()).expect("the encoder's output must parse");
    assert_eq!(back.len(), students.len());
    for (x, y) in students.iter().zip(back.iter()) {
        assert_eq!(x.id, y.id);
        assert_eq!(x.info.name, y.info.name);
        assert_eq!(x.info.purpose, y.info.purpose);
    }
}

#[test]
fn init_uses_the_default_path_under_home() {
    let q = Queue::init(None, "/home/someone", None);
    assert_eq!(q.path().as_str(), "/home/someone/queue.json");
    assert_eq!(q.size(), 0);
}

#[test]
fn init_prefers_the_given_path() {
    let q = Queue::init(Some("/tmp/elsewhere.json".to_string()), "/home/someone", None);
    assert_eq!(q.path().as_str(), "/tmp/elsewhere.json");
}

#[test]
fn init_with_malformed_contents_is_empty() {
    let q = Queue::init(None, "/home/someone", Some("garbage"));
    assert_eq!(q.size(), 0);
}

#[test]
fn init_with_good_contents_restores_the_queue() {
    let mut q = Queue::new("p".to_string());
    q.add(entry("a", "Alice", Purpose::Debugging));
    let doc = q.save();
    let q2 = Queue::init(Some("p".to_string()), "/home/someone", Some(doc.as_str()));
    assert!(same_entries(&q, &q2));
}
