use office_queue::queue::Purpose;
use office_queue::queue::Queue;
use office_queue::queue::StudentInfo;
use office_queue::queue::StudentRequest;

fn info(name: &str, csid: &str, purpose: Purpose, details: &str, steps: &str) -> StudentInfo {
    StudentInfo::new(
        name.to_string(),
        csid.to_string(),
        purpose,
        details.to_string(),
        steps.to_string(),
    )
}

fn entry(id: &str, name: &str) -> StudentRequest {
    StudentRequest {
        info: info(name, "csid", Purpose::Other, "details", "steps"),
        id: id.to_string(),
    }
}

#[test]
fn purpose_is_never_empty() {
    assert!(!Purpose::ConceptualMaterial.is_empty());
    assert!(!Purpose::ConceptualLab.is_empty());
    assert!(!Purpose::Debugging.is_empty());
    assert!(!Purpose::Other.is_empty());
}

#[test]
fn completeness_requires_every_field() {
    let ok = info("Alice", "a1", Purpose::Debugging, "loop bug", "tried prints");
    assert!(ok.is_complete());
    assert!(!info("", "a1", Purpose::Debugging, "d", "s").is_complete());
    assert!(!info("Alice", "", Purpose::Debugging, "d", "s").is_complete());
    assert!(!info("Alice", "a1", Purpose::Debugging, "", "s").is_complete());
    assert!(!info("Alice", "a1", Purpose::Debugging, "d", "").is_complete());
}

#[test]
fn positions_follow_arrival_order() {
    let mut q = Queue::new("unused".to_string());
    q.add(entry("a", "first"));
    q.add(entry("b", "second"));
    q.add(entry("c", "third"));
    assert_eq!(q.size(), 3);
    assert_eq!(q.position("a".to_string()), Ok(1));
    assert_eq!(q.position("b".to_string()), Ok(2));
    assert_eq!(q.position("c".to_string()), Ok(3));
}

#[test]
fn position_counts_only_entries_still_present() {
    let mut q = Queue::new("unused".to_string());
    q.add(entry("a", "first"));
    q.add(entry("b", "second"));
    q.add(entry("c", "third"));
    assert_eq!(q.remove("a".to_string()), Ok(()));
    assert_eq!(q.position("b".to_string()), Ok(1));
    assert_eq!(q.position("c".to_string()), Ok(2));
}

#[test]
fn remove_then_position_fails() {
    let mut q = Queue::new("unused".to_string());
    q.add(entry("a", "first"));
    q.add(entry("b", "second"));
    assert_eq!(q.remove("a".to_string()), Ok(()));
    assert_eq!(q.position("a".to_string()), Err(()));
}

#[test]
fn unknown_id_fails() {
    let mut q = Queue::new("unused".to_string());
    q.add(entry("a", "first"));
    assert_eq!(q.position("missing".to_string()), Err(()));
    assert_eq!(q.remove("missing".to_string()), Err(()));
    assert_eq!(q.size(), 1);
}

#[test]
fn remove_at_drops_the_indexed_entry() {
    let mut q = Queue::new("unused".to_string());
    q.add(entry("a", "first"));
    q.add(entry("b", "second"));
    q.add(entry("c", "third"));
    q.remove_at(1);
    assert_eq!(q.size(), 2);
    assert_eq!(q.position("a".to_string()), Ok(1));
    assert_eq!(q.position("b".to_string()), Err(()));
    assert_eq!(q.position("c".to_string()), Ok(2));
}

#[test]
fn many_adds_with_distinct_ids_all_land() {
    let mut q = Queue::new("unused".to_string());
    for i in 0..20usize {
        let id = format!("id-{}", i);
        assert!(!q.contains_id(&id));
        q.add(entry(&id, "student"));
    }
    assert_eq!(q.size(), 20);
    for i in 0..20usize {
        assert_eq!(q.position(format!("id-{}", i)), Ok(i + 1));
    }
}

#[test]
fn generated_ids_have_the_hyphenated_length() {
    let r = StudentRequest::new(info("Alice", "a1", Purpose::Debugging, "d", "s"));
    assert_eq!(r.id.chars().count(), 36);
}

#[test]
fn end_to_end_join_position_leave() {
    let mut q = Queue::new("unused".to_string());
    let r = StudentRequest::new(info(
        "Alice",
        "a1",
        Purpose::Debugging,
        "loop bug",
        "tried prints",
    ));
    let id = r.id.clone();
    assert!(!q.contains_id(&id));
    q.add(r);
    assert_eq!(q.position(id.clone()), Ok(1));
    assert_eq!(q.remove(id.clone()), Ok(()));
    assert_eq!(q.position(id), Err(()));
}
