use ironclaw::json::Json;
use ironclaw::memory::skill_tracker::{
    compute_content_hash, LoadedSkill, SkillMetadata, SkillMetrics, SkillRepair, SkillTracker,
    SkillUpdate, MAX_REVISIONS,
};
use ironclaw::memory::store::MemoryStore;
use ironclaw::types::doc::{DocType, MemoryDoc};
use ironclaw::types::ids::{DocId, ProjectId, ThreadId};

const NOW: i128 = 5_000;

fn make_skill_doc() -> LoadedSkill {
    let meta = SkillMetadata {
        name: "test-skill".to_string(),
        version: 1,
        description: "test".to_string(),
        activation: Json::Object(vec![]),
        source: Json::Str("extracted".to_string()),
        trust: Json::Str("trusted".to_string()),
        code_snippets: Json::Array(vec![]),
        metrics: SkillMetrics {
            usage_count: 5,
            success_count: 3,
            failure_count: 2,
            last_used: None,
        },
        parent_version: None,
        revisions: vec![],
        repairs: vec![],
        content_hash: String::new(),
    };
    let doc = MemoryDoc::new(
        DocId(1),
        0,
        ProjectId(1),
        "test-user",
        DocType::Skill,
        "skill:test",
        "Test skill prompt",
    );
    LoadedSkill { doc, meta: Ok(meta) }
}

fn loaded(u: SkillUpdate) -> LoadedSkill {
    LoadedSkill { doc: u.doc, meta: Ok(u.meta) }
}

#[test]
fn test_record_usage_success() {
    let tracker = SkillTracker::new();
    let u = tracker.record_usage(DocId(1), Some(make_skill_doc()), true, NOW).ok().unwrap();
    assert_eq!(u.meta.metrics.usage_count, 6);
    assert_eq!(u.meta.metrics.success_count, 4);
    assert_eq!(u.meta.metrics.failure_count, 2);
    assert!(u.meta.metrics.last_used.is_some());
    assert_eq!(u.meta.metrics.last_used, Some(NOW));
}

#[test]
fn test_record_usage_failure() {
    let tracker = SkillTracker::new();
    let u = tracker.record_usage(DocId(1), Some(make_skill_doc()), false, NOW).ok().unwrap();
    assert_eq!(u.meta.metrics.usage_count, 6);
    assert_eq!(u.meta.metrics.success_count, 3);
    assert_eq!(u.meta.metrics.failure_count, 3);
}

#[test]
fn test_update_skill_increments_version() {
    let tracker = SkillTracker::new();
    let u = tracker
        .update_skill(
            DocId(1),
            Some(make_skill_doc()),
            "Updated content".to_string(),
            Some("Updated description".to_string()),
            None,
            NOW,
        )
        .ok()
        .unwrap();
    assert_eq!(u.doc.content, "Updated content");
    assert_eq!(u.meta.version, 2);
    assert_eq!(u.meta.parent_version, Some(1));
    assert_eq!(u.meta.description, "Updated description");
    assert_eq!(u.meta.revisions.len(), 1);
    assert_eq!(u.meta.revisions[0].version, 1);
    assert_eq!(u.meta.content_hash, compute_content_hash("Updated content"));
}

#[test]
fn test_rollback_restores_parent_version() {
    let tracker = SkillTracker::new();
    let u = tracker
        .update_skill(DocId(1), Some(make_skill_doc()), "v2 content".to_string(), None, None, NOW)
        .ok()
        .unwrap();
    let rolled = tracker.rollback_skill(DocId(1), Some(loaded(u)), NOW).ok().unwrap();
    assert_eq!(rolled.meta.version, 1);
    assert_eq!(rolled.meta.parent_version, None);
    assert_eq!(rolled.doc.content, "Test skill prompt");
    assert!(rolled.meta.revisions.is_empty());
}

#[test]
fn test_rollback_without_parent_fails() {
    let tracker = SkillTracker::new();
    assert!(tracker.rollback_skill(DocId(1), Some(make_skill_doc()), NOW).is_err());
}

#[test]
fn test_record_usage_missing_doc() {
    let tracker = SkillTracker::new();
    assert!(tracker.record_usage(DocId(2), None, true, NOW).is_err());
}

#[test]
fn unreadable_metadata_is_reported() {
    let tracker = SkillTracker::new();
    let mut skill = make_skill_doc();
    skill.meta = Err("missing field `name`".to_string());
    let error = tracker.record_usage(DocId(1), Some(skill), true, NOW).err().unwrap().message();
    assert!(error.contains("missing field `name`"), "{error}");
}

#[test]
fn test_update_skill_version_conflict() {
    let tracker = SkillTracker::new();
    let result = tracker.update_skill(
        DocId(1),
        Some(make_skill_doc()),
        "Updated content".to_string(),
        None,
        Some(2),
        NOW,
    );
    assert!(result.is_err());
    let error = result.err().unwrap().message();
    assert!(
        error.contains("version conflict"),
        "expected version conflict error, got: {error}"
    );
}

#[test]
fn content_hash_is_sha256() {
    assert_eq!(
        compute_content_hash("abc"),
        "sha256:ba7816bf8f01cfea414140de5dae2223b00361a396177a9cb410ff61f20015ad"
    );
}

#[test]
fn create_doc_and_get() {
    let store = MemoryStore::new();
    let project_id = ProjectId(7);
    let doc = store.create_doc(
        DocId(1),
        NOW,
        project_id,
        "test-user",
        DocType::Summary,
        "Test Doc",
        "Some content",
    );
    assert_eq!(doc.title, "Test Doc");
    assert_eq!(doc.content, "Some content");
    assert_eq!(doc.doc_type, DocType::Summary);
    assert_eq!(doc.project_id, project_id);
    assert!(doc.source_thread_id.is_none());
}

#[test]
fn create_doc_from_thread_links_source() {
    let store = MemoryStore::new();
    let thread_id = ThreadId(9);
    let doc = store.create_doc_from_thread(
        DocId(1),
        NOW,
        ProjectId(7),
        "test-user",
        DocType::Lesson,
        "Thread Lesson",
        "Learned something",
        thread_id,
    );
    assert_eq!(doc.source_thread_id, Some(thread_id));
    assert_eq!(doc.doc_type, DocType::Lesson);
}

#[test]
fn list_docs_filters_by_type() {
    let store = MemoryStore::new();
    let make = |id: u128, t: DocType, title: &str, content: &str| {
        store.create_doc(DocId(id), NOW, ProjectId(7), "test-user", t, title, content)
    };
    let all = || {
        vec![
            make(1, DocType::Summary, "S1", "summary content"),
            make(2, DocType::Lesson, "L1", "lesson content"),
            make(3, DocType::Summary, "S2", "another summary"),
        ]
    };
    let summaries = store.list_docs(all(), Some(DocType::Summary));
    assert_eq!(summaries.len(), 2);
    assert!(summaries.iter().all(|d| d.doc_type == DocType::Summary));
    let lessons = store.list_docs(all(), Some(DocType::Lesson));
    assert_eq!(lessons.len(), 1);
    assert_eq!(store.list_docs(all(), None).len(), 3);
}

#[test]
fn revisions_are_capped_and_repairs_rolled_back() {
    let tracker = SkillTracker::new();
    let mut skill = make_skill_doc();
    for i in 0..12 {
        let u = tracker
            .update_skill(DocId(1), Some(skill), format!("content {i}"), None, None, NOW)
            .ok()
            .unwrap();
        skill = loaded(u);
    }
    let meta = skill.meta.as_mut().unwrap();
    assert_eq!(meta.version, 13);
    assert_eq!(meta.revisions.len(), MAX_REVISIONS);
    assert_eq!(meta.revisions[0].version, 3);
    let repair = |to_version: u32| SkillRepair { to_version, details: Json::Null };
    meta.repairs = vec![repair(12), repair(13)];
    let rolled = tracker.rollback_skill(DocId(1), Some(skill), NOW).ok().unwrap();
    assert_eq!(rolled.doc.content, "content 10");
    assert_eq!(rolled.meta.version, 12);
    assert_eq!(rolled.meta.parent_version, Some(11));
    assert_eq!(rolled.meta.revisions.len(), MAX_REVISIONS - 1);
    assert_eq!(rolled.meta.repairs, vec![repair(12)]);
}

#[test]
fn rollback_undoes_an_update_whatever_the_order_of_the_versions() {
    let tracker = SkillTracker::new();
    let mut skill = make_skill_doc();
    for content in ["second", "third"] {
        let u = tracker
            .update_skill(DocId(1), Some(skill), content.to_string(), None, None, NOW)
            .ok()
            .unwrap();
        skill = loaded(u);
    }
    skill.meta.as_mut().unwrap().revisions.reverse();
    let u = tracker
        .update_skill(DocId(1), Some(skill), "fourth".to_string(), None, None, NOW)
        .ok()
        .unwrap();
    let rolled = tracker.rollback_skill(DocId(1), Some(loaded(u)), NOW).ok().unwrap();
    assert_eq!(rolled.doc.content, "third");
    assert_eq!(rolled.meta.version, 3);
    let kept: Vec<u32> = rolled.meta.revisions.iter().map(|r| r.version).collect();
    assert_eq!(kept, vec![2, 1]);
    assert_eq!(rolled.meta.parent_version, Some(2));
}

#[test]
fn rollback_keeps_versions_numbered_upwards() {
    let tracker = SkillTracker::new();
    let mut skill = make_skill_doc();
    for i in 0..4 {
        let u = tracker
            .update_skill(DocId(1), Some(skill), format!("content {i}"), None, None, NOW)
            .ok()
            .unwrap();
        skill = loaded(u);
    }
    let rolled = tracker.rollback_skill(DocId(1), Some(skill), NOW).ok().unwrap();
    assert_eq!(rolled.meta.version, 4);
    let kept: Vec<u32> = rolled.meta.revisions.iter().map(|r| r.version).collect();
    assert_eq!(kept, vec![1, 2, 3]);
}

#[test]
fn rollback_without_a_snapshot_keeps_the_content() {
    let tracker = SkillTracker::new();
    let mut skill = make_skill_doc();
    skill.meta.as_mut().unwrap().version = 4;
    skill.meta.as_mut().unwrap().parent_version = Some(3);
    let rolled = tracker.rollback_skill(DocId(1), Some(skill), NOW).ok().unwrap();
    assert_eq!(rolled.doc.content, "Test skill prompt");
    assert_eq!(rolled.meta.version, 3);
    assert_eq!(rolled.meta.parent_version, None);
}

#[test]
fn only_skills_are_counted() {
    let tracker = SkillTracker::new();
    let mut skill = make_skill_doc();
    skill.doc.doc_type = DocType::Note;
    let error = tracker.record_usage(DocId(1), Some(skill), true, NOW).err().unwrap().message();
    assert!(error.contains("is not a skill (type: Note)"), "{error}");
}
