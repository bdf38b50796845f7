//! How skills fare: how often they were used and helped, and their versions.
//!
//! A skill is a document. Each update keeps the version before it, so that a skill that
//! turned out worse can be taken back.

use vstd::prelude::*;
use vstd::utf8::encode_utf8;

use crate::executor::value::{hex_bytes, hex_text};
use crate::json::{Json, JsonView};
use crate::number::{decimal, u64_to_string};
use crate::types::doc::{doc_type_text, DocType, DocView, MemoryDoc};
use crate::types::error::{EngineError, ErrorView};
use crate::types::ids::{uuid_text, DocId};

verus! {

/// How many earlier versions of a skill are kept.
pub const MAX_REVISIONS: usize = 10;

/// How often a skill was used.
#[derive(Debug, Clone, Copy, PartialEq, Eq, Structural)]
pub struct SkillMetrics {
    pub usage_count: u64,
    pub success_count: u64,
    pub failure_count: u64,
    pub last_used: Option<i128>,
}

/// An earlier version of a skill.
#[derive(Debug, PartialEq, Eq)]
pub struct SkillRevision {
    pub version: u32,
    pub content: String,
    pub description: String,
    /// When the skill is offered.
    pub activation: Json,
    pub code_snippets: Json,
    pub content_hash: String,
    pub archived_at: Option<i128>,
}

/// What an earlier version holds.
pub struct RevisionView {
    pub version: u32,
    pub content: Seq<char>,
    pub description: Seq<char>,
    pub activation: JsonView,
    pub code_snippets: JsonView,
    pub content_hash: Seq<char>,
    pub archived_at: Option<i128>,
}

impl View for SkillRevision {
    type V = RevisionView;

    open spec fn view(&self) -> RevisionView {
        RevisionView {
            version: self.version,
            content: self.content@,
            description: self.description@,
            activation: self.activation@,
            code_snippets: self.code_snippets@,
            content_hash: self.content_hash@,
            archived_at: self.archived_at,
        }
    }
}

/// A repair that led to a version of a skill.
#[derive(Debug, PartialEq, Eq)]
pub struct SkillRepair {
    pub to_version: u32,
    pub details: Json,
}

/// What a repair holds.
pub struct RepairView {
    pub to_version: u32,
    pub details: JsonView,
}

impl View for SkillRepair {
    type V = RepairView;

    open spec fn view(&self) -> RepairView {
        RepairView { to_version: self.to_version, details: self.details@ }
    }
}

/// What is known of a skill beside its content.
#[derive(Debug, PartialEq, Eq)]
pub struct SkillMetadata {
    pub name: String,
    pub version: u32,
    pub description: String,
    pub activation: Json,
    pub source: Json,
    pub trust: Json,
    pub code_snippets: Json,
    pub metrics: SkillMetrics,
    /// The version that this one came from, where it can be taken back.
    pub parent_version: Option<u32>,
    pub revisions: Vec<SkillRevision>,
    pub repairs: Vec<SkillRepair>,
    pub content_hash: String,
}

/// What is known of a skill.
pub struct SkillView {
    pub name: Seq<char>,
    pub version: u32,
    pub description: Seq<char>,
    pub activation: JsonView,
    pub source: JsonView,
    pub trust: JsonView,
    pub code_snippets: JsonView,
    pub metrics: SkillMetrics,
    pub parent_version: Option<u32>,
    pub revisions: Seq<RevisionView>,
    pub repairs: Seq<RepairView>,
    pub content_hash: Seq<char>,
}

/// What several versions hold.
pub open spec fn revision_views(v: Seq<SkillRevision>) -> Seq<RevisionView> {
    v.map_values(|r: SkillRevision| r@)
}

/// What several repairs hold.
pub open spec fn repair_views(v: Seq<SkillRepair>) -> Seq<RepairView> {
    v.map_values(|r: SkillRepair| r@)
}

impl View for SkillMetadata {
    type V = SkillView;

    open spec fn view(&self) -> SkillView {
        SkillView {
            name: self.name@,
            version: self.version,
            description: self.description@,
            activation: self.activation@,
            source: self.source@,
            trust: self.trust@,
            code_snippets: self.code_snippets@,
            metrics: self.metrics,
            parent_version: self.parent_version,
            revisions: revision_views(self.revisions@),
            repairs: repair_views(self.repairs@),
            content_hash: self.content_hash@,
        }
    }
}

/// The digest that `sha2::Sha256` computes of bytes.
pub uninterp spec fn sha256_digest(bytes: Seq<u8>) -> Seq<u8>;

/// Computes a digest with `sha2::Sha256`, through `Digest::digest`. It is a function of
/// the bytes alone, which `sha256_digest` names.
#[verifier::external_body]
fn sha256(bytes: &[u8]) -> (r: Vec<u8>)
    ensures
        r@ == sha256_digest(bytes@),
{
    <sha2::Sha256 as sha2::Digest>::digest(bytes).to_vec()
}

/// How a digest is written.
pub open spec fn hash_text(digest: Seq<u8>) -> Seq<char> {
    "sha256:"@ + hex_bytes(digest)
}

/// Writes a digest.
pub fn write_hash(digest: &Vec<u8>) -> (r: String)
    ensures
        r@ == hash_text(digest@),
{
    let mut s = "sha256:".to_owned();
    s.append(hex_text(digest).as_str());
    s
}

/// The hash of a content.
pub open spec fn content_hash(content: Seq<char>) -> Seq<char> {
    hash_text(sha256_digest(encode_utf8(content)))
}

/// Computes the hash of a content.
pub fn compute_content_hash(content: &str) -> (r: String)
    ensures
        r@ == content_hash(content@),
{
    write_hash(&sha256(content.as_bytes()))
}

/// A skill as it was loaded: its document, and what is known of it, or why that cannot
/// be read.
pub struct LoadedSkill {
    pub doc: MemoryDoc,
    pub meta: Result<SkillMetadata, String>,
}

/// A skill, to be kept.
pub struct SkillUpdate {
    pub doc: MemoryDoc,
    pub meta: SkillMetadata,
}

/// How a skill that is not there is told.
pub open spec fn skill_missing(id: DocId) -> ErrorView {
    ErrorView::Skill("skill doc not found: "@ + uuid_text(id.0))
}

/// Whether a use of a skill can be counted.
pub open spec fn countable(m: SkillMetrics) -> bool {
    m.usage_count < u64::MAX && m.success_count < u64::MAX && m.failure_count < u64::MAX
}

/// The counts after a use.
pub open spec fn used(m: SkillMetrics, success: bool, now: i128) -> SkillMetrics {
    SkillMetrics {
        usage_count: (m.usage_count + 1) as u64,
        success_count: if success {
            (m.success_count + 1) as u64
        } else {
            m.success_count
        },
        failure_count: if success {
            m.failure_count
        } else {
            (m.failure_count + 1) as u64
        },
        last_used: Some(now),
    }
}

/// The version that an update keeps.
pub open spec fn archived(m: SkillView, content: Seq<char>, now: i128) -> RevisionView {
    RevisionView {
        version: m.version,
        content,
        description: m.description,
        activation: m.activation,
        code_snippets: m.code_snippets,
        content_hash: content_hash(content),
        archived_at: Some(now),
    }
}

/// The last of the versions, as many as are kept.
pub open spec fn capped(v: Seq<RevisionView>) -> Seq<RevisionView> {
    if v.len() > MAX_REVISIONS {
        v.skip(v.len() - MAX_REVISIONS)
    } else {
        v
    }
}

/// What is known of a skill when an update begins: the version before it is kept.
pub open spec fn begun(m: SkillView, content: Seq<char>, now: i128) -> SkillView {
    SkillView {
        revisions: capped(m.revisions.push(archived(m, content, now))),
        parent_version: Some(m.version),
        version: (m.version + 1) as u32,
        ..m
    }
}

/// The error of an update, where there is one.
pub open spec fn update_error(
    id: DocId,
    loaded: Option<LoadedSkill>,
    expected: Option<u32>,
) -> Option<ErrorView> {
    match loaded {
        None => Some(skill_missing(id)),
        Some(s) => match s.meta {
            Err(e) => Some(ErrorView::Skill("invalid skill metadata: "@ + e@)),
            Ok(m) => match expected {
                Some(v) if v != m.version => Some(
                    ErrorView::Skill(
                        "skill "@ + uuid_text(id.0) + " version conflict: expected "@ + decimal(
                            v as nat,
                        ) + ", found "@ + decimal(m.version as nat),
                    ),
                ),
                _ => None,
            },
        },
    }
}

/// The first of the versions with a number.
pub open spec fn revision_index(v: Seq<RevisionView>, version: u32) -> int
    decreases v.len(),
{
    if v.len() == 0 || v.first().version == version {
        0
    } else {
        1 + revision_index(v.drop_first(), version)
    }
}

/// The highest of the versions.
pub open spec fn latest(v: Seq<RevisionView>) -> Option<u32>
    decreases v.len(),
{
    if v.len() == 0 {
        None
    } else {
        match latest(v.drop_last()) {
            Some(n) if n > v.last().version => Some(n),
            _ => Some(v.last().version),
        }
    }
}

/// The versions below one.
pub open spec fn below(v: Seq<RevisionView>, version: u32) -> Seq<RevisionView> {
    v.filter(|r: RevisionView| r.version < version)
}

/// The repairs up to one version.
pub open spec fn up_to(v: Seq<RepairView>, version: u32) -> Seq<RepairView> {
    v.filter(|r: RepairView| r.to_version <= version)
}

/// What is known of a skill, and its content, after it was taken back to `parent`: as
/// that version was, where it is kept; otherwise only the number is taken back.
pub open spec fn rolled_back(m: SkillView, content: Seq<char>, parent: u32) -> (
    SkillView,
    Seq<char>,
) {
    let i = revision_index(m.revisions, parent);
    if i < m.revisions.len() {
        let r = m.revisions[i];
        let kept = below(m.revisions, r.version);
        (
            SkillView {
                version: r.version,
                description: r.description,
                activation: r.activation,
                code_snippets: r.code_snippets,
                content_hash: r.content_hash,
                revisions: kept,
                repairs: up_to(m.repairs, r.version),
                parent_version: latest(kept),
                ..m
            },
            r.content,
        )
    } else {
        (SkillView { version: parent, parent_version: None, ..m }, content)
    }
}

/// Follows the use of skills and their versions. Loading and keeping them is left to
/// the caller.
#[derive(Debug, Clone, Copy, PartialEq, Eq, Structural)]
pub struct SkillTracker;

fn skill_error(reason: String) -> (r: EngineError)
    ensures
        r@ == ErrorView::Skill(reason@),
{
    EngineError::Skill { reason }
}

fn missing(id: DocId) -> (r: EngineError)
    ensures
        r@ == skill_missing(id),
{
    let mut s = "skill doc not found: ".to_owned();
    s.append(id.text().as_str());
    skill_error(s)
}

impl SkillTracker {
    /// A tracker.
    pub fn new() -> (r: SkillTracker)
        ensures
            r == SkillTracker,
    {
        SkillTracker
    }

    /// Counts a use of a skill in a thread that ended.
    pub fn record_usage(
        &self,
        doc_id: DocId,
        loaded: Option<LoadedSkill>,
        success: bool,
        now: i128,
    ) -> (r: Result<SkillUpdate, EngineError>)
        requires
            loaded matches Some(s) ==> (s.meta matches Ok(m) ==> countable(m.metrics)),
        ensures
            match loaded {
                None => r matches Err(e) && e@ == skill_missing(doc_id),
                Some(s) => if s.doc.doc_type != DocType::Skill {
                    r matches Err(e) && e@ == ErrorView::Skill(
                        "doc "@ + uuid_text(doc_id.0) + " is not a skill (type: "@ + doc_type_text(
                            s.doc.doc_type,
                        ) + ")"@,
                    )
                } else {
                    match s.meta {
                        Err(why) => r matches Err(e) && e@ == ErrorView::Skill(
                            "invalid skill metadata for "@ + uuid_text(doc_id.0) + ": "@ + why@,
                        ),
                        Ok(m) => r matches Ok(u) && u.doc@ == (DocView {
                            updated_at: now,
                            ..s.doc@
                        }) && u.meta@ == (SkillView {
                            metrics: used(m.metrics, success, now),
                            ..m@
                        }),
                    }
                },
            },
    {
        let skill = match loaded {
            Some(s) => s,
            None => {
                return Err(missing(doc_id));
            },
        };
        let mut doc = skill.doc;
        if doc.doc_type != DocType::Skill {
            let mut s = "doc ".to_owned();
            s.append(doc_id.text().as_str());
            s.append(" is not a skill (type: ");
            s.append(doc.doc_type.name());
            s.append(")");
            return Err(skill_error(s));
        }
        let mut meta = match skill.meta {
            Ok(m) => m,
            Err(why) => {
                let mut s = "invalid skill metadata for ".to_owned();
                s.append(doc_id.text().as_str());
                s.append(": ");
                s.append(why.as_str());
                return Err(skill_error(s));
            },
        };
        let m = meta.metrics;
        meta.metrics = SkillMetrics {
            usage_count: m.usage_count + 1,
            success_count: if success {
                m.success_count + 1
            } else {
                m.success_count
            },
            failure_count: if success {
                m.failure_count
            } else {
                m.failure_count + 1
            },
            last_used: Some(now),
        };
        doc.updated_at = now;
        Ok(SkillUpdate { doc, meta })
    }

    /// Begins an update of a skill: the version before it is kept, and the number is
    /// counted up. With `expected_version` the update is refused where the skill has
    /// changed meanwhile. What else is to be changed is changed in the result, which
    /// [`SkillTracker::finish_update`] takes.
    pub fn begin_update(
        &self,
        doc_id: DocId,
        loaded: Option<LoadedSkill>,
        expected_version: Option<u32>,
        now: i128,
    ) -> (r: Result<SkillUpdate, EngineError>)
        requires
            loaded matches Some(s) ==> (s.meta matches Ok(m) ==> m.version < u32::MAX),
        ensures
            match update_error(doc_id, loaded, expected_version) {
                Some(e) => r matches Err(x) && x@ == e,
                None => r matches Ok(u) && u.doc@ == loaded->0.doc@ && u.meta@ == begun(
                    loaded->0.meta->Ok_0@,
                    loaded->0.doc@.content,
                    now,
                ),
            },
    {
        let skill = match loaded {
            Some(s) => s,
            None => {
                return Err(missing(doc_id));
            },
        };
        let doc = skill.doc;
        let mut meta = match skill.meta {
            Ok(m) => m,
            Err(why) => {
                let mut s = "invalid skill metadata: ".to_owned();
                s.append(why.as_str());
                return Err(skill_error(s));
            },
        };
        if let Some(v) = expected_version {
            if v != meta.version {
                let mut s = "skill ".to_owned();
                s.append(doc_id.text().as_str());
                s.append(" version conflict: expected ");
                s.append(u64_to_string(v as u64).as_str());
                s.append(", found ");
                s.append(u64_to_string(meta.version as u64).as_str());
                return Err(skill_error(s));
            }
        }
        let ghost m = meta@;
        let ghost before = meta.revisions@;
        let kept = SkillRevision {
            version: meta.version,
            content: doc.content.clone(),
            description: meta.description.clone(),
            activation: meta.activation.clone(),
            code_snippets: meta.code_snippets.clone(),
            content_hash: compute_content_hash(doc.content.as_str()),
            archived_at: Some(now),
        };
        let ghost v = kept@;
        meta.revisions.push(kept);
        assert(revision_views(meta.revisions@) =~= m.revisions.push(v));
        cap_revisions(&mut meta.revisions);
        meta.parent_version = Some(meta.version);
        meta.version = meta.version + 1;
        Ok(SkillUpdate { doc, meta })
    }

    /// Finishes an update of a skill with its new content.
    pub fn finish_update(&self, update: SkillUpdate, new_content: String, now: i128) -> (r:
        SkillUpdate)
        ensures
            r.doc@ == (DocView { content: new_content@, updated_at: now, ..update.doc@ }),
            r.meta@ == (SkillView { content_hash: content_hash(new_content@), ..update.meta@ }),
    {
        let mut doc = update.doc;
        let mut meta = update.meta;
        meta.content_hash = compute_content_hash(new_content.as_str());
        doc.content = new_content;
        doc.updated_at = now;
        SkillUpdate { doc, meta }
    }

    /// Updates a skill with a new content and a new description, where one is given.
    pub fn update_skill(
        &self,
        doc_id: DocId,
        loaded: Option<LoadedSkill>,
        new_content: String,
        description: Option<String>,
        expected_version: Option<u32>,
        now: i128,
    ) -> (r: Result<SkillUpdate, EngineError>)
        requires
            loaded matches Some(s) ==> (s.meta matches Ok(m) ==> m.version < u32::MAX),
        ensures
            match update_error(doc_id, loaded, expected_version) {
                Some(e) => r matches Err(x) && x@ == e,
                None => {
                    let s = loaded->0;
                    let b = begun(s.meta->Ok_0@, s.doc@.content, now);
                    r matches Ok(u) && u.doc@ == (DocView {
                        content: new_content@,
                        updated_at: now,
                        ..s.doc@
                    }) && u.meta@ == (SkillView {
                        description: match description {
                            Some(d) => d@,
                            None => b.description,
                        },
                        content_hash: content_hash(new_content@),
                        ..b
                    })
                },
            },
    {
        match self.begin_update(doc_id, loaded, expected_version, now) {
            Ok(u) => {
                let mut update = u;
                if let Some(d) = description {
                    update.meta.description = d;
                }
                Ok(self.finish_update(update, new_content, now))
            },
            Err(e) => Err(e),
        }
    }

    /// Takes a skill back to the version before: as it was, where that version is kept;
    /// otherwise only its number is taken back.
    pub fn rollback_skill(&self, doc_id: DocId, loaded: Option<LoadedSkill>, now: i128) -> (r:
        Result<SkillUpdate, EngineError>)
        ensures
            match loaded {
                None => r matches Err(e) && e@ == skill_missing(doc_id),
                Some(s) => match s.meta {
                    Err(why) => r matches Err(e) && e@ == ErrorView::Skill(
                        "invalid skill metadata: "@ + why@,
                    ),
                    Ok(m) => match m.parent_version {
                        None => r matches Err(e) && e@ == ErrorView::Skill(
                            "skill "@ + uuid_text(doc_id.0)
                                + " has no parent version to rollback to"@,
                        ),
                        Some(p) => {
                            let back = rolled_back(m@, s.doc@.content, p);
                            r matches Ok(u) && u.meta@ == back.0 && u.doc@ == (DocView {
                                content: back.1,
                                updated_at: now,
                                ..s.doc@
                            })
                        },
                    },
                },
            },
    {
        let skill = match loaded {
            Some(s) => s,
            None => {
                return Err(missing(doc_id));
            },
        };
        let mut doc = skill.doc;
        let mut meta = match skill.meta {
            Ok(m) => m,
            Err(why) => {
                let mut s = "invalid skill metadata: ".to_owned();
                s.append(why.as_str());
                return Err(skill_error(s));
            },
        };
        let parent = match meta.parent_version {
            Some(p) => p,
            None => {
                let mut s = "skill ".to_owned();
                s.append(doc_id.text().as_str());
                s.append(" has no parent version to rollback to");
                return Err(skill_error(s));
            },
        };
        let i = find_revision(&meta.revisions, parent);
        if i < meta.revisions.len() {
            assert(meta@.revisions[i as int] == meta.revisions@[i as int]@);
            let version: u32 = meta.revisions[i].version;
            let description = meta.revisions[i].description.clone();
            let activation = meta.revisions[i].activation.clone();
            let code_snippets = meta.revisions[i].code_snippets.clone();
            let hash = meta.revisions[i].content_hash.clone();
            let content = meta.revisions[i].content.clone();
            meta.version = version;
            meta.description = description;
            meta.activation = activation;
            meta.code_snippets = code_snippets;
            meta.content_hash = hash;
            meta.revisions = keep_below(meta.revisions, version);
            meta.repairs = keep_up_to(meta.repairs, version);
            meta.parent_version = latest_version(&meta.revisions);
            doc.content = content;
        } else {
            meta.version = parent;
            meta.parent_version = None;
        }
        doc.updated_at = now;
        Ok(SkillUpdate { doc, meta })
    }
}

fn cap_revisions(v: &mut Vec<SkillRevision>)
    ensures
        revision_views(final(v)@) == capped(revision_views(old(v)@)),
{
    let ghost all = revision_views(v@);
    let ghost mut dropped: int = 0;
    assert(all.skip(0) =~= all);
    while v.len() > MAX_REVISIONS
        invariant
            0 <= dropped,
            v@.len() == all.len() - dropped,
            dropped == 0 || v@.len() >= MAX_REVISIONS,
            revision_views(v@) == all.skip(dropped),
        decreases v@.len(),
    {
        let ghost left = v@;
        let _ = v.remove(0);
        proof {
            assert(revision_views(v@) =~= all.skip(dropped + 1)) by {
                assert forall|k: int| 0 <= k < v@.len() implies revision_views(v@)[k] == all.skip(
                    dropped + 1,
                )[k] by {
                    assert(v@[k] == left[k + 1]);
                    assert(revision_views(left)[k + 1] == all.skip(dropped)[k + 1]);
                }
            }
            dropped = dropped + 1;
        }
    }
}

fn find_revision(v: &Vec<SkillRevision>, version: u32) -> (r: usize)
    ensures
        r == revision_index(revision_views(v@), version),
        r <= v@.len(),
{
    let ghost all = revision_views(v@);
    let mut i: usize = 0;
    assert(all.skip(0) =~= all);
    while i < v.len()
        invariant
            i <= v@.len(),
            all == revision_views(v@),
            revision_index(all, version) == i + revision_index(all.skip(i as int), version),
        decreases v@.len() - i,
    {
        assert(all.skip(i as int).first() == v@[i as int]@);
        assert(all.skip(i as int).drop_first() =~= all.skip(i + 1));
        if v[i].version == version {
            return i;
        }
        i = i + 1;
    }
    i
}

fn latest_version(v: &Vec<SkillRevision>) -> (r: Option<u32>)
    ensures
        r == latest(revision_views(v@)),
{
    let ghost all = revision_views(v@);
    let mut best: Option<u32> = None;
    let mut i: usize = 0;
    assert(all.take(0) =~= Seq::<RevisionView>::empty());
    while i < v.len()
        invariant
            i <= v@.len(),
            all == revision_views(v@),
            best == latest(all.take(i as int)),
        decreases v@.len() - i,
    {
        assert(all.take(i + 1).drop_last() =~= all.take(i as int));
        assert(all.take(i + 1).last() == v@[i as int]@);
        let n: u32 = v[i].version;
        let keep = match best {
            Some(b) => b > n,
            None => false,
        };
        if !keep {
            best = Some(n);
        }
        i = i + 1;
    }
    assert(all.take(all.len() as int) =~= all);
    best
}

fn keep_below(v: Vec<SkillRevision>, version: u32) -> (r: Vec<SkillRevision>)
    ensures
        revision_views(r@) == below(revision_views(v@), version),
{
    let ghost all = revision_views(v@);
    let ghost p = |x: RevisionView| x.version < version;
    let n = v.len();
    let mut rest = v;
    let mut out: Vec<SkillRevision> = Vec::new();
    let mut i: usize = 0;
    reveal(Seq::filter);
    assert(all.take(0) =~= Seq::<RevisionView>::empty());
    assert(revision_views(out@) =~= all.take(0).filter(p));
    assert(revision_views(rest@) =~= all.skip(0));
    while i < n
        invariant
            i <= n,
            n == all.len(),
            rest@.len() == n - i,
            revision_views(rest@) == all.skip(i as int),
            p == (|x: RevisionView| x.version < version),
            revision_views(out@) == all.take(i as int).filter(p),
        decreases n - i,
    {
        reveal(Seq::filter);
        assert(all.take(i + 1).drop_last() =~= all.take(i as int));
        assert(revision_views(rest@)[0] == rest@[0]@);
        assert(all.skip(i as int)[0] == all[i as int]);
        let ghost left = rest@;
        let ghost before = out@;
        let x = rest.remove(0);
        assert(revision_views(rest@) =~= all.skip(i + 1)) by {
            assert forall|k: int| 0 <= k < rest@.len() implies revision_views(rest@)[k] == all.skip(
                i + 1,
            )[k] by {
                assert(rest@[k] == left[k + 1]);
                assert(revision_views(left)[k + 1] == all.skip(i as int)[k + 1]);
            }
        }
        if x.version < version {
            let ghost w = x@;
            out.push(x);
            assert(revision_views(out@) =~= revision_views(before).push(w));
        }
        i = i + 1;
    }
    assert(all.take(all.len() as int) =~= all);
    out
}

fn keep_up_to(v: Vec<SkillRepair>, version: u32) -> (r: Vec<SkillRepair>)
    ensures
        repair_views(r@) == up_to(repair_views(v@), version),
{
    let ghost all = repair_views(v@);
    let ghost p = |x: RepairView| x.to_version <= version;
    let n = v.len();
    let mut rest = v;
    let mut out: Vec<SkillRepair> = Vec::new();
    let mut i: usize = 0;
    reveal(Seq::filter);
    assert(all.take(0) =~= Seq::<RepairView>::empty());
    assert(repair_views(out@) =~= all.take(0).filter(p));
    assert(repair_views(rest@) =~= all.skip(0));
    while i < n
        invariant
            i <= n,
            n == all.len(),
            rest@.len() == n - i,
            repair_views(rest@) == all.skip(i as int),
            p == (|x: RepairView| x.to_version <= version),
            repair_views(out@) == all.take(i as int).filter(p),
        decreases n - i,
    {
        reveal(Seq::filter);
        assert(all.take(i + 1).drop_last() =~= all.take(i as int));
        assert(repair_views(rest@)[0] == rest@[0]@);
        assert(all.skip(i as int)[0] == all[i as int]);
        let ghost left = rest@;
        let ghost before = out@;
        let x = rest.remove(0);
        assert(repair_views(rest@) =~= all.skip(i + 1)) by {
            assert forall|k: int| 0 <= k < rest@.len() implies repair_views(rest@)[k] == all.skip(
                i + 1,
            )[k] by {
                assert(rest@[k] == left[k + 1]);
                assert(repair_views(left)[k + 1] == all.skip(i as int)[k + 1]);
            }
        }
        if x.to_version <= version {
            let ghost w = x@;
            out.push(x);
            assert(repair_views(out@) =~= repair_views(before).push(w));
        }
        i = i + 1;
    }
    assert(all.take(all.len() as int) =~= all);
    out
}

/// Whether versions are all below one.
pub open spec fn all_below(v: Seq<RevisionView>, version: u32) -> bool {
    forall|i: int| 0 <= i < v.len() ==> (#[trigger] v[i]).version < version
}

/// Whether versions are numbered upwards.
pub open spec fn upwards(v: Seq<RevisionView>) -> bool {
    forall|i: int, j: int|
        0 <= i < j < v.len() ==> (#[trigger] v[i]).version < (#[trigger] v[j]).version
}

/// Whether the versions of a skill are in sequence: those that are kept are numbered
/// upwards, and below the version it has.
pub open spec fn in_sequence(m: SkillView) -> bool {
    upwards(m.revisions) && all_below(m.revisions, m.version)
}

proof fn lemma_index(v: Seq<RevisionView>, version: u32, i: int)
    requires
        0 <= i < v.len(),
        v[i].version == version,
        forall|k: int| 0 <= k < i ==> (#[trigger] v[k]).version != version,
    ensures
        revision_index(v, version) == i,
    decreases v.len(),
{
    if i > 0 {
        assert(v[0].version != version);
        let r = v.drop_first();
        assert forall|k: int| 0 <= k < i - 1 implies (#[trigger] r[k]).version != version by {
            assert(r[k] == v[k + 1]);
        }
        lemma_index(r, version, i - 1);
    }
}

proof fn lemma_all_below(v: Seq<RevisionView>, version: u32)
    requires
        all_below(v, version),
    ensures
        below(v, version) == v,
    decreases v.len(),
{
    reveal(Seq::filter);
    if v.len() > 0 {
        assert forall|k: int| 0 <= k < v.drop_last().len() implies (
        #[trigger] v.drop_last()[k]).version < version by {
            assert(v.drop_last()[k] == v[k]);
        }
        lemma_all_below(v.drop_last(), version);
        assert(v[v.len() - 1].version < version);
        assert(v.drop_last().push(v.last()) =~= v);
    }
}

proof fn lemma_below(v: Seq<RevisionView>, version: u32, top: u32)
    requires
        all_below(v, top),
    ensures
        all_below(below(v, version), top),
    decreases v.len(),
{
    reveal(Seq::filter);
    if v.len() > 0 {
        assert(v.last().version < top);
        lemma_below(v.drop_last(), version, top);
    }
}

proof fn lemma_below_upwards(v: Seq<RevisionView>, version: u32)
    requires
        upwards(v),
    ensures
        upwards(below(v, version)),
    decreases v.len(),
{
    reveal(Seq::filter);
    if v.len() > 0 {
        let rest = v.drop_last();
        assert forall|k: int| 0 <= k < rest.len() implies (#[trigger] rest[k]).version
            < v.last().version by {
            assert(rest[k] == v[k]);
        }
        lemma_below(rest, version, v.last().version);
        lemma_below_upwards(rest, version);
    }
}

/// Where the versions that are kept are all below the one a skill has, an update that is
/// taken back leaves the content, the description, the activation and the snippets of the
/// skill as they were, whatever the update changed of them, and with them its version; the
/// versions that are kept are as they were too, but for the oldest, where there was no
/// room for one more.
pub proof fn rollback_undoes_update(
    m: SkillView,
    content: Seq<char>,
    now: i128,
    updated: SkillView,
    new_content: Seq<char>,
)
    requires
        all_below(m.revisions, m.version),
        m.version < u32::MAX,
        updated.parent_version == begun(m, content, now).parent_version,
        updated.revisions == begun(m, content, now).revisions,
    ensures
        ({
            let back = rolled_back(updated, new_content, m.version);
            &&& back.1 == content
            &&& back.0.version == m.version
            &&& back.0.description == m.description
            &&& back.0.activation == m.activation
            &&& back.0.code_snippets == m.code_snippets
            &&& back.0.content_hash == content_hash(content)
            &&& back.0.revisions == (if m.revisions.len() < MAX_REVISIONS {
                m.revisions
            } else {
                m.revisions.skip(m.revisions.len() + 1 - MAX_REVISIONS)
            })
            &&& back.0.parent_version == latest(back.0.revisions)
        }),
{
    let a = archived(m, content, now);
    let all = m.revisions.push(a);
    let v = capped(all);
    let n = v.len() - 1;
    let off = all.len() - v.len();
    assert forall|k: int| 0 <= k < n implies (#[trigger] v[k]).version < m.version by {
        assert(v[k] == m.revisions[k + off]);
    }
    assert(v[n] == a);
    lemma_index(v, m.version, n);
    let kept = v.drop_last();
    assert forall|k: int| 0 <= k < kept.len() implies (#[trigger] kept[k]).version < m.version by {
        assert(kept[k] == v[k]);
    }
    lemma_all_below(kept, m.version);
    assert(below(v, m.version) == kept) by {
        reveal(Seq::filter);
        assert(v.last() == a);
    }
    if m.revisions.len() < MAX_REVISIONS {
        assert(kept =~= m.revisions);
    } else {
        assert(kept =~= m.revisions.skip(m.revisions.len() + 1 - MAX_REVISIONS));
    }
}

/// Versions that are numbered upwards are in sequence after the skill was taken back to
/// one of them.
pub proof fn rollback_keeps_versions_in_sequence(m: SkillView, content: Seq<char>, parent: u32)
    requires
        upwards(m.revisions),
        revision_index(m.revisions, parent) < m.revisions.len(),
    ensures
        in_sequence(rolled_back(m, content, parent).0),
{
    let version = m.revisions[revision_index(m.revisions, parent)].version;
    lemma_below_upwards(m.revisions, version);
    let p = |r: RevisionView| r.version < version;
    let kept = below(m.revisions, version);
    assert forall|i: int| 0 <= i < kept.len() implies (#[trigger] kept[i]).version < version by {
        m.revisions.lemma_filter_pred(p, i);
    }
}

/// No skill ever keeps more versions than it may, and updates keep them in sequence.
pub proof fn updates_keep_versions_in_sequence(m: SkillView, content: Seq<char>, now: i128)
    requires
        in_sequence(m),
        m.version < u32::MAX,
    ensures
        in_sequence(begun(m, content, now)),
        begun(m, content, now).revisions.len() <= MAX_REVISIONS,
        begun(m, content, now).version == m.version + 1,
{
    let a = archived(m, content, now);
    let all = m.revisions.push(a);
    let v = capped(all);
    let off = all.len() - v.len();
    assert forall|i: int| 0 <= i < v.len() implies (#[trigger] v[i]) == all[i + off] by {}
    assert forall|i: int, j: int| 0 <= i < j < v.len() implies (#[trigger] v[i]).version < (
    #[trigger] v[j]).version by {
        assert(v[i] == all[i + off] && v[j] == all[j + off]);
        assert(all[i + off] == m.revisions[i + off]);
        if j + off < m.revisions.len() {
            assert(all[j + off] == m.revisions[j + off]);
        }
    }
    assert forall|i: int| 0 <= i < v.len() implies (#[trigger] v[i]).version < m.version + 1 by {
        if i + off < m.revisions.len() {
            assert(all[i + off] == m.revisions[i + off]);
        }
    }
}

/// Where each use was counted as a success or as a failure, it still is after another
/// use.
pub proof fn uses_are_successes_and_failures(m: SkillMetrics, success: bool, now: i128)
    requires
        countable(m),
        m.usage_count == m.success_count + m.failure_count,
    ensures
        ({
            let n = used(m, success, now);
            n.usage_count == n.success_count + n.failure_count && n.usage_count == m.usage_count + 1
        }),
{
}

/// A use is counted once, as a success or as a failure, with the time that it was made at.
pub proof fn uses_are_counted(m: SkillMetrics, now: i128)
    requires
        countable(m),
    ensures
        used(m, true, now).usage_count == m.usage_count + 1,
        used(m, true, now).success_count == m.success_count + 1,
        used(m, true, now).failure_count == m.failure_count,
        used(m, true, now).last_used == Some(now),
        used(m, false, now).usage_count == m.usage_count + 1,
        used(m, false, now).success_count == m.success_count,
        used(m, false, now).failure_count == m.failure_count + 1,
        used(m, false, now).last_used == Some(now),
{
}

/// An update keeps the version before it as it was, as the last of those that are kept,
/// and goes on to the next number; the versions that were kept before stay, the latest
/// that there is room for, in their order.
pub proof fn updates_keep_the_version_before(m: SkillView, content: Seq<char>, now: i128)
    requires
        m.version < u32::MAX,
    ensures
        ({
            let u = begun(m, content, now);
            let n = u.revisions.len();
            &&& u.version == m.version + 1
            &&& u.parent_version == Some(m.version)
            &&& u.description == m.description
            &&& u.activation == m.activation
            &&& u.code_snippets == m.code_snippets
            &&& u.repairs == m.repairs
            &&& n > 0
            &&& u.revisions[n - 1].version == m.version
            &&& u.revisions[n - 1].content == content
            &&& u.revisions[n - 1].description == m.description
            &&& u.revisions[n - 1].activation == m.activation
            &&& u.revisions[n - 1].code_snippets == m.code_snippets
            &&& u.revisions[n - 1].archived_at == Some(now)
            &&& m.revisions.len() < MAX_REVISIONS ==> n == m.revisions.len() + 1
            &&& m.revisions.len() >= MAX_REVISIONS ==> n == MAX_REVISIONS
            &&& forall|k: int|
                0 <= k < n - 1 ==> (#[trigger] u.revisions[k]) == m.revisions[k
                    + m.revisions.len() + 1 - n]
        }),
{
}

/// An update fails exactly where there is no such skill, what is known of it cannot be
/// read, or it has another version than was expected.
pub proof fn updates_fail_for_a_reason(
    id: DocId,
    loaded: Option<LoadedSkill>,
    expected: Option<u32>,
)
    ensures
        update_error(id, loaded, expected) is None <==> (loaded matches Some(s)
            && s.meta matches Ok(m) && (expected matches Some(v) ==> v == m.version)),
{
}

proof fn lemma_revision_index(v: Seq<RevisionView>, version: u32)
    ensures
        0 <= revision_index(v, version) <= v.len(),
        revision_index(v, version) < v.len() ==> v[revision_index(v, version)].version == version,
        forall|j: int| 0 <= j < revision_index(v, version) ==> (#[trigger] v[j]).version != version,
    decreases v.len(),
{
    if v.len() > 0 && v.first().version != version {
        let r = v.drop_first();
        lemma_revision_index(r, version);
        assert forall|j: int| 0 <= j < revision_index(v, version) implies (#[trigger] v[j]).version
            != version by {
            if j > 0 {
                assert(v[j] == r[j - 1]);
            }
        }
    }
}

/// A skill that is taken back to a version that is kept is as that version was; the
/// versions before it stay, and the repairs up to it; its counts stay too.
pub proof fn rollback_gives_the_version_back(
    m: SkillView,
    content: Seq<char>,
    parent: u32,
    i: int,
)
    requires
        0 <= i < m.revisions.len(),
        m.revisions[i].version == parent,
        forall|j: int| 0 <= j < i ==> (#[trigger] m.revisions[j]).version != parent,
    ensures
        ({
            let (b, c) = rolled_back(m, content, parent);
            &&& c == m.revisions[i].content
            &&& b.version == parent
            &&& b.description == m.revisions[i].description
            &&& b.activation == m.revisions[i].activation
            &&& b.code_snippets == m.revisions[i].code_snippets
            &&& b.content_hash == m.revisions[i].content_hash
            &&& b.metrics == m.metrics
            &&& forall|k: int|
                0 <= k < m.revisions.len() && (#[trigger] m.revisions[k]).version < parent
                    ==> b.revisions.contains(m.revisions[k])
            &&& forall|k: int|
                0 <= k < b.revisions.len() ==> (#[trigger] b.revisions[k]).version < parent
            &&& forall|k: int|
                0 <= k < m.repairs.len() && (#[trigger] m.repairs[k]).to_version <= parent
                    ==> b.repairs.contains(m.repairs[k])
            &&& forall|k: int|
                0 <= k < b.repairs.len() ==> (#[trigger] b.repairs[k]).to_version <= parent
        }),
{
    lemma_revision_index(m.revisions, parent);
    let at = revision_index(m.revisions, parent);
    if at < i {
        assert(m.revisions[at].version != parent);
    }
    assert(at == i);
    let (b, c) = rolled_back(m, content, parent);
    let p = |r: RevisionView| r.version < parent;
    let q = |r: RepairView| r.to_version <= parent;
    assert forall|k: int|
        0 <= k < m.revisions.len() && (#[trigger] m.revisions[k]).version
            < parent implies b.revisions.contains(m.revisions[k]) by {
        m.revisions.lemma_filter_contains(p, k);
    }
    assert forall|k: int| 0 <= k < b.revisions.len() implies (#[trigger] b.revisions[k]).version
        < parent by {
        m.revisions.lemma_filter_pred(p, k);
    }
    assert forall|k: int|
        0 <= k < m.repairs.len() && (#[trigger] m.repairs[k]).to_version
            <= parent implies b.repairs.contains(m.repairs[k]) by {
        m.repairs.lemma_filter_contains(q, k);
    }
    assert forall|k: int| 0 <= k < b.repairs.len() implies (#[trigger] b.repairs[k]).to_version
        <= parent by {
        m.repairs.lemma_filter_pred(q, k);
    }
}

/// A skill that is taken back to a version that is not kept only gets the number back: its
/// content, and what else is known of it, stay.
pub proof fn rollback_without_the_version_keeps_the_content(
    m: SkillView,
    content: Seq<char>,
    parent: u32,
)
    requires
        forall|j: int| 0 <= j < m.revisions.len() ==> (#[trigger] m.revisions[j]).version != parent,
    ensures
        rolled_back(m, content, parent).1 == content,
        rolled_back(m, content, parent).0 == (SkillView {
            version: parent,
            parent_version: None,
            ..m
        }),
{
    lemma_revision_index(m.revisions, parent);
}

/// The version that a skill comes from after it was taken back is the highest of those
/// that are kept, where any is.
pub proof fn latest_is_the_highest(v: Seq<RevisionView>)
    ensures
        v.len() == 0 <==> latest(v) is None,
        latest(v) matches Some(n) ==> (exists|i: int|
            0 <= i < v.len() && (#[trigger] v[i]).version == n) && forall|i: int|
            0 <= i < v.len() ==> (#[trigger] v[i]).version <= n,
    decreases v.len(),
{
    if v.len() > 0 {
        let r = v.drop_last();
        latest_is_the_highest(r);
        assert(v[v.len() - 1] == v.last());
        if let Some(n) = latest(r) {
            let k = choose|k: int| 0 <= k < r.len() && (#[trigger] r[k]).version == n;
            assert(v[k].version == n);
            assert forall|i: int| 0 <= i < v.len() implies (#[trigger] v[i]).version <= latest(v)->0 by {
                if i < r.len() {
                    assert(r[i] == v[i]);
                    assert(r[i].version <= n);
                }
            }
        }
    }
}

/// The hash of a content is that of its bytes, in hexadecimal after the name of the
/// function that made it.
pub proof fn hashes_are_those_of_the_content(content: Seq<char>)
    ensures
        content_hash(content) == "sha256:"@ + hex_bytes(sha256_digest(encode_utf8(content))),
{
}

} // verus!
