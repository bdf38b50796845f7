//! Versions of the orchestrator code, and when one that fails is left for another.
//!
//! Versions are documents with a well-known title and tag; the highest one runs.
//! A tracker document counts its consecutive failures. A version that failed too
//! often is passed over for the next one below it, and in the end for the code
//! that is built in.

use vstd::prelude::*;

use crate::executor::calls::object;
use crate::json::{
    field_of, fields, is_counts, json_parsed, json_text, parse, reads_as, render, Json, JsonView,
};
use crate::text::{contains_string, str_eq, texts};
use crate::types::capability::lemma_holds_texts;
use crate::types::doc::{doc_views, new_doc, DocType, DocView, MemoryDoc};
use crate::types::ids::{DocId, ProjectId};

verus! {

/// The title of documents with orchestrator code.
pub const ORCHESTRATOR_TITLE: &'static str = "orchestrator:main";

/// The tag of documents with orchestrator code.
pub const ORCHESTRATOR_TAG: &'static str = "orchestrator_code";

/// The title of the document that counts failures.
pub const FAILURE_TRACKER_TITLE: &'static str = "orchestrator:failures";

/// The number of consecutive failures after which a version is passed over.
pub const MAX_FAILURES_BEFORE_ROLLBACK: u64 = 3;

/// Whether a document holds a version of the orchestrator.
pub open spec fn is_version(d: DocView) -> bool {
    d.title == ORCHESTRATOR_TITLE@ && d.tags.contains(ORCHESTRATOR_TAG@)
}

/// The number by which versions are ordered: one that is missing counts as zero.
pub open spec fn rank_of(d: DocView) -> u64 {
    match d.metadata.u64_field("version"@) {
        Some(v) => v,
        None => 0,
    }
}

/// The version of a document: one that is missing counts as one.
pub open spec fn version_of(d: DocView) -> u64 {
    match d.metadata.u64_field("version"@) {
        Some(v) => v,
        None => 1,
    }
}

/// The index of the document with the highest rank of those that satisfy `p`, the
/// first of them where there are several.
pub open spec fn highest(docs: Seq<DocView>, p: spec_fn(DocView) -> bool) -> Option<int>
    decreases docs.len(),
{
    if docs.len() == 0 {
        None
    } else {
        let before = highest(docs.drop_last(), p);
        if !p(docs.last()) {
            before
        } else {
            match before {
                Some(i) if rank_of(docs[i]) >= rank_of(docs.last()) => before,
                _ => Some(docs.len() - 1),
            }
        }
    }
}

/// Whether a version has failed too often, where `failures` are on record for the
/// version `failed`.
pub open spec fn given_up(version: u64, failed: u64, failures: u64) -> bool {
    version == failed && failures >= MAX_FAILURES_BEFORE_ROLLBACK
}

/// The code and version that run: the highest version, unless it has failed too
/// often; then the highest that is another version; and else the built-in code,
/// which is version zero. `failures` are on record for the version `failed`.
pub open spec fn selected(
    docs: Seq<DocView>,
    failed: u64,
    failures: u64,
    built_in: Seq<char>,
) -> (Seq<char>, u64) {
    match highest(docs, |d: DocView| is_version(d)) {
        None => (built_in, 0),
        Some(top) => if !given_up(version_of(docs[top]), failed, failures) {
            (docs[top].content, version_of(docs[top]))
        } else {
            match highest(
                docs,
                |d: DocView| is_version(d) && version_of(d) != version_of(docs[top]),
            ) {
                None => (built_in, 0),
                Some(i) => (docs[i].content, version_of(docs[i])),
            }
        },
    }
}

/// The count of failures that the text of a tracker holds.
pub open spec fn tracked_count(content: Seq<char>) -> u64 {
    match json_parsed(content) {
        Some(j) => match j.u64_field("count"@) {
            Some(n) => n,
            None => 0,
        },
        None => 0,
    }
}

/// The version that the text of a tracker speaks of.
pub open spec fn tracked_version(content: Seq<char>) -> u64 {
    match json_parsed(content) {
        Some(j) => match j.u64_field("version"@) {
            Some(n) => n,
            None => 0,
        },
        None => 0,
    }
}

/// The index of the first tracker, or the length where there is none.
pub open spec fn tracker_index(docs: Seq<DocView>) -> int
    decreases docs.len(),
{
    if docs.len() == 0 || docs.first().title == FAILURE_TRACKER_TITLE@ {
        0
    } else {
        1 + tracker_index(docs.drop_first())
    }
}

/// The count of failures on record.
pub open spec fn failure_count(docs: Seq<DocView>) -> u64 {
    let i = tracker_index(docs);
    if i < docs.len() {
        tracked_count(docs[i].content)
    } else {
        0
    }
}

/// The version that the failures on record are those of.
pub open spec fn failing_version(docs: Seq<DocView>) -> u64 {
    let i = tracker_index(docs);
    if i < docs.len() {
        tracked_version(docs[i].content)
    } else {
        0
    }
}

/// What `highest` is: within bounds, with the property, and of the highest rank.
pub proof fn lemma_highest(docs: Seq<DocView>, p: spec_fn(DocView) -> bool)
    ensures
        match highest(docs, p) {
            Some(i) => {
                &&& 0 <= i < docs.len()
                &&& p(docs[i])
                &&& forall|j: int|
                    0 <= j < docs.len() && p(#[trigger] docs[j]) ==> rank_of(docs[j]) <= rank_of(
                        docs[i],
                    )
            },
            None => forall|j: int| 0 <= j < docs.len() ==> !p(#[trigger] docs[j]),
        },
    decreases docs.len(),
{
    if docs.len() > 0 {
        let r = docs.drop_last();
        lemma_highest(r, p);
        assert forall|j: int| 0 <= j < r.len() implies docs[j] == #[trigger] r[j] by {}
        match highest(docs, p) {
            Some(i) => {
                assert forall|j: int| 0 <= j < docs.len() && p(#[trigger] docs[j]) implies rank_of(
                    docs[j],
                ) <= rank_of(docs[i]) by {
                    if j < r.len() {
                        assert(r[j] == docs[j]);
                    }
                }
            },
            None => {
                assert forall|j: int| 0 <= j < docs.len() implies !p(#[trigger] docs[j]) by {
                    if j < r.len() {
                        assert(r[j] == docs[j]);
                    }
                }
            },
        }
    }
}

fn is_version_doc(d: &MemoryDoc) -> (r: bool)
    ensures
        r == is_version(d@),
{
    let tagged = contains_string(&d.tags, ORCHESTRATOR_TAG);
    proof {
        lemma_holds_texts(d.tags@, ORCHESTRATOR_TAG@);
    }
    str_eq(d.title.as_str(), ORCHESTRATOR_TITLE) && tagged
}

/// The highest of the versions, leaving out one version where it is given.
fn find_highest(docs: &Vec<MemoryDoc>, without: Option<u64>) -> (r: Option<usize>)
    ensures
        ({
            let h = highest(
                doc_views(docs@),
                |d: DocView| is_version(d) && Some(version_of(d)) != without,
            );
            match r {
                Some(i) => h == Some(i as int) && i < docs@.len(),
                None => h is None,
            }
        }),
{
    let ghost all = doc_views(docs@);
    let ghost p = |d: DocView| is_version(d) && Some(version_of(d)) != without;
    let mut best: Option<usize> = None;
    let mut best_rank: u64 = 0;
    let mut i: usize = 0;
    assert(all.take(0) =~= Seq::<DocView>::empty());
    while i < docs.len()
        invariant
            i <= docs@.len(),
            all == doc_views(docs@),
            p == (|d: DocView| is_version(d) && Some(version_of(d)) != without),
            match best {
                Some(b) => b < i && highest(all.take(i as int), p) == Some(b as int) && best_rank
                    == rank_of(all[b as int]),
                None => highest(all.take(i as int), p) is None,
            },
        decreases docs@.len() - i,
    {
        assert(all.take(i + 1).drop_last() =~= all.take(i as int));
        assert(all.take(i + 1).last() == docs@[i as int]@);
        let stored = docs[i].metadata.u64_field("version");
        let version: u64 = match stored {
            Some(v) => v,
            None => 1,
        };
        let excluded = match without {
            Some(w) => version == w,
            None => false,
        };
        if is_version_doc(&docs[i]) && !excluded {
            let rank: u64 = match stored {
                Some(v) => v,
                None => 0,
            };
            let keep = match best {
                Some(_) => best_rank >= rank,
                None => false,
            };
            if !keep {
                best = Some(i);
                best_rank = rank;
            }
        }
        i = i + 1;
    }
    assert(all.take(all.len() as int) =~= all);
    best
}

/// Picks the code and version that run, given the count of failures and the version
/// that it is the count of.
pub fn select_orchestrator(
    docs: &Vec<MemoryDoc>,
    failed: u64,
    failures: u64,
    built_in: &str,
) -> (r: (String, u64))
    ensures
        (r.0@, r.1) == selected(doc_views(docs@), failed, failures, built_in@),
{
    let ghost all = doc_views(docs@);
    let ghost none: Option<u64> = None;
    assert((|d: DocView| is_version(d) && Some(version_of(d)) != none) =~= (|d: DocView|
        is_version(d)));
    match find_highest(docs, None) {
        None => (built_in.to_owned(), 0),
        Some(top) => {
            let top_version: u64 = match docs[top].metadata.u64_field("version") {
                Some(v) => v,
                None => 1,
            };
            if top_version != failed || failures < MAX_FAILURES_BEFORE_ROLLBACK {
                return (docs[top].content.clone(), top_version);
            }
            assert((|d: DocView| is_version(d) && Some(version_of(d)) != Some(top_version)) =~= (
            |d: DocView| is_version(d) && version_of(d) != version_of(all[top as int])));
            match find_highest(docs, Some(top_version)) {
                None => (built_in.to_owned(), 0),
                Some(i) => {
                    let version: u64 = match docs[i].metadata.u64_field("version") {
                        Some(v) => v,
                        None => 1,
                    };
                    (docs[i].content.clone(), version)
                },
            }
        },
    }
}

fn find_tracker(docs: &Vec<MemoryDoc>) -> (r: Option<usize>)
    ensures
        match r {
            Some(i) => i < docs@.len() && tracker_index(doc_views(docs@)) == i,
            None => tracker_index(doc_views(docs@)) == docs@.len(),
        },
{
    let ghost all = doc_views(docs@);
    let mut i: usize = 0;
    assert(all.skip(0) =~= all);
    while i < docs.len()
        invariant
            i <= docs@.len(),
            all == doc_views(docs@),
            tracker_index(all) == i + tracker_index(all.skip(i as int)),
        decreases docs@.len() - i,
    {
        assert(all.skip(i as int).first() == docs@[i as int]@);
        assert(all.skip(i as int).drop_first() =~= all.skip(i + 1));
        if str_eq(docs[i].title.as_str(), FAILURE_TRACKER_TITLE) {
            return Some(i);
        }
        i = i + 1;
    }
    None
}

fn read_tracker(content: &str) -> (r: (u64, u64))
    ensures
        r.0 == tracked_version(content@),
        r.1 == tracked_count(content@),
{
    match parse(content) {
        Some(j) => {
            let version: u64 = match j.u64_field("version") {
                Some(n) => n,
                None => 0,
            };
            let count: u64 = match j.u64_field("count") {
                Some(n) => n,
                None => 0,
            };
            (version, count)
        },
        None => (0, 0),
    }
}

/// The count of failures on record.
pub fn load_failure_count(docs: &Vec<MemoryDoc>) -> (r: u64)
    ensures
        r == failure_count(doc_views(docs@)),
{
    match find_tracker(docs) {
        Some(i) => read_tracker(docs[i].content.as_str()).1,
        None => 0,
    }
}

/// The version that the failures on record are those of.
pub fn load_failing_version(docs: &Vec<MemoryDoc>) -> (r: u64)
    ensures
        r == failing_version(doc_views(docs@)),
{
    match find_tracker(docs) {
        Some(i) => read_tracker(docs[i].content.as_str()).0,
        None => 0,
    }
}

/// Picks the code and version that run. Where runtime versions are not allowed it
/// is always the built-in code.
pub fn load_orchestrator_from_docs(
    docs: &Vec<MemoryDoc>,
    allow_self_modify: bool,
    built_in: &str,
) -> (r: (String, u64))
    ensures
        (r.0@, r.1) == if allow_self_modify {
            let all = doc_views(docs@);
            selected(all, failing_version(all), failure_count(all), built_in@)
        } else {
            (built_in@, 0u64)
        },
{
    if !allow_self_modify {
        return (built_in.to_owned(), 0);
    }
    let failed = load_failing_version(docs);
    let failures = load_failure_count(docs);
    select_orchestrator(docs, failed, failures, built_in)
}

/// The record of a number of failures of a version.
pub open spec fn tracker_json(version: u64, count: u64) -> JsonView {
    JsonView::Object(
        seq![("count"@, JsonView::Uint(count)), ("version"@, JsonView::Uint(version))],
    )
}

proof fn lemma_tracker_is_counts(version: u64, count: u64)
    ensures
        is_counts(tracker_json(version, count)),
        tracker_json(version, count).u64_field("count"@) == Some(count),
        tracker_json(version, count).u64_field("version"@) == Some(version),
{
    reveal_with_fuel(field_of, 3);
    reveal_strlit("count");
    reveal_strlit("version");
    assert("count"@.len() != "version"@.len());
    let f = tracker_json(version, count)->Object_0;
    assert(f.drop_first()[0] == f[1]);
}

fn write_tracker(version: u64, count: u64) -> (r: String)
    ensures
        r@ == json_text(tracker_json(version, count)),
        tracked_count(r@) == count,
        tracked_version(r@) == version,
{
    let mut v: Vec<(String, Json)> = Vec::new();
    v.push(("count".to_owned(), Json::Uint(count)));
    v.push(("version".to_owned(), Json::Uint(version)));
    assert(fields(v@) =~= tracker_json(version, count)->Object_0);
    let j = object(v);
    let text = render(&j);
    proof {
        lemma_tracker_is_counts(version, count);
        assert(reads_as(text@, j@));
        let back = json_parsed(text@)->0;
        assert(back.get("count"@) == j@.get("count"@));
        assert(back.get("version"@) == j@.get("version"@));
    }
    text
}

/// The count after one more failure: it goes on for one version, and starts anew
/// for another.
pub open spec fn next_count(tracked_version: u64, tracked_count: u64, version: u64) -> int {
    if tracked_version == version {
        tracked_count + 1
    } else {
        1
    }
}

/// The count after one more failure.
pub fn count_failure(tracked_version: u64, tracked_count: u64, version: u64) -> (r: u64)
    requires
        next_count(tracked_version, tracked_count, version) <= u64::MAX,
    ensures
        r == next_count(tracked_version, tracked_count, version),
{
    if tracked_version == version {
        tracked_count + 1
    } else {
        1
    }
}

/// The text of a tracker after one more failure; `None` where the count cannot go
/// higher.
pub fn failure_content(content: &str, version: u64) -> (r: Option<String>)
    ensures
        match r {
            Some(text) => {
                &&& next_count(tracked_version(content@), tracked_count(content@), version)
                    <= u64::MAX
                &&& text@ == json_text(
                    tracker_json(
                        version,
                        next_count(
                            tracked_version(content@),
                            tracked_count(content@),
                            version,
                        ) as u64,
                    ),
                )
                &&& tracked_count(text@) == next_count(
                    tracked_version(content@),
                    tracked_count(content@),
                    version,
                )
                &&& tracked_version(text@) == version
            },
            None => tracked_version(content@) == version && tracked_count(content@) == u64::MAX,
        },
{
    let (seen, count) = read_tracker(content);
    if seen == version && count == u64::MAX {
        return None;
    }
    let next = count_failure(seen, count, version);
    Some(write_tracker(version, next))
}

/// The tracker that a failure is recorded in: the one on record, or a new one.
pub open spec fn tracker_doc(
    docs: Seq<DocView>,
    new_id: DocId,
    project_id: ProjectId,
    owner: Seq<char>,
    now: i128,
) -> DocView {
    let i = tracker_index(docs);
    if i < docs.len() {
        docs[i]
    } else {
        DocView {
            tags: seq!["orchestrator_meta"@],
            ..new_doc(
                new_id,
                now,
                project_id,
                owner,
                DocType::Note,
                FAILURE_TRACKER_TITLE@,
                ""@,
            )
        }
    }
}

/// The count that a failure is recorded with: the next one of the tracker on record, and
/// one where there is none.
pub open spec fn recorded_count(docs: Seq<DocView>, version: u64) -> int {
    let i = tracker_index(docs);
    if i < docs.len() {
        next_count(tracked_version(docs[i].content), tracked_count(docs[i].content), version)
    } else {
        1
    }
}

/// Records a failure of a version: the tracker to save, which is a new document
/// of the shared owner where there is none yet. `None` where the count cannot go
/// higher.
pub fn record_orchestrator_failure(
    docs: &Vec<MemoryDoc>,
    version: u64,
    new_id: DocId,
    project_id: ProjectId,
    owner: &str,
    now: i128,
) -> (r: Option<MemoryDoc>)
    ensures
        ({
            let all = doc_views(docs@);
            let t = tracker_doc(all, new_id, project_id, owner@, now);
            let count = recorded_count(all, version);
            match r {
                Some(d) => {
                    &&& count <= u64::MAX
                    &&& d@ == (DocView { content: d.content@, updated_at: now, ..t })
                    &&& d.content@ == json_text(tracker_json(version, count as u64))
                    &&& tracked_count(d.content@) == count
                    &&& tracked_version(d.content@) == version
                },
                None => count > u64::MAX,
            }
        }),
{
    match find_tracker(docs) {
        Some(i) => {
            let mut tracker = docs[i].clone();
            match failure_content(tracker.content.as_str(), version) {
                Some(text) => {
                    tracker.content = text;
                    tracker.updated_at = now;
                    Some(tracker)
                },
                None => None,
            }
        },
        None => {
            let mut tags: Vec<String> = Vec::new();
            tags.push("orchestrator_meta".to_owned());
            assert(texts(tags@) =~= seq!["orchestrator_meta"@]);
            let mut tracker = MemoryDoc::new(
                new_id,
                now,
                project_id,
                owner,
                DocType::Note,
                FAILURE_TRACKER_TITLE,
                "",
            ).with_tags(tags);
            tracker.content = write_tracker(version, 1);
            tracker.updated_at = now;
            Some(tracker)
        },
    }
}

/// Resets the count after a success: the tracker to save, where there is one.
pub fn reset_orchestrator_failures(docs: &Vec<MemoryDoc>, now: i128) -> (r: Option<MemoryDoc>)
    ensures
        ({
            let all = doc_views(docs@);
            let i = tracker_index(all);
            match r {
                Some(d) => {
                    &&& i < all.len()
                    &&& d@ == (DocView { content: d.content@, updated_at: now, ..all[i] })
                    &&& d.content@ == json_text(tracker_json(0, 0))
                    &&& tracked_count(d.content@) == 0
                    &&& tracked_version(d.content@) == 0
                },
                None => i == all.len(),
            }
        }),
{
    match find_tracker(docs) {
        Some(i) => {
            let mut tracker = docs[i].clone();
            tracker.content = write_tracker(0, 0);
            tracker.updated_at = now;
            Some(tracker)
        },
        None => None,
    }
}

/// A version that failed too often does not run again while the count stands: what
/// runs is another version, or the built-in code.
pub proof fn failing_version_is_passed_over(
    docs: Seq<DocView>,
    failures: u64,
    built_in: Seq<char>,
    top: int,
)
    requires
        failures >= MAX_FAILURES_BEFORE_ROLLBACK,
        highest(docs, |d: DocView| is_version(d)) == Some(top),
    ensures
        ({
            let (code, version) = selected(
                docs,
                version_of(docs[top]),
                failures,
                built_in,
            );
            ||| (code, version) == (built_in, 0u64)
            ||| exists|i: int|
                0 <= i < docs.len() && is_version(#[trigger] docs[i]) && version_of(docs[i])
                    != version_of(docs[top]) && (code, version) == (
                    docs[i].content,
                    version_of(docs[i]),
                )
        }),
{
    lemma_highest(docs, |d: DocView| is_version(d) && version_of(d) != version_of(docs[top]));
}

/// While it has not failed too often the highest version runs, however often another
/// version has failed.
pub proof fn highest_version_runs(
    docs: Seq<DocView>,
    failed: u64,
    failures: u64,
    built_in: Seq<char>,
    top: int,
    i: int,
)
    requires
        highest(docs, |d: DocView| is_version(d)) == Some(top),
        !given_up(version_of(docs[top]), failed, failures),
        0 <= i < docs.len(),
        is_version(docs[i]),
        docs[i].metadata.u64_field("version"@) is Some,
    ensures
        selected(docs, failed, failures, built_in) == (docs[top].content, version_of(docs[top])),
        version_of(docs[top]) >= version_of(docs[i]),
{
    lemma_highest(docs, |d: DocView| is_version(d));
}

/// A failure that was recorded is counted: a tracker that is found, and whose text
/// is the recorded one, gives the next count.
pub proof fn recorded_failure_is_counted(docs: Seq<DocView>, i: int, d: DocView)
    requires
        tracker_index(docs) == i,
        0 <= i < docs.len(),
        d.title == docs[i].title,
    ensures
        failure_count(docs.update(i, d)) == tracked_count(d.content),
        failing_version(docs.update(i, d)) == tracked_version(d.content),
{
    lemma_tracker_index(docs);
    let t = docs.update(i, d);
    lemma_tracker_index(t);
    let k = tracker_index(t);
    if k < i {
        assert(t[k] == docs[k]);
    }
    if i < k {
        assert(t[i].title != FAILURE_TRACKER_TITLE@);
    }
}

/// The first failure that is recorded is counted: a tracker that is added where there was
/// none gives the count in its text.
pub proof fn first_failure_is_counted(docs: Seq<DocView>, d: DocView)
    requires
        tracker_index(docs) == docs.len(),
        d.title == FAILURE_TRACKER_TITLE@,
    ensures
        failure_count(docs.push(d)) == tracked_count(d.content),
        failing_version(docs.push(d)) == tracked_version(d.content),
{
    lemma_tracker_index(docs);
    let t = docs.push(d);
    lemma_tracker_index(t);
    let k = tracker_index(t);
    if k < docs.len() {
        assert(t[k] == docs[k]);
    }
    if docs.len() < k {
        assert(t[docs.len() as int].title != FAILURE_TRACKER_TITLE@);
    }
}

proof fn lemma_tracker_index(docs: Seq<DocView>)
    ensures
        0 <= tracker_index(docs) <= docs.len(),
        tracker_index(docs) < docs.len() ==> docs[tracker_index(docs)].title
            == FAILURE_TRACKER_TITLE@,
        forall|j: int|
            0 <= j < tracker_index(docs) ==> (#[trigger] docs[j]).title != FAILURE_TRACKER_TITLE@,
    decreases docs.len(),
{
    if docs.len() > 0 && docs.first().title != FAILURE_TRACKER_TITLE@ {
        let r = docs.drop_first();
        lemma_tracker_index(r);
        assert forall|j: int| 0 <= j < tracker_index(docs) implies (#[trigger] docs[j]).title
            != FAILURE_TRACKER_TITLE@ by {
            if j > 0 {
                assert(docs[j] == r[j - 1]);
            }
        }
    }
}

/// A version of the orchestrator is known by its title and its tag, and its number stands
/// in its metadata; one without a number ranks below all others and is the first.
pub proof fn versions_are_known_by_title_and_tag(d: DocView, i: int, v: u64)
    ensures
        d.title == "orchestrator:main"@ && 0 <= i < d.tags.len() && d.tags[i]
            == "orchestrator_code"@ ==> is_version(d),
        d.title != "orchestrator:main"@ ==> !is_version(d),
        (forall|j: int| 0 <= j < d.tags.len() ==> (#[trigger] d.tags[j]) != "orchestrator_code"@)
            ==> !is_version(d),
        d.metadata.get("version"@) == Some(JsonView::Uint(v)) ==> version_of(d) == v && rank_of(d)
            == v,
        d.metadata.get("version"@) is None ==> version_of(d) == 1 && rank_of(d) == 0,
{
}

proof fn lemma_highest_is(docs: Seq<DocView>, p: spec_fn(DocView) -> bool, top: int)
    requires
        0 <= top < docs.len(),
        p(docs[top]),
        forall|j: int|
            0 <= j < docs.len() && p(#[trigger] docs[j]) ==> rank_of(docs[j]) <= rank_of(docs[top]),
        forall|j: int|
            0 <= j < top && p(#[trigger] docs[j]) ==> rank_of(docs[j]) < rank_of(docs[top]),
    ensures
        highest(docs, p) == Some(top),
    decreases docs.len(),
{
    let r = docs.drop_last();
    if top < r.len() {
        assert forall|j: int| 0 <= j < r.len() && p(#[trigger] r[j]) implies rank_of(r[j])
            <= rank_of(r[top]) by {
            assert(r[j] == docs[j]);
        }
        assert forall|j: int| 0 <= j < top && p(#[trigger] r[j]) implies rank_of(r[j]) < rank_of(
            r[top],
        ) by {
            assert(r[j] == docs[j]);
        }
        lemma_highest_is(r, p, top);
        assert(docs[docs.len() - 1] == docs.last());
    } else {
        lemma_highest(r, p);
        if let Some(i) = highest(r, p) {
            assert(r[i] == docs[i]);
        }
    }
}

/// The version that runs is the one of the highest number, the first of several with one
/// number, unless that has failed three times or more.
pub proof fn the_highest_version_is_selected(
    docs: Seq<DocView>,
    failed: u64,
    failures: u64,
    built_in: Seq<char>,
    top: int,
)
    requires
        0 <= top < docs.len(),
        is_version(docs[top]),
        forall|j: int|
            0 <= j < docs.len() && is_version(#[trigger] docs[j]) ==> rank_of(docs[j]) <= rank_of(
                docs[top],
            ),
        forall|j: int|
            0 <= j < top && is_version(#[trigger] docs[j]) ==> rank_of(docs[j]) < rank_of(docs[top]),
        version_of(docs[top]) != failed || failures < 3,
    ensures
        selected(docs, failed, failures, built_in) == (docs[top].content, version_of(docs[top])),
{
    lemma_highest_is(docs, |d: DocView| is_version(d), top);
}

/// Where the highest version has failed three times or more, the highest of the others
/// runs; where there is none, and where there is no version at all, the built-in code.
pub proof fn the_next_version_is_selected(
    docs: Seq<DocView>,
    failures: u64,
    built_in: Seq<char>,
    top: int,
    next: int,
)
    requires
        0 <= top < docs.len(),
        is_version(docs[top]),
        forall|j: int|
            0 <= j < docs.len() && is_version(#[trigger] docs[j]) ==> rank_of(docs[j]) <= rank_of(
                docs[top],
            ),
        forall|j: int|
            0 <= j < top && is_version(#[trigger] docs[j]) ==> rank_of(docs[j]) < rank_of(docs[top]),
        failures >= 3,
        0 <= next <= docs.len(),
        next < docs.len() ==> is_version(docs[next]) && version_of(docs[next]) != version_of(
            docs[top],
        ),
        forall|j: int|
            0 <= j < docs.len() && is_version(#[trigger] docs[j]) && version_of(docs[j])
                != version_of(docs[top]) ==> next < docs.len() && rank_of(docs[j]) <= rank_of(
                docs[next],
            ),
        forall|j: int|
            0 <= j < next && is_version(#[trigger] docs[j]) && version_of(docs[j]) != version_of(
                docs[top],
            ) ==> next < docs.len() && rank_of(docs[j]) < rank_of(docs[next]),
    ensures
        next < docs.len() ==> selected(docs, version_of(docs[top]), failures, built_in) == (
            docs[next].content,
            version_of(docs[next]),
        ),
        next == docs.len() ==> selected(docs, version_of(docs[top]), failures, built_in) == (
            built_in,
            0u64,
        ),
{
    lemma_highest_is(docs, |d: DocView| is_version(d), top);
    let p = |d: DocView| is_version(d) && version_of(d) != version_of(docs[top]);
    if next < docs.len() {
        lemma_highest_is(docs, p, next);
    } else {
        lemma_highest(docs, p);
    }
}

/// Without a version the built-in code runs.
pub proof fn built_in_code_runs_without_a_version(
    docs: Seq<DocView>,
    failed: u64,
    failures: u64,
    built_in: Seq<char>,
)
    requires
        forall|j: int| 0 <= j < docs.len() ==> !is_version(#[trigger] docs[j]),
    ensures
        selected(docs, failed, failures, built_in) == (built_in, 0u64),
{
    lemma_highest(docs, |d: DocView| is_version(d));
}

/// The failures on record are those in the first document with the title of the record;
/// where there is none, there are none.
pub proof fn failures_on_record_are_read(docs: Seq<DocView>, i: int, n: u64, v: u64)
    requires
        0 <= i <= docs.len(),
        forall|j: int| 0 <= j < i ==> (#[trigger] docs[j]).title != "orchestrator:failures"@,
        i < docs.len() ==> docs[i].title == "orchestrator:failures"@ && reads_as(
            docs[i].content,
            tracker_json(v, n),
        ),
    ensures
        i < docs.len() ==> failure_count(docs) == n && failing_version(docs) == v,
        i == docs.len() ==> failure_count(docs) == 0 && failing_version(docs) == 0,
{
    lemma_tracker_index(docs);
    let k = tracker_index(docs);
    if k < i {
        assert(docs[k].title != "orchestrator:failures"@);
    }
    if i < k {
        assert(docs[i].title != FAILURE_TRACKER_TITLE@);
    }
    if i < docs.len() {
        records_hold_version_and_count(v, n);
        let j = tracker_json(v, n);
        let back = json_parsed(docs[i].content)->0;
        assert(back.get("count"@) == j.get("count"@));
        assert(back.get("version"@) == j.get("version"@));
    }
}

/// A record holds the version and the count that it was made of.
pub proof fn records_hold_version_and_count(version: u64, count: u64)
    ensures
        tracker_json(version, count).get("count"@) == Some(JsonView::Uint(count)),
        tracker_json(version, count).get("version"@) == Some(JsonView::Uint(version)),
{
    reveal_with_fuel(field_of, 3);
    reveal_strlit("count");
    reveal_strlit("version");
    assert("count"@.len() == 5 && "version"@.len() == 7);
    let f = tracker_json(version, count)->Object_0;
    assert(f.drop_first()[0] == f[1]);
}

/// One more failure of a version is counted on, and the first of another starts at one.
pub proof fn failures_are_counted_for_their_version(
    docs: Seq<DocView>,
    i: int,
    n: u64,
    v: u64,
    version: u64,
)
    requires
        0 <= i <= docs.len(),
        forall|j: int| 0 <= j < i ==> (#[trigger] docs[j]).title != "orchestrator:failures"@,
        i < docs.len() ==> docs[i].title == "orchestrator:failures"@ && reads_as(
            docs[i].content,
            tracker_json(v, n),
        ),
    ensures
        i < docs.len() && version == v ==> recorded_count(docs, version) == n + 1,
        i < docs.len() && version != v ==> recorded_count(docs, version) == 1,
        i == docs.len() ==> recorded_count(docs, version) == 1,
{
    failures_on_record_are_read(docs, i, n, v);
}

/// A failure is recorded in the document on record, or in a new one with the title of the
/// record for the same project and owner.
pub proof fn failures_are_recorded_in_one_document(
    docs: Seq<DocView>,
    i: int,
    new_id: DocId,
    project_id: ProjectId,
    owner: Seq<char>,
    now: i128,
)
    requires
        0 <= i <= docs.len(),
        forall|j: int| 0 <= j < i ==> (#[trigger] docs[j]).title != "orchestrator:failures"@,
        i < docs.len() ==> docs[i].title == "orchestrator:failures"@,
    ensures
        i < docs.len() ==> tracker_doc(docs, new_id, project_id, owner, now) == docs[i],
        i == docs.len() ==> ({
            let d = tracker_doc(docs, new_id, project_id, owner, now);
            &&& d.id == new_id
            &&& d.title == "orchestrator:failures"@
            &&& d.project_id == project_id
            &&& d.user_id == owner
            &&& d.doc_type == DocType::Note
            &&& d.tags == seq!["orchestrator_meta"@]
            &&& d.created_at == now
        }),
{
    lemma_tracker_index(docs);
    let k = tracker_index(docs);
    if k < i {
        assert(docs[k].title != "orchestrator:failures"@);
    }
    if i < k {
        assert(docs[i].title != FAILURE_TRACKER_TITLE@);
    }
}

} // verus!
