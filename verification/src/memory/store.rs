//! Documents of a project.

use vstd::prelude::*;

use crate::types::doc::{doc_views, new_doc, DocType, DocView, MemoryDoc};
use crate::types::ids::{DocId, ProjectId, ThreadId};

verus! {

/// The documents of a project, as they are made and listed. Keeping them is left to the
/// caller.
#[derive(Debug, Clone, Copy, PartialEq, Eq, Structural)]
pub struct MemoryStore;

/// The documents of one type, or all.
pub open spec fn of_type(docs: Seq<DocView>, t: Option<DocType>) -> Seq<DocView> {
    match t {
        Some(t) => docs.filter(|d: DocView| d.doc_type == t),
        None => docs,
    }
}

impl MemoryStore {
    /// Access to documents.
    pub fn new() -> (r: MemoryStore)
        ensures
            r == MemoryStore,
    {
        MemoryStore
    }

    /// Makes a document, to be kept.
    pub fn create_doc(
        &self,
        id: DocId,
        now: i128,
        project_id: ProjectId,
        user_id: &str,
        doc_type: DocType,
        title: &str,
        content: &str,
    ) -> (r: MemoryDoc)
        ensures
            r@ == new_doc(id, now, project_id, user_id@, doc_type, title@, content@),
    {
        MemoryDoc::new(id, now, project_id, user_id, doc_type, title, content)
    }

    /// Makes a document that comes from a thread, to be kept.
    pub fn create_doc_from_thread(
        &self,
        id: DocId,
        now: i128,
        project_id: ProjectId,
        user_id: &str,
        doc_type: DocType,
        title: &str,
        content: &str,
        source_thread_id: ThreadId,
    ) -> (r: MemoryDoc)
        ensures
            r@ == (DocView {
                source_thread_id: Some(source_thread_id),
                ..new_doc(id, now, project_id, user_id@, doc_type, title@, content@)
            }),
    {
        MemoryDoc::new(id, now, project_id, user_id, doc_type, title, content).with_source_thread(
            source_thread_id,
        )
    }

    /// Lists the documents of one type, or all, in their order.
    pub fn list_docs(&self, all: Vec<MemoryDoc>, doc_type: Option<DocType>) -> (r: Vec<MemoryDoc>)
        ensures
            doc_views(r@) == of_type(doc_views(all@), doc_type),
    {
        let wanted = match doc_type {
            Some(t) => t,
            None => {
                return all;
            },
        };
        let ghost views = doc_views(all@);
        let ghost p = |d: DocView| d.doc_type == wanted;
        let n = all.len();
        let mut rest = all;
        let mut out: Vec<MemoryDoc> = Vec::new();
        let mut i: usize = 0;
        reveal(Seq::filter);
        assert(views.take(0) =~= Seq::<DocView>::empty());
        assert(doc_views(out@) =~= views.take(0).filter(p));
        assert(doc_views(rest@) =~= views.skip(0));
        while i < n
            invariant
                i <= n,
                n == views.len(),
                rest@.len() == n - i,
                doc_views(rest@) == views.skip(i as int),
                p == (|d: DocView| d.doc_type == wanted),
                doc_views(out@) == views.take(i as int).filter(p),
            decreases n - i,
        {
            reveal(Seq::filter);
            assert(views.take(i + 1).drop_last() =~= views.take(i as int));
            assert(doc_views(rest@)[0] == rest@[0]@);
            assert(views.skip(i as int)[0] == views[i as int]);
            let ghost left = rest@;
            let ghost before = out@;
            let d = rest.remove(0);
            assert(doc_views(rest@) =~= views.skip(i + 1)) by {
                assert forall|k: int| 0 <= k < rest@.len() implies doc_views(rest@)[k]
                    == views.skip(i + 1)[k] by {
                    assert(rest@[k] == left[k + 1]);
                    assert(doc_views(left)[k + 1] == views.skip(i as int)[k + 1]);
                }
            }
            if d.doc_type == wanted {
                let ghost v = d@;
                out.push(d);
                assert(doc_views(out@) =~= doc_views(before).push(v));
            }
            i = i + 1;
        }
        assert(views.take(views.len() as int) =~= views);
        out
    }
}

/// The documents of a type are all of that type, and no others, in their order; without a
/// type they are all documents.
pub proof fn documents_of_a_type_are_listed(docs: Seq<DocView>, t: DocType)
    ensures
        forall|i: int|
            0 <= i < docs.len() && (#[trigger] docs[i]).doc_type == t ==> of_type(
                docs,
                Some(t),
            ).contains(docs[i]),
        forall|k: int|
            0 <= k < of_type(docs, Some(t)).len() ==> (#[trigger] of_type(docs, Some(t))[k]).doc_type
                == t && docs.contains(of_type(docs, Some(t))[k]),
        (forall|i: int| 0 <= i < docs.len() ==> (#[trigger] docs[i]).doc_type == t) ==> of_type(
            docs,
            Some(t),
        ) == docs,
        of_type(docs, None) == docs,
    decreases docs.len(),
{
    reveal(Seq::filter);
    let p = |d: DocView| d.doc_type == t;
    let f = docs.filter(p);
    assert forall|i: int| 0 <= i < docs.len() && (#[trigger] docs[i]).doc_type
        == t implies f.contains(docs[i]) by {
        docs.lemma_filter_contains(p, i);
    }
    if docs.len() > 0 {
        let r = docs.drop_last();
        documents_of_a_type_are_listed(r, t);
        let g = r.filter(p);
        assert forall|k: int| 0 <= k < f.len() implies (#[trigger] f[k]).doc_type == t
            && docs.contains(f[k]) by {
            if k < g.len() {
                assert(f[k] == g[k]);
                assert(of_type(r, Some(t))[k].doc_type == t);
                let i = choose|i: int| 0 <= i < r.len() && r[i] == g[k];
                assert(docs[i] == f[k]);
            } else {
                assert(docs[docs.len() - 1] == f[k]);
            }
        }
        if forall|i: int| 0 <= i < docs.len() ==> (#[trigger] docs[i]).doc_type == t {
            assert forall|i: int| 0 <= i < r.len() implies (#[trigger] r[i]).doc_type == t by {
                assert(r[i] == docs[i]);
            }
            assert(docs[docs.len() - 1].doc_type == t);
            assert(r.push(docs.last()) =~= docs);
        }
    }
}

} // verus!
