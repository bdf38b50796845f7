//! Memory documents: what the engine keeps beyond a thread.

use vstd::prelude::*;

use crate::json::{Json, JsonView};
use crate::text::{clone_strings, texts};
use crate::types::ids::{DocId, ProjectId, ThreadId};

verus! {

/// What a document is.
#[derive(Debug, Clone, Copy, PartialEq, Eq, Structural)]
pub enum DocType {
    Summary,
    Lesson,
    Issue,
    Spec,
    Note,
    Skill,
    Plan,
}

/// The name of a document type.
pub open spec fn doc_type_text(t: DocType) -> Seq<char> {
    match t {
        DocType::Summary => "Summary"@,
        DocType::Lesson => "Lesson"@,
        DocType::Issue => "Issue"@,
        DocType::Spec => "Spec"@,
        DocType::Note => "Note"@,
        DocType::Skill => "Skill"@,
        DocType::Plan => "Plan"@,
    }
}

impl DocType {
    /// The name of the document type.
    pub fn name(&self) -> (r: &'static str)
        ensures
            r@ == doc_type_text(*self),
    {
        match self {
            DocType::Summary => "Summary",
            DocType::Lesson => "Lesson",
            DocType::Issue => "Issue",
            DocType::Spec => "Spec",
            DocType::Note => "Note",
            DocType::Skill => "Skill",
            DocType::Plan => "Plan",
        }
    }
}

/// A memory document.
#[derive(Debug, PartialEq, Eq)]
pub struct MemoryDoc {
    pub id: DocId,
    pub project_id: ProjectId,
    pub user_id: String,
    pub doc_type: DocType,
    pub title: String,
    pub content: String,
    pub tags: Vec<String>,
    pub metadata: Json,
    pub source_thread_id: Option<ThreadId>,
    pub created_at: i128,
    pub updated_at: i128,
}

/// What a document holds.
pub struct DocView {
    pub id: DocId,
    pub project_id: ProjectId,
    pub user_id: Seq<char>,
    pub doc_type: DocType,
    pub title: Seq<char>,
    pub content: Seq<char>,
    pub tags: Seq<Seq<char>>,
    pub metadata: JsonView,
    pub source_thread_id: Option<ThreadId>,
    pub created_at: i128,
    pub updated_at: i128,
}

impl View for MemoryDoc {
    type V = DocView;

    open spec fn view(&self) -> DocView {
        DocView {
            id: self.id,
            project_id: self.project_id,
            user_id: self.user_id@,
            doc_type: self.doc_type,
            title: self.title@,
            content: self.content@,
            tags: texts(self.tags@),
            metadata: self.metadata@,
            source_thread_id: self.source_thread_id,
            created_at: self.created_at,
            updated_at: self.updated_at,
        }
    }
}

impl Clone for MemoryDoc {
    fn clone(&self) -> (r: MemoryDoc)
        ensures
            r@ == self@,
    {
        MemoryDoc {
            id: self.id,
            project_id: self.project_id,
            user_id: self.user_id.clone(),
            doc_type: self.doc_type,
            title: self.title.clone(),
            content: self.content.clone(),
            tags: clone_strings(&self.tags),
            metadata: self.metadata.clone(),
            source_thread_id: self.source_thread_id,
            created_at: self.created_at,
            updated_at: self.updated_at,
        }
    }
}

/// A new document, without tags and metadata.
pub open spec fn new_doc(
    id: DocId,
    now: i128,
    project_id: ProjectId,
    user_id: Seq<char>,
    doc_type: DocType,
    title: Seq<char>,
    content: Seq<char>,
) -> DocView {
    DocView {
        id,
        project_id,
        user_id,
        doc_type,
        title,
        content,
        tags: Seq::empty(),
        metadata: JsonView::Object(Seq::empty()),
        source_thread_id: None,
        created_at: now,
        updated_at: now,
    }
}

impl MemoryDoc {
    /// A new document, without tags and metadata.
    pub fn new(
        id: DocId,
        now: i128,
        project_id: ProjectId,
        user_id: &str,
        doc_type: DocType,
        title: &str,
        content: &str,
    ) -> (r: MemoryDoc)
        ensures
            r@ == new_doc(id, now, project_id, user_id@, doc_type, title@, content@),
    {
        let none: Vec<(String, Json)> = Vec::new();
        proof {
            crate::json::lemma_object_view(none);
            assert(crate::json::fields(none@) =~= Seq::<(Seq<char>, JsonView)>::empty());
        }
        let tags: Vec<String> = Vec::new();
        assert(texts(tags@) =~= Seq::<Seq<char>>::empty());
        MemoryDoc {
            id,
            project_id,
            user_id: user_id.to_owned(),
            doc_type,
            title: title.to_owned(),
            content: content.to_owned(),
            tags,
            metadata: Json::Object(none),
            source_thread_id: None,
            created_at: now,
            updated_at: now,
        }
    }

    /// The document with these tags.
    pub fn with_tags(self, tags: Vec<String>) -> (r: MemoryDoc)
        ensures
            r@ == (DocView { tags: texts(tags@), ..self@ }),
    {
        let mut doc = self;
        doc.tags = tags;
        doc
    }

    /// The document with the thread that it comes from.
    pub fn with_source_thread(self, thread_id: ThreadId) -> (r: MemoryDoc)
        ensures
            r@ == (DocView { source_thread_id: Some(thread_id), ..self@ }),
    {
        let mut doc = self;
        doc.source_thread_id = Some(thread_id);
        doc
    }
}

/// What a list of documents holds.
pub open spec fn doc_views(v: Seq<MemoryDoc>) -> Seq<DocView> {
    v.map_values(|d: MemoryDoc| d@)
}

/// A new document holds what it was made of, and nothing else yet.
pub proof fn new_documents_hold_what_they_were_given(
    id: DocId,
    now: i128,
    project_id: ProjectId,
    user_id: Seq<char>,
    doc_type: DocType,
    title: Seq<char>,
    content: Seq<char>,
)
    ensures
        ({
            let d = new_doc(id, now, project_id, user_id, doc_type, title, content);
            &&& d.id == id
            &&& d.project_id == project_id
            &&& d.user_id == user_id
            &&& d.doc_type == doc_type
            &&& d.title == title
            &&& d.content == content
            &&& d.created_at == now
            &&& d.updated_at == now
            &&& d.tags.len() == 0
            &&& d.source_thread_id is None
        }),
{
}

} // verus!
