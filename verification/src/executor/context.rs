//! The context of a call of the model: what is known from earlier threads.

use vstd::prelude::*;

use crate::text::{
    chars_of, first_chars, join, joined, occurs_at, parts_stand_in_their_order, start_of,
    starts_go_up, take_chars, texts,
};
use crate::types::doc::{doc_views, DocType, DocView, MemoryDoc};
use crate::types::message::{
    clone_messages, message_views, plain_message, MessageRole, MessageView, ThreadMessage,
};

verus! {

/// How many documents are shown to the model at most.
pub const MAX_CONTEXT_DOCS: usize = 5;

/// How many characters of a document are shown.
pub const DOC_PREVIEW_LEN: usize = 500;

/// How the type of a document is shown.
pub open spec fn type_label(t: DocType) -> Seq<char> {
    match t {
        DocType::Lesson => "LESSON"@,
        DocType::Spec => "MISSING CAPABILITY"@,
        DocType::Issue => "KNOWN ISSUE"@,
        DocType::Summary => "CONTEXT"@,
        DocType::Note => "NOTE"@,
        DocType::Skill => "SKILL"@,
        DocType::Plan => "PLAN"@,
    }
}

/// A document, as the model is shown it.
pub open spec fn shown_doc(d: DocView) -> Seq<char> {
    "### ["@ + type_label(d.doc_type) + "] "@ + d.title + "\n"@ + first_chars(
        d.content,
        DOC_PREVIEW_LEN as nat,
    ) + (if d.content.len() > DOC_PREVIEW_LEN {
        "..."@
    } else {
        ""@
    }) + "\n"@
}

/// Documents, as the model is shown them.
pub open spec fn prior_knowledge(docs: Seq<DocView>) -> Seq<char> {
    joined(
        seq!["## Prior Knowledge (from completed threads)\n"@] + docs.map_values(
            |d: DocView| shown_doc(d),
        ),
        "\n"@,
    )
}

fn label_of(t: DocType) -> (r: &'static str)
    ensures
        r@ == type_label(t),
{
    match t {
        DocType::Lesson => "LESSON",
        DocType::Spec => "MISSING CAPABILITY",
        DocType::Issue => "KNOWN ISSUE",
        DocType::Summary => "CONTEXT",
        DocType::Note => "NOTE",
        DocType::Skill => "SKILL",
        DocType::Plan => "PLAN",
    }
}

fn show_doc(d: &MemoryDoc) -> (r: String)
    ensures
        r@ == shown_doc(d@),
{
    let mut s = "### [".to_owned();
    s.append(label_of(d.doc_type));
    s.append("] ");
    s.append(d.title.as_str());
    s.append("\n");
    s.append(take_chars(d.content.as_str(), DOC_PREVIEW_LEN).as_str());
    if chars_of(d.content.as_str()).len() > DOC_PREVIEW_LEN {
        s.append("...");
    } else {
        s.append("");
    }
    s.append("\n");
    s
}

/// Shows documents to the model.
pub fn format_docs_as_context(docs: &[MemoryDoc]) -> (r: String)
    ensures
        r@ == prior_knowledge(doc_views(docs@)),
{
    let ghost all = doc_views(docs@).map_values(|d: DocView| shown_doc(d));
    let ghost head = seq!["## Prior Knowledge (from completed threads)\n"@];
    let mut parts: Vec<String> = Vec::new();
    parts.push("## Prior Knowledge (from completed threads)\n".to_owned());
    let mut i: usize = 0;
    assert(texts(parts@) =~= head + all.take(0));
    while i < docs.len()
        invariant
            i <= docs@.len(),
            all == doc_views(docs@).map_values(|d: DocView| shown_doc(d)),
            texts(parts@) == head + all.take(i as int),
        decreases docs@.len() - i,
    {
        let ghost before = parts@;
        parts.push(show_doc(&docs[i]));
        assert(texts(parts@) =~= texts(before).push(all[i as int]));
        assert(all.take(i + 1) =~= all.take(i as int).push(all[i as int]));
        assert((head + all.take(i as int)).push(all[i as int]) =~= head + all.take(i + 1));
        i = i + 1;
    }
    assert(all.take(all.len() as int) =~= all);
    join(&parts, "\n")
}

/// The messages of a call of the model: what is known stands at the end of the first
/// message where that is of the system, and in a message of the system before all
/// others where it is not.
pub open spec fn step_context(m: Seq<MessageView>, docs: Seq<DocView>) -> Seq<MessageView> {
    if docs.len() == 0 {
        m
    } else if m.len() > 0 && m[0].role == MessageRole::System {
        m.update(
            0,
            MessageView { content: m[0].content + "\n\n"@ + prior_knowledge(docs), ..m[0] },
        )
    } else {
        seq![plain_message(MessageRole::System, prior_knowledge(docs))] + m
    }
}

/// Makes the messages of a call of the model from a transcript and the documents that
/// were found for it.
pub fn build_step_context(messages: &Vec<ThreadMessage>, docs: &Vec<MemoryDoc>) -> (r: Vec<
    ThreadMessage,
>)
    ensures
        message_views(r@) == step_context(message_views(messages@), doc_views(docs@)),
{
    let mut out = clone_messages(messages);
    let ghost before = out@;
    assert(message_views(before).len() == before.len());
    if docs.len() > 0 {
        let section = format_docs_as_context(docs.as_slice());
        if out.len() > 0 && out[0].role == MessageRole::System {
            let mut first = out[0].clone();
            first.content.append("\n\n");
            first.content.append(section.as_str());
            let ghost v = first@;
            out.set(0, first);
            assert(message_views(out@) =~= message_views(before).update(0, v));
        } else {
            out.insert(0, ThreadMessage::system(section.as_str()));
            assert(message_views(out@) =~= seq![
                plain_message(MessageRole::System, section@),
            ] + message_views(before));
        }
    }
    out
}

/// The transcript itself is kept: with documents there is at most one message more, at
/// the front, and every message after the first is as it was.
pub proof fn context_keeps_the_transcript(m: Seq<MessageView>, docs: Seq<DocView>, i: int)
    requires
        0 < i < m.len(),
    ensures
        ({
            let c = step_context(m, docs);
            &&& m.len() <= c.len() <= m.len() + 1
            &&& c[c.len() - m.len() + i] == m[i]
        }),
{
}

proof fn lemma_occurs_after(head: Seq<char>, s: Seq<char>, p: Seq<char>, at: int)
    requires
        occurs_at(s, p, at),
    ensures
        occurs_at(head + s, p, head.len() + at),
{
    assert((head + s).subrange(head.len() + at, head.len() + at + p.len()) =~= s.subrange(
        at,
        at + p.len(),
    ));
}

/// Every document reaches the model: the first message of the call is of the system, keeps
/// the instructions that it had, and holds for each document a section with the label of
/// its type, its title and the first characters of its content, with dots where there are
/// more. The sections stand in the order of the documents.
pub proof fn every_document_reaches_the_model(
    m: Seq<MessageView>,
    docs: Seq<DocView>,
    i: int,
    j: int,
) -> (at: (int, int))
    requires
        0 <= i <= j < docs.len(),
    ensures
        ({
            let c = step_context(m, docs);
            let section = |d: DocView|
                {
                    let label = match d.doc_type {
                        DocType::Lesson => "LESSON"@,
                        DocType::Spec => "MISSING CAPABILITY"@,
                        DocType::Issue => "KNOWN ISSUE"@,
                        DocType::Summary => "CONTEXT"@,
                        DocType::Note => "NOTE"@,
                        DocType::Skill => "SKILL"@,
                        DocType::Plan => "PLAN"@,
                    };
                    "### ["@ + label + "] "@ + d.title + "\n"@ + (if d.content.len() <= 500 {
                        d.content + ""@
                    } else {
                        d.content.take(500) + "..."@
                    }) + "\n"@
                };
            &&& c.len() > 0
            &&& c[0].role == MessageRole::System
            &&& (m.len() > 0 && m[0].role == MessageRole::System) ==> m[0].content
                =~= c[0].content.take(m[0].content.len() as int)
            &&& occurs_at(c[0].content, section(docs[i]), at.0)
            &&& occurs_at(c[0].content, section(docs[j]), at.1)
            &&& i < j ==> at.0 + section(docs[i]).len() <= at.1
        }),
{
    let parts = seq!["## Prior Knowledge (from completed threads)\n"@] + docs.map_values(
        |d: DocView| shown_doc(d),
    );
    let c = step_context(m, docs);
    let known = prior_knowledge(docs);
    parts_stand_in_their_order(parts, "\n"@, i + 1);
    parts_stand_in_their_order(parts, "\n"@, j + 1);
    let a = start_of(parts, "\n"@, i + 1);
    let b = start_of(parts, "\n"@, j + 1);
    assert(parts[i + 1] == shown_doc(docs[i]));
    assert(parts[j + 1] == shown_doc(docs[j]));
    lemma_shown_doc(docs[i]);
    lemma_shown_doc(docs[j]);
    if i < j {
        starts_go_up(parts, "\n"@, i + 1, j + 1);
    }
    if m.len() > 0 && m[0].role == MessageRole::System {
        let head = m[0].content + "\n\n"@;
        assert(c[0].content == head + known);
        assert(c[0].content.take(m[0].content.len() as int) =~= m[0].content);
        lemma_occurs_after(head, known, shown_doc(docs[i]), a);
        lemma_occurs_after(head, known, shown_doc(docs[j]), b);
        (head.len() + a, head.len() + b)
    } else {
        assert(c[0].content == known);
        (a, b)
    }
}

proof fn lemma_shown_doc(d: DocView)
    ensures
        shown_doc(d) == "### ["@ + type_label(d.doc_type) + "] "@ + d.title + "\n"@ + (
        if d.content.len() <= 500 {
            d.content + ""@
        } else {
            d.content.take(500) + "..."@
        }) + "\n"@,
{
    let head = "### ["@ + type_label(d.doc_type) + "] "@ + d.title + "\n"@;
    if d.content.len() <= 500 {
        assert(head + d.content + ""@ =~= head + (d.content + ""@));
    } else {
        assert(head + d.content.take(500) + "..."@ =~= head + (d.content.take(500) + "..."@));
    }
}

/// Without documents the transcript is handed on as it is; with them the messages after
/// the first are, and the first is only added to.
pub proof fn nothing_is_taken_from_the_transcript(m: Seq<MessageView>, docs: Seq<DocView>)
    ensures
        docs.len() == 0 ==> step_context(m, docs) == m,
        docs.len() > 0 && m.len() > 0 && m[0].role == MessageRole::System ==> ({
            let c = step_context(m, docs);
            &&& c.len() == m.len()
            &&& c.skip(1) == m.skip(1)
            &&& c[0] == (MessageView { content: c[0].content, ..m[0] })
        }),
        docs.len() > 0 && (m.len() == 0 || m[0].role != MessageRole::System) ==> step_context(
            m,
            docs,
        ).skip(1) == m,
{
    let c = step_context(m, docs);
    if docs.len() > 0 {
        if m.len() > 0 && m[0].role == MessageRole::System {
            assert(c.skip(1) =~= m.skip(1));
        } else {
            assert(c.skip(1) =~= m);
        }
    }
}

} // verus!
