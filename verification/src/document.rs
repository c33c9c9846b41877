//! The document as both sides see it: static markup interleaved with the
//! fallback containers of pending boundaries.
//!
//! The server assembles such a document during the render pass and sends its
//! markup first. The client holds the same structure and swaps the content of
//! a container for the resolved markup when the matching fragment arrives.

use crate::fragment::{container_markup, wrap_fallback};
use crate::text::same_text;
use vstd::prelude::*;

verus! {

/// One stretch of a document.
#[derive(Debug)]
pub enum Part {
    /// Markup that no boundary will replace.
    Markup(String),
    /// The container of a boundary: its key and the markup it shows now.
    Container { key: String, content: String },
}

/// What a [`Part`] holds, as plain text.
pub enum PartView {
    Markup(Seq<char>),
    Container { key: Seq<char>, content: Seq<char> },
}

impl View for Part {
    type V = PartView;

    open spec fn view(&self) -> PartView {
        match self {
            Part::Markup(text) => PartView::Markup(text@),
            Part::Container { key, content } => PartView::Container {
                key: key@,
                content: content@,
            },
        }
    }
}

/// The markup of one part.
pub open spec fn part_markup(part: PartView) -> Seq<char> {
    match part {
        PartView::Markup(text) => text,
        PartView::Container { key, content } => container_markup(key, content),
    }
}

/// The markup of a document: the markup of its parts, in order.
pub open spec fn document_markup(parts: Seq<PartView>) -> Seq<char>
    decreases parts.len(),
{
    if parts.len() == 0 {
        Seq::empty()
    } else {
        document_markup(parts.drop_last()) + part_markup(parts.last())
    }
}

/// The keys of the containers of a document, in document order.
pub open spec fn container_keys(parts: Seq<PartView>) -> Seq<Seq<char>>
    decreases parts.len(),
{
    if parts.len() == 0 {
        Seq::empty()
    } else {
        match parts.last() {
            PartView::Container { key, .. } => container_keys(parts.drop_last()).push(key),
            PartView::Markup(_) => container_keys(parts.drop_last()),
        }
    }
}

/// Whether `part` is the container that carries `key`.
pub open spec fn carries(part: PartView, key: Seq<char>) -> bool {
    part matches PartView::Container { key: k, .. } && k == key
}

/// How many containers of the document carry `key`.
pub open spec fn occurrences(parts: Seq<PartView>, key: Seq<char>) -> nat
    decreases parts.len(),
{
    if parts.len() == 0 {
        0
    } else {
        occurrences(parts.drop_last(), key) + if carries(parts.last(), key) {
            1nat
        } else {
            0nat
        }
    }
}

/// One part after the fragment `key` arrived with `markup`.
pub open spec fn part_resumed(part: PartView, key: Seq<char>, markup: Seq<char>) -> PartView {
    if carries(part, key) {
        PartView::Container { key, content: markup }
    } else {
        part
    }
}

/// The document after the fragment `key` arrived with `markup`: every
/// container that carries the key shows the markup, all else is untouched.
pub open spec fn resumed(parts: Seq<PartView>, key: Seq<char>, markup: Seq<char>) -> Seq<
    PartView,
> {
    Seq::new(parts.len(), |i: int| part_resumed(parts[i], key, markup))
}

/// A fragment whose key no container carries changes nothing.
pub proof fn lemma_unmatched_fragment_is_dropped(
    parts: Seq<PartView>,
    key: Seq<char>,
    markup: Seq<char>,
)
    requires
        occurrences(parts, key) == 0,
    ensures
        resumed(parts, key, markup) == parts,
    decreases parts.len(),
{
    if parts.len() > 0 {
        let front = parts.drop_last();
        lemma_unmatched_fragment_is_dropped(front, key, markup);
        assert forall|i: int| 0 <= i < parts.len() implies resumed(parts, key, markup)[i]
            == parts[i] by {
            if i < front.len() {
                assert(resumed(front, key, markup)[i] == front[i]);
            }
        }
    }
    assert(resumed(parts, key, markup) =~= parts);
}

/// Applying a fragment keeps the structure around it: the same number of
/// parts, the same containers under the same keys, the same static markup.
pub proof fn lemma_resumption_keeps_structure(
    parts: Seq<PartView>,
    key: Seq<char>,
    markup: Seq<char>,
)
    ensures
        resumed(parts, key, markup).len() == parts.len(),
        container_keys(resumed(parts, key, markup)) == container_keys(parts),
        forall|i: int|
            0 <= i < parts.len() && parts[i] is Markup ==> #[trigger] resumed(
                parts,
                key,
                markup,
            )[i] == parts[i],
    decreases parts.len(),
{
    if parts.len() > 0 {
        let front = parts.drop_last();
        lemma_resumption_keeps_structure(front, key, markup);
        assert(resumed(parts, key, markup).drop_last() =~= resumed(front, key, markup));
    }
}

/// The keys of a document are those of its front followed by those of its
/// last part.
pub proof fn lemma_keys_of_longer_document(parts: Seq<PartView>, part: PartView)
    ensures
        container_keys(parts.push(part)) == match part {
            PartView::Container { key, .. } => container_keys(parts).push(key),
            PartView::Markup(_) => container_keys(parts),
        },
{
    assert(parts.push(part).drop_last() =~= parts);
}

/// A document: markup interleaved with the containers of pending boundaries.
#[derive(Debug)]
pub struct Document {
    pub parts: Vec<Part>,
}

impl View for Document {
    type V = Seq<PartView>;

    open spec fn view(&self) -> Seq<PartView> {
        self.parts@.map_values(|part: Part| part@)
    }
}

impl Document {
    /// The empty document.
    pub fn new() -> (document: Self)
        ensures
            document@ == Seq::<PartView>::empty(),
    {
        let document = Document { parts: Vec::new() };
        assert(document@ =~= Seq::<PartView>::empty());
        document
    }

    /// Appends static markup.
    pub fn push_markup(&mut self, text: String)
        ensures
            final(self)@ == old(self)@.push(PartView::Markup(text@)),
    {
        self.parts.push(Part::Markup(text));
        assert(self@ =~= old(self)@.push(PartView::Markup(text@)));
    }

    /// Appends the container of a boundary, showing `content` for now.
    pub fn push_container(&mut self, key: String, content: String)
        ensures
            final(self)@ == old(self)@.push(PartView::Container { key: key@, content: content@ }),
    {
        self.parts.push(Part::Container { key, content });
        assert(self@ =~= old(self)@.push(PartView::Container { key: key@, content: content@ }));
    }

    /// The number of parts.
    pub fn len(&self) -> (len: usize)
        ensures
            len == self@.len(),
    {
        self.parts.len()
    }

    /// Applies a resolved fragment: every container that carries `key` now
    /// shows `markup`. Returns how many containers that were; with none, the
    /// fragment is dropped and the document stays as it is.
    pub fn apply(&mut self, key: &str, markup: &str) -> (replaced: usize)
        ensures
            final(self)@ == resumed(old(self)@, key@, markup@),
            replaced == occurrences(old(self)@, key@),
    {
        let mut replaced: usize = 0;
        let mut i: usize = 0;
        while i < self.parts.len()
            invariant
                i <= self.parts.len(),
                self.parts.len() == old(self).parts.len(),
                replaced == occurrences(old(self)@.take(i as int), key@),
                replaced <= i,
                forall|j: int| 0 <= j < i ==> (#[trigger] self.parts[j])@ == part_resumed(old(self)@[j], key@, markup@),
                forall|j: int| i <= j < self.parts.len() ==> #[trigger] self.parts[j] == old(self).parts[j],
            decreases self.parts.len() - i,
        {
            let hit = match &self.parts[i] {
                Part::Container { key: k, .. } => same_text(k.as_str(), key),
                Part::Markup(_) => false,
            };
            proof {
                assert(old(self)@.take(i as int + 1).drop_last() =~= old(self)@.take(i as int));
                assert(old(self)@[i as int] == old(self).parts[i as int]@);
                assert(hit == carries(old(self)@[i as int], key@));
            }
            if hit {
                self.parts.set(i, Part::Container { key: key.to_owned(), content: markup.to_owned() });
                replaced = replaced + 1;
            }
            i = i + 1;
        }
        proof {
            assert(old(self)@.take(i as int) =~= old(self)@);
            assert(self@ =~= resumed(old(self)@, key@, markup@));
        }
        replaced
    }

    /// Renders the document as markup.
    pub fn to_markup(&self) -> (markup: String)
        ensures
            markup@ == document_markup(self@),
    {
        let mut markup = String::new();
        let mut i: usize = 0;
        while i < self.parts.len()
            invariant
                i <= self.parts.len(),
                markup@ == document_markup(self@.take(i as int)),
            decreases self.parts.len() - i,
        {
            proof {
                assert(self@.take(i as int + 1).drop_last() =~= self@.take(i as int));
                assert(self@.take(i as int + 1).last() == self.parts[i as int]@);
            }
            match &self.parts[i] {
                Part::Markup(text) => {
                    markup.append(text.as_str());
                },
                Part::Container { key, content } => {
                    let wrapped = wrap_fallback(key.as_str(), content.as_str());
                    markup.append(wrapped.as_str());
                },
            }
            i = i + 1;
        }
        proof {
            assert(self@.take(i as int) =~= self@);
        }
        markup
    }
}

} // verus!
