//! Suspense boundaries: a subtree with a fallback to show while its
//! asynchronous reads are outstanding.
//!
//! On the server a boundary is probed once with a context of its own. When
//! the probe read nothing unresolved the subtree is rendered in place; when
//! it did, the fallback goes into the document inside a container and the
//! boundary is registered for streaming. On the client the same boundary
//! shows the subtree once its context is ready.

use crate::document::PartView;
use crate::fragment::FragmentId;
use crate::stream::{RenderPass, RenderPassView};
use crate::suspense::SuspenseContext;
use vstd::prelude::*;

verus! {

/// A subtree that can be rendered to markup.
///
/// Rendering reports every asynchronous read it meets that has not resolved
/// yet to the context it is handed, and to nothing else: a probe must have no
/// other effect, because a suspended subtree is rendered again later.
pub trait Render {
    /// Whether `markup` is markup that rendering this subtree can produce.
    /// Unless an implementation says more, any markup can come of it.
    open spec fn may_render(&self, markup: Seq<char>) -> bool {
        true
    }

    /// Renders the subtree, tracking its unresolved reads in `reads`.
    fn render(&self, reads: &mut SuspenseContext) -> (markup: String)
        ensures
            self.may_render(markup@),
    ;
}

/// Plain text is a subtree: it reads nothing and renders as itself.
impl Render for String {
    open spec fn may_render(&self, markup: Seq<char>) -> bool {
        markup == self@
    }

    fn render(&self, reads: &mut SuspenseContext) -> (markup: String)
        ensures
            final(reads).history() == old(reads).history(),
    {
        self.clone()
    }
}

/// The properties of a suspense boundary.
pub struct SuspenseProps<R> {
    /// The markup shown while the subtree waits for its reads.
    pub fallback: String,
    /// The subtrees under the boundary; the first one is rendered.
    pub children: Vec<R>,
}

/// What a boundary did to the render pass: `id` is `None` when the boundary
/// was ready and one markup part that `child` can render entered the
/// document, nothing else; `id` is the new fragment identifier when the
/// boundary was suspended and `fallback` entered the document in a container
/// under that identifier, with at least one read outstanding.
pub open spec fn boundary_rendered<R: Render>(
    child: R,
    fallback: Seq<char>,
    before: RenderPassView,
    after: RenderPassView,
    id: Option<FragmentId>,
) -> bool {
    match id {
        None => {
            &&& after.parts.len() > 0
            &&& after.parts.last() matches PartView::Markup(markup)
            &&& child.may_render(markup)
            &&& after == before.with_markup(markup)
        },
        Some(id) => {
            &&& id == FragmentId { document: before.document, order: before.pending.len() as u64 }
            &&& after.pending.len() > 0
            &&& after.pending.last() > 0
            &&& after == before.suspended(fallback, after.pending.last())
        },
    }
}

/// Probe purity: when rendering a subtree is determined by its inputs, a
/// boundary that turns out ready leaves the document exactly as rendering
/// the subtree once, directly, would have left it. The probe leaves no trace.
pub proof fn lemma_probe_leaves_no_trace<R: Render>(
    child: R,
    direct: Seq<char>,
    fallback: Seq<char>,
    before: RenderPassView,
    after: RenderPassView,
)
    requires
        boundary_rendered(child, fallback, before, after, None),
        forall|markup: Seq<char>| child.may_render(markup) ==> markup == direct,
    ensures
        after == before.with_markup(direct),
        after.pending == before.pending,
{
}

/// Renders a suspense boundary into the render pass.
///
/// The first child is probed under a fresh context, so the reads it meets
/// count for this boundary and for no enclosing one. Returns `None` when the
/// boundary was ready, and the fragment identifier under which it was
/// registered when it was suspended.
#[allow(non_snake_case)]
pub fn Suspense<R: Render>(pass: &mut RenderPass, props: SuspenseProps<R>) -> (id: Option<
    FragmentId,
>)
    requires
        old(pass)@.wf(),
        props.children.len() > 0,
    ensures
        final(pass)@.wf(),
        boundary_rendered(props.children[0], props.fallback@, old(pass)@, final(pass)@, id),
{
    let SuspenseProps { fallback, mut children } = props;
    let child = children.swap_remove(0);
    render_suspense(pass, SuspenseContext::new(), fallback, child)
}

/// Probes `child` under `context`, then settles the boundary: a ready one is
/// rendered again, for real, into the document; a pending one is registered
/// with its fallback.
pub fn render_suspense<R: Render>(
    pass: &mut RenderPass,
    context: SuspenseContext,
    fallback: String,
    child: R,
) -> (id: Option<FragmentId>)
    requires
        old(pass)@.wf(),
    ensures
        final(pass)@.wf(),
        boundary_rendered(child, fallback@, old(pass)@, final(pass)@, id),
{
    let mut context = context;
    let _discarded = child.render(&mut context);
    let id = pass.settle(context, fallback);
    if id.is_none() {
        let mut unused = SuspenseContext::new();
        let markup = child.render(&mut unused);
        pass.push_markup(markup);
    }
    id
}

/// Renders a boundary whose context lives on, as on the client: the subtree
/// when the context is ready or a transition is pending, the fallback
/// otherwise. The fallback is shown without rendering the subtree.
pub fn render_resumed<R: Render>(
    context: &mut SuspenseContext,
    transition_pending: bool,
    fallback: &str,
    child: &R,
) -> (markup: String)
    ensures
        old(context).pending_count() == 0 || transition_pending ==> child.may_render(markup@),
        !(old(context).pending_count() == 0 || transition_pending) ==> markup@ == fallback@
            && final(context).history() == old(context).history(),
{
    if context.is_ready() || transition_pending {
        child.render(context)
    } else {
        fallback.to_owned()
    }
}

} // verus!
