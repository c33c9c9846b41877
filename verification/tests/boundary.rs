use suspense_core::boundary::{render_resumed, render_suspense, Render, Suspense, SuspenseProps};
use suspense_core::fragment::FragmentId;
use suspense_core::stream::{BoundaryState, RenderPass, Resolution};
use suspense_core::suspense::SuspenseContext;

/// A subtree that renders fixed markup and meets a fixed number of unresolved reads.
struct Leaf {
    markup: &'static str,
    unresolved: u64,
}

impl Render for Leaf {
    fn render(&self, reads: &mut SuspenseContext) -> String {
        let mut i = 0;
        while i < self.unresolved {
            reads.track_read();
            i += 1;
        }
        self.markup.to_string()
    }
}

fn props(fallback: &str, child: Leaf) -> SuspenseProps<Leaf> {
    SuspenseProps { fallback: fallback.to_string(), children: vec![child] }
}

#[test]
fn ready_boundary_shows_the_subtree_at_once() {
    let mut pass = RenderPass::new(1);
    let id = Suspense(&mut pass, props("wait", Leaf { markup: "<p>now</p>", unresolved: 0 }));
    assert_eq!(id, None);
    assert_eq!(pass.suspended_count(), 0);
    let (document, stream) = pass.finish();
    assert_eq!(document.to_markup(), "<p>now</p>");
    assert_eq!(stream.len(), 0);
}

#[test]
fn double_render_of_a_ready_boundary_equals_a_direct_render() {
    let child = Leaf { markup: "<p>same</p>", unresolved: 0 };
    let direct = child.render(&mut SuspenseContext::new());

    let mut through_boundary = RenderPass::new(1);
    Suspense(&mut through_boundary, props("wait", child));
    let (document, _) = through_boundary.finish();

    let mut plain = RenderPass::new(1);
    plain.push_markup(direct);
    let (expected, _) = plain.finish();

    assert_eq!(document.to_markup(), expected.to_markup());
    assert_eq!(document.len(), expected.len());
}

#[test]
fn pending_boundary_shows_the_fallback_in_a_container() {
    let mut pass = RenderPass::new(5);
    let id = Suspense(&mut pass, props("<i>wait</i>", Leaf { markup: "<p>later</p>", unresolved: 2 }));
    assert_eq!(id, Some(FragmentId { document: 5, order: 0 }));
    let (document, mut stream) = pass.finish();
    assert_eq!(document.to_markup(), "<div data-fragment-id=\"5-0\"><i>wait</i></div>");
    assert_eq!(stream.state(0), Some(BoundaryState::Pending));
    assert_eq!(stream.pending(0), Some(2));
    assert_eq!(stream.track_resolution(0), Resolution::Waiting);
    assert_eq!(
        stream.track_resolution(0),
        Resolution::Settled(FragmentId { document: 5, order: 0 })
    );
}

#[test]
fn only_the_first_child_is_rendered() {
    let mut pass = RenderPass::new(1);
    let props = SuspenseProps {
        fallback: "wait".to_string(),
        children: vec![
            Leaf { markup: "first", unresolved: 0 },
            Leaf { markup: "second", unresolved: 3 },
        ],
    };
    assert_eq!(Suspense(&mut pass, props), None);
    let (document, _) = pass.finish();
    assert_eq!(document.to_markup(), "first");
}

#[test]
fn sibling_boundaries_count_their_own_reads() {
    let mut pass = RenderPass::new(9);
    let a = Suspense(&mut pass, props("wait A", Leaf { markup: "A", unresolved: 1 }));
    let b = Suspense(&mut pass, props("wait B", Leaf { markup: "B", unresolved: 0 }));
    let c = Suspense(&mut pass, props("wait C", Leaf { markup: "C", unresolved: 3 }));
    assert_eq!(a, Some(FragmentId { document: 9, order: 0 }));
    assert_eq!(b, None);
    assert_eq!(c, Some(FragmentId { document: 9, order: 1 }));
    let (document, stream) = pass.finish();
    assert_eq!(
        document.to_markup(),
        "<div data-fragment-id=\"9-0\">wait A</div>B<div data-fragment-id=\"9-1\">wait C</div>"
    );
    assert_eq!(stream.pending(0), Some(1));
    assert_eq!(stream.pending(1), Some(3));
}

#[test]
fn reads_met_before_the_probe_count_for_the_boundary() {
    let mut pass = RenderPass::new(2);
    let mut context = SuspenseContext::new();
    context.track_read();
    let id = render_suspense(
        &mut pass,
        context,
        "wait".to_string(),
        Leaf { markup: "x", unresolved: 0 },
    );
    assert_eq!(id, Some(FragmentId { document: 2, order: 0 }));
    let (_, stream) = pass.finish();
    assert_eq!(stream.pending(0), Some(1));
}

#[test]
fn resumed_boundary_shows_the_fallback_while_reads_are_outstanding() {
    let mut context = SuspenseContext::new();
    context.track_read();
    let child = Leaf { markup: "<p>real</p>", unresolved: 0 };
    assert_eq!(render_resumed(&mut context, false, "wait", &child), "wait");
    assert_eq!(context.pending(), 1);
    context.track_resolution();
    assert_eq!(render_resumed(&mut context, false, "wait", &child), "<p>real</p>");
}

#[test]
fn resumed_boundary_keeps_the_subtree_during_a_transition() {
    let mut context = SuspenseContext::new();
    context.track_read();
    let child = Leaf { markup: "<p>real</p>", unresolved: 0 };
    assert_eq!(render_resumed(&mut context, true, "wait", &child), "<p>real</p>");
}

#[test]
fn plain_text_never_suspends() {
    let mut pass = RenderPass::new(1);
    let props = SuspenseProps { fallback: "wait".to_string(), children: vec!["<b>text</b>".to_string()] };
    assert_eq!(Suspense(&mut pass, props), None);
    let (document, stream) = pass.finish();
    assert_eq!(document.to_markup(), "<b>text</b>");
    assert_eq!(stream.len(), 0);
    let mut context = SuspenseContext::new();
    assert_eq!("plain".to_string().render(&mut context), "plain");
    assert!(context.is_ready());
}
