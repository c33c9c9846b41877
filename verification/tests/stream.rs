use suspense_core::fragment::FragmentId;
use suspense_core::stream::{BoundaryState, FragmentEvent, RenderPass, Resolution, Trigger};
use suspense_core::suspense::SuspenseContext;

fn context_with(reads: u64) -> SuspenseContext {
    let mut context = SuspenseContext::new();
    let mut i = 0;
    while i < reads {
        context.track_read();
        i += 1;
    }
    context
}

#[test]
fn probe_without_reads_makes_the_boundary_ready() {
    let next = BoundaryState::Probing.step(Trigger::ProbeFinished { pending: 0 });
    assert_eq!(next, BoundaryState::Ready);
    assert!(next.terminal());
}

#[test]
fn probe_with_reads_makes_the_boundary_pending() {
    let next = BoundaryState::Probing.step(Trigger::ProbeFinished { pending: 2 });
    assert_eq!(next, BoundaryState::Pending);
    assert!(!next.terminal());
}

#[test]
fn pending_boundary_resolves_or_aborts() {
    assert_eq!(
        BoundaryState::Pending.step(Trigger::ProducerCompleted),
        BoundaryState::Resolved
    );
    assert_eq!(
        BoundaryState::Pending.step(Trigger::TransportClosed),
        BoundaryState::Aborted
    );
    assert_eq!(
        BoundaryState::Probing.step(Trigger::TransportClosed),
        BoundaryState::Aborted
    );
}

#[test]
fn terminal_states_do_not_move() {
    let triggers = [
        Trigger::ProbeFinished { pending: 0 },
        Trigger::ProbeFinished { pending: 5 },
        Trigger::ProducerCompleted,
        Trigger::TransportClosed,
    ];
    for state in [BoundaryState::Ready, BoundaryState::Resolved, BoundaryState::Aborted] {
        assert!(state.terminal());
        for trigger in triggers {
            assert_eq!(state.step(trigger), state);
        }
    }
}

#[test]
fn probe_result_is_not_reevaluated() {
    let pending = BoundaryState::Probing.step(Trigger::ProbeFinished { pending: 1 });
    assert_eq!(pending.step(Trigger::ProbeFinished { pending: 0 }), BoundaryState::Pending);
    assert_eq!(
        BoundaryState::Probing.step(Trigger::ProducerCompleted),
        BoundaryState::Probing
    );
}

#[test]
fn ready_boundary_registers_nothing() {
    let mut pass = RenderPass::new(7);
    assert_eq!(pass.document(), 7);
    let id = pass.settle(SuspenseContext::new(), "wait".to_string());
    assert_eq!(id, None);
    assert_eq!(pass.suspended_count(), 0);
    let (document, stream) = pass.finish();
    assert_eq!(document.len(), 0);
    assert_eq!(stream.len(), 0);
}

#[test]
fn pending_boundary_gets_the_next_identifier() {
    let mut pass = RenderPass::new(7);
    pass.push_markup("<h1>t</h1>".to_string());
    let a = pass.settle(context_with(1), "wait A".to_string());
    let skipped = pass.settle(context_with(0), "never shown".to_string());
    let b = pass.settle(context_with(2), "wait B".to_string());
    assert_eq!(a, Some(FragmentId { document: 7, order: 0 }));
    assert_eq!(skipped, None);
    assert_eq!(b, Some(FragmentId { document: 7, order: 1 }));
    assert_eq!(pass.suspended_count(), 2);
    let (document, stream) = pass.finish();
    assert_eq!(
        document.to_markup(),
        "<h1>t</h1><div data-fragment-id=\"7-0\">wait A</div><div data-fragment-id=\"7-1\">wait B</div>"
    );
    assert_eq!(stream.len(), 2);
    assert!(!stream.is_closed());
    assert_eq!(stream.state(0), Some(BoundaryState::Pending));
    assert_eq!(stream.state(1), Some(BoundaryState::Pending));
    assert_eq!(stream.state(2), None);
    assert_eq!(stream.pending(0), Some(1));
    assert_eq!(stream.pending(1), Some(2));
    assert_eq!(stream.pending(2), None);
}

#[test]
fn last_resolution_lets_the_producer_run() {
    let mut pass = RenderPass::new(1);
    pass.settle(context_with(2), "wait".to_string());
    let (_, mut stream) = pass.finish();
    assert_eq!(stream.track_resolution(0), Resolution::Waiting);
    assert_eq!(stream.pending(0), Some(1));
    assert_eq!(
        stream.track_resolution(0),
        Resolution::Settled(FragmentId { document: 1, order: 0 })
    );
    assert_eq!(stream.pending(0), Some(0));
    assert_eq!(stream.track_resolution(0), Resolution::Unmatched);
    assert_eq!(stream.pending(0), Some(0));
    assert_eq!(stream.state(0), Some(BoundaryState::Pending));
}

#[test]
fn resolution_for_an_unknown_boundary_changes_nothing() {
    let mut pass = RenderPass::new(1);
    pass.settle(context_with(1), "wait".to_string());
    let (_, mut stream) = pass.finish();
    assert_eq!(stream.track_resolution(5), Resolution::Unknown);
    assert_eq!(stream.pending(0), Some(1));
    assert_eq!(stream.state(0), Some(BoundaryState::Pending));
}

#[test]
fn producer_cannot_complete_while_reads_are_outstanding() {
    let mut pass = RenderPass::new(1);
    pass.settle(context_with(1), "wait".to_string());
    let (_, mut stream) = pass.finish();
    assert_eq!(stream.complete(0, Ok("early".to_string())), None);
    assert_eq!(stream.state(0), Some(BoundaryState::Pending));
    assert_eq!(stream.complete(3, Ok("nowhere".to_string())), None);
}

#[test]
fn completed_producer_yields_one_fragment() {
    let mut pass = RenderPass::new(4);
    pass.settle(context_with(1), "wait".to_string());
    let (_, mut stream) = pass.finish();
    stream.track_resolution(0);
    let event = stream.complete(0, Ok("<p>done</p>".to_string()));
    assert_eq!(
        event,
        Some(FragmentEvent { fragment_id: "4-0".to_string(), markup: "<p>done</p>".to_string() })
    );
    assert_eq!(stream.state(0), Some(BoundaryState::Resolved));
    assert_eq!(stream.complete(0, Ok("again".to_string())), None);
    assert_eq!(stream.track_resolution(0), Resolution::Dropped);
    assert_eq!(stream.state(0), Some(BoundaryState::Resolved));
}

#[test]
fn failed_producer_yields_the_error_placeholder() {
    let mut pass = RenderPass::new(4);
    pass.settle(context_with(1), "wait A".to_string());
    pass.settle(context_with(1), "wait B".to_string());
    let (_, mut stream) = pass.finish();
    stream.track_resolution(0);
    stream.track_resolution(1);
    let failed = stream.complete(0, Err("boom".to_string()));
    assert_eq!(
        failed,
        Some(FragmentEvent {
            fragment_id: "4-0".to_string(),
            markup: "<div data-fragment-error=\"\"></div>".to_string(),
        })
    );
    assert_eq!(stream.state(0), Some(BoundaryState::Resolved));
    let sibling = stream.complete(1, Ok("B".to_string()));
    assert_eq!(
        sibling,
        Some(FragmentEvent { fragment_id: "4-1".to_string(), markup: "B".to_string() })
    );
}

#[test]
fn fragments_go_out_in_completion_order() {
    let mut pass = RenderPass::new(2);
    pass.settle(context_with(1), "wait A".to_string());
    pass.settle(context_with(1), "wait B".to_string());
    let (_, mut stream) = pass.finish();
    assert_eq!(
        stream.track_resolution(1),
        Resolution::Settled(FragmentId { document: 2, order: 1 })
    );
    let first = stream.complete(1, Ok("B".to_string())).unwrap();
    assert_eq!(first.fragment_id, "2-1");
    assert_eq!(stream.state(0), Some(BoundaryState::Pending));
    assert_eq!(
        stream.track_resolution(0),
        Resolution::Settled(FragmentId { document: 2, order: 0 })
    );
    let second = stream.complete(0, Ok("A".to_string())).unwrap();
    assert_eq!(second.fragment_id, "2-0");
}

#[test]
fn closed_transport_aborts_what_is_pending() {
    let mut pass = RenderPass::new(2);
    pass.settle(context_with(1), "wait A".to_string());
    pass.settle(context_with(1), "wait B".to_string());
    let (_, mut stream) = pass.finish();
    stream.track_resolution(0);
    assert!(stream.complete(0, Ok("A".to_string())).is_some());
    stream.close();
    assert!(stream.is_closed());
    assert_eq!(stream.state(0), Some(BoundaryState::Resolved));
    assert_eq!(stream.state(1), Some(BoundaryState::Aborted));
    assert_eq!(stream.track_resolution(1), Resolution::Dropped);
    assert_eq!(stream.complete(1, Ok("B".to_string())), None);
    assert_eq!(stream.state(1), Some(BoundaryState::Aborted));
    stream.close();
    assert_eq!(stream.state(1), Some(BoundaryState::Aborted));
}

#[test]
fn two_boundaries_and_a_connection_that_closes_between_them() {
    // Boundary A settles first, boundary B later; the connection closes in between.
    let mut pass = RenderPass::new(11);
    pass.push_markup("<body>".to_string());
    let a = pass.settle(context_with(1), "loading A".to_string()).unwrap();
    let b = pass.settle(context_with(1), "loading B".to_string()).unwrap();
    pass.push_markup("</body>".to_string());
    assert_ne!(a.key(), b.key());
    let (document, mut stream) = pass.finish();
    let head = document.to_markup();
    assert_eq!(
        head,
        "<body><div data-fragment-id=\"11-0\">loading A</div><div data-fragment-id=\"11-1\">loading B</div></body>"
    );
    assert_eq!(head.matches(&format!("data-fragment-id=\"{}\"", a.key())).count(), 1);
    assert_eq!(head.matches(&format!("data-fragment-id=\"{}\"", b.key())).count(), 1);

    let mut sent: Vec<FragmentEvent> = Vec::new();
    assert_eq!(stream.track_resolution(a.order), Resolution::Settled(a));
    if let Some(event) = stream.complete(a.order, Ok("<p>A</p>".to_string())) {
        sent.push(event);
    }
    stream.close();
    assert_eq!(stream.track_resolution(b.order), Resolution::Dropped);
    if let Some(event) = stream.complete(b.order, Ok("<p>B</p>".to_string())) {
        sent.push(event);
    }
    assert_eq!(
        sent,
        vec![FragmentEvent { fragment_id: a.key(), markup: "<p>A</p>".to_string() }]
    );
    assert_eq!(stream.state(a.order), Some(BoundaryState::Resolved));
    assert_eq!(stream.state(b.order), Some(BoundaryState::Aborted));
}

#[test]
fn emitted_fragment_resumes_the_initial_document() {
    let mut pass = RenderPass::new(3);
    pass.push_markup("<ul>".to_string());
    pass.settle(context_with(1), "…".to_string());
    pass.push_markup("</ul>".to_string());
    let (mut document, mut stream) = pass.finish();
    stream.track_resolution(0);
    let event = stream.complete(0, Ok("<li>1</li>".to_string())).unwrap();
    assert_eq!(document.apply(&event.fragment_id, &event.markup), 1);
    assert_eq!(
        document.to_markup(),
        "<ul><div data-fragment-id=\"3-0\"><li>1</li></div></ul>"
    );
}

#[test]
fn event_is_self_describing_on_the_wire() {
    let event = FragmentEvent { fragment_id: "3-1".to_string(), markup: "<p>x</p>".to_string() };
    assert_eq!(event.to_chunk(), "<template data-fragment-id=\"3-1\"><p>x</p></template>");
}
