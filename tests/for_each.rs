use co_stream::consumer::{Consumer, ConsumerState, ForEachConsumer};
use co_stream::passthrough::{Passthrough, PassthroughConsumer};
use co_stream::pipeline::{Advance, ForEachFut, Stage};
use std::sync::atomic::{AtomicUsize, Ordering};
use std::sync::Arc;

/// Polls every live pipeline once. An item resolves on its pipeline's
/// second poll; the transform adds the item to `total` when it is polled.
/// Returns how many pipelines completed.
fn poll_group<C: Consumer>(
    consumer: &mut C,
    items: &mut Vec<(u64, usize, bool)>,
    total: &Arc<AtomicUsize>,
) -> usize {
    let mut completed = 0;
    let mut index = 0;
    while index < items.len() {
        let (_, value, polled_once) = items[index];
        let ready = polled_once;
        items[index].2 = true;
        match consumer.advance(index, ready) {
            Advance::Suspended => index += 1,
            Advance::TransformStarted => {
                let count = total.clone();
                let transform = move || {
                    count.fetch_add(value, Ordering::Relaxed);
                };
                transform();
                assert_eq!(consumer.advance(index, true), Advance::Finished);
                items.remove(index);
                completed += 1;
            }
            Advance::Finished => {
                items.remove(index);
                completed += 1;
            }
        }
    }
    completed
}

/// Sends `n` items of value 1 through a consumer with the given limit,
/// waits for each free slot, then drains. Returns the transforms' total
/// and the peak number of pipelines in flight.
fn run_for_each(limit: Option<usize>, n: usize) -> (usize, usize) {
    let total = Arc::new(AtomicUsize::new(0));
    let mut consumer = ForEachConsumer::new(limit);
    let mut items: Vec<(u64, usize, bool)> = Vec::new();
    let mut peak = 0;
    for _ in 0..n {
        while !consumer.has_capacity() {
            poll_group(&mut consumer, &mut items, &total);
        }
        let (id, state) = consumer.send();
        assert_eq!(state, ConsumerState::Continue);
        items.push((id, 1, false));
        peak = peak.max(consumer.in_flight());
    }
    while consumer.progress() != ConsumerState::Empty {
        poll_group(&mut consumer, &mut items, &total);
    }
    consumer.finish();
    (total.load(Ordering::Relaxed), peak)
}

#[test]
fn concurrency_one() {
    let (count, _) = run_for_each(Some(1), 2);
    assert_eq!(count, 2);
}

#[test]
fn concurrency_three() {
    let (count, _) = run_for_each(Some(3), 10);
    assert_eq!(count, 10);
}

#[test]
fn peak_in_flight_stays_within_limit() {
    for limit in 1..5 {
        for n in 0..12 {
            let (count, peak) = run_for_each(Some(limit), n);
            assert_eq!(count, n);
            assert!(peak <= limit);
            assert_eq!(peak, n.min(limit));
        }
    }
}

#[test]
fn unbounded_consumer_admits_everything() {
    let consumer = ForEachConsumer::new(None);
    assert_eq!(consumer.limit(), usize::MAX);
    let (count, peak) = run_for_each(None, 25);
    assert_eq!(count, 25);
    assert_eq!(peak, 25);
}

#[test]
fn admission_order_is_call_order() {
    let mut consumer = ForEachConsumer::new(Some(4));
    let ids: Vec<u64> = (0..4).map(|_| consumer.send().0).collect();
    assert_eq!(ids, vec![0, 1, 2, 3]);
    // The second item completes first; the others keep their order.
    assert_eq!(consumer.advance(1, true), Advance::TransformStarted);
    assert_eq!(consumer.advance(1, true), Advance::Finished);
    assert_eq!(consumer.in_flight(), 3);
    assert_eq!(consumer.id_at(0), 0);
    assert_eq!(consumer.id_at(1), 2);
    assert_eq!(consumer.id_at(2), 3);
    assert_eq!(consumer.send().0, 4);
    assert_eq!(consumer.id_at(3), 4);
    assert_eq!(consumer.stage_at(3), Stage::WaitingItem);
}

#[test]
fn progress_is_empty_when_nothing_is_in_flight() {
    let mut consumer = ForEachConsumer::new(Some(2));
    assert_eq!(consumer.progress(), ConsumerState::Empty);
    consumer.send();
    assert_eq!(consumer.progress(), ConsumerState::Continue);
    assert_eq!(consumer.advance(0, true), Advance::TransformStarted);
    assert_eq!(consumer.progress(), ConsumerState::Continue);
    assert_eq!(consumer.advance(0, true), Advance::Finished);
    assert_eq!(consumer.progress(), ConsumerState::Empty);
}

#[test]
fn backpressure_holds_until_a_pipeline_completes() {
    let mut consumer = ForEachConsumer::new(Some(1));
    assert!(consumer.has_capacity());
    consumer.send();
    assert!(!consumer.has_capacity());
    assert_eq!(consumer.advance(0, false), Advance::Suspended);
    assert_eq!(consumer.stage_at(0), Stage::WaitingItem);
    assert!(!consumer.has_capacity());
    assert_eq!(consumer.advance(0, true), Advance::TransformStarted);
    assert_eq!(consumer.stage_at(0), Stage::WaitingTransform);
    assert_eq!(consumer.advance(0, false), Advance::Suspended);
    assert!(!consumer.has_capacity());
    assert_eq!(consumer.advance(0, true), Advance::Finished);
    assert!(consumer.has_capacity());
    assert_eq!(consumer.in_flight(), 0);
}

#[test]
fn pipeline_moves_through_its_stages_in_order() {
    let mut fut = ForEachFut::new();
    assert_eq!(fut.stage(), Stage::WaitingItem);
    assert_eq!(fut.advance(false), Advance::Suspended);
    assert_eq!(fut.stage(), Stage::WaitingItem);
    assert_eq!(fut.advance(true), Advance::TransformStarted);
    assert_eq!(fut.stage(), Stage::WaitingTransform);
    assert!(!fut.is_completed());
    assert_eq!(fut.advance(false), Advance::Suspended);
    assert_eq!(fut.stage(), Stage::WaitingTransform);
    assert_eq!(fut.advance(true), Advance::Finished);
    assert_eq!(fut.stage(), Stage::Completed);
    assert!(fut.is_completed());
}

#[test]
fn passthrough_forwards_to_the_inner_consumer() {
    let stream = Passthrough::new(7u32);
    assert_eq!(*stream.inner(), 7);
    let mut consumer: PassthroughConsumer<ForEachConsumer> =
        stream.wrap(ForEachConsumer::new(Some(1)));
    assert_eq!(consumer.progress(), ConsumerState::Empty);
    assert!(consumer.has_capacity());
    assert_eq!(consumer.send(), (0, ConsumerState::Continue));
    assert!(!consumer.has_capacity());
    assert_eq!(consumer.progress(), ConsumerState::Continue);
    assert_eq!(consumer.advance(0, true), Advance::TransformStarted);
    assert_eq!(consumer.advance(0, true), Advance::Finished);
    assert_eq!(consumer.progress(), ConsumerState::Empty);
    let inner = consumer.into_inner();
    assert_eq!(inner.in_flight(), 0);
    inner.finish();
    assert_eq!(stream.into_inner(), 7);
}
