use lib::events::{ExpressionKey, ExpressionKind, ExpressionQueue};
use lib::voices::{Channel, Key, VoiceID, MAX_EXPRESSION_EVENTS};

fn key(kind: ExpressionKind, id: Option<i32>) -> ExpressionKey {
    ExpressionKey {
        kind,
        voice_id: id.map_or(VoiceID::Wildcard, VoiceID::ID),
        channel: Channel::Wildcard,
        key: Key::Wildcard,
    }
}

#[test]
fn latest_value_per_address_moves_to_the_end() {
    let mut queue: ExpressionQueue<f32> = ExpressionQueue::new();
    queue.push(key(ExpressionKind::Volume, None), 0.5);
    queue.push(key(ExpressionKind::Volume, Some(1)), 2.0);
    queue.push(key(ExpressionKind::Volume, None), 0.75);
    queue.push(key(ExpressionKind::Volume, Some(2)), 3.0);
    queue.push(key(ExpressionKind::Pan, Some(2)), -1.0);
    let taken = queue.take_all();
    let values: Vec<f32> = taken.iter().map(|(_, v)| *v).collect();
    assert_eq!(values, vec![2.0, 0.75, 3.0, -1.0]);
    assert_eq!(queue.len(), 0);
}

#[test]
fn a_full_queue_drops_its_oldest_event() {
    let mut queue: ExpressionQueue<usize> = ExpressionQueue::new();
    for i in 0..MAX_EXPRESSION_EVENTS + 2 {
        queue.push(key(ExpressionKind::Tuning, Some(i as i32)), i);
    }
    assert_eq!(queue.len(), MAX_EXPRESSION_EVENTS);
    let taken = queue.take_all();
    assert_eq!(taken[0].1, 2);
    assert_eq!(taken[MAX_EXPRESSION_EVENTS - 1].1, MAX_EXPRESSION_EVENTS + 1);
    queue.push(key(ExpressionKind::Vibrato, None), 1);
    queue.clear();
    assert_eq!(queue.len(), 0);
}
