use voxweave::queue::{ConversionQueue, QueueItem, SubtitleGranularity};
use voxweave::tts::VoiceProfile;

fn sample_item(id: &str) -> QueueItem {
    QueueItem {
        source_path: format!("{id}.txt"),
        output_dir: "out".into(),
        voice: VoiceProfile::builtin("voice", "Voice"),
        speed_percent: 100,
        subtitle_granularity: SubtitleGranularity::Sentence,
        replace_single_newlines: false,
    }
}

#[test]
fn queue_preserves_fifo_order() {
    let mut queue = ConversionQueue::new();
    queue.enqueue(sample_item("a"));
    queue.enqueue(sample_item("b"));
    assert_eq!(queue.len(), 2);
    assert_eq!(queue.dequeue().unwrap().source_path, "a.txt");
    assert_eq!(queue.dequeue().unwrap().source_path, "b.txt");
    assert!(queue.is_empty());
}

#[test]
fn dequeue_order_matches_enqueue_order_for_many_items() {
    let mut queue = ConversionQueue::new();
    let ids = ["x", "y", "x", "z", "w"];
    for id in ids {
        queue.enqueue(sample_item(id));
    }
    let listed: Vec<_> = queue.iter().iter().map(|i| i.source_path.clone()).collect();
    assert_eq!(listed, vec!["x.txt", "y.txt", "x.txt", "z.txt", "w.txt"]);
    for id in ids {
        assert_eq!(queue.dequeue().unwrap().source_path, format!("{id}.txt"));
    }
    assert!(queue.is_empty());
    assert!(queue.dequeue().is_none());
}

#[test]
fn interleaved_enqueues_and_dequeues_stay_fifo() {
    let mut queue = ConversionQueue::new();
    queue.enqueue(sample_item("a"));
    queue.enqueue(sample_item("b"));
    assert_eq!(queue.dequeue().unwrap().source_path, "a.txt");
    queue.enqueue(sample_item("c"));
    assert_eq!(queue.len(), 2);
    assert_eq!(queue.dequeue().unwrap().source_path, "b.txt");
    assert_eq!(queue.dequeue().unwrap().source_path, "c.txt");
    assert!(queue.dequeue().is_none());
    assert!(queue.is_empty());
    assert_eq!(queue.len(), 0);
}
