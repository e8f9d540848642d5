use arkavo_protocol::episode::{EpisodeBuffer, ToolObservation};

fn observation(tool: &str, success: bool) -> ToolObservation {
    ToolObservation {
        tool_name: tool.to_string(),
        args: serde_json::Value::Object(serde_json::Map::new()),
        result: "ok".to_string(),
        success,
        latency_ms: 100,
        timestamp: chrono::Utc::now().timestamp_millis(),
    }
}

#[test]
fn test_episode_buffer_thresholds() {
    let buffer: EpisodeBuffer<String> = EpisodeBuffer::with_thresholds(5, 2);
    assert_eq!(buffer.observation_threshold(), 5);
    assert_eq!(buffer.episode_threshold(), 2);
}

#[test]
fn test_add_observation() {
    let mut buffer: EpisodeBuffer<String> = EpisodeBuffer::new();

    buffer.add_observation(observation("navigate_to", true));
    assert!(buffer.ready_for_episode_synthesis().is_none());

    for _ in 0..2 {
        buffer.add_observation(observation("navigate_to", true));
    }

    assert_eq!(buffer.ready_for_episode_synthesis(), Some("navigation".to_string()));
}

#[test]
fn a_failed_call_is_ready_at_once() {
    let mut buffer: EpisodeBuffer<String> = EpisodeBuffer::new();
    buffer.add_observation(observation("report_hazard", false));
    assert_eq!(buffer.ready_for_episode_synthesis(), Some("hazard_response".to_string()));
}

#[test]
fn taking_observations_empties_the_category() {
    let mut buffer: EpisodeBuffer<String> = EpisodeBuffer::default();
    buffer.add_observation(observation("build_wall", true));
    buffer.add_observation(observation("Craft_Table", true));
    buffer.add_observation(observation("look", true));
    let taken = buffer.take_observations("construction");
    assert_eq!(taken.len(), 2);
    assert_eq!(taken[0].tool_name, "build_wall");
    assert_eq!(taken[1].tool_name, "Craft_Table");
    assert!(buffer.take_observations("construction").is_empty());
    assert_eq!(buffer.take_observations("general").len(), 1);
}

#[test]
fn episodes_ready_for_a_lesson_at_the_threshold() {
    let mut buffer: EpisodeBuffer<u32> = EpisodeBuffer::with_thresholds(3, 2);
    buffer.add_episode("navigation".to_string(), 1);
    assert!(buffer.ready_for_lesson_synthesis().is_none());
    buffer.add_episode("navigation".to_string(), 2);
    assert_eq!(buffer.ready_for_lesson_synthesis(), Some("navigation".to_string()));
    assert_eq!(buffer.take_episodes("navigation"), vec![1, 2]);
    assert!(buffer.ready_for_lesson_synthesis().is_none());
}
