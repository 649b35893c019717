use cutlist_optimizer::models::cut_list_thread::{CutDirection, CutListLogger};
use cutlist_optimizer::models::tile_dimensions::TileDimensions;
use std::sync::{Arc, Mutex};

#[derive(Debug)]
struct MockLogger {
    messages: Arc<Mutex<Vec<String>>>,
}

impl MockLogger {
    fn new() -> Self {
        Self { messages: Arc::new(Mutex::new(Vec::new())) }
    }

    fn get_messages(&self) -> Vec<String> {
        self.messages.lock().unwrap().clone()
    }
}

impl CutListLogger for MockLogger {
    fn log(&self, message: &str) {
        self.messages.lock().unwrap().push(message.to_string());
    }
}

fn create_test_tile(width: u32, height: u32, id: i32) -> TileDimensions {
    TileDimensions::new(id, width, height, "Wood".to_string(), 0, None, false)
}

#[test]
fn test_mock_logger() {
    let logger = MockLogger::new();
    logger.log("Message 1");
    logger.log("Message 2");
    let messages = logger.get_messages();
    assert_eq!(messages.len(), 2);
    assert_eq!(messages[0], "Message 1");
    assert_eq!(messages[1], "Message 2");
}

#[test]
fn test_cut_direction_enum() {
    let horizontal = CutDirection::Horizontal;
    let vertical = CutDirection::Vertical;
    assert_ne!(horizontal, vertical);
}

#[test]
fn test_tile_dimensions_properties() {
    let tile = create_test_tile(100, 200, 42);
    assert_eq!(tile.width(), 100);
    assert_eq!(tile.height(), 200);
    assert_eq!(tile.id(), 42);
}

#[test]
fn test_tile_dimensions_simple_constructor() {
    let tile = TileDimensions::simple(100, 200);
    assert_eq!(tile.width(), 100);
    assert_eq!(tile.height(), 200);
    assert_eq!(tile.id(), -1);
}

#[test]
fn rotating_twice_restores_the_tile() {
    let tile = TileDimensions::new(5, 30, 70, "Oak".to_string(), 1, Some("L".to_string()), false);
    let once = tile.rotate_90();
    assert_eq!((once.width(), once.height(), once.orientation()), (70, 30, 2));
    assert!(once.is_rotated());
    let twice = once.rotate_90();
    assert_eq!(twice, tile);
    assert_eq!((twice.width(), twice.height(), twice.orientation()), (30, 70, 1));
    assert_eq!(TileDimensions::simple(1, 2).rotate_90().orientation(), 1);
}
