use taskcoord::CoordError;
use taskcoord::Garden;

#[test]
fn planting_note() {
    assert_eq!(taskcoord::plant_vegetable(), "Planting in garden!");
}

#[test]
fn garden_keeps_size_and_location() {
    let garden = Garden::new(40, String::from("backyard"));
    assert_eq!(garden.size, 40);
    assert_eq!(garden.get_location(), "backyard");
}

#[test]
fn error_descriptions_are_distinct() {
    let kinds = [
        CoordError::WorkerFailure,
        CoordError::ChannelClosed,
        CoordError::LockPoisoned,
        CoordError::ConfigError,
    ];
    for (i, a) in kinds.iter().enumerate() {
        assert!(!a.describe().is_empty());
        for b in kinds.iter().skip(i + 1) {
            assert_ne!(a.describe(), b.describe());
        }
    }
}
