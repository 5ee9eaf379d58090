use aseprite_anim::anim::{AsepriteAnimation, AsepriteTag};
use aseprite_anim::info::{AsepriteInfo, Direction, InfoError, TagInfo};

const MS: u64 = 1_000_000;

fn tag(name: &str, start: usize, end: usize, direction: Direction) -> TagInfo {
    TagInfo { name: name.to_string(), start, end, direction }
}

fn table(frames: usize, tags: Vec<TagInfo>) -> AsepriteInfo {
    AsepriteInfo::new(vec![100; frames], tags).unwrap()
}

fn playing(tag_name: Option<&'static str>, frame: usize) -> AsepriteAnimation {
    let mut a = match tag_name {
        Some(t) => AsepriteAnimation::tag(t),
        None => AsepriteAnimation::default(),
    };
    a.current_frame = frame;
    a.play();
    a
}

#[test]
fn forward_tag_wraps_to_start() {
    let info = table(6, vec![tag("walk", 2, 5, Direction::Forward)]);
    let mut a = playing(Some("walk"), 4);
    assert!(a.update(&info, 100 * MS));
    assert_eq!(a.current_frame(), 2);
}

#[test]
fn forward_tag_moves_one_frame() {
    let info = table(6, vec![tag("walk", 2, 5, Direction::Forward)]);
    let mut a = playing(Some("walk"), 2);
    assert!(a.update(&info, 100 * MS));
    assert_eq!(a.current_frame(), 3);
}

#[test]
fn reverse_tag_wraps_to_end() {
    let info = table(6, vec![tag("back", 2, 5, Direction::Reverse)]);
    let mut a = playing(Some("back"), 2);
    assert!(a.update(&info, 100 * MS));
    assert_eq!(a.current_frame(), 4);
    assert!(a.update(&info, 100 * MS));
    assert_eq!(a.current_frame(), 3);
}

#[test]
fn reverse_tag_from_frame_zero_wraps_to_end() {
    let info = table(3, vec![tag("back", 0, 3, Direction::Reverse)]);
    let mut a = playing(Some("back"), 0);
    a.next_frame(&info);
    assert_eq!(a.current_frame(), 2);
}

#[test]
fn ping_pong_bounces_at_end() {
    let info = table(3, vec![tag("bounce", 0, 3, Direction::PingPong)]);
    let mut a = playing(Some("bounce"), 2);
    a.forward = true;
    assert!(a.update(&info, 100 * MS));
    assert_eq!(a.current_frame(), 2);
    assert!(!a.forward);
    assert!(a.update(&info, 100 * MS));
    assert_eq!(a.current_frame(), 1);
    assert!(!a.forward);
}

#[test]
fn ping_pong_turns_at_start() {
    let info = table(3, vec![tag("bounce", 0, 3, Direction::PingPong)]);
    let mut a = playing(Some("bounce"), 0);
    a.forward = false;
    a.next_frame(&info);
    assert_eq!(a.current_frame(), 1);
    assert!(a.forward);
    a.next_frame(&info);
    assert_eq!(a.current_frame(), 2);
}

#[test]
fn ping_pong_single_frame_stays() {
    let info = table(3, vec![tag("still", 1, 2, Direction::PingPong)]);
    let mut a = playing(Some("still"), 1);
    a.forward = true;
    a.next_frame(&info);
    assert_eq!(a.current_frame(), 1);
    assert!(!a.forward);
    a.next_frame(&info);
    assert_eq!(a.current_frame(), 1);
    assert!(a.forward);
}

#[test]
fn untagged_wraps_to_zero() {
    let info = table(4, vec![]);
    let mut a = playing(None, 3);
    assert!(a.update(&info, 100 * MS));
    assert_eq!(a.current_frame(), 0);
}

#[test]
fn unresolved_tag_first_frame_is_zero() {
    let info = table(6, vec![tag("walk", 2, 5, Direction::Forward)]);
    let a = AsepriteAnimation::tag("run");
    assert_eq!(a.get_first_frame(&info), 0);
    assert!(a.is_tag_missing(&info));
}

#[test]
fn unresolved_tag_leaves_frame() {
    let info = table(6, vec![tag("walk", 2, 5, Direction::Forward)]);
    let mut a = playing(Some("run"), 3);
    a.next_frame(&info);
    assert_eq!(a.current_frame(), 3);
    a.update(&info, 250 * MS);
    assert_eq!(a.current_frame(), 3);
    assert_eq!(a.time_elapsed, 50 * MS);
}

#[test]
fn first_frame_of_tag() {
    let info = table(6, vec![tag("idle", 0, 2, Direction::Forward), tag("walk", 2, 5, Direction::Forward)]);
    assert_eq!(AsepriteAnimation::tag("walk").get_first_frame(&info), 2);
    assert_eq!(AsepriteAnimation::default().get_first_frame(&info), 0);
    assert!(!AsepriteAnimation::tag("walk").is_tag_missing(&info));
    assert!(!AsepriteAnimation::default().is_tag_missing(&info));
}

#[test]
fn no_time_changes_nothing() {
    let info = table(4, vec![]);
    let mut a = playing(None, 1);
    a.time_elapsed = 30 * MS;
    let before = playing(None, 1);
    assert!(!a.update(&info, 0));
    assert_eq!(a.current_frame(), 1);
    assert_eq!(a.time_elapsed, 30 * MS);
    assert_eq!(before.current_frame(), a.current_frame());
}

#[test]
fn paused_update_does_nothing() {
    let info = table(4, vec![]);
    let mut a = AsepriteAnimation::default();
    assert!(!a.update(&info, 0));
    assert!(!a.update(&info, 1000 * MS));
    assert_eq!(a, AsepriteAnimation::default());
}

#[test]
fn catch_up_matches_single_steps() {
    let info = table(6, vec![tag("bounce", 1, 5, Direction::PingPong)]);
    let mut once = playing(Some("bounce"), 1);
    once.time_elapsed = 20 * MS;
    let mut stepped = playing(Some("bounce"), 1);
    stepped.time_elapsed = 20 * MS;
    assert!(once.update(&info, 7 * 100 * MS));
    for _ in 0..7 {
        assert!(stepped.update(&info, 100 * MS));
    }
    assert_eq!(once, stepped);
    assert_eq!(once.current_frame(), 1);
    assert!(!once.forward);
    assert_eq!(once.time_elapsed, 20 * MS);
}

#[test]
fn update_keeps_remainder() {
    let info = AsepriteInfo::new(vec![100, 50, 200], vec![]).unwrap();
    let mut a = playing(None, 0);
    assert!(a.update(&info, 180 * MS));
    assert_eq!(a.current_frame(), 2);
    assert_eq!(a.time_elapsed, 30 * MS);
    assert!(a.time_elapsed < a.current_frame_duration(&info));
    assert!(!a.update(&info, 169 * MS));
    assert_eq!(a.time_elapsed, 199 * MS);
}

#[test]
fn step_brings_frame_into_tag() {
    let info = table(8, vec![tag("walk", 3, 6, Direction::Forward), tag("back", 3, 6, Direction::Reverse)]);
    let mut a = playing(Some("walk"), 0);
    a.next_frame(&info);
    assert_eq!(a.current_frame(), 3);
    let mut b = playing(Some("back"), 7);
    b.next_frame(&info);
    assert_eq!(b.current_frame(), 5);
}

#[test]
fn rewind_goes_to_tag_start() {
    let info = table(6, vec![tag("walk", 2, 5, Direction::Forward)]);
    let mut a = AsepriteAnimation::tag("walk");
    a.time_elapsed = 40 * MS;
    a.rewind(&info);
    assert_eq!(a.current_frame(), 2);
    assert_eq!(a.time_elapsed, 0);
}

#[test]
fn frame_duration_in_nanoseconds() {
    let info = AsepriteInfo::new(vec![100, 65535], vec![]).unwrap();
    let mut a = AsepriteAnimation::default();
    assert_eq!(a.current_frame_duration(&info), 100_000_000);
    a.current_frame = 1;
    assert_eq!(a.current_frame_duration(&info), 65_535_000_000);
    assert_eq!(info.frame_duration(0), 100_000_000);
    assert_eq!(info.frame_count_exec(), 2);
}

#[test]
fn find_tag_returns_first_match() {
    let info = table(6, vec![tag("a", 0, 1, Direction::Forward), tag("b", 1, 2, Direction::Reverse), tag("b", 2, 3, Direction::Forward)]);
    assert_eq!(info.find_tag("b"), Some(1));
    assert_eq!(info.find_tag("a"), Some(0));
    assert_eq!(info.find_tag("c"), None);
    assert_eq!(info.find_tag(""), None);
}

#[test]
fn info_rejects_no_frames() {
    assert_eq!(AsepriteInfo::new(vec![], vec![]).unwrap_err(), InfoError::NoFrames);
}

#[test]
fn info_rejects_zero_delay() {
    assert_eq!(AsepriteInfo::new(vec![10, 0, 0], vec![]).unwrap_err(), InfoError::ZeroDelay { frame: 1 });
}

#[test]
fn info_rejects_bad_tag_range() {
    let past_end = vec![tag("ok", 0, 2, Direction::Forward), tag("long", 1, 4, Direction::Forward)];
    assert_eq!(AsepriteInfo::new(vec![10, 10, 10], past_end).unwrap_err(), InfoError::BadTagRange { tag: 1 });
    let empty = vec![tag("none", 2, 2, Direction::Forward)];
    assert_eq!(AsepriteInfo::new(vec![10, 10, 10], empty).unwrap_err(), InfoError::BadTagRange { tag: 0 });
}

#[test]
fn info_accepts_valid_table() {
    let info = AsepriteInfo::new(vec![10, 20, 30], vec![tag("all", 0, 3, Direction::PingPong)]).unwrap();
    assert_eq!(info.frame_delays_ms, vec![10, 20, 30]);
    assert_eq!(info.tags.len(), 1);
}

#[test]
fn play_pause_toggle() {
    let mut a = AsepriteAnimation::default();
    assert!(a.is_paused());
    assert!(!a.is_playing());
    a.play();
    assert!(a.is_playing());
    a.pause();
    assert!(a.is_paused());
    a.toggle();
    assert!(a.is_playing());
    a.toggle();
    assert!(a.is_paused());
}

#[test]
fn tag_constructors() {
    let t = AsepriteTag::new("walk");
    assert_eq!(t.0, "walk");
    assert_eq!(*t, "walk");
    let a = AsepriteAnimation::tag("walk");
    assert_eq!(a.tag, Some("walk"));
    assert_eq!(a.current_frame(), 0);
    assert!(a.is_paused());
}
