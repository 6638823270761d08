use wzrd::winsys::geometry::Dim;
use wzrd::winsys::geometry::Pos;
use wzrd::winsys::geometry::Ratio;
use wzrd::winsys::hints::normalized_size_hints;
use wzrd::winsys::hints::refreshed_size_hints;
use wzrd::winsys::hints::size_to_increments;
use wzrd::winsys::hints::size_within_limits;
use wzrd::winsys::hints::RawSizeHints;
use wzrd::winsys::hints::SizeLimits;

fn raw() -> RawSizeHints {
    RawSizeHints {
        position: None,
        min_size: None,
        max_size: None,
        base_size: None,
        size_increment: None,
        aspect: None,
    }
}

#[test]
fn missing_minimum_and_base_sizes_stand_in_for_each_other() {
    let mut hints = raw();
    hints.min_size = Some((100, -5));
    hints.base_size = Some((0, 40));
    let limits = normalized_size_hints(hints, None);
    assert_eq!(limits.min_width, Some(100));
    assert_eq!(limits.min_height, Some(40));
    assert_eq!(limits.base_width, Some(100));
    assert_eq!(limits.base_height, Some(40));
}

#[test]
fn minimum_is_raised_to_the_smallest_window() {
    let mut hints = raw();
    hints.min_size = Some((10, 300));
    let limits = normalized_size_hints(hints, Some(Dim { w: 75, h: 50 }));
    assert_eq!(limits.min_width, Some(75));
    assert_eq!(limits.min_height, Some(300));
}

#[test]
fn increments_outside_the_usable_range_are_dropped() {
    let mut hints = raw();
    hints.size_increment = Some((0, 0xFFFF));
    let limits = normalized_size_hints(hints, None);
    assert_eq!(limits.inc_width, None);
    assert_eq!(limits.inc_height, None);
    hints.size_increment = Some((7, 0xFFFE));
    let limits = normalized_size_hints(hints, None);
    assert_eq!(limits.inc_width, Some(7));
    assert_eq!(limits.inc_height, Some(0xFFFE));
}

#[test]
fn position_is_kept_only_when_a_coordinate_is_positive() {
    let mut hints = raw();
    hints.position = Some((true, 0, 0));
    let limits = normalized_size_hints(hints, None);
    assert!(limits.by_user);
    assert_eq!(limits.pos, None);
    hints.position = Some((false, 0, 12));
    let limits = normalized_size_hints(hints, None);
    assert!(!limits.by_user);
    assert_eq!(limits.pos, Some(Pos { x: 0, y: 12 }));
}

#[test]
fn aspect_ratios_are_carried_as_given() {
    let mut hints = raw();
    let min = Ratio { numerator: 4, denominator: 3 };
    let max = Ratio { numerator: 16, denominator: 9 };
    hints.aspect = Some((min, max));
    let limits = normalized_size_hints(hints, None);
    assert_eq!(limits.min_ratio_vulgar, Some(min));
    assert_eq!(limits.max_ratio_vulgar, Some(max));
}

fn limits() -> SizeLimits {
    let mut hints = raw();
    hints.min_size = Some((50, 60));
    hints.max_size = Some((500, 400));
    hints.base_size = Some((10, 20));
    hints.size_increment = Some((7, 9));
    normalized_size_hints(hints, None)
}

#[test]
fn dimensions_are_kept_within_the_minimum_and_maximum() {
    let limits = limits();
    assert_eq!(size_within_limits(&limits, Dim { w: 20, h: 1000 }), Dim { w: 50, h: 400 });
    assert_eq!(size_within_limits(&limits, Dim { w: 120, h: 130 }), Dim { w: 120, h: 130 });
}

#[test]
fn dimensions_are_rounded_to_whole_increments_above_the_base() {
    let limits = limits();
    // 10 + 7 * 15 = 115 and 20 + 9 * 12 = 128.
    assert_eq!(size_to_increments(&limits, Dim { w: 120, h: 130 }), Dim { w: 115, h: 128 });
    // Below the base nothing is rounded, and negative sizes become zero.
    assert_eq!(size_to_increments(&limits, Dim { w: 5, h: -3 }), Dim { w: 5, h: 0 });
}

#[test]
fn refreshed_hints_say_whether_they_changed() {
    let mut hints = raw();
    hints.min_size = Some((50, 60));
    let first = refreshed_size_hints(Some(hints), None, &None);
    assert!(!first.0);
    let current = first.1;
    assert_eq!(current.unwrap().min_width, Some(50));
    let again = refreshed_size_hints(Some(hints), None, &current);
    assert!(again.0);
    hints.min_size = Some((51, 60));
    let changed = refreshed_size_hints(Some(hints), None, &current);
    assert!(!changed.0);
    assert_eq!(refreshed_size_hints(None, None, &None), (true, None));
    assert!(!refreshed_size_hints(None, None, &current).0);
}

#[test]
fn bringing_dimensions_within_limits_twice_changes_nothing() {
    let limits = limits();
    for dim in [Dim { w: 20, h: 1000 }, Dim { w: 120, h: 130 }, Dim { w: -4, h: 0 }] {
        let once = size_to_increments(&limits, size_within_limits(&limits, dim));
        let twice = size_to_increments(&limits, size_within_limits(&limits, once));
        assert_eq!(once, twice);
    }
}
