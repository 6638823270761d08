use wzrd::change::Direction;
use wzrd::change::Toggle;
use wzrd::client::OutsideState;
use wzrd::decoration::Border;
use wzrd::decoration::ColorScheme;
use wzrd::decoration::Decoration;
use wzrd::decoration::Frame;
use wzrd::identify::Identify;
use wzrd::layout::adjust_for_border;
use wzrd::layout::adjust_for_gap_size;
use wzrd::layout::adjust_for_margin;
use wzrd::layout::stack_split;
use wzrd::layout::LayoutConfig;
use wzrd::layout::LayoutKind;
use wzrd::partition::Partition;
use wzrd::placement::PlacementMethod;
use wzrd::rule::Rules;
use wzrd::winsys::geometry::Corner;
use wzrd::winsys::geometry::Dim;
use wzrd::winsys::geometry::Edge;
use wzrd::winsys::geometry::Padding;
use wzrd::winsys::geometry::Region;
use wzrd::winsys::input::Grip;
use wzrd::winsys::input::Button;
use wzrd::winsys::input::InputError;
use wzrd::winsys::input::Modifier;
use wzrd::winsys::screen::Screen;

#[test]
fn toggles_and_directions() {
    assert!(Toggle::On.eval(false));
    assert!(!Toggle::Off.eval(true));
    assert!(Toggle::Reverse.eval(false));
    assert!(!Toggle::Reverse.eval(true));
    assert_eq!(Toggle::from(true), Toggle::On);
    assert_eq!(Toggle::from(false), Toggle::Off);
    assert_eq!(Direction::Forward.rev(), Direction::Backward);
    assert_eq!(Direction::Forward.rev().rev(), Direction::Forward);
}

#[test]
fn outside_state_flips_focus() {
    assert_eq!(!OutsideState::Focused, OutsideState::Unfocused);
    assert_eq!(!OutsideState::UnfocusedSticky, OutsideState::FocusedSticky);
    assert_eq!(!OutsideState::FocusedDisowned, OutsideState::UnfocusedDisowned);
    assert_eq!(!OutsideState::Urgent, OutsideState::Urgent);
    assert_eq!(!!OutsideState::Unfocused, OutsideState::Unfocused);
}

#[test]
fn decoration_extents() {
    assert_eq!(Decoration::no_decoration().extents(), Padding::with_each_edge(0));
    assert_eq!(
        Decoration::free_decoration().extents(),
        Padding { left: 3, right: 1, top: 1, bottom: 1 }
    );
    let colors = ColorScheme::default_scheme();
    assert_eq!(colors.focused, 0xe78a53);
    let both = Decoration {
        border: Some(Border { width: 4, colors }),
        frame: Some(Frame { extents: Padding { left: 0, right: 0, top: 3, bottom: 0 }, colors }),
    };
    assert_eq!(both.extents(), Padding { left: 1, right: 1, top: 4, bottom: 1 });
    assert_eq!(Decoration::default(), Decoration::no_decoration());
}

#[test]
fn layout_kinds() {
    assert_eq!(LayoutKind::Float.symbol(), 'f');
    assert_eq!(LayoutKind::SBStack.symbol(), 'B');
    assert_eq!(LayoutKind::Monocle.symbol(), '%');
    assert_eq!(LayoutKind::Center.name(), "Center");
    assert_eq!(LayoutKind::BLSingleFloat.name(), "BLSingleFloat");
    let paper = LayoutKind::Paper.config();
    assert_eq!(paper.method, PlacementMethod::Tile);
    assert!(paper.persistent && !paper.wraps && paper.gap);
    assert_eq!(paper.decoration.extents(), Padding { left: 1, right: 1, top: 0, bottom: 0 });
    let float = LayoutKind::Float.config();
    assert_eq!(float.method, PlacementMethod::Free);
    assert_eq!(float.decoration, Decoration::free_decoration());
    assert!(!LayoutKind::SStack.config().gap);
    assert_eq!(LayoutKind::all().len(), 16);
    assert_eq!(LayoutConfig::default().decoration, Decoration::no_decoration());
}

#[test]
fn layout_region_adjustments() {
    assert_eq!(stack_split(3, 1), (1, 2));
    assert_eq!(stack_split(1, 3), (1, 0));
    assert_eq!(stack_split(0, 0), (0, 0));
    let r = Region::new(0, 0, 100, 80);
    assert_eq!(
        adjust_for_margin(r, &Padding { left: 5, right: 10, top: 2, bottom: 3 }),
        Region::new(5, 2, 85, 75)
    );
    let mut g = r;
    adjust_for_gap_size(&mut g, 10, &Dim { w: 25, h: 25 });
    assert_eq!(g, Region::new(10, 10, 80, 60));
    let mut small = Region::new(0, 0, 40, 100);
    adjust_for_gap_size(&mut small, 10, &Dim { w: 25, h: 25 });
    assert_eq!(small, Region::new(7, 10, 25, 80));
    let mut b = r;
    adjust_for_border(&mut b, 45, &Dim { w: 25, h: 25 });
    assert_eq!(b, Region::new(0, 0, 25, 25));
    let mut b2 = r;
    adjust_for_border(&mut b2, 3, &Dim { w: 25, h: 25 });
    assert_eq!(b2, Region::new(0, 0, 94, 74));
}

#[test]
fn rules_default_to_false() {
    let rules = Rules::default();
    assert!(!rules.float() && !rules.center() && !rules.fullscreen());
    let set = Rules { float: Some(true), center: Some(false), fullscreen: Some(true), workspace: None, context: None };
    assert!(set.float() && !set.center() && set.fullscreen());
}

#[test]
fn partitions_compare_by_screen_number() {
    let p = Partition::new(Screen::new(Region::new(0, 0, 800, 600), 3), 1);
    let q = Partition::new(Screen::new(Region::new(800, 0, 800, 600), 3), 2);
    assert_eq!(p.index(), 1);
    assert_eq!(p.id(), 3);
    assert_eq!(p.screen().number(), 3);
    assert_eq!(q.full_region(), Region::new(800, 0, 800, 600));
    assert_eq!(q.placeable_region(), Region::new(800, 0, 800, 600));
    assert!(p == q);
}

#[test]
fn grips_and_modifiers() {
    assert!(Grip::Edge(Edge::Top).is_top_grip());
    assert!(Grip::Corner(Corner::TopRight).is_top_grip());
    assert!(!Grip::Corner(Corner::BottomLeft).is_top_grip());
    assert!(Grip::Corner(Corner::BottomLeft).is_left_grip());
    assert!(!Grip::Edge(Edge::Right).is_left_grip());
    assert_eq!(Modifier::try_from("C"), Ok(Modifier::Ctrl));
    assert_eq!(Modifier::try_from("AltGr"), Ok(Modifier::Alt));
    assert_eq!(Modifier::try_from("Scroll"), Ok(Modifier::ScrollLock));
    assert_eq!(Modifier::try_from("Q"), Err(InputError::UnresolvedModifier));
    assert_eq!(Modifier::Super.mask(), 16);
}

#[test]
fn buttons_and_their_numbers() {
    assert_eq!(u8::from(Button::Left), 1);
    assert_eq!(u8::from(Button::Forward), 9);
    assert_eq!(Button::try_from(5u8), Ok(Button::ScrollDown));
    assert_eq!(Button::try_from(8u8), Ok(Button::Backward));
    assert_eq!(Button::try_from(6u8), Err(InputError::UnresolvedButton));
    for b in [Button::Left, Button::Middle, Button::Right, Button::ScrollUp, Button::ScrollDown, Button::Backward, Button::Forward] {
        assert_eq!(Button::try_from(u8::from(b)), Ok(b));
    }
}

use wzrd::change::Disposition;
use wzrd::layout::bstack_arrangement;
use wzrd::layout::center_arrangement;
use wzrd::layout::free_arrangement;
use wzrd::layout::monocle_arrangement;
use wzrd::layout::paper_arrangement;
use wzrd::layout::single_free_arrangement;
use wzrd::layout::stack_arrangement;

fn regions(arrangement: Vec<(Disposition, bool)>) -> Vec<Region> {
    arrangement
        .into_iter()
        .map(|(d, _)| match d {
            Disposition::Changed(r, _) => r,
            Disposition::Unchanged(_) => panic!("unchanged"),
        })
        .collect()
}

#[test]
fn floating_arrangements_keep_places() {
    let deco = Decoration::free_decoration();
    assert_eq!(free_arrangement(deco, 2), vec![(Disposition::Unchanged(deco), true); 2]);
    assert_eq!(
        single_free_arrangement(deco, &vec![false, true]),
        vec![(Disposition::Unchanged(deco), false), (Disposition::Unchanged(deco), true)]
    );
}

#[test]
fn monocle_and_center_fill_the_region() {
    let r = Region::new(0, 0, 100, 80);
    assert_eq!(monocle_arrangement(r, 2), vec![(Disposition::Changed(r, Decoration::no_decoration()), true); 2]);
    assert_eq!(regions(center_arrangement(r, Dim { w: 40, h: 20 }, 1)), vec![Region::new(30, 30, 40, 20)]);
}

#[test]
fn paper_columns() {
    let r = Region::new(0, 0, 100, 50);
    assert_eq!(regions(paper_arrangement(r, 60, &vec![true])), vec![r]);
    assert_eq!(
        regions(paper_arrangement(r, 60, &vec![false, true, false])),
        vec![Region::new(0, 0, 20, 50), Region::new(20, 0, 60, 50), Region::new(80, 0, 20, 50)]
    );
    assert_eq!(
        regions(paper_arrangement(r, 60, &vec![true, false, false])),
        vec![Region::new(0, 0, 60, 50), Region::new(60, 0, 20, 50), Region::new(80, 0, 20, 50)]
    );
}

#[test]
fn stack_and_bottom_stack() {
    let r = Region::new(0, 0, 100, 90);
    assert_eq!(regions(stack_arrangement(r, 1, 1, 50)), vec![r]);
    assert_eq!(
        regions(stack_arrangement(r, 3, 1, 50)),
        vec![Region::new(0, 0, 50, 90), Region::new(50, 0, 50, 45), Region::new(50, 45, 50, 45)]
    );
    assert_eq!(
        regions(stack_arrangement(r, 2, 2, 50)),
        vec![Region::new(0, 0, 100, 45), Region::new(0, 45, 100, 45)]
    );
    assert_eq!(
        regions(stack_arrangement(r, 2, 0, 50)),
        vec![Region::new(0, 0, 100, 45), Region::new(0, 45, 100, 45)]
    );
    assert_eq!(
        regions(bstack_arrangement(r, 3, 1, 40)),
        vec![Region::new(0, 0, 100, 40), Region::new(0, 40, 50, 50), Region::new(50, 40, 50, 50)]
    );
}

use wzrd::layout::apply_gaps;
use wzrd::layout::arrangement_region;

#[test]
fn margins_and_gaps_around_arrangements() {
    let margin = Padding { left: 10, right: 10, top: 5, bottom: 5 };
    let r = Region::new(0, 0, 200, 100);
    assert_eq!(arrangement_region(&LayoutKind::Stack.config(), r, &margin), Region::new(10, 5, 180, 90));
    assert_eq!(arrangement_region(&LayoutKind::Float.config(), r, &margin), r);
    let colors = ColorScheme::default_scheme();
    let bordered = Decoration { border: Some(Border { width: 2, colors }), frame: None };
    let items = vec![
        (Disposition::Changed(r, bordered), true),
        (Disposition::Changed(r, Decoration::no_decoration()), false),
        (Disposition::Unchanged(bordered), true),
    ];
    assert_eq!(
        apply_gaps(items.clone(), true, 5),
        vec![
            (Disposition::Changed(Region::new(7, 7, 186, 86), bordered), true),
            (Disposition::Changed(Region::new(5, 5, 190, 90), Decoration::no_decoration()), false),
            (Disposition::Unchanged(bordered), true),
        ]
    );
    assert_eq!(apply_gaps(items.clone(), false, 5)[1], items[1]);
}

#[test]
fn padding_grows_by_border_frame_and_decoration() {
    let pad = Padding { left: 1, right: 1, top: 1, bottom: 1 };
    let border = Border { width: 7, colors: ColorScheme::default() };
    let frame = Frame {
        extents: Padding { left: 3, right: 1, top: 2, bottom: 1 },
        colors: ColorScheme::default(),
    };
    assert_eq!(pad + border, Padding { left: 2, right: 2, top: 2, bottom: 2 });
    assert_eq!(pad + frame, Padding { left: 4, right: 2, top: 3, bottom: 2 });
    let both = Decoration { border: Some(border), frame: Some(frame) };
    assert_eq!(pad + both, Padding { left: 5, right: 3, top: 4, bottom: 3 });
    assert_eq!(pad + Decoration::default(), pad);
}
