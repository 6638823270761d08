use wzrd::arrange::arrange;
use wzrd::change::Disposition;
use wzrd::client::Client;
use wzrd::cycle::Cycle;
use wzrd::dispatch::is_free;
use wzrd::dispatch::update_client_placement;
use wzrd::placement::Placement;
use wzrd::placement::PlacementRegion;
use wzrd::winsys::window::WindowType;
use wzrd::decoration::Decoration;
use wzrd::placement::PlacementTarget;
use wzrd::winsys::geometry::Region;
use wzrd::zone::ZoneChange;
use wzrd::error::StateChangeError;
use wzrd::layout::Layout;
use wzrd::layout::LayoutKind;
use wzrd::layout::LAYOUT_KIND_COUNT;
use wzrd::placement::PlacementMethod;
use wzrd::zone::Zone;
use wzrd::zone::ZoneContent;
use wzrd::zone::ZoneManager;

fn data() -> Vec<u32> {
    (0..LAYOUT_KIND_COUNT as u32).collect()
}

fn layout_content() -> ZoneContent<u32> {
    ZoneContent::Layout(Layout::new(data()), Cycle::new(Vec::new(), true))
}

fn subzones(zone: &Zone<u32>) -> Vec<u32> {
    match zone.content() {
        ZoneContent::Tab(c) | ZoneContent::Layout(_, c) => c.as_vec(),
        ZoneContent::Client(_) => panic!("a client holds no subzones"),
    }
}

fn active_subzone(zone: &Zone<u32>) -> Option<u32> {
    match zone.content() {
        ZoneContent::Tab(c) | ZoneContent::Layout(_, c) => c.active_element().copied(),
        ZoneContent::Client(_) => panic!("a client holds no subzones"),
    }
}

#[test]
fn layouts_switch_kinds_and_keep_data_per_kind() {
    let mut layout = Layout::new(data());
    assert_eq!(layout.kind(), LayoutKind::Stack);
    assert_eq!(layout.prev_kind(), LayoutKind::Stack);
    assert_eq!(*layout.data(), 8);
    assert_eq!(layout.set_kind(LayoutKind::Stack), Err(StateChangeError::EarlyStop));
    assert_eq!(layout.set_kind(LayoutKind::Monocle), Ok(LayoutKind::Stack));
    assert_eq!(layout.kind(), LayoutKind::Monocle);
    assert_eq!(layout.prev_kind(), LayoutKind::Stack);
    assert_eq!(*layout.data(), 5);
    assert_eq!(*layout.prev_data(), 8);
    *layout.data_mut() = 42;
    assert_eq!(*layout.data(), 42);
    assert_eq!(layout.config().persistent, LayoutKind::Monocle.config().persistent);
}

#[test]
fn new_zones_are_taken_in_by_their_parent() {
    let mut zm: ZoneManager<u32> = ZoneManager::new();
    let root = zm.new_zone(None, layout_content());
    let a = zm.new_zone(Some(root), ZoneContent::Client(0x10));
    let b = zm.new_zone(Some(root), ZoneContent::Client(0x20));
    assert_eq!((root, a, b), (1, 2, 3));
    assert_eq!(zm.parent_id(a), Some(root));
    assert_eq!(zm.parent_id(root), None);
    assert!(zm.is_cycle(root));
    assert!(!zm.is_cycle(a));
    assert_eq!(zm.nearest_cycle(a), root);
    assert_eq!(zm.nearest_cycle(root), root);
    assert_eq!(zm.next_cycle(a), Some(root));
    assert_eq!(zm.next_cycle(root), None);
    assert!(zm.zone_checked(9).is_none());
    assert_eq!(zm.zone(a).method(), PlacementMethod::Free);
    assert_eq!(subzones(zm.zone(root)), vec![a, b]);
}

#[test]
fn removing_and_activating_zones() {
    let mut zm: ZoneManager<u32> = ZoneManager::new();
    let root = zm.new_zone(None, layout_content());
    let tab = zm.new_zone(Some(root), ZoneContent::Tab(Cycle::new(Vec::new(), true)));
    let a = zm.new_zone(Some(tab), ZoneContent::Client(0x10));
    let b = zm.new_zone(Some(tab), ZoneContent::Client(0x20));
    let c = zm.new_zone(Some(root), ZoneContent::Client(0x30));
    assert_eq!(subzones(zm.zone(root)), vec![tab, c]);
    assert_eq!(active_subzone(zm.zone(root)), Some(c));
    zm.activate_zone(a);
    assert_eq!(active_subzone(zm.zone(tab)), Some(a));
    assert_eq!(active_subzone(zm.zone(root)), Some(tab));
    assert_eq!(zm.next_cycle(b), Some(tab));
    zm.remove_zone(b);
    assert_eq!(subzones(zm.zone(tab)), vec![a]);
    zm.remove_zone(tab);
    assert_eq!(subzones(zm.zone(root)), vec![tab, c]);
}

#[test]
fn layout_kinds_change_through_the_manager() {
    let mut zm: ZoneManager<u32> = ZoneManager::new();
    let root = zm.new_zone(None, layout_content());
    let a = zm.new_zone(Some(root), ZoneContent::Client(0x10));
    let tab = zm.new_zone(Some(root), ZoneContent::Tab(Cycle::new(Vec::new(), true)));
    assert_eq!(zm.set_kind(a, LayoutKind::Stack), Err(StateChangeError::EarlyStop));
    assert_eq!(zm.set_kind(a, LayoutKind::Center), Ok(LayoutKind::Stack));
    assert_eq!(zm.zone(root).kind(), Ok(LayoutKind::Center));
    assert_eq!(zm.active_data(a), Some(&8));
    assert_eq!(zm.active_prev_data(a), Some(&8));
    assert_eq!(zm.set_prev_kind(a), Ok(LayoutKind::Center));
    assert_eq!(zm.zone(root).kind(), Ok(LayoutKind::Stack));
    assert_eq!(zm.set_kind(tab, LayoutKind::Paper), Err(StateChangeError::InvalidCaller));
    assert_eq!(zm.zone(tab).kind(), Err(StateChangeError::InvalidCaller));
    assert_eq!(zm.active_layoutconfig(a), Some(LayoutKind::Stack.config()));
    assert_eq!(zm.active_layoutconfig(tab), None);
    assert_eq!(zm.cycle_config(a), Some((root, Some(LayoutKind::Stack.config()))));
    assert!(zm.is_within_persisent(0x99) == false);
    let t1 = zm.new_zone(Some(tab), ZoneContent::Client(0x40));
    assert!(zm.is_within_persisent(t1));
    assert_eq!(zm.is_within_persisent(a), LayoutKind::Stack.config().persistent);
}

#[test]
fn subzones_are_gathered_all_the_way_down() {
    let mut zm: ZoneManager<u32> = ZoneManager::new();
    let root = zm.new_zone(None, layout_content());
    let tab = zm.new_zone(Some(root), ZoneContent::Tab(Cycle::new(Vec::new(), true)));
    let a = zm.new_zone(Some(tab), ZoneContent::Client(0x10));
    let c = zm.new_zone(Some(root), ZoneContent::Client(0x30));
    let b = zm.new_zone(Some(tab), ZoneContent::Client(0x20));
    assert_eq!(zm.gather_subzones(root, false), vec![tab, c]);
    assert_eq!(zm.gather_subzones(root, true), vec![tab, c, a, b]);
    assert_eq!(zm.gather_subzones(tab, true), vec![a, b]);
    assert_eq!(zm.gather_subzones(a, true), Vec::<u32>::new());
    assert_eq!(zm.gather_subzones(77, true), Vec::<u32>::new());
    assert!(zm.has_nearest_cycle(a));
    assert!(!zm.has_nearest_cycle(77));
}

#[test]
fn zones_change_one_aspect_at_a_time() {
    let mut zm: ZoneManager<u32> = ZoneManager::new();
    let root = zm.new_zone(None, layout_content());
    let a = zm.new_zone(Some(root), ZoneContent::Client(0x10));
    assert!(zm.zone(a).is_visible());
    zm.change_zone(a, ZoneChange::Visible(false));
    zm.change_zone(a, ZoneChange::Region(Region::new(1, 2, 3, 4)));
    zm.change_zone(a, ZoneChange::Method(PlacementMethod::Tile));
    zm.change_zone(a, ZoneChange::Decoration(Decoration::free_decoration()));
    zm.change_zone(99, ZoneChange::Visible(false));
    assert!(!zm.zone(a).is_visible());
    assert_eq!(zm.zone(a).region(), Region::new(1, 2, 3, 4));
    assert_eq!(zm.zone(a).method(), PlacementMethod::Tile);
    assert_eq!(zm.zone(a).decoration(), Decoration::free_decoration());
    assert_eq!(zm.zone(root).region(), Region::new(0, 0, 0, 0));
    assert_eq!(PlacementTarget::from_zone_content(zm.zone(a).content()), PlacementTarget::Client(0x10));
    assert_eq!(PlacementTarget::from_zone_content(zm.zone(root).content()), PlacementTarget::Layout);
    assert!(zm.zone(a) == zm.zone(a));
    assert!(zm.zone(a) != zm.zone(root));
}

#[test]
fn a_zone_made_and_let_go_of_leaves_its_parent_as_it_was() {
    let mut zm: ZoneManager<u32> = ZoneManager::new();
    let root = zm.new_zone(None, layout_content());
    let a = zm.new_zone(Some(root), ZoneContent::Client(0x10));
    let b = zm.new_zone(Some(root), ZoneContent::Client(0x20));
    zm.activate_zone(a);
    assert_eq!(active_subzone(zm.zone(root)), Some(a));
    let c = zm.new_zone(Some(root), ZoneContent::Client(0x30));
    assert_eq!(subzones(zm.zone(root)), vec![a, c, b]);
    assert_eq!(zm.nearest_cycle(c), root);
    zm.remove_zone(c);
    assert_eq!(subzones(zm.zone(root)), vec![a, b]);
    assert_eq!(active_subzone(zm.zone(root)), Some(a));
}

#[test]
fn placements_are_recorded_on_client_and_zone() {
    let mut zm: ZoneManager<u32> = ZoneManager::new();
    let root = zm.new_zone(None, layout_content());
    let z = zm.new_zone(Some(root), ZoneContent::Client(0x10));
    let mut client = Client::new(z, 0x10, 0x11, String::new(), String::new(), String::new(), WindowType::Normal, None, None);
    assert!(is_free(&client, &zm));
    let tiled = Placement {
        method: PlacementMethod::Tile,
        kind: PlacementTarget::Client(0x10),
        zone: z,
        region: PlacementRegion::NewRegion(Region::new(10, 20, 300, 400)),
        decoration: Decoration::no_decoration(),
    };
    update_client_placement(&mut client, &mut zm, &tiled);
    assert_eq!(client.tile_region(), Region::new(10, 20, 300, 400));
    assert_eq!(zm.zone(z).method(), PlacementMethod::Tile);
    assert!(!is_free(&client, &zm));
    let free = Placement { method: PlacementMethod::Free, region: PlacementRegion::NewRegion(Region::new(1, 2, 30, 40)), ..tiled };
    update_client_placement(&mut client, &mut zm, &free);
    assert_eq!(client.free_region(), Region::new(1, 2, 30, 40));
    assert_eq!(zm.zone(z).region(), Region::new(1, 2, 30, 40));
    assert_eq!(zm.zone(z).method(), PlacementMethod::Free);
    let hidden = Placement { region: PlacementRegion::NoRegion, method: PlacementMethod::Tile, ..tiled };
    update_client_placement(&mut client, &mut zm, &hidden);
    assert_eq!(zm.zone(z).method(), PlacementMethod::Free);
}

#[test]
fn trees_are_arranged_through_their_layouts_and_tabs() {
    let mut zm: ZoneManager<u32> = ZoneManager::new();
    let root = zm.new_zone(None, layout_content());
    let a = zm.new_zone(Some(root), ZoneContent::Client(0x10));
    let tab = zm.new_zone(Some(root), ZoneContent::Tab(Cycle::new(Vec::new(), true)));
    let t1 = zm.new_zone(Some(tab), ZoneContent::Client(0x20));
    zm.change_zone(root, ZoneChange::Region(Region::new(0, 0, 200, 100)));
    let apply = |_l: &Layout<u32>, region: Region, active: Vec<bool>| {
        let n = active.len() as i32;
        let w = region.dim.w / n;
        let placed: Vec<(Disposition, bool)> = (0..n)
            .map(|i| (Disposition::Changed(Region::new(region.pos.x + i * w, region.pos.y, w, region.dim.h), Decoration::no_decoration()), true))
            .collect();
        (PlacementMethod::Tile, placed)
    };
    let placements = arrange(&mut zm, a, &Vec::new(), &apply);
    assert_eq!(placements.len(), 4);
    assert_eq!(placements[0].zone, root);
    assert_eq!(placements[0].kind, PlacementTarget::Layout);
    assert_eq!(placements[1].zone, a);
    assert_eq!(placements[1].region, PlacementRegion::NewRegion(Region::new(0, 0, 100, 100)));
    assert_eq!(placements[2].zone, tab);
    assert_eq!(placements[2].kind, PlacementTarget::Tab(1));
    assert_eq!(placements[3].zone, t1);
    assert_eq!(placements[3].region, PlacementRegion::NewRegion(Region::new(100, 0, 98, 98)));
    assert_eq!(zm.zone(tab).region(), Region::new(100, 0, 100, 100));
    assert_eq!(zm.zone(t1).method(), PlacementMethod::Free);
    let ignored = arrange(&mut zm, root, &vec![a], &apply);
    assert_eq!(ignored.len(), 3);
    assert_eq!(ignored[1].zone, tab);
}
