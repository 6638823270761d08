use wzrd::change::Change;
use wzrd::change::Direction;
use wzrd::client::Client;
use wzrd::cycle::Cycle;
use wzrd::cycle::InsertPos;
use wzrd::error::StateChangeError;
use wzrd::layout::Layout;
use wzrd::layout::LayoutData;
use wzrd::layout::LayoutKind;
use wzrd::layout::LAYOUT_KIND_COUNT;
use wzrd::winsys::geometry::Edge;
use wzrd::winsys::geometry::Padding;
use wzrd::winsys::window::WindowType;
use wzrd::workspace::ClientSelector;
use wzrd::workspace::Workspace;
use wzrd::zone::ZoneContent;
use wzrd::zone::ZoneManager;

use std::collections::HashMap;

fn defaults() -> Vec<LayoutData<u8>> {
    LayoutKind::all().into_iter().map(|kind| kind.default_data_with(50u8)).collect()
}

fn setup() -> (Workspace, ZoneManager<LayoutData<u8>>) {
    let mut zm = ZoneManager::new();
    let root = zm.new_zone(
        None,
        ZoneContent::Layout(Layout::new(defaults()), Cycle::new(Vec::new(), true)),
    );
    (Workspace::new(String::from("main"), 0, root), zm)
}

fn data(zm: &ZoneManager<LayoutData<u8>>, ws: &Workspace) -> LayoutData<u8> {
    *zm.active_data(ws.active_focus_zone().unwrap()).unwrap()
}

#[test]
fn default_data_by_kind() {
    assert_eq!(defaults().len(), LAYOUT_KIND_COUNT);
    let center = LayoutKind::Center.default_data_with(40u8);
    assert_eq!(center.main_count, 5);
    assert_eq!(center.gap_size, 0);
    assert_eq!(center.margin, Padding { left: 0, right: 0, top: 0, bottom: 0 });
    assert_eq!(LayoutKind::Stack.default_data_with(50u8).main_count, 1);
}

#[test]
fn gap_sizes_change_within_limits() {
    let (ws, mut zm) = setup();
    assert_eq!(ws.change_gap_size(Change::Inc(10), &mut zm), Ok(()));
    assert_eq!(data(&zm, &ws).gap_size, 10);
    assert_eq!(ws.change_gap_size(Change::Inc(1000), &mut zm), Ok(()));
    assert_eq!(data(&zm, &ws).gap_size, 300);
    assert_eq!(ws.change_gap_size(Change::Inc(1), &mut zm), Err(StateChangeError::LimitReached));
    assert_eq!(ws.change_gap_size(Change::Dec(1000), &mut zm), Ok(()));
    assert_eq!(data(&zm, &ws).gap_size, 0);
    assert_eq!(ws.change_gap_size(Change::Dec(1), &mut zm), Err(StateChangeError::LimitReached));
    assert_eq!(ws.change_gap_size(Change::Inc(7), &mut zm), Ok(()));
    assert_eq!(ws.reset_gap_size(&mut zm), Ok(()));
    assert_eq!(data(&zm, &ws).gap_size, 0);
}

#[test]
fn main_counts_change_within_limits() {
    let (ws, mut zm) = setup();
    assert_eq!(data(&zm, &ws).main_count, 1);
    assert_eq!(ws.change_main_count(Change::Inc(3), &mut zm), Ok(()));
    assert_eq!(data(&zm, &ws).main_count, 4);
    assert_eq!(ws.change_main_count(Change::Inc(100), &mut zm), Ok(()));
    assert_eq!(data(&zm, &ws).main_count, 15);
    assert_eq!(ws.change_main_count(Change::Inc(1), &mut zm), Err(StateChangeError::LimitReached));
    assert_eq!(ws.change_main_count(Change::Dec(15), &mut zm), Ok(()));
    assert_eq!(data(&zm, &ws).main_count, 0);
    assert_eq!(ws.change_main_count(Change::Dec(0), &mut zm), Err(StateChangeError::LimitReached));
}

#[test]
fn margins_change_within_limits() {
    let (ws, mut zm) = setup();
    assert_eq!(ws.change_margin(Edge::Left, Change::Inc(20), &mut zm), Ok(()));
    assert_eq!(data(&zm, &ws).margin.left, 20);
    assert_eq!(ws.change_margin(Edge::Top, Change::Inc(1000), &mut zm), Ok(()));
    assert_eq!(data(&zm, &ws).margin.top, 400);
    assert_eq!(ws.change_margin(Edge::Top, Change::Inc(5), &mut zm), Err(StateChangeError::LimitReached));
    assert_eq!(ws.change_margin(Edge::Left, Change::Dec(50), &mut zm), Ok(()));
    assert_eq!(data(&zm, &ws).margin.left, 0);
    assert_eq!(ws.change_margin(Edge::Right, Change::Dec(5), &mut zm), Err(StateChangeError::LimitReached));
    assert_eq!(ws.reset_margin(&mut zm), Ok(()));
    assert_eq!(data(&zm, &ws).margin, Padding { left: 0, right: 0, top: 0, bottom: 0 });
}

#[test]
fn previous_layout_data_is_copied_back() {
    let (ws, mut zm) = setup();
    let root = ws.root_zone();
    assert_eq!(ws.change_gap_size(Change::Inc(12), &mut zm), Ok(()));
    assert_eq!(zm.set_kind(root, LayoutKind::Monocle), Ok(LayoutKind::Stack));
    assert_eq!(data(&zm, &ws).gap_size, 12);
    assert_eq!(ws.change_gap_size(Change::Inc(3), &mut zm), Ok(()));
    assert_eq!(ws.copy_prev_layout_data(&mut zm), Ok(()));
    assert_eq!(data(&zm, &ws).gap_size, 12);
}

#[test]
fn tab_zones_stop_early() {
    let (mut ws, mut zm) = setup();
    let root = ws.root_zone();
    let tab = zm.new_zone(Some(root), ZoneContent::Tab(Cycle::new(Vec::new(), true)));
    ws.add_zone(tab, &InsertPos::Back);
    assert_eq!(ws.active_focus_zone(), Some(tab));
    assert_eq!(ws.change_gap_size(Change::Inc(1), &mut zm), Err(StateChangeError::EarlyStop));
    assert_eq!(ws.reset_margin(&mut zm), Err(StateChangeError::EarlyStop));
    assert_eq!(ws.copy_prev_layout_data(&mut zm), Err(StateChangeError::EarlyStop));
}

#[test]
fn spawn_zones_cycle_to_the_next_zone_holding_subzones() {
    let (mut ws, mut zm) = setup();
    let root = ws.root_zone();
    let client_zone = zm.new_zone(Some(root), ZoneContent::Client(0x10));
    let tab = zm.new_zone(Some(root), ZoneContent::Tab(Cycle::new(Vec::new(), true)));
    ws.add_zone(client_zone, &InsertPos::Back);
    ws.add_zone(tab, &InsertPos::Back);
    assert_eq!(ws.active_spawn_zone(), Some(tab));
    assert_eq!(ws.cycle_zones(Direction::Forward, &zm), Some((tab, root)));
    assert_eq!(ws.cycle_zones(Direction::Forward, &zm), Some((root, tab)));
    assert_eq!(ws.cycle_zones(Direction::Backward, &zm), Some((tab, root)));
}

#[test]
fn master_clients_and_focus_cycling() {
    let (mut ws, mut zm) = setup();
    let root = ws.root_zone();
    let mut client_map = HashMap::new();
    for w in [0x10u32, 0x20, 0x30] {
        let zone = zm.new_zone(Some(root), ZoneContent::Client(w));
        let client = Client::new(
            zone,
            w,
            w + 1,
            String::new(),
            String::new(),
            String::new(),
            WindowType::Normal,
            None,
            None,
        );
        client_map.insert(w, client);
        ws.add_client(w, &InsertPos::Back);
    }
    assert_eq!(ws.get_client_for(ClientSelector::AtMaster, &zm), Some(0x20));
    assert_eq!(ws.get_client_for(ClientSelector::First, &zm), Some(0x10));
    assert_eq!(ws.get_client_for(ClientSelector::AtActive, &zm), Some(0x30));
    assert_eq!(ws.cycle_focus(Direction::Backward, &client_map, &zm), Some((0x30, 0x20)));
    assert_eq!(ws.focused_client(), Some(0x20));
    assert_eq!(zm.set_kind(root, LayoutKind::Monocle), Ok(LayoutKind::Stack));
    let wraps = LayoutKind::Monocle.config().wraps;
    assert_eq!(ws.cycle_focus(Direction::Forward, &client_map, &zm), Some((0x20, 0x30)));
    let wrapped = ws.cycle_focus(Direction::Forward, &client_map, &zm);
    if wraps {
        assert_eq!(wrapped, Some((0x30, 0x10)));
    } else {
        assert_eq!(wrapped, None);
    }
}

#[test]
fn each_client_is_handed_over_in_order() {
    let (mut ws, mut zm) = setup();
    let root = ws.root_zone();
    let mut client_map = HashMap::new();
    for w in [0x10u32, 0x20] {
        let zone = zm.new_zone(Some(root), ZoneContent::Client(w));
        client_map.insert(
            w,
            Client::new(zone, w, w + 1, String::new(), String::new(), String::new(), WindowType::Normal, None, None),
        );
        ws.add_client(w, &InsertPos::Back);
    }
    let seen = std::cell::RefCell::new(Vec::new());
    ws.on_each_client(&client_map, |client: &Client| seen.borrow_mut().push(client.window()));
    assert_eq!(seen.into_inner(), vec![0x10, 0x20]);
}
