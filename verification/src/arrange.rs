use vstd::prelude::*;

use crate::change::Disposition;
use crate::decoration::Border;
use crate::decoration::ColorScheme;
use crate::decoration::Decoration;
use crate::decoration::default_colors;
use crate::layout::adjust_for_border;
use crate::layout::config_of;
use crate::layout::min_zone_dimensions;
use crate::layout::min_zone_dim;
use crate::layout::within_border;
use crate::layout::Layout;
use crate::placement::Placement;
use crate::placement::PlacementMethod;
use crate::placement::PlacementRegion;
use crate::placement::PlacementTarget;
use crate::placement::ZoneId;
use crate::winsys::geometry::Region;
use crate::zone::lemma_changed;
use crate::zone::lemma_gathered_known;
use crate::zone::nearest_cycle_of;
use crate::zone::same_tree;
use crate::zone::zone_ok;
use crate::zone::ZoneChange;
use crate::zone::ZoneContent;
use crate::zone::ZoneManager;
use crate::zone::Zone;
use crate::zone::gathered;

verus! {

/// What placing a zone holding `content` positions.
pub open spec fn content_target<D>(content: ZoneContent<D>) -> PlacementTarget {
    match content {
        ZoneContent::Client(w) => PlacementTarget::Client(w),
        ZoneContent::Tab(c) => PlacementTarget::Tab(c.elems().len() as usize),
        ZoneContent::Layout(..) => PlacementTarget::Layout,
    }
}

/// Where a placement by `method` puts its target: a floating one where it floats, a tiled one
/// in `region`.
pub open spec fn placed_region_spec(method: PlacementMethod, region: Region) -> PlacementRegion {
    if method == PlacementMethod::Free {
        PlacementRegion::FreeRegion
    } else {
        PlacementRegion::NewRegion(region)
    }
}

fn placed_region(method: PlacementMethod, region: Region) -> (r: PlacementRegion)
    ensures
        r == placed_region_spec(method, region),
{
    if method == PlacementMethod::Free {
        PlacementRegion::FreeRegion
    } else {
        PlacementRegion::NewRegion(region)
    }
}

/// Whether `id` is among `to_ignore`.
fn ignored(to_ignore: &Vec<ZoneId>, id: ZoneId) -> (r: bool)
    ensures
        r == to_ignore@.contains(id),
{
    let mut i: usize = 0;
    while i < to_ignore.len()
        invariant
            i <= to_ignore@.len(),
            forall|j: int| 0 <= j < i ==> to_ignore@[j] != id,
        decreases to_ignore@.len() - i,
    {
        if to_ignore[i] == id {
            return true;
        }
        i = i + 1;
    }
    false
}

/// The subzones of `elems` that an arrangement goes on with, in order: those not among
/// `to_ignore`, or all of them where `keep_all`.
pub open spec fn kept(elems: Seq<ZoneId>, to_ignore: Seq<ZoneId>, keep_all: bool) -> Seq<ZoneId>
    decreases elems.len(),
{
    if elems.len() == 0 {
        Seq::empty()
    } else {
        let rest = kept(elems.drop_last(), to_ignore, keep_all);
        if keep_all || !to_ignore.contains(elems.last()) {
            rest.push(elems.last())
        } else {
            rest
        }
    }
}

/// Which of `subs` is the active one.
pub open spec fn active_map_of(subs: Seq<ZoneId>, active: Option<ZoneId>) -> Seq<bool> {
    Seq::new(subs.len(), |i: int| Some(subs[i]) == active)
}

/// `apply` may be called on any layout, region and active map, and gives the same placement
/// method and dispositions for the same layout, region and active map.
pub open spec fn applies_as_function<D, A: Fn(&Layout<D>, Region, Vec<bool>) -> (PlacementMethod, Vec<(Disposition, bool)>)>(apply: A) -> bool {
    &&& forall|l: &Layout<D>, reg: Region, m: Vec<bool>| #[trigger] apply.requires((l, reg, m))
    &&& forall|
        l: &Layout<D>,
        reg: Region,
        m1: Vec<bool>,
        m2: Vec<bool>,
        r1: (PlacementMethod, Vec<(Disposition, bool)>),
        r2: (PlacementMethod, Vec<(Disposition, bool)>),
    |
        m1@ == m2@ && #[trigger] apply.ensures((l, reg, m1), r1) && #[trigger] apply.ensures(
            (l, reg, m2),
            r2,
        ) ==> r1.0 == r2.0 && r1.1@ == r2.1@
}

/// What `apply` gives for layout `l` on `region` with active map `map`: its placement method and
/// how it disposes of each zone.
pub open spec fn applied<D, A: Fn(&Layout<D>, Region, Vec<bool>) -> (PlacementMethod, Vec<(Disposition, bool)>)>(
    apply: A,
    l: &Layout<D>,
    region: Region,
    map: Seq<bool>,
) -> (PlacementMethod, Seq<(Disposition, bool)>) {
    let r = choose|r: (PlacementMethod, Vec<(Disposition, bool)>)| #[trigger] yields(apply, l, region, map, r);
    (r.0, r.1@)
}

/// `apply` may give `r` for layout `l` on `region` with an active map whose view is `map`.
pub open spec fn yields<D, A: Fn(&Layout<D>, Region, Vec<bool>) -> (PlacementMethod, Vec<(Disposition, bool)>)>(
    apply: A,
    l: &Layout<D>,
    region: Region,
    map: Seq<bool>,
    r: (PlacementMethod, Vec<(Disposition, bool)>),
) -> bool {
    exists|m: Vec<bool>| m@ == map && #[trigger] apply.ensures((l, region, m), r)
}

/// The region the subzones of a tab take: `region` within a border of 1 (where its dimensions
/// leave room for one).
pub open spec fn tab_inner(region: Region) -> Region {
    if region.dim.w >= i32::MIN + 2 && region.dim.h >= i32::MIN + 2 {
        within_border(region, 1, min_zone_dim())
    } else {
        region
    }
}

/// The decoration of the subzones of a tab: a border of 1 in the default colors.
pub open spec fn tab_decoration() -> Decoration {
    Decoration { frame: None, border: Some(Border { width: 1, colors: default_colors() }) }
}

/// The changes that make the zones of `g` visible as `visible`, in `inner`, tiled.
pub open spec fn tab_changes(g: Seq<ZoneId>, visible: bool, inner: Region) -> Seq<(ZoneId, ZoneChange)>
    decreases g.len(),
{
    if g.len() == 0 {
        Seq::empty()
    } else {
        tab_changes(g.drop_last(), visible, inner) + seq![
            (g.last(), ZoneChange::Visible(visible)),
            (g.last(), ZoneChange::Region(inner)),
            (g.last(), ZoneChange::Method(PlacementMethod::Tile)),
        ]
    }
}

/// The placement of zone `id` of `z` where it is hidden.
pub open spec fn hidden_placement<D>(z: Map<ZoneId, Zone<D>>, id: ZoneId, method: PlacementMethod, decoration: Decoration) -> Placement {
    Placement { method, kind: content_target(z[id].holds()), zone: id, region: PlacementRegion::NoRegion, decoration }
}

/// What the first `k` of the subzones `subs` of a layout give, disposed of as `app` says and
/// placed by `method`: the placements of the hidden ones and everything below them, the changes
/// that hide what is below them, and the visible ones with their regions and decorations.
pub open spec fn hidden<D>(
    z: Map<ZoneId, Zone<D>>,
    fresh: ZoneId,
    subs: Seq<ZoneId>,
    app: Seq<(Disposition, bool)>,
    method: PlacementMethod,
    k: int,
) -> (Seq<Placement>, Seq<(ZoneId, ZoneChange)>, Seq<(ZoneId, Region, Decoration)>)
    decreases k,
{
    if k <= 0 {
        (Seq::empty(), Seq::empty(), Seq::empty())
    } else {
        let prev = hidden(z, fresh, subs, app, method, k - 1);
        let sub = subs[k - 1];
        let (disposition, visible) = app[k - 1];
        let (sub_region, sub_decoration) = match disposition {
            Disposition::Unchanged(d) => (z[sub].area(), d),
            Disposition::Changed(r, d) => (r, d),
        };
        if !visible {
            let g = gathered(z, fresh, sub, true);
            (
                prev.0.push(hidden_placement(z, sub, method, sub_decoration)) + Seq::new(
                    g.len(),
                    |t: int| hidden_placement(z, g[t], method, sub_decoration),
                ),
                prev.1 + Seq::new(g.len(), |t: int| (g[t], ZoneChange::Visible(false))),
                prev.2,
            )
        } else {
            (prev.0, prev.1, prev.2.push((sub, sub_region, sub_decoration)))
        }
    }
}

/// The placements and changes of arranging zone `id` of `z` (zones up to `fresh`) and
/// everything below it within `region`, with `decoration` and by `method`, leaving out the
/// subzones of `to_ignore` (but under single layouts); layouts dispose of their subzones as
/// `apply` gives. The placements: the zone's own, then (under a layout) those of its hidden
/// subzones and what is below them, then those of its subzones in turn. The changes, made in
/// order: those below, then the zone's own region, decoration and method, then those the zone
/// makes to what is below it (a client zone makes none).
pub open spec fn walked<D, A: Fn(&Layout<D>, Region, Vec<bool>) -> (PlacementMethod, Vec<(Disposition, bool)>)>(
    z: Map<ZoneId, Zone<D>>,
    fresh: ZoneId,
    apply: A,
    id: ZoneId,
    region: Region,
    decoration: Decoration,
    method: PlacementMethod,
    to_ignore: Seq<ZoneId>,
) -> (Seq<Placement>, Seq<(ZoneId, ZoneChange)>)
    decreases fresh - id, 1int, 0int,
{
    let own = seq![
        Placement {
            method,
            kind: content_target(z[id].holds()),
            zone: id,
            region: placed_region_spec(method, region),
            decoration,
        },
    ];
    let own_changes = seq![
        (id, ZoneChange::Region(region)),
        (id, ZoneChange::Decoration(decoration)),
        (id, ZoneChange::Method(method)),
    ];
    match z[id].holds() {
        ZoneContent::Client(_) => (own, Seq::empty()),
        ZoneContent::Tab(c) => {
            let t = tab_each(
                z,
                fresh,
                apply,
                id,
                kept(c.elems(), to_ignore, false),
                c.at(c.active() as int),
                tab_inner(region),
                to_ignore,
            );
            (own + t.0, t.1 + own_changes + t.2)
        },
        ZoneContent::Layout(l, c) => {
            let subs = kept(c.elems(), to_ignore, config_of(l.current()).single);
            let a = applied(apply, &l, region, active_map_of(subs, c.at(c.active() as int)));
            let n = if subs.len() < a.1.len() { subs.len() as int } else { a.1.len() as int };
            let h = hidden(z, fresh, subs, a.1, a.0, n);
            let e = layout_each(z, fresh, apply, id, h.2, a.0, to_ignore);
            (own + h.0 + e.0, e.1 + own_changes + h.1)
        },
    }
}

/// What arranging the subzones `subs` of tab `parent` gives: their placements, their changes,
/// and the changes the tab makes to what is below each (shown where it is the active one
/// `active`, hidden otherwise, all of it in `inner` and tiled).
pub open spec fn tab_each<D, A: Fn(&Layout<D>, Region, Vec<bool>) -> (PlacementMethod, Vec<(Disposition, bool)>)>(
    z: Map<ZoneId, Zone<D>>,
    fresh: ZoneId,
    apply: A,
    parent: ZoneId,
    subs: Seq<ZoneId>,
    active: Option<ZoneId>,
    inner: Region,
    to_ignore: Seq<ZoneId>,
) -> (Seq<Placement>, Seq<(ZoneId, ZoneChange)>, Seq<(ZoneId, ZoneChange)>)
    decreases fresh - parent, 0int, subs.len(),
{
    if subs.len() == 0 {
        (Seq::empty(), Seq::empty(), Seq::empty())
    } else {
        let prev = tab_each(z, fresh, apply, parent, subs.drop_last(), active, inner, to_ignore);
        let sub = subs.last();
        let is_active = Some(sub) == active;
        let g = gathered(z, fresh, sub, !is_active);
        let below = if parent < sub < fresh {
            walked(z, fresh, apply, sub, inner, tab_decoration(), PlacementMethod::Tile, to_ignore)
        } else {
            (Seq::empty(), Seq::empty())
        };
        (prev.0 + below.0, prev.1 + below.1, prev.2 + tab_changes(g, is_active, inner))
    }
}

/// What arranging the visible subzones `items` of layout `parent`, each in its region and with
/// its decoration, by `method`, gives: their placements and their changes.
pub open spec fn layout_each<D, A: Fn(&Layout<D>, Region, Vec<bool>) -> (PlacementMethod, Vec<(Disposition, bool)>)>(
    z: Map<ZoneId, Zone<D>>,
    fresh: ZoneId,
    apply: A,
    parent: ZoneId,
    items: Seq<(ZoneId, Region, Decoration)>,
    method: PlacementMethod,
    to_ignore: Seq<ZoneId>,
) -> (Seq<Placement>, Seq<(ZoneId, ZoneChange)>)
    decreases fresh - parent, 0int, items.len(),
{
    if items.len() == 0 {
        (Seq::empty(), Seq::empty())
    } else {
        let prev = layout_each(z, fresh, apply, parent, items.drop_last(), method, to_ignore);
        let (sub, r, d) = items.last();
        let below = if parent < sub < fresh {
            walked(z, fresh, apply, sub, r, d, method, to_ignore)
        } else {
            (Seq::empty(), Seq::empty())
        };
        (prev.0 + below.0, prev.1 + below.1)
    }
}

/// The zones `z` once `changes` are made to them in order (changes to unknown zones change
/// nothing).
pub open spec fn with_changes<D>(z: Map<ZoneId, Zone<D>>, changes: Seq<(ZoneId, ZoneChange)>) -> Map<ZoneId, Zone<D>>
    decreases changes.len(),
{
    if changes.len() == 0 {
        z
    } else {
        let prev = with_changes(z, changes.drop_last());
        let (k, c) = changes.last();
        if prev.contains_key(k) {
            prev.insert(k, prev[k].changed(c))
        } else {
            prev
        }
    }
}

/// The subzones of `zones` that the arrangement goes on with: those not among `to_ignore` (all
/// of them where `keep_all`), in order.
fn kept_subzones(zones: &crate::cycle::Cycle<ZoneId>, to_ignore: &Vec<ZoneId>, keep_all: bool) -> (r: Vec<ZoneId>)
    ensures
        r@ == kept(zones.elems(), to_ignore@, keep_all),
        forall|j: int| 0 <= j < r@.len() ==> zones.elems().contains(#[trigger] r@[j]),
{
    let all = zones.as_vec();
    let mut kept_ids: Vec<ZoneId> = Vec::new();
    let mut i: usize = 0;
    while i < all.len()
        invariant
            i <= all@.len(),
            all@.len() == zones.elems().len(),
            forall|j: int| 0 <= j < all@.len() ==> cloned::<ZoneId>(zones.elems()[j], #[trigger] all@[j]),
            kept_ids@ == kept(zones.elems().take(i as int), to_ignore@, keep_all),
            forall|j: int| 0 <= j < kept_ids@.len() ==> zones.elems().contains(#[trigger] kept_ids@[j]),
        decreases all@.len() - i,
    {
        let id = all[i];
        proof {
            assert(cloned::<ZoneId>(zones.elems()[i as int], all@[i as int]));
            assert(zones.elems()[i as int] == id);
            assert(zones.elems().take(i + 1).drop_last() =~= zones.elems().take(i as int));
            assert(zones.elems().take(i + 1).last() == id);
        }
        if keep_all || !ignored(to_ignore, id) {
            kept_ids.push(id);
        }
        i = i + 1;
    }
    proof {
        assert(zones.elems().take(all@.len() as int) =~= zones.elems());
    }
    kept_ids
}

/// The placement of a hidden zone `id`.
fn hidden_of<D>(zones: &ZoneManager<D>, id: ZoneId, method: PlacementMethod, decoration: Decoration) -> (r: Placement)
    requires
        zones.zones().contains_key(id),
    ensures
        r == hidden_placement(zones.zones(), id, method, decoration),
{
    Placement {
        method,
        kind: PlacementTarget::from_zone_content(zones.zone(id).content()),
        zone: id,
        region: PlacementRegion::NoRegion,
        decoration,
    }
}

/// Subzones kept from zone `id` are known zones made after it and before the next fresh one.
proof fn lemma_kept_below<D>(zones: &ZoneManager<D>, id: ZoneId, subs: Seq<ZoneId>)
    requires
        zones.wf(),
        zones.zones().contains_key(id),
        zones.zones()[id].holds().subzones() is Some,
        forall|j: int| 0 <= j < subs.len() ==> zones.zones()[id].holds().subzones()->0.elems().contains(#[trigger] subs[j]),
    ensures
        forall|j: int| 0 <= j < subs.len() ==> id < #[trigger] subs[j] < zones.fresh() && zones.zones().contains_key(subs[j]),
{
    assert(zone_ok(zones.zones(), id, zones.fresh()));
    let c = zones.zones()[id].holds().subzones()->0;
    assert forall|j: int| 0 <= j < subs.len() implies id < #[trigger] subs[j] < zones.fresh()
        && zones.zones().contains_key(subs[j]) by {
        assert(c.elems().contains(subs[j]));
        let k = choose|k: int| 0 <= k < c.elems().len() && c.elems()[k] == subs[j];
        assert(c.elems()[k] == subs[j]);
    }
}

/// The placements and changes of arranging zone `id` and everything below it; see `walked`.
fn walk<D, A: Fn(&Layout<D>, Region, Vec<bool>) -> (PlacementMethod, Vec<(Disposition, bool)>)>(
    zones: &ZoneManager<D>,
    id: ZoneId,
    region: Region,
    decoration: Decoration,
    method: PlacementMethod,
    to_ignore: &Vec<ZoneId>,
    apply: &A,
) -> (r: (Vec<Placement>, Vec<(ZoneId, ZoneChange)>))
    requires
        zones.wf(),
        zones.zones().contains_key(id),
        applies_as_function::<D, A>(*apply),
    ensures
        r.0@ == walked(zones.zones(), zones.fresh(), *apply, id, region, decoration, method, to_ignore@).0,
        r.1@ == walked(zones.zones(), zones.fresh(), *apply, id, region, decoration, method, to_ignore@).1,
    decreases zones.fresh() - id,
{
    let ghost z = zones.zones();
    let ghost fresh = zones.fresh();
    proof {
        assert(zone_ok(z, id, fresh));
    }
    let own = Placement {
        method,
        kind: PlacementTarget::from_zone_content(zones.zone(id).content()),
        zone: id,
        region: placed_region(method, region),
        decoration,
    };
    let mut placements: Vec<Placement> = vec![own];
    let mut changes: Vec<(ZoneId, ZoneChange)> = Vec::new();
    let mut deferred: Vec<(ZoneId, ZoneChange)> = Vec::new();
    match zones.zone(id).content() {
        ZoneContent::Client(_) => {
            return (placements, changes);
        },
        ZoneContent::Tab(cycle) => {
            let subs = kept_subzones(cycle, to_ignore, false);
            proof {
                lemma_kept_below(zones, id, subs@);
            }
            let active = match cycle.active_element() {
                Some(a) => Some(*a),
                None => None,
            };
            let mut inner = region;
            if inner.dim.w >= i32::MIN + 2 && inner.dim.h >= i32::MIN + 2 {
                adjust_for_border(&mut inner, 1, &min_zone_dimensions());
            }
            let sub_decoration = Decoration {
                frame: None,
                border: Some(Border { width: 1, colors: ColorScheme::default_scheme() }),
            };
            let ghost c = *cycle;
            let mut i: usize = 0;
            while i < subs.len()
                invariant
                    zones.wf(),
                    z == zones.zones(),
                    fresh == zones.fresh(),
                    z.contains_key(id),
                    z[id].holds() == ZoneContent::<D>::Tab(c),
                    subs@ == kept(c.elems(), to_ignore@, false),
                    forall|j: int| 0 <= j < subs@.len() ==> id < #[trigger] subs@[j] < fresh && z.contains_key(subs@[j]),
                    active == c.at(c.active() as int),
                    inner == tab_inner(region),
                    sub_decoration == tab_decoration(),
                    applies_as_function::<D, A>(*apply),
                    i <= subs@.len(),
                    placements@ == seq![own] + tab_each(z, fresh, *apply, id, subs@.take(i as int), active, inner, to_ignore@).0,
                    changes@ == tab_each(z, fresh, *apply, id, subs@.take(i as int), active, inner, to_ignore@).1,
                    deferred@ == tab_each(z, fresh, *apply, id, subs@.take(i as int), active, inner, to_ignore@).2,
                decreases subs@.len() - i,
            {
                let sub = subs[i];
                let is_active = Some(sub) == active;
                let gathered_ids = zones.gather_subzones(sub, !is_active);
                let ghost before = deferred@;
                let mut j: usize = 0;
                while j < gathered_ids.len()
                    invariant
                        j <= gathered_ids@.len(),
                        deferred@ == before + tab_changes(gathered_ids@.take(j as int), is_active, inner),
                    decreases gathered_ids@.len() - j,
                {
                    let g = gathered_ids[j];
                    proof {
                        assert(gathered_ids@.take(j + 1).drop_last() =~= gathered_ids@.take(j as int));
                        assert(gathered_ids@.take(j + 1).last() == g);
                    }
                    deferred.push((g, ZoneChange::Visible(is_active)));
                    deferred.push((g, ZoneChange::Region(inner)));
                    deferred.push((g, ZoneChange::Method(PlacementMethod::Tile)));
                    proof {
                        assert(deferred@ =~= before + tab_changes(gathered_ids@.take(j + 1), is_active, inner));
                    }
                    j = j + 1;
                }
                proof {
                    assert(gathered_ids@.take(gathered_ids@.len() as int) =~= gathered_ids@);
                    assert(id < subs@[i as int] < fresh);
                }
                let (mut sub_placements, mut sub_changes) = walk(
                    zones,
                    sub,
                    inner,
                    sub_decoration,
                    PlacementMethod::Tile,
                    to_ignore,
                    apply,
                );
                let ghost pp = placements@;
                let ghost cc = changes@;
                placements.append(&mut sub_placements);
                changes.append(&mut sub_changes);
                proof {
                    let s = subs@.take(i + 1);
                    assert(s.drop_last() =~= subs@.take(i as int));
                    assert(s.last() == sub);
                    assert(placements@ =~= seq![own] + tab_each(z, fresh, *apply, id, s, active, inner, to_ignore@).0);
                    assert(changes@ =~= tab_each(z, fresh, *apply, id, s, active, inner, to_ignore@).1);
                    assert(deferred@ =~= tab_each(z, fresh, *apply, id, s, active, inner, to_ignore@).2);
                }
                i = i + 1;
            }
            proof {
                assert(subs@.take(subs@.len() as int) =~= subs@);
            }
        },
        ZoneContent::Layout(layout, cycle) => {
            let single = layout.config().single;
            let subs = kept_subzones(cycle, to_ignore, single);
            proof {
                lemma_kept_below(zones, id, subs@);
            }
            let active = match cycle.active_element() {
                Some(a) => Some(*a),
                None => None,
            };
            let mut active_map: Vec<bool> = Vec::new();
            let mut i: usize = 0;
            while i < subs.len()
                invariant
                    i <= subs@.len(),
                    active_map@ == Seq::new(i as nat, |t: int| Some(subs@[t]) == active),
                decreases subs@.len() - i,
            {
                active_map.push(Some(subs[i]) == active);
                proof {
                    assert(active_map@ =~= Seq::new((i + 1) as nat, |t: int| Some(subs@[t]) == active));
                }
                i = i + 1;
            }
            let ghost map = active_map@;
            proof {
                assert(map =~= active_map_of(subs@, cycle.at(cycle.active() as int)));
            }
            let (layout_method, application) = apply(layout, region, active_map);
            proof {
                assert(yields(*apply, layout, region, map, (layout_method, application)));
                let r = choose|r: (PlacementMethod, Vec<(Disposition, bool)>)| #[trigger] yields(*apply, layout, region, map, r);
                assert(yields(*apply, layout, region, map, r));
                let m = choose|m: Vec<bool>| m@ == map && #[trigger] apply.ensures((layout, region, m), r);
                assert(apply.ensures((layout, region, m), r));
                assert(r.0 == layout_method && r.1@ == application@);
                assert(applied(*apply, layout, region, map) == (layout_method, application@));
            }
            let ghost app = application@;
            let mut items: Vec<(ZoneId, Region, Decoration)> = Vec::new();
            let mut i: usize = 0;
            while i < subs.len() && i < application.len()
                invariant
                    zones.wf(),
                    z == zones.zones(),
                    fresh == zones.fresh(),
                    app == application@,
                    forall|j: int| 0 <= j < subs@.len() ==> id < #[trigger] subs@[j] < fresh && z.contains_key(subs@[j]),
                    i <= subs@.len(),
                    i <= app.len(),
                    placements@ == seq![own] + hidden(z, fresh, subs@, app, layout_method, i as int).0,
                    deferred@ == hidden(z, fresh, subs@, app, layout_method, i as int).1,
                    items@ == hidden(z, fresh, subs@, app, layout_method, i as int).2,
                decreases subs@.len() - i,
            {
                let sub = subs[i];
                let (disposition, is_visible) = application[i];
                let (sub_region, sub_decoration) = match disposition {
                    Disposition::Unchanged(d) => (zones.zone(sub).region(), d),
                    Disposition::Changed(r, d) => (r, d),
                };
                let ghost h = hidden(z, fresh, subs@, app, layout_method, i as int);
                if !is_visible {
                    placements.push(hidden_of(zones, sub, layout_method, sub_decoration));
                    let gathered_ids = zones.gather_subzones(sub, true);
                    proof {
                        lemma_gathered_known(zones.zones(), zones.fresh(), sub, true);
                    }
                    let ghost pp = placements@;
                    let ghost dd = deferred@;
                    let mut j: usize = 0;
                    while j < gathered_ids.len()
                        invariant
                            zones.wf(),
                            z == zones.zones(),
                            j <= gathered_ids@.len(),
                            gathered_ids@ == gathered(z, fresh, sub, true),
                            forall|k: int| 0 <= k < gathered_ids@.len() ==> z.contains_key(#[trigger] gathered_ids@[k]),
                            placements@ == pp + Seq::new(j as nat, |t: int| hidden_placement(z, gathered_ids@[t], layout_method, sub_decoration)),
                            deferred@ == dd + Seq::new(j as nat, |t: int| (gathered_ids@[t], ZoneChange::Visible(false))),
                        decreases gathered_ids@.len() - j,
                    {
                        let g = gathered_ids[j];
                        placements.push(hidden_of(zones, g, layout_method, sub_decoration));
                        deferred.push((g, ZoneChange::Visible(false)));
                        proof {
                            assert(placements@ =~= pp + Seq::new((j + 1) as nat, |t: int| hidden_placement(z, gathered_ids@[t], layout_method, sub_decoration)));
                            assert(deferred@ =~= dd + Seq::new((j + 1) as nat, |t: int| (gathered_ids@[t], ZoneChange::Visible(false))));
                        }
                        j = j + 1;
                    }
                    proof {
                        assert(placements@ =~= seq![own] + hidden(z, fresh, subs@, app, layout_method, i + 1).0);
                        assert(deferred@ =~= hidden(z, fresh, subs@, app, layout_method, i + 1).1);
                    }
                } else {
                    items.push((sub, sub_region, sub_decoration));
                }
                i = i + 1;
            }
            let ghost h = hidden(z, fresh, subs@, app, layout_method, i as int);
            proof {
                assert(i as int == (if subs@.len() < app.len() { subs@.len() as int } else { app.len() as int }));
                assert(forall|j: int| 0 <= j < h.2.len() ==> id < #[trigger] h.2[j].0 < fresh && z.contains_key(h.2[j].0)) by {
                    lemma_hidden_items(z, fresh, subs@, app, layout_method, i as int, id);
                }
            }
            let mut k: usize = 0;
            while k < items.len()
                invariant
                    zones.wf(),
                    z == zones.zones(),
                    fresh == zones.fresh(),
                    applies_as_function::<D, A>(*apply),
                    items@ == h.2,
                    forall|j: int| 0 <= j < h.2.len() ==> id < #[trigger] h.2[j].0 < fresh && z.contains_key(h.2[j].0),
                    k <= items@.len(),
                    placements@ == seq![own] + h.0 + layout_each(z, fresh, *apply, id, h.2.take(k as int), layout_method, to_ignore@).0,
                    changes@ == layout_each(z, fresh, *apply, id, h.2.take(k as int), layout_method, to_ignore@).1,
                decreases items@.len() - k,
            {
                let (sub, sub_region, sub_decoration) = items[k];
                proof {
                    assert(id < h.2[k as int].0 < fresh);
                }
                let (mut sub_placements, mut sub_changes) = walk(
                    zones,
                    sub,
                    sub_region,
                    sub_decoration,
                    layout_method,
                    to_ignore,
                    apply,
                );
                placements.append(&mut sub_placements);
                changes.append(&mut sub_changes);
                proof {
                    let s = h.2.take(k + 1);
                    assert(s.drop_last() =~= h.2.take(k as int));
                    assert(s.last() == h.2[k as int]);
                    assert(placements@ =~= seq![own] + h.0 + layout_each(z, fresh, *apply, id, s, layout_method, to_ignore@).0);
                    assert(changes@ =~= layout_each(z, fresh, *apply, id, s, layout_method, to_ignore@).1);
                }
                k = k + 1;
            }
            proof {
                assert(h.2.take(h.2.len() as int) =~= h.2);
            }
        },
    }
    changes.push((id, ZoneChange::Region(region)));
    changes.push((id, ZoneChange::Decoration(decoration)));
    changes.push((id, ZoneChange::Method(method)));
    changes.append(&mut deferred);
    proof {
        let w = walked(z, fresh, *apply, id, region, decoration, method, to_ignore@);
        assert(placements@ =~= w.0);
        assert(changes@ =~= w.1);
    }
    (placements, changes)
}

/// The visible subzones a layout goes on with are among its subzones.
proof fn lemma_hidden_items<D>(
    z: Map<ZoneId, Zone<D>>,
    fresh: ZoneId,
    subs: Seq<ZoneId>,
    app: Seq<(Disposition, bool)>,
    method: PlacementMethod,
    k: int,
    id: ZoneId,
)
    requires
        k <= subs.len(),
        forall|j: int| 0 <= j < subs.len() ==> id < #[trigger] subs[j] < fresh && z.contains_key(subs[j]),
    ensures
        forall|j: int| 0 <= j < hidden(z, fresh, subs, app, method, k).2.len() ==> id < #[trigger] hidden(z, fresh, subs, app, method, k).2[j].0 < fresh
            && z.contains_key(hidden(z, fresh, subs, app, method, k).2[j].0),
    decreases k,
{
    if k > 0 {
        lemma_hidden_items(z, fresh, subs, app, method, k - 1, id);
        assert(id < subs[k - 1] < fresh);
        let prev = hidden(z, fresh, subs, app, method, k - 1);
        let cur = hidden(z, fresh, subs, app, method, k);
        assert(cur.2 == prev.2 || cur.2 == prev.2.push((subs[k - 1], cur.2.last().1, cur.2.last().2)));
        assert forall|j: int| 0 <= j < cur.2.len() implies id < #[trigger] cur.2[j].0 < fresh && z.contains_key(cur.2[j].0) by {
            if j < prev.2.len() {
                assert(cur.2[j] == prev.2[j]);
            } else {
                assert(cur.2[j].0 == subs[k - 1]);
            }
        }
    }
}

/// Arranges zone `id` and everything below it within `region`, with `decoration` and placed by
/// `method`, leaving out the subzones of `to_ignore` (but under single layouts); a layout zone
/// disposes of its subzones as `apply` gives. Gives back the placements, and makes the changes,
/// that `walked` describes; the tree keeps its shape.
pub fn arrange_subzones<D, A: Fn(&Layout<D>, Region, Vec<bool>) -> (PlacementMethod, Vec<(Disposition, bool)>)>(
    zones: &mut ZoneManager<D>,
    id: ZoneId,
    region: Region,
    decoration: Decoration,
    method: PlacementMethod,
    to_ignore: &Vec<ZoneId>,
    apply: &A,
) -> (r: Vec<Placement>)
    requires
        old(zones).wf(),
        old(zones).zones().contains_key(id),
        applies_as_function::<D, A>(*apply),
    ensures
        final(zones).wf(),
        final(zones).fresh() == old(zones).fresh(),
        final(zones).copies_data() == old(zones).copies_data(),
        same_tree(old(zones).zones(), final(zones).zones()),
        r@ == walked(old(zones).zones(), old(zones).fresh(), *apply, id, region, decoration, method, to_ignore@).0,
        final(zones).zones() == with_changes(
            old(zones).zones(),
            walked(old(zones).zones(), old(zones).fresh(), *apply, id, region, decoration, method, to_ignore@).1,
        ),
{
    let (placements, changes) = walk(&*zones, id, region, decoration, method, to_ignore, apply);
    make_changes(zones, &changes);
    placements
}

/// Makes `changes` to the zones, in order.
fn make_changes<D>(zones: &mut ZoneManager<D>, changes: &Vec<(ZoneId, ZoneChange)>)
    requires
        old(zones).wf(),
    ensures
        final(zones).wf(),
        final(zones).fresh() == old(zones).fresh(),
        final(zones).copies_data() == old(zones).copies_data(),
        same_tree(old(zones).zones(), final(zones).zones()),
        final(zones).zones() == with_changes(old(zones).zones(), changes@),
{
    let ghost z0 = zones.zones();
    proof {
        assert(same_tree(z0, z0));
    }
    let mut i: usize = 0;
    while i < changes.len()
        invariant
            zones.wf(),
            zones.fresh() == old(zones).fresh(),
            zones.copies_data() == old(zones).copies_data(),
            z0 == old(zones).zones(),
            same_tree(z0, zones.zones()),
            i <= changes@.len(),
            zones.zones() == with_changes(z0, changes@.take(i as int)),
        decreases changes@.len() - i,
    {
        let (k, change) = changes[i];
        proof {
            assert(changes@.take(i + 1).drop_last() =~= changes@.take(i as int));
            assert(changes@.take(i + 1).last() == (k, change));
        }
        change_tracked(zones, k, change, Ghost(z0));
        i = i + 1;
    }
    proof {
        assert(changes@.take(changes@.len() as int) =~= changes@);
    }
}

/// Makes `change` to zone `id`, keeping the tree as `z0` has it.
fn change_tracked<D>(zones: &mut ZoneManager<D>, id: ZoneId, change: ZoneChange, Ghost(z0): Ghost<Map<ZoneId, crate::zone::Zone<D>>>)
    requires
        old(zones).wf(),
        same_tree(z0, old(zones).zones()),
    ensures
        final(zones).wf(),
        final(zones).fresh() == old(zones).fresh(),
        final(zones).copies_data() == old(zones).copies_data(),
        same_tree(z0, final(zones).zones()),
        final(zones).zones() == if old(zones).zones().contains_key(id) {
            old(zones).zones().insert(id, old(zones).zones()[id].changed(change))
        } else {
            old(zones).zones()
        },
{
    zones.change_zone(id, change);
    proof {
        assert(zones.zones().dom() =~= old(zones).zones().dom());
        if old(zones).zones().contains_key(id) {
            lemma_changed(old(zones).zones()[id], change);
        }
        assert forall|k: ZoneId| #[trigger] z0.contains_key(k) implies zones.zones()[k].holds() == z0[k].holds()
            && zones.zones()[k].parent_zone() == z0[k].parent_zone()
            && zones.zones()[k].identifier() == z0[k].identifier() by {
            assert(old(zones).zones().contains_key(k));
        }
    }
}

/// How a zone holding `content` places its subzones: by its layout's method, or tiled for a
/// tab.
pub open spec fn cycle_method<D>(content: ZoneContent<D>) -> PlacementMethod {
    match content {
        ZoneContent::Layout(l, _) => config_of(l.current()).method,
        _ => PlacementMethod::Tile,
    }
}

/// Arranges the zone nearest to `zone` that holds subzones, and everything below it, within
/// that zone's own region and with its own decoration, placed by its layout's method (tiled for
/// a tab), leaving out the subzones of `to_ignore`; see `arrange_subzones`.
pub fn arrange<D, A: Fn(&Layout<D>, Region, Vec<bool>) -> (PlacementMethod, Vec<(Disposition, bool)>)>(
    zones: &mut ZoneManager<D>,
    zone: ZoneId,
    to_ignore: &Vec<ZoneId>,
    apply: &A,
) -> (r: Vec<Placement>)
    requires
        old(zones).wf(),
        nearest_cycle_of(old(zones).zones(), zone) is Some,
        applies_as_function::<D, A>(*apply),
    ensures
        final(zones).wf(),
        final(zones).fresh() == old(zones).fresh(),
        same_tree(old(zones).zones(), final(zones).zones()),
        ({
            let c = nearest_cycle_of(old(zones).zones(), zone)->0;
            let z = old(zones).zones()[c];
            let w = walked(
                old(zones).zones(),
                old(zones).fresh(),
                *apply,
                c,
                z.area(),
                z.decorated(),
                cycle_method(z.holds()),
                to_ignore@,
            );
            &&& r@ == w.0
            &&& final(zones).zones() == with_changes(old(zones).zones(), w.1)
        }),
{
    let cycle = zones.nearest_cycle(zone);
    proof {
        crate::zone::lemma_nearest_cycle_known(zones.zones(), zone);
    }
    let z = zones.zone(cycle);
    let region = z.region();
    let decoration = z.decoration();
    let method = match z.content() {
        ZoneContent::Layout(layout, _) => layout.config().method,
        _ => PlacementMethod::Tile,
    };
    arrange_subzones(zones, cycle, region, decoration, method, to_ignore, apply)
}

/// How a client that the layouts leave out is placed: over the whole screen when fullscreen (and
/// not contained), nowhere when iconified, freely with the floating decoration otherwise.
pub open spec fn left_out_placement(v: crate::client::ClientView, screen_region: Region) -> Placement {
    let (method, region, decoration) = if v.fullscreen && !v.contained {
        (PlacementMethod::Tile, PlacementRegion::NewRegion(screen_region), crate::decoration::bare())
    } else if v.iconified {
        (PlacementMethod::Tile, PlacementRegion::NoRegion, crate::decoration::bare())
    } else {
        (PlacementMethod::Free, PlacementRegion::FreeRegion, crate::decoration::free_frame())
    };
    Placement { method, kind: PlacementTarget::Client(v.window), zone: v.zone, region, decoration }
}

fn left_out(client: &crate::client::Client, screen_region: Region) -> (r: Placement)
    ensures
        r == left_out_placement(client@, screen_region),
{
    let (method, region, decoration) = if client.is_fullscreen() && !client.is_contained() {
        (PlacementMethod::Tile, PlacementRegion::NewRegion(screen_region), Decoration::no_decoration())
    } else if client.is_iconified() {
        (PlacementMethod::Tile, PlacementRegion::NoRegion, Decoration::no_decoration())
    } else {
        (PlacementMethod::Free, PlacementRegion::FreeRegion, Decoration::free_decoration())
    };
    Placement { method, kind: PlacementTarget::Client(client.window()), zone: client.zone(), region, decoration }
}


/// `filter` may be called on any client, and gives the same answer for the same client.
pub open spec fn picks_as_function<F: Fn(&crate::client::Client) -> bool>(filter: F) -> bool {
    &&& forall|c: &crate::client::Client| #[trigger] filter.requires((c,))
    &&& forall|c: &crate::client::Client, b1: bool, b2: bool|
        #[trigger] filter.ensures((c,), b1) && #[trigger] filter.ensures((c,), b2) ==> b1 == b2
}

/// Whether `filter` picks client `c`.
pub open spec fn picked<F: Fn(&crate::client::Client) -> bool>(filter: F, c: crate::client::Client) -> bool {
    filter.ensures((&c,), true)
}

/// The zones of the clients of `windows` (by `client_map`) that `filter` picks, in order.
pub open spec fn left_zones<F: Fn(&crate::client::Client) -> bool>(
    client_map: Map<crate::winsys::window::Window, crate::client::Client>,
    windows: Seq<crate::winsys::window::Window>,
    filter: F,
) -> Seq<ZoneId>
    decreases windows.len(),
{
    if windows.len() == 0 {
        Seq::empty()
    } else {
        let prev = left_zones(client_map, windows.drop_last(), filter);
        let c = client_map[windows.last()];
        if picked(filter, c) {
            prev.push(c@.zone)
        } else {
            prev
        }
    }
}

/// The placements of the clients of `windows` (by `client_map`) that `filter` picks, each
/// placed by itself on a screen of region `screen_region`, in order.
pub open spec fn left_placements<F: Fn(&crate::client::Client) -> bool>(
    client_map: Map<crate::winsys::window::Window, crate::client::Client>,
    windows: Seq<crate::winsys::window::Window>,
    filter: F,
    screen_region: Region,
) -> Seq<Placement>
    decreases windows.len(),
{
    if windows.len() == 0 {
        Seq::empty()
    } else {
        let prev = left_placements(client_map, windows.drop_last(), filter, screen_region);
        let c = client_map[windows.last()];
        if picked(filter, c) {
            prev.push(left_out_placement(c@, screen_region))
        } else {
            prev
        }
    }
}

/// Takes the zones of the clients of `windows` that `ignore_filter` picks into `to_ignore`, and
/// their own placements into `left`, in order.
fn collect_left_out<F: Fn(&crate::client::Client) -> bool>(
    windows: &Vec<crate::winsys::window::Window>,
    client_map: &std::collections::HashMap<crate::winsys::window::Window, crate::client::Client>,
    ignore_filter: &F,
    screen_region: Region,
    to_ignore: &mut Vec<ZoneId>,
    left: &mut Vec<Placement>,
)
    requires
        forall|j: int| 0 <= j < windows@.len() ==> client_map@.contains_key(#[trigger] windows@[j]),
        picks_as_function(*ignore_filter),
    ensures
        final(to_ignore)@ == old(to_ignore)@ + left_zones(client_map@, windows@, *ignore_filter),
        final(left)@ == old(left)@ + left_placements(client_map@, windows@, *ignore_filter, screen_region),
{
    let ghost ig0 = to_ignore@;
    let ghost left0 = left@;
    let mut i: usize = 0;
    while i < windows.len()
        invariant
            forall|j: int| 0 <= j < windows@.len() ==> client_map@.contains_key(#[trigger] windows@[j]),
            picks_as_function(*ignore_filter),
            i <= windows@.len(),
            to_ignore@ == ig0 + left_zones(client_map@, windows@.take(i as int), *ignore_filter),
            left@ == left0 + left_placements(client_map@, windows@.take(i as int), *ignore_filter, screen_region),
        decreases windows@.len() - i,
    {
        let w = windows[i];
        proof {
            assert(client_map@.contains_key(windows@[i as int]));
            assert(windows@.take(i + 1).drop_last() =~= windows@.take(i as int));
            assert(windows@.take(i + 1).last() == w);
        }
        let client = client_map.get(&w).unwrap();
        let pick = ignore_filter(client);
        proof {
            assert(*client == client_map@[w]);
            if !pick && picked(*ignore_filter, client_map@[w]) {
                assert(ignore_filter.ensures((client,), true));
                assert(ignore_filter.ensures((client,), false));
            }
            assert(pick == picked(*ignore_filter, client_map@[w]));
        }
        if pick {
            to_ignore.push(client.zone());
            left.push(left_out(client, screen_region));
        }
        proof {
            assert(to_ignore@ =~= ig0 + left_zones(client_map@, windows@.take(i + 1), *ignore_filter));
            assert(left@ =~= left0 + left_placements(client_map@, windows@.take(i + 1), *ignore_filter, screen_region));
        }
        i = i + 1;
    }
    proof {
        assert(windows@.take(windows@.len() as int) =~= windows@);
    }
}

/// The zones `z` once zone `root`, where known, takes `screen_region`.
pub open spec fn with_root_region<D>(z: Map<ZoneId, crate::zone::Zone<D>>, root: ZoneId, screen_region: Region) -> Map<ZoneId, crate::zone::Zone<D>> {
    if z.contains_key(root) {
        z.insert(root, z[root].changed(ZoneChange::Region(screen_region)))
    } else {
        z
    }
}

impl crate::workspace::Workspace {
    /// Arranges the clients of the workspace on a screen of region `screen_region`: the root zone
    /// takes the screen's region; then the zone tree from the zone nearest to the root that holds
    /// subzones is arranged (see `arrange`), leaving out the zones of the clients (then icons)
    /// that `ignore_filter` picks; then each of those clients, in the same order, is placed by
    /// itself. Nothing is arranged, and nothing changes, without clients.
    pub fn arrange<D, F: Fn(&crate::client::Client) -> bool, A: Fn(&Layout<D>, Region, Vec<bool>) -> (PlacementMethod, Vec<(Disposition, bool)>)>(
        &self,
        zone_manager: &mut ZoneManager<D>,
        client_map: &std::collections::HashMap<crate::winsys::window::Window, crate::client::Client>,
        screen_region: Region,
        ignore_filter: &F,
        apply: &A,
    ) -> (r: Vec<Placement>)
        requires
            self.wf(),
            old(zone_manager).wf(),
            nearest_cycle_of(old(zone_manager).zones(), self.root()) is Some,
            forall|i: int| 0 <= i < self.client_cycle().elems().len() ==> client_map@.contains_key(#[trigger] self.client_cycle().elems()[i]),
            forall|i: int| 0 <= i < self.icon_cycle().elems().len() ==> client_map@.contains_key(#[trigger] self.icon_cycle().elems()[i]),
            picks_as_function(*ignore_filter),
            applies_as_function::<D, A>(*apply),
        ensures
            final(zone_manager).wf(),
            same_tree(old(zone_manager).zones(), final(zone_manager).zones()),
            self.client_cycle().elems().len() == 0 ==> r@.len() == 0 && *final(zone_manager) == *old(zone_manager),
            self.client_cycle().elems().len() > 0 ==> ({
                let z1 = with_root_region(old(zone_manager).zones(), self.root(), screen_region);
                let windows = self.client_cycle().elems() + self.icon_cycle().elems();
                let c = nearest_cycle_of(old(zone_manager).zones(), self.root())->0;
                let w = walked(
                    z1,
                    old(zone_manager).fresh(),
                    *apply,
                    c,
                    z1[c].area(),
                    z1[c].decorated(),
                    cycle_method(z1[c].holds()),
                    left_zones(client_map@, windows, *ignore_filter),
                );
                &&& r@ == w.0 + left_placements(client_map@, windows, *ignore_filter, screen_region)
                &&& final(zone_manager).zones() == with_changes(z1, w.1)
            }),
    {
        if self.is_empty() {
            return Vec::new();
        }
        let root = self.root_zone();
        let ghost z0 = zone_manager.zones();
        zone_manager.change_zone(root, ZoneChange::Region(screen_region));
        proof {
            if z0.contains_key(root) {
                lemma_changed(z0[root], ZoneChange::Region(screen_region));
            }
            assert(zone_manager.zones().dom() =~= z0.dom());
            assert(same_tree(z0, zone_manager.zones()));
            crate::zone::lemma_same_tree_walks(z0, zone_manager.zones(), root);
        }
        let ghost z1 = zone_manager.zones();
        let windows = self.clients();
        let icons = self.icons();
        let mut to_ignore: Vec<ZoneId> = Vec::new();
        let mut left: Vec<Placement> = Vec::new();
        collect_left_out(&windows, client_map, ignore_filter, screen_region, &mut to_ignore, &mut left);
        collect_left_out(&icons, client_map, ignore_filter, screen_region, &mut to_ignore, &mut left);
        proof {
            let all = self.client_cycle().elems() + self.icon_cycle().elems();
            lemma_left_concat(client_map@, self.client_cycle().elems(), self.icon_cycle().elems(), *ignore_filter, screen_region);
            assert(to_ignore@ =~= left_zones(client_map@, all, *ignore_filter));
            assert(left@ =~= left_placements(client_map@, all, *ignore_filter, screen_region));
        }
        let mut placements = arrange(zone_manager, root, &to_ignore, apply);
        let ghost zf = zone_manager.zones();
        proof {
            assert(same_tree(z0, zf)) by {
                assert forall|k: ZoneId| #[trigger] z0.contains_key(k) implies zf[k].holds() == z0[k].holds()
                    && zf[k].parent_zone() == z0[k].parent_zone()
                    && zf[k].identifier() == z0[k].identifier() by {
                    assert(z1.contains_key(k));
                }
            }
        }
        placements.append(&mut left);
        placements
    }
}

/// Leaving out clients of `a` then `b` is leaving out clients of `a + b`.
proof fn lemma_left_concat<F: Fn(&crate::client::Client) -> bool>(
    client_map: Map<crate::winsys::window::Window, crate::client::Client>,
    a: Seq<crate::winsys::window::Window>,
    b: Seq<crate::winsys::window::Window>,
    filter: F,
    screen_region: Region,
)
    ensures
        left_zones(client_map, a + b, filter) == left_zones(client_map, a, filter) + left_zones(client_map, b, filter),
        left_placements(client_map, a + b, filter, screen_region) == left_placements(client_map, a, filter, screen_region)
            + left_placements(client_map, b, filter, screen_region),
    decreases b.len(),
{
    if b.len() == 0 {
        assert(a + b =~= a);
        assert(left_zones(client_map, a, filter) + left_zones(client_map, b, filter) =~= left_zones(client_map, a, filter));
        assert(left_placements(client_map, a, filter, screen_region) + left_placements(client_map, b, filter, screen_region)
            =~= left_placements(client_map, a, filter, screen_region));
    } else {
        lemma_left_concat(client_map, a, b.drop_last(), filter, screen_region);
        assert((a + b).drop_last() =~= a + b.drop_last());
        assert((a + b).last() == b.last());
        assert(left_zones(client_map, a + b, filter) =~= left_zones(client_map, a, filter) + left_zones(client_map, b, filter));
        assert(left_placements(client_map, a + b, filter, screen_region) =~= left_placements(client_map, a, filter, screen_region)
            + left_placements(client_map, b, filter, screen_region));
    }
}

} // verus!
