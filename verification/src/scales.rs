use vstd::prelude::*;

verus! {

/// Represents a range on a number scale mapped to a value.
#[derive(Clone, Copy, PartialEq, Eq, Structural, Debug)]
pub struct Zone {
    pub value: u8,
    pub start: u16,
    pub end: u16,
}

/// Largest position on the sensor scale.
pub const SCALE_MAX: u16 = 1023;

/// The zone covers the given position.
pub open spec fn in_zone(z: Zone, position: u16) -> bool {
    z.start <= position <= z.end
}

/// A well-formed scale: at least one zone, each zone a non-empty range, the
/// zones contiguous and ascending, together covering the whole sensor domain.
pub open spec fn scale_wf(zs: Seq<Zone>) -> bool {
    &&& zs.len() > 0
    &&& zs[0].start == 0
    &&& zs[zs.len() - 1].end == SCALE_MAX
    &&& (forall|i: int| 0 <= i < zs.len() ==> #[trigger] zs[i].start <= zs[i].end)
    &&& (forall|i: int| 0 <= i < zs.len() - 1 ==> #[trigger] zs[i + 1].start == zs[i].end + 1)
}

/// Provides a shortcut to initialize a Zone.
fn zone(value: u8, start: u16, end: u16) -> (z: Zone)
    ensures
        z == (Zone { value, start, end }),
{
    Zone { value, start, end }
}

/// The i-th zone of the quantity scale: values 1-20 over ~equal ranges.
pub open spec fn quantity_zone(i: int) -> Zone {
    if i == 0 {
        Zone { value: 20, start: 0, end: 52 }
    } else if i == 1 {
        Zone { value: 19, start: 53, end: 103 }
    } else if i == 2 {
        Zone { value: 18, start: 104, end: 154 }
    } else if i == 3 {
        Zone { value: 17, start: 155, end: 205 }
    } else if i == 4 {
        Zone { value: 16, start: 206, end: 256 }
    } else if i == 5 {
        Zone { value: 15, start: 257, end: 307 }
    } else if i == 6 {
        Zone { value: 14, start: 308, end: 358 }
    } else if i == 7 {
        Zone { value: 13, start: 359, end: 409 }
    } else if i == 8 {
        Zone { value: 12, start: 410, end: 460 }
    } else if i == 9 {
        Zone { value: 11, start: 461, end: 511 }
    } else if i == 10 {
        Zone { value: 10, start: 512, end: 562 }
    } else if i == 11 {
        Zone { value: 9, start: 563, end: 613 }
    } else if i == 12 {
        Zone { value: 8, start: 614, end: 664 }
    } else if i == 13 {
        Zone { value: 7, start: 665, end: 715 }
    } else if i == 14 {
        Zone { value: 6, start: 716, end: 766 }
    } else if i == 15 {
        Zone { value: 5, start: 767, end: 817 }
    } else if i == 16 {
        Zone { value: 4, start: 818, end: 868 }
    } else if i == 17 {
        Zone { value: 3, start: 869, end: 919 }
    } else if i == 18 {
        Zone { value: 2, start: 920, end: 970 }
    } else {
        Zone { value: 1, start: 971, end: 1023 }
    }
}

/// The quantity scale: how many results one roll produces.
pub open spec fn quantity_zones() -> Seq<Zone> {
    Seq::new(20, |i: int| quantity_zone(i))
}

/// The i-th zone of the quality scale: side counts of typical board game dice.
pub open spec fn quality_zone(i: int) -> Zone {
    if i == 0 {
        Zone { value: 20, start: 0, end: 169 }
    } else if i == 1 {
        Zone { value: 12, start: 170, end: 339 }
    } else if i == 2 {
        Zone { value: 10, start: 340, end: 509 }
    } else if i == 3 {
        Zone { value: 8, start: 510, end: 679 }
    } else if i == 4 {
        Zone { value: 6, start: 680, end: 849 }
    } else {
        Zone { value: 4, start: 850, end: 1023 }
    }
}

/// The quality scale: how many sides each rolled die has.
pub open spec fn quality_zones() -> Seq<Zone> {
    Seq::new(6, |i: int| quality_zone(i))
}

/// The quantity scale is a well-formed scale of twenty zones whose values
/// stay between 1 and 20.
pub proof fn lemma_quantity_scale_wf()
    ensures
        scale_wf(quantity_zones()),
        forall|i: int|
            0 <= i < quantity_zones().len() ==> 1 <= (#[trigger] quantity_zones()[i]).value <= 20,
{
}

/// The quality scale is a well-formed scale of six zones whose values
/// stay between 1 and 20.
pub proof fn lemma_quality_scale_wf()
    ensures
        scale_wf(quality_zones()),
        forall|i: int|
            0 <= i < quality_zones().len() ==> 1 <= (#[trigger] quality_zones()[i]).value <= 20,
{
}

/// Maps values of 1-20 to ~equal zones on the 0-1023 scale.
pub fn quantity_scale() -> (v: Vec<Zone>)
    ensures
        v@ == quantity_zones(),
        scale_wf(v@),
{
    let mut v: Vec<Zone> = Vec::new();
    let mut i: usize = 0;
    while i < 20
        invariant
            i <= 20,
            v@ =~= quantity_zones().take(i as int),
        decreases 20 - i,
    {
        v.push(quantity_zone_at(i));
        i = i + 1;
    }
    proof {
        assert(v@ =~= quantity_zones());
        lemma_quantity_scale_wf();
    }
    v
}

/// Maps values representing side counts of typical board game
/// dice to ~equal zones on the 0-1023 scale.
pub fn quality_scale() -> (v: Vec<Zone>)
    ensures
        v@ == quality_zones(),
        scale_wf(v@),
{
    let mut v: Vec<Zone> = Vec::new();
    let mut i: usize = 0;
    while i < 6
        invariant
            i <= 6,
            v@ =~= quality_zones().take(i as int),
        decreases 6 - i,
    {
        v.push(quality_zone_at(i));
        i = i + 1;
    }
    proof {
        assert(v@ =~= quality_zones());
        lemma_quality_scale_wf();
    }
    v
}

/// The i-th zone of the quantity scale.
fn quantity_zone_at(i: usize) -> (z: Zone)
    requires
        i < 20,
    ensures
        z == quantity_zone(i as int),
{
    if i == 0 {
        zone(20, 0, 52)
    } else if i == 1 {
        zone(19, 53, 103)
    } else if i == 2 {
        zone(18, 104, 154)
    } else if i == 3 {
        zone(17, 155, 205)
    } else if i == 4 {
        zone(16, 206, 256)
    } else if i == 5 {
        zone(15, 257, 307)
    } else if i == 6 {
        zone(14, 308, 358)
    } else if i == 7 {
        zone(13, 359, 409)
    } else if i == 8 {
        zone(12, 410, 460)
    } else if i == 9 {
        zone(11, 461, 511)
    } else if i == 10 {
        zone(10, 512, 562)
    } else if i == 11 {
        zone(9, 563, 613)
    } else if i == 12 {
        zone(8, 614, 664)
    } else if i == 13 {
        zone(7, 665, 715)
    } else if i == 14 {
        zone(6, 716, 766)
    } else if i == 15 {
        zone(5, 767, 817)
    } else if i == 16 {
        zone(4, 818, 868)
    } else if i == 17 {
        zone(3, 869, 919)
    } else if i == 18 {
        zone(2, 920, 970)
    } else {
        zone(1, 971, 1023)
    }
}

/// The i-th zone of the quality scale.
fn quality_zone_at(i: usize) -> (z: Zone)
    requires
        i < 6,
    ensures
        z == quality_zone(i as int),
{
    if i == 0 {
        zone(20, 0, 169)
    } else if i == 1 {
        zone(12, 170, 339)
    } else if i == 2 {
        zone(10, 340, 509)
    } else if i == 3 {
        zone(8, 510, 679)
    } else if i == 4 {
        zone(6, 680, 849)
    } else {
        zone(4, 850, 1023)
    }
}

/// Returns the matching zone given the position on the corresponding scale.
pub fn detect_zone(position: u16, zones: &Vec<Zone>) -> (z: Zone)
    requires
        scale_wf(zones@),
        position <= SCALE_MAX,
    ensures
        in_zone(z, position),
        exists|i: int| 0 <= i < zones@.len() && zones@[i] == z,
        z == zone_containing(zones@, position),
{
    let n = zones.len();
    let mut i: usize = 0;
    while i < n
        invariant
            scale_wf(zones@),
            position <= SCALE_MAX,
            n == zones@.len(),
            i <= n,
            forall|j: int| 0 <= j < i ==> position > (#[trigger] zones@[j]).end,
        decreases n - i,
    {
        let z = zones[i];
        if z.start <= position && z.end >= position {
            proof {
                assert(zones@[i as int] == z);
                lemma_zone_containing(zones@, position, z);
            }
            return z;
        }
        proof {
            if i > 0 {
                assert(zones@[i - 1 + 1].start == zones@[i - 1].end + 1);
            }
        }
        i = i + 1;
    }
    proof {
        assert(position > zones@[n - 1].end);
        assert(false);
    }
    vstd::pervasive::unreached()
}

/// Any two zones of a well-formed scale follow each other: an earlier zone
/// ends strictly below where a later zone starts.
pub proof fn lemma_zones_ordered(zs: Seq<Zone>, i: int, j: int)
    requires
        scale_wf(zs),
        0 <= i < j < zs.len(),
    ensures
        zs[i].end < zs[j].start,
    decreases j - i,
{
    assert(zs[j - 1 + 1].start == zs[j - 1].end + 1);
    if j > i + 1 {
        lemma_zones_ordered(zs, i, j - 1);
    }
}

/// Every position of the sensor domain lies in some zone of a well-formed
/// scale: zone lookup is total.
pub proof fn lemma_scale_total(zs: Seq<Zone>, position: u16)
    requires
        scale_wf(zs),
        position <= SCALE_MAX,
    ensures
        exists|i: int| 0 <= i < zs.len() && in_zone(#[trigger] zs[i], position),
{
    lemma_scale_total_from(zs, position, 0);
}

proof fn lemma_scale_total_from(zs: Seq<Zone>, position: u16, k: int)
    requires
        scale_wf(zs),
        position <= SCALE_MAX,
        0 <= k < zs.len(),
        zs[k].start <= position,
    ensures
        exists|i: int| 0 <= i < zs.len() && in_zone(#[trigger] zs[i], position),
    decreases zs.len() - k,
{
    if position <= zs[k].end {
        assert(in_zone(zs[k], position));
    } else {
        assert(zs[k + 1].start == zs[k].end + 1);
        lemma_scale_total_from(zs, position, k + 1);
    }
}

/// No position lies in two distinct zones of a well-formed scale: zone
/// lookup is exclusive.
pub proof fn lemma_scale_exclusive(zs: Seq<Zone>, position: u16, i: int, j: int)
    requires
        scale_wf(zs),
        0 <= i < zs.len(),
        0 <= j < zs.len(),
        in_zone(zs[i], position),
        in_zone(zs[j], position),
    ensures
        i == j,
{
    if i < j {
        lemma_zones_ordered(zs, i, j);
    } else if j < i {
        lemma_zones_ordered(zs, j, i);
    }
}

/// The index of the zone covering a position of a well-formed scale.
pub open spec fn zone_index_of(zs: Seq<Zone>, position: u16) -> int {
    choose|i: int| 0 <= i < zs.len() && in_zone(#[trigger] zs[i], position)
}

/// The unique zone covering a position of a well-formed scale.
pub open spec fn zone_containing(zs: Seq<Zone>, position: u16) -> Zone {
    zs[zone_index_of(zs, position)]
}

/// Any zone of the scale found to cover the position is the one zone
/// covering it.
pub proof fn lemma_zone_containing(zs: Seq<Zone>, position: u16, z: Zone)
    requires
        scale_wf(zs),
        position <= SCALE_MAX,
        in_zone(z, position),
        exists|i: int| 0 <= i < zs.len() && zs[i] == z,
    ensures
        z == zone_containing(zs, position),
        exists|i: int| 0 <= i < zs.len() && in_zone(#[trigger] zs[i], position),
{
    lemma_scale_total(zs, position);
    let i = choose|i: int| 0 <= i < zs.len() && zs[i] == z;
    let j = zone_index_of(zs, position);
    lemma_scale_exclusive(zs, position, i, j);
}

/// First zone at or after `from`, scanning upward, whose upper edge clears
/// the position by more than the dead area.
pub open spec fn scan_up(zs: Seq<Zone>, from: int, position: u16, dead_area: u16) -> Option<Zone>
    decreases zs.len() - from,
{
    if from < 0 || from >= zs.len() {
        None
    } else if zs[from].end - dead_area > position {
        Some(zs[from])
    } else {
        scan_up(zs, from + 1, position, dead_area)
    }
}

/// Highest-index zone at or below `from`, scanning downward, whose lower
/// edge the position clears by more than the dead area.
pub open spec fn scan_down(zs: Seq<Zone>, from: int, position: u16, dead_area: u16) -> Option<
    Zone,
>
    decreases from + 1,
{
    if from < 0 || from >= zs.len() {
        None
    } else if position > zs[from].start + dead_area {
        Some(zs[from])
    } else {
        scan_down(zs, from - 1, position, dead_area)
    }
}

/// The debounced zone-change decision: a transition registers only once the
/// position crosses the dead area preceding or following the current zone.
pub open spec fn spec_detect_zone_change(
    new_position: u16,
    dead_area: u16,
    current_zone: Zone,
    zs: Seq<Zone>,
) -> Option<Zone> {
    if current_zone.start > dead_area && new_position < current_zone.start - dead_area {
        scan_up(zs, 0, new_position, dead_area)
    } else if new_position > current_zone.end + dead_area {
        scan_down(zs, zs.len() - 1, new_position, dead_area)
    } else {
        None
    }
}

/// Detects whether a transition from the current zone into a new one should
/// be made given the new position on the scale, taking simple debouncing
/// rules into account. Returns the new zone, or None if no transition
/// should be made.
///
/// Debouncing is useful when the new scale position comes from a noisy
/// source. Without it, a position sitting right between two adjacent zones
/// would constantly switch between the two. A transition registers only if
/// the new position crosses the specified dead area preceding or following
/// the current zone, depending on the direction of the movement.
pub fn detect_zone_change(
    new_position: u16,
    dead_area: u16,
    current_zone: Zone,
    all_zones: &Vec<Zone>,
) -> (r: Option<Zone>)
    ensures
        r == spec_detect_zone_change(new_position, dead_area, current_zone, all_zones@),
{
    if current_zone.start > dead_area && new_position < current_zone.start - dead_area {
        let n = all_zones.len();
        let mut i: usize = 0;
        while i < n
            invariant
                n == all_zones@.len(),
                i <= n,
                current_zone.start > dead_area && new_position < current_zone.start - dead_area,
                scan_up(all_zones@, 0, new_position, dead_area) == scan_up(
                    all_zones@,
                    i as int,
                    new_position,
                    dead_area,
                ),
            decreases n - i,
        {
            let z = all_zones[i];
            if (z.end as u32) > (new_position as u32) + (dead_area as u32) {
                return Some(z);
            }
            i = i + 1;
        }
        None
    } else if (new_position as u32) > (current_zone.end as u32) + (dead_area as u32) {
        let n = all_zones.len();
        let mut i: usize = n;
        while i > 0
            invariant
                n == all_zones@.len(),
                i <= n,
                !(current_zone.start > dead_area && new_position < current_zone.start
                    - dead_area),
                new_position > current_zone.end + dead_area,
                scan_down(all_zones@, n - 1, new_position, dead_area) == scan_down(
                    all_zones@,
                    i - 1,
                    new_position,
                    dead_area,
                ),
            decreases i,
        {
            let z = all_zones[i - 1];
            if (new_position as u32) > (z.start as u32) + (dead_area as u32) {
                return Some(z);
            }
            i = i - 1;
        }
        None
    } else {
        None
    }
}

proof fn lemma_scan_up_in(zs: Seq<Zone>, position: u16, dead_area: u16, from: int)
    requires
        0 <= from,
    ensures
        scan_up(zs, from, position, dead_area) matches Some(z) ==> zs.contains(z),
    decreases zs.len() - from,
{
    if from < zs.len() {
        if zs[from].end - dead_area > position {
            assert(zs.contains(zs[from]));
        } else {
            lemma_scan_up_in(zs, position, dead_area, from + 1);
        }
    }
}

proof fn lemma_scan_down_in(zs: Seq<Zone>, position: u16, dead_area: u16, from: int)
    requires
        from < zs.len(),
    ensures
        scan_down(zs, from, position, dead_area) matches Some(z) ==> zs.contains(z),
    decreases from + 1,
{
    if from >= 0 {
        if position > zs[from].start + dead_area {
            assert(zs.contains(zs[from]));
        } else {
            lemma_scan_down_in(zs, position, dead_area, from - 1);
        }
    }
}

/// A zone change never leaves the scale: whatever zone the debounced
/// decision yields belongs to it.
pub proof fn lemma_zone_change_in_scale(
    new_position: u16,
    dead_area: u16,
    current_zone: Zone,
    zs: Seq<Zone>,
)
    ensures
        spec_detect_zone_change(new_position, dead_area, current_zone, zs) matches Some(z)
            ==> zs.contains(z),
{
    lemma_scan_up_in(zs, new_position, dead_area, 0);
    if zs.len() > 0 {
        lemma_scan_down_in(zs, new_position, dead_area, zs.len() - 1);
    }
}

/// Inside the dead band around the current zone no change is ever signaled:
/// for a current zone [s, e] and dead area d, every position between s - d
/// and e + d yields no transition.
pub proof fn lemma_dead_band_no_change(
    new_position: u16,
    dead_area: u16,
    current_zone: Zone,
    zs: Seq<Zone>,
)
    requires
        current_zone.start - dead_area <= new_position <= current_zone.end + dead_area,
    ensures
        spec_detect_zone_change(new_position, dead_area, current_zone, zs) is None,
{
}

/// Scanning upward from a position at or before a satisfied index returns
/// some zone no later than that index.
proof fn lemma_scan_up_hits(zs: Seq<Zone>, position: u16, dead_area: u16, from: int, w: int)
    requires
        0 <= from <= w < zs.len(),
        zs[w].end - dead_area > position,
    ensures
        scan_up(zs, from, position, dead_area) matches Some(z) && exists|i: int|
            from <= i <= w && #[trigger] zs[i] == z,
    decreases w - from,
{
    if zs[from].end - dead_area > position {
        assert(zs[from] == scan_up(zs, from, position, dead_area)->0);
    } else {
        lemma_scan_up_hits(zs, position, dead_area, from + 1, w);
    }
}

/// Once the position drops below the dead band by more than one count, a
/// change is signaled, and into a different zone than the current one.
pub proof fn lemma_change_below_band(
    new_position: u16,
    dead_area: u16,
    zs: Seq<Zone>,
    k: int,
)
    requires
        scale_wf(zs),
        0 <= k < zs.len(),
        zs[k].start > dead_area,
        new_position + dead_area + 2 <= zs[k].start,
    ensures
        spec_detect_zone_change(new_position, dead_area, zs[k], zs) matches Some(z) && z != zs[k],
{
    let current = zs[k];
    assert(k > 0) by {
        if k == 0 {
            assert(zs[0].start == 0);
        }
    }
    assert(zs[k - 1 + 1].start == zs[k - 1].end + 1);
    assert(zs[k - 1].end - dead_area > new_position);
    lemma_scan_up_hits(zs, new_position, dead_area, 0, k - 1);
    let z = scan_up(zs, 0, new_position, dead_area)->0;
    let i = choose|i: int| 0 <= i <= k - 1 && #[trigger] zs[i] == z;
    lemma_zones_ordered(zs, i, k);
}

} // verus!
