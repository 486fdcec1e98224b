use firmware::scales::{detect_zone, detect_zone_change, quality_scale, quantity_scale, Zone};

#[test]
fn every_position_maps_to_exactly_one_zone() {
    for scale in [quantity_scale(), quality_scale()] {
        for position in 0..=1023u16 {
            let covering = scale
                .iter()
                .filter(|z| z.start <= position && position <= z.end)
                .count();
            assert_eq!(covering, 1, "position {position}");
            let found = detect_zone(position, &scale);
            assert!(found.start <= position && position <= found.end);
        }
    }
}

#[test]
fn quantity_average_at_center_selects_ten() {
    let scale = quantity_scale();
    let z = detect_zone(512, &scale);
    assert_eq!(z.value, 10);
    assert_eq!(z.start, 512);
    assert_eq!(z.end, 562);
}

#[test]
fn quality_scale_side_counts() {
    let scale = quality_scale();
    assert_eq!(detect_zone(0, &scale).value, 20);
    assert_eq!(detect_zone(250, &scale).value, 12);
    assert_eq!(detect_zone(400, &scale).value, 10);
    assert_eq!(detect_zone(600, &scale).value, 8);
    assert_eq!(detect_zone(700, &scale).value, 6);
    assert_eq!(detect_zone(1023, &scale).value, 4);
}

#[test]
fn no_change_inside_the_dead_band() {
    let scale = quantity_scale();
    let current = detect_zone(512, &scale);  // [512, 562], value 10
    for position in 502..=572u16 {
        assert_eq!(detect_zone_change(position, 10, current, &scale), None);
    }
}

#[test]
fn change_past_the_dead_band_below() {
    let scale = quantity_scale();
    let current = detect_zone(512, &scale);
    // two counts past the dead band the neighbouring zone wins
    let z = detect_zone_change(500, 10, current, &scale).unwrap();
    assert_eq!(z.value, 11);
}

#[test]
fn change_past_the_dead_band_above() {
    let scale = quantity_scale();
    let current = detect_zone(512, &scale);
    let z = detect_zone_change(574, 10, current, &scale).unwrap();
    assert_eq!(z.value, 9);
}

#[test]
fn far_moves_land_in_the_right_zone() {
    let scale = quantity_scale();
    let current = detect_zone(512, &scale);
    // a move far down: ascending scan picks the first zone whose upper
    // edge clears the position by more than the dead area
    let z = detect_zone_change(30, 10, current, &scale).unwrap();
    assert_eq!(z.value, 20);
    // a move far up: descending scan picks the highest such zone
    let z = detect_zone_change(1000, 10, current, &scale).unwrap();
    assert_eq!(z.value, 1);
}

#[test]
fn dead_band_clamps_at_the_scale_edges() {
    let scale = quantity_scale();
    let lowest = Zone { value: 20, start: 0, end: 52 };
    // the current zone starts within the dead area of the origin: no
    // downward change is possible at all
    assert_eq!(detect_zone_change(0, 10, lowest, &scale), None);
    assert_eq!(detect_zone_change(62, 10, lowest, &scale), None);
    assert_eq!(detect_zone_change(64, 10, lowest, &scale).unwrap().value, 19);
}
