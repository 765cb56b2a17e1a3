use lib::mpe::{CcEffect, MidiExpression};

fn cc(zones: &mut MidiExpression, channel: u8, control: u8, value: u8) -> CcEffect {
    zones.cc(channel, control, value)
}

fn rpn(zones: &mut MidiExpression, channel: u8, parameter: u8, value: u8) -> CcEffect {
    cc(zones, channel, 101, 0);
    cc(zones, channel, 100, parameter);
    cc(zones, channel, 6, value)
}

#[test]
fn zones_share_member_bend_ranges_and_masters_keep_two_semitones() {
    let mut zones = MidiExpression::new();
    rpn(&mut zones, 0, 6, 3);
    rpn(&mut zones, 15, 6, 2);
    rpn(&mut zones, 1, 0, 12);
    cc(&mut zones, 1, 38, 50);
    for member in 1..=3 {
        assert_eq!(zones.master_for(member), Some(0));
        assert_eq!(zones.bend_range(member, 4800), 1250);
    }
    assert_eq!(zones.bend_range(0, 4800), 200);
    assert_eq!(zones.master_for(13), Some(15));
    assert_eq!(zones.master_for(14), Some(15));
    assert_eq!(zones.bend_range(14, 100), 4800);
    assert_eq!(zones.bend_range(15, 100), 200);
    assert_eq!(zones.master_for(4), None);
    assert_eq!(zones.bend_range(4, 4800), 4800);
    rpn(&mut zones, 0, 6, 14);
    assert_eq!(zones.master_for(14), Some(0));
    assert_eq!(zones.master_for(15), None);
}

#[test]
fn configuration_resets_changed_channels_and_member_ranges_are_shared() {
    let mut zones = MidiExpression::default();
    match rpn(&mut zones, 0, 6, 3) {
        CcEffect::ZoneReset(changed) => {
            let expected: Vec<bool> = (0..16).map(|c| c <= 3).collect();
            assert_eq!(changed, expected);
        }
        _ => panic!("zone configuration"),
    }
    rpn(&mut zones, 2, 0, 7);
    assert_eq!(zones.bend_range(1, 4800), 700);
    assert_eq!(zones.bend_range(3, 4800), 700);
    rpn(&mut zones, 15, 6, 15);
    rpn(&mut zones, 0, 6, 0);
    assert_eq!(zones.master_for(0), Some(15));
    assert!(zones.is_master(15));
    assert!(!zones.is_master(0));
    assert_eq!(zones.zone_for(0), Some(15));
    assert_eq!(zones.zone_for(15), Some(15));
}

#[test]
fn controller_effects_are_reported() {
    let mut zones = MidiExpression::new();
    assert!(matches!(cc(&mut zones, 3, 74, 64), CcEffect::Timbre));
    cc(&mut zones, 3, 101, 0);
    assert!(matches!(cc(&mut zones, 3, 121, 0), CcEffect::ResetControllers));
    assert_eq!(zones.channel(3).rpn_msb, 127);
    assert_eq!(zones.channel(3).rpn_lsb, 127);
    assert!(matches!(cc(&mut zones, 16, 74, 64), CcEffect::Nothing));
    assert!(matches!(cc(&mut zones, 3, 7, 64), CcEffect::Nothing));
}

#[test]
fn bend_range_is_capped_and_rpn_null_stops_data_entry() {
    let mut zones = MidiExpression::new();
    rpn(&mut zones, 5, 0, 120);
    assert_eq!(zones.bend_range(5, 4800), 9600);
    cc(&mut zones, 5, 38, 120);
    assert_eq!(zones.bend_range(5, 4800), 9600);
    rpn(&mut zones, 6, 0, 2);
    cc(&mut zones, 6, 38, 120);
    assert_eq!(zones.bend_range(6, 4800), 299);
    cc(&mut zones, 6, 99, 0);
    cc(&mut zones, 6, 6, 10);
    assert_eq!(zones.bend_range(6, 4800), 299);
    assert_eq!(zones.channel(6).data_msb, 10);
}

#[test]
fn master_channels_reach_their_members() {
    let mut zones = MidiExpression::new();
    rpn(&mut zones, 0, 6, 2);
    let affected = zones.affected_channels(0);
    let expected: Vec<bool> = (0..16).map(|c| c <= 2).collect();
    assert_eq!(affected, expected);
    let single = zones.affected_channels(9);
    let expected: Vec<bool> = (0..16).map(|c| c == 9).collect();
    assert_eq!(single, expected);
}

#[test]
fn a_full_zone_leaves_no_room_for_the_other() {
    let mut zones = MidiExpression::new();
    rpn(&mut zones, 15, 6, 5);
    rpn(&mut zones, 0, 6, 12);
    assert_eq!(zones.master_for(12), Some(0));
    assert_eq!(zones.master_for(13), Some(15));
    assert_eq!(zones.master_for(14), Some(15));
    rpn(&mut zones, 0, 6, 15);
    assert_eq!(zones.master_for(15), Some(0));
    assert!(!zones.is_master(15));
    rpn(&mut zones, 0, 6, 16);
    assert_eq!(zones.master_for(15), Some(0));
}
