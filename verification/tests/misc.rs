use r_flightsim::airport::{
    airport_generated, aux_building_count, building_counts, building_plan, building_side_positive,
    group_parallel_runways, ident_hash,
    runway_number_heading, sub_hash, BuildingKind,
};
use r_flightsim::playground::Position;
use r_flightsim::playlist::PlaylistCursor;
use r_flightsim::profiles::{
    find_profile, gear_is_steerable, is_space_category, profile_for_flight, profile_order, text_contains,
    ProfileKey,
};
use r_flightsim::text::{i64_to_decimal, padded_decimal, trim, u64_to_decimal};
use r_flightsim::tts::{build_assignments, phonemes_to_ids, VoiceAssignment};
use r_flightsim::ui::{EngineSoundCategory, PreviewLoad, PreviewStep, StarToggleState};
use std::collections::hash_map::DefaultHasher;
use std::collections::HashMap;
use std::hash::{Hash, Hasher};

#[test]
fn ident_hash_matches_str_hash() {
    for ident in ["KSFO", "KOAK", "", "X-é"] {
        let mut h = DefaultHasher::new();
        ident.hash(&mut h);
        assert_eq!(ident_hash(ident), h.finish());
    }
    assert_ne!(ident_hash("KSFO"), ident_hash("KOAK"));
}

#[test]
fn sub_hash_matches_value_hashes() {
    for (base, index) in [(0u64, 0u32), (12345, 5000), (u64::MAX, 1001)] {
        let mut h = DefaultHasher::new();
        base.hash(&mut h);
        index.hash(&mut h);
        assert_eq!(sub_hash(base, index), h.finish());
    }
    assert_ne!(sub_hash(7, 1), sub_hash(7, 2));
}

#[test]
fn runway_numbers_give_headings() {
    assert_eq!(runway_number_heading("09L"), Some(90));
    assert_eq!(runway_number_heading("36"), Some(360));
    assert_eq!(runway_number_heading("1"), Some(10));
    assert_eq!(runway_number_heading("00"), None);
    assert_eq!(runway_number_heading("37"), None);
    assert_eq!(runway_number_heading("L"), None);
    assert_eq!(runway_number_heading(""), None);
    assert_eq!(runway_number_heading("4294967296"), None);
    assert_eq!(runway_number_heading("0000000000000000000012"), Some(120));
}

#[test]
fn buildings_by_size_class() {
    assert_eq!(building_counts("large_airport"), (6, 4, 8));
    assert_eq!(building_counts("medium_airport"), (2, 2, 1));
    assert_eq!(building_counts("small_airport"), (1, 1, 1));
    assert_eq!(aux_building_count(0), 1);
    assert_eq!(aux_building_count(31 << 8), 32);
    assert_eq!(aux_building_count((32 << 8) | 0xff), 1);
    assert!(building_side_positive(4));
    assert!(!building_side_positive(5));
    let plan = building_plan("medium_airport", 2 << 8);
    assert_eq!(plan.len(), 1 + 2 + 2 + 1 + 3);
    assert_eq!(plan[0], BuildingKind::AtcTower);
    assert_eq!(plan[1], BuildingKind::LargeHangar);
    assert_eq!(plan[3], BuildingKind::SmallHangar);
    assert_eq!(plan[5], BuildingKind::Admin);
    assert_eq!(plan[8], BuildingKind::Aux(2));
}

#[test]
fn space_categories_sort_last() {
    assert!(is_space_category("SpaceCraft"));
    assert!(is_space_category("satellite"));
    assert!(!is_space_category("satellites"));
    assert!(!is_space_category("fighter"));
    let keys = vec![
        ProfileKey { is_space: true, name: "ISS".to_string() },
        ProfileKey { is_space: false, name: "Zero".to_string() },
        ProfileKey { is_space: false, name: "Ki-61".to_string() },
        ProfileKey { is_space: true, name: "Hubble".to_string() },
        ProfileKey { is_space: false, name: "Ki-61".to_string() },
        ProfileKey { is_space: false, name: "Ki".to_string() },
    ];
    assert_eq!(profile_order(&keys), vec![5, 2, 4, 1, 3, 0]);
}

#[test]
fn phoneme_ids_are_padded_and_wrapped() {
    let mut m: HashMap<u32, Vec<i64>> = HashMap::new();
    m.insert('^' as u32, vec![1]);
    m.insert('_' as u32, vec![0]);
    m.insert('$' as u32, vec![2]);
    m.insert('a' as u32, vec![5]);
    m.insert('b' as u32, vec![6, 7]);
    assert_eq!(phonemes_to_ids("ab c", &m), vec![1, 0, 5, 0, 6, 7, 0, 2]);
    assert_eq!(phonemes_to_ids("", &m), vec![1, 0, 2]);
    let empty: HashMap<u32, Vec<i64>> = HashMap::new();
    assert!(phonemes_to_ids("abc", &empty).is_empty());
}

#[test]
fn voices_are_assigned_per_speaker() {
    let a = build_assignments(3);
    assert_eq!(a.len(), 7 + 7 + 2);
    assert_eq!(a[&0], VoiceAssignment { voice_index: 0, speed_milli: 1290 });
    assert_eq!(a[&4], VoiceAssignment { voice_index: 1, speed_milli: 1402 });
    assert_eq!(a[&101], VoiceAssignment { voice_index: 1, speed_milli: 1230 });
    assert_eq!(a[&106], VoiceAssignment { voice_index: 0, speed_milli: 1318 });
    assert_eq!(a[&201], VoiceAssignment { voice_index: 2, speed_milli: 1340 });
    assert!(!a.contains_key(&7));
    let one = build_assignments(1);
    assert_eq!(one[&201].voice_index, 0);
    assert_eq!(one[&6].voice_index, 0);
    let two = build_assignments(2);
    assert_eq!(two[&201].voice_index, 1);
}

#[test]
fn star_toggle_cycles_through_three_states() {
    let s = StarToggleState::ProminentOnly;
    assert_eq!(s.cycle(), StarToggleState::AllStars);
    assert_eq!(s.cycle().cycle(), StarToggleState::Off);
    assert_eq!(s.cycle().cycle().cycle(), s);
}

#[test]
fn engine_sound_paths() {
    assert_eq!(
        EngineSoundCategory::PropellerSmall.default_wav_path(),
        "assets/engine_noise/default-propeller-small.wav"
    );
    assert_eq!(EngineSoundCategory::Space.default_wav_path(), "assets/engine_noise/default-space.wav");
}

#[test]
fn playlist_never_repeats_and_wraps() {
    let mut c = PlaylistCursor::new(3);
    assert_eq!(c.track_to_enqueue(), Some(0));
    c.mark_played();
    assert!(!c.advance());
    assert!(!c.advance());
    assert!(c.advance());
    assert_eq!(c.current_index, 0);
    c.current_index = 0;
    assert_eq!(c.track_to_enqueue(), Some(1));
    let mut single = PlaylistCursor::new(1);
    single.mark_played();
    assert_eq!(single.track_to_enqueue(), Some(0));
    let mut empty = PlaylistCursor::new(0);
    assert_eq!(empty.track_to_enqueue(), None);
}

#[test]
fn grid_position_moves() {
    let mut p = Position::default();
    p.up();
    p.position(8, 7, 2);
    assert_eq!((p.x, p.y, p.z), (8, 7, 2));
    p.relative(2, 3, 8);
    assert_eq!((p.x, p.y, p.z), (10, 10, 10));
    p.melative(1, 1, 1);
    assert_eq!((p.x, p.y, p.z), (11, 11, 11));
}

#[test]
fn decimal_and_trim_helpers() {
    assert_eq!(u64_to_decimal(0), "0");
    assert_eq!(u64_to_decimal(18446744073709551615), "18446744073709551615");
    assert_eq!(i64_to_decimal(-42), "-42");
    assert_eq!(i64_to_decimal(i64::MIN), "-9223372036854775808");
    assert_eq!(padded_decimal(7, 3), "007");
    assert_eq!(padded_decimal(12345, 2), "12345");
    assert_eq!(trim("\u{3000} a b \t\n"), "a b");
    assert_eq!(trim("   "), "");
}

#[test]
fn parallel_runways_share_a_group() {
    let g = group_parallel_runways(&vec![2800, 2810, 1000, 3590, 5, 3600, 1049, 1050]);
    assert_eq!(g.len(), 4);
    assert_eq!(g[0].heading_tenths, 2800);
    assert_eq!(g[0].members, vec![0, 1]);
    assert_eq!(g[1].heading_tenths, 1000);
    assert_eq!(g[1].members, vec![2, 6]);
    assert_eq!(g[2].heading_tenths, 3590);
    assert_eq!(g[2].members, vec![3, 4, 5]);
    assert_eq!(g[3].heading_tenths, 1050);
    assert_eq!(g[3].members, vec![7]);
    assert!(group_parallel_runways(&vec![]).is_empty());
}

#[test]
fn heliports_and_closed_fields_get_no_scenery() {
    assert!(airport_generated("large_airport"));
    assert!(airport_generated("small_airport"));
    assert!(!airport_generated("heliport"));
    assert!(!airport_generated("closed"));
}

#[test]
fn profile_lookup_by_slug() {
    let slugs = vec!["a6m_zero".to_string(), "ki61_hien".to_string(), "iss".to_string()];
    assert_eq!(find_profile(&slugs, "ki61_hien"), Some(1));
    assert_eq!(find_profile(&slugs, "p51"), None);
    assert_eq!(profile_for_flight(&slugs, "iss"), Some(2));
    assert_eq!(profile_for_flight(&slugs, "p51"), Some(0));
    assert_eq!(profile_for_flight(&Vec::new(), "iss"), None);
}

#[test]
fn steerable_gear_names() {
    assert!(gear_is_steerable("tail_wheel"));
    assert!(gear_is_steerable("nose gear"));
    assert!(!gear_is_steerable("main_left"));
    assert!(!gear_is_steerable(""));
    assert!(text_contains("abc", ""));
    assert!(text_contains("abcab", "cab"));
    assert!(!text_contains("ab", "abc"));
}

#[test]
fn star_groups_follow_the_toggle() {
    assert_eq!(StarToggleState::ProminentOnly.star_groups_drawn(true), (true, false));
    assert_eq!(StarToggleState::AllStars.star_groups_drawn(true), (true, true));
    assert_eq!(StarToggleState::Off.star_groups_drawn(true), (false, false));
    assert_eq!(StarToggleState::AllStars.star_groups_drawn(false), (false, false));
}

#[test]
fn preview_loads_each_aircraft_once() {

    let mut p = PreviewLoad::new();
    assert_eq!(p.request("ki61_hien", true), PreviewStep::Load);
    assert_eq!(p.pending_slug, "ki61_hien");
    // Selected again while loading: no second load.
    assert_eq!(p.request("ki61_hien", true), PreviewStep::Keep);
    p.finished();
    assert_eq!(p.loaded_slug, "ki61_hien");
    assert_eq!(p.pending_slug, "");
    assert_eq!(p.request("ki61_hien", true), PreviewStep::Keep);
    assert_eq!(p.request("iss", false), PreviewStep::NoModel);
    assert_eq!(p.loaded_slug, "iss");
    assert_eq!(p.request("a6m", true), PreviewStep::Load);
    p.failed();
    assert_eq!(p.pending_slug, "");
    assert_eq!(p.loaded_slug, "iss");
    assert_eq!(p.request("a6m", true), PreviewStep::Load);
}
