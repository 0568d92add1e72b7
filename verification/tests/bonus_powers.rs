use trilogy_save_codec::mass_effect_2::{toggle_bonus_power, Power};
use trilogy_save_codec::shared::SaveString;

fn s(text: &str) -> SaveString {
    SaveString { units: text.encode_utf16().collect() }
}

fn p(name: &str, rank: u32) -> Power {
    Power { power_class_name: s(name), current_rank: rank }
}

#[test]
fn toggle_adds_a_missing_power() {
    let mut powers = vec![p("SFXPower_Barrier_Player", 1)];
    toggle_bonus_power(&mut powers, s("SFXPower_Reave_Player"));
    assert_eq!(powers.len(), 2);
    assert_eq!(powers[1].power_class_name, s("SFXPower_Reave_Player"));
    assert_eq!(powers[1].current_rank, 0);
}

#[test]
fn toggle_removes_a_present_power() {
    let mut powers = vec![p("SFXPower_Barrier_Player", 1), p("SFXPower_Reave_Player", 3)];
    toggle_bonus_power(&mut powers, s("SFXPower_Reave_Player"));
    assert_eq!(powers, vec![p("SFXPower_Barrier_Player", 1)]);
}

#[test]
fn toggle_matches_without_regard_to_case() {
    let mut powers = vec![p("SFXPower_Reave_Player", 3)];
    toggle_bonus_power(&mut powers, s("sfxpower_reave_player"));
    assert!(powers.is_empty());
}

#[test]
fn toggle_removes_only_the_first_match() {
    let mut powers = vec![p("A", 1), p("a", 2), p("B", 3)];
    toggle_bonus_power(&mut powers, s("a"));
    assert_eq!(powers, vec![p("a", 2), p("B", 3)]);
}

#[test]
fn toggle_twice_restores_membership() {
    let mut powers = vec![p("SFXPower_Barrier_Player", 1)];
    toggle_bonus_power(&mut powers, s("SFXPower_Slam_Player"));
    toggle_bonus_power(&mut powers, s("SFXPower_Slam_Player"));
    assert_eq!(powers, vec![p("SFXPower_Barrier_Player", 1)]);
}
