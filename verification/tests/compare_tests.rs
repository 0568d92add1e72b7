use trilogy_save_codec::compare::{
    compare, BoolDiff, CompareFlow, FlowEvent, FlowStep, IntDiff,
};
use trilogy_save_codec::mass_effect_2::{Difficulty, Me2SaveGame, PLOT_FEMALE_ME2};
use trilogy_save_codec::plot::{PlotTable, SparsePlotTable};
use trilogy_save_codec::save_game::SaveGame;
use trilogy_save_codec::shared::{EndGameState, Notoriety, Origin};

fn minimal_me3(bool66: bool, int2: i32) -> SaveGame {
    let mut plot = SparsePlotTable::new();
    plot.extend_booleans(&vec![66]);
    plot.extend_integers(&vec![2]);
    plot.extend_floats(&vec![3]);
    plot.set_boolean(66, bool66);
    plot.set_integer(2, int2);
    plot.set_float_bits(3, 1.5f32.to_bits());
    SaveGame::MassEffect3(trilogy_save_codec::mass_effect_3::Me3SaveGame {
        version: 59,
        difficulty: Difficulty::Normal,
        end_game_state: EndGameState::NotFinished,
        squad: Vec::new(),
        plot,
    })
}

#[test]
fn scenario_one_bool_one_int_difference() {
    let a = minimal_me3(false, 10);
    let b = minimal_me3(true, 20);
    let report = compare(&a, &b);
    assert_eq!(
        report.booleans,
        vec![BoolDiff { id: 66, src: Some(false), cmp: Some(true) }]
    );
    assert_eq!(report.integers, vec![IntDiff { id: 2, src: Some(10), cmp: Some(20) }]);
    assert!(report.floats.is_empty());
}

#[test]
fn compare_is_deterministic() {
    let a = minimal_me3(false, 10);
    let b = minimal_me3(true, 20);
    let r1 = compare(&a, &b);
    let r2 = compare(&a, &b);
    assert_eq!(r1.booleans, r2.booleans);
    assert_eq!(r1.integers, r2.integers);
    assert_eq!(r1.floats, r2.floats);
}

#[test]
fn compare_swapped_inputs_swaps_entries() {
    let a = minimal_me3(false, 10);
    let b = minimal_me3(true, 20);
    let ab = compare(&a, &b);
    let ba = compare(&b, &a);
    assert_eq!(ab.booleans.len(), ba.booleans.len());
    for (x, y) in ab.booleans.iter().zip(ba.booleans.iter()) {
        assert_eq!(x.id, y.id);
        assert_eq!(x.src, y.cmp);
        assert_eq!(x.cmp, y.src);
    }
    assert_eq!(ab.integers.len(), ba.integers.len());
    for (x, y) in ab.integers.iter().zip(ba.integers.iter()) {
        assert_eq!(x.id, y.id);
        assert_eq!(x.src, y.cmp);
        assert_eq!(x.cmp, y.src);
    }
    assert_eq!(ab.floats.len(), ba.floats.len());
}

#[test]
fn compare_against_self_is_empty() {
    let a = minimal_me3(true, 7);
    let report = compare(&a, &a);
    assert!(report.booleans.is_empty());
    assert!(report.integers.is_empty());
    assert!(report.floats.is_empty());
}

#[test]
fn absent_id_is_distinct_from_default() {
    // One side allocates integer id 2 with the default 0; the other lacks it.
    let mut plot_a = SparsePlotTable::new();
    plot_a.extend_integers(&vec![2]);
    let a = SaveGame::MassEffect3(trilogy_save_codec::mass_effect_3::Me3SaveGame {
        version: 59,
        difficulty: Difficulty::Normal,
        end_game_state: EndGameState::NotFinished,
        squad: Vec::new(),
        plot: plot_a,
    });
    let b = SaveGame::MassEffect3(trilogy_save_codec::mass_effect_3::Me3SaveGame {
        version: 59,
        difficulty: Difficulty::Normal,
        end_game_state: EndGameState::NotFinished,
        squad: Vec::new(),
        plot: SparsePlotTable::new(),
    });
    let report = compare(&a, &b);
    assert_eq!(report.integers, vec![IntDiff { id: 2, src: Some(0), cmp: None }]);
}

#[test]
fn dense_and_sparse_sides_compare_by_id() {
    // A dense second-title table projects its integers by index.
    let me2 = SaveGame::MassEffect2(Me2SaveGame {
        version: 29,
        difficulty: Difficulty::Casual,
        end_game_state: EndGameState::NotFinished,
        player: Default::default(),
        me1_plot: PlotTable::new(),
        plot: PlotTable { booleans: Vec::new(), integers: vec![10, 20], floats: Vec::new() },
    });
    let mut plot = SparsePlotTable::new();
    plot.extend_integers(&vec![0, 1]);
    plot.set_integer(0, 10);
    plot.set_integer(1, 25);
    let me3 = SaveGame::MassEffect3(trilogy_save_codec::mass_effect_3::Me3SaveGame {
        version: 59,
        difficulty: Difficulty::Normal,
        end_game_state: EndGameState::NotFinished,
        squad: Vec::new(),
        plot,
    });
    let report = compare(&me2, &me3);
    assert_eq!(report.integers, vec![IntDiff { id: 1, src: Some(20), cmp: Some(25) }]);
}

// ---------------------------------------------------------------------------
// Editing rules keep the plot flags in step.
// ---------------------------------------------------------------------------

#[test]
fn set_gender_updates_plot_flags() {
    let mut save = Me2SaveGame {
        version: 29,
        difficulty: Difficulty::Casual,
        end_game_state: EndGameState::NotFinished,
        player: Default::default(),
        me1_plot: PlotTable { booleans: vec![false; 4640], integers: vec![0; 3], floats: Vec::new() },
        plot: PlotTable { booleans: vec![false; 1540], integers: Vec::new(), floats: Vec::new() },
    };
    save.set_gender(true);
    assert!(save.player.role_play.is_female);
    assert_eq!(save.me1_plot.get_boolean(4639), Some(true));
    assert_eq!(save.plot.get_boolean(PLOT_FEMALE_ME2), Some(true));
}

#[test]
fn set_origin_rewrites_exactly_one_flag() {
    let mut save = Me2SaveGame {
        version: 29,
        difficulty: Difficulty::Casual,
        end_game_state: EndGameState::NotFinished,
        player: Default::default(),
        me1_plot: PlotTable { booleans: Vec::new(), integers: vec![0; 3], floats: Vec::new() },
        plot: PlotTable { booleans: vec![true; 1540], integers: Vec::new(), floats: Vec::new() },
    };
    save.set_origin(Origin::Colonist);
    assert_eq!(save.player.role_play.origin, Origin::Colonist);
    assert_eq!(save.plot.get_boolean(1533), Some(false));
    assert_eq!(save.plot.get_boolean(1535), Some(true));
    assert_eq!(save.plot.get_boolean(1534), Some(false));
    assert_eq!(save.me1_plot.get_integer(1), Some(2));
    // Unrelated flags keep their values.
    assert_eq!(save.plot.get_boolean(1536), Some(true));
}

#[test]
fn set_notoriety_rewrites_exactly_one_flag() {
    let mut save = Me2SaveGame {
        version: 29,
        difficulty: Difficulty::Casual,
        end_game_state: EndGameState::NotFinished,
        player: Default::default(),
        me1_plot: PlotTable { booleans: Vec::new(), integers: vec![0; 3], floats: Vec::new() },
        plot: PlotTable { booleans: vec![false; 1540], integers: Vec::new(), floats: Vec::new() },
    };
    save.set_notoriety(Notoriety::Survivor);
    assert_eq!(save.player.role_play.notoriety, Notoriety::Survivor);
    assert_eq!(save.plot.get_boolean(1537), Some(true));
    assert_eq!(save.plot.get_boolean(1538), Some(false));
    assert_eq!(save.plot.get_boolean(1539), Some(false));
    assert_eq!(save.me1_plot.get_integer(2), Some(1));
}

// ---------------------------------------------------------------------------
// The waiting state machine: completions arrive in any order; matching is by
// path; a failure aborts.
// ---------------------------------------------------------------------------

#[test]
fn flow_matches_completions_by_path() {
    let mut flow = CompareFlow::new(b"a.pcsav".to_vec(), b"b.pcsav".to_vec());
    // The second request completes first.
    let step = flow.on_event(FlowEvent::Opened(b"b.pcsav".to_vec(), minimal_me3(false, 1)));
    assert_eq!(step, FlowStep::Wait);
    let step = flow.on_event(FlowEvent::Opened(b"a.pcsav".to_vec(), minimal_me3(true, 2)));
    assert_eq!(step, FlowStep::Ready);
    let (src, cmp) = flow.into_saves().expect("both slots are filled");
    // The save that reported the first path landed in the first slot.
    match (src, cmp) {
        (SaveGame::MassEffect3(s), SaveGame::MassEffect3(c)) => {
            assert_eq!(s.plot.get_integer(2), Some(2));
            assert_eq!(c.plot.get_integer(2), Some(1));
        },
        _ => panic!("both sides are third-title saves"),
    }
}

#[test]
fn flow_failure_aborts() {
    let mut flow = CompareFlow::new(b"a".to_vec(), b"b".to_vec());
    let step = flow.on_event(FlowEvent::Opened(b"a".to_vec(), minimal_me3(false, 1)));
    assert_eq!(step, FlowStep::Wait);
    let step = flow.on_event(FlowEvent::Failed(b"could not open".to_vec()));
    assert_eq!(step, FlowStep::Abort);
    assert!(flow.into_saves().is_none());
}

#[test]
fn flow_waits_until_both_resolved() {
    let mut flow = CompareFlow::new(b"a".to_vec(), b"b".to_vec());
    let step = flow.on_event(FlowEvent::Opened(b"a".to_vec(), minimal_me3(false, 1)));
    assert_eq!(step, FlowStep::Wait);
    assert!(flow.into_saves().is_none());
}
