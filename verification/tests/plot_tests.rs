use trilogy_save_codec::mass_effect_2::{Difficulty, Me2SaveGame};
use trilogy_save_codec::plot::{PlotTable, SparsePlotTable};
use trilogy_save_codec::save_game::SaveGame;
use trilogy_save_codec::shared::EndGameState;

// ---------------------------------------------------------------------------
// Dense tables.
// ---------------------------------------------------------------------------

#[test]
fn dense_get_set_roundtrip() {
    let mut t = PlotTable { booleans: vec![false; 10], integers: vec![0; 10], floats: vec![0; 10] };
    assert!(t.set_boolean(4, true));
    assert_eq!(t.get_boolean(4), Some(true));
    assert!(t.set_integer(7, -42));
    assert_eq!(t.get_integer(7), Some(-42));
    assert!(t.set_float_bits(9, 1.25f32.to_bits()));
    assert_eq!(t.get_float_bits(9), Some(1.25f32.to_bits()));
}

#[test]
fn dense_get_past_end_is_absent() {
    let t = PlotTable { booleans: vec![true], integers: Vec::new(), floats: Vec::new() };
    assert_eq!(t.get_boolean(0), Some(true));
    assert_eq!(t.get_boolean(1), None);
    assert_eq!(t.get_integer(0), None);
    assert_eq!(t.get_float_bits(0), None);
}

#[test]
fn dense_set_past_end_changes_nothing() {
    let mut t = PlotTable { booleans: vec![false; 3], integers: vec![5; 3], floats: Vec::new() };
    assert!(!t.set_boolean(3, true));
    assert!(!t.set_integer(100, 1));
    assert!(!t.set_float_bits(0, 1));
    assert_eq!(t.booleans, vec![false; 3]);
    assert_eq!(t.integers, vec![5; 3]);
}

#[test]
fn dense_extend_is_monotonic() {
    let mut t = PlotTable { booleans: vec![true, false], integers: vec![9], floats: Vec::new() };
    t.extend_booleans(&vec![0, 4, 2]);
    assert_eq!(t.booleans, vec![true, false, false, false, false]);
    t.extend_integers(&vec![2]);
    assert_eq!(t.integers, vec![9, 0, 0]);
    t.extend_floats(&vec![1]);
    assert_eq!(t.floats, vec![0, 0]);
    // Extending by ids already in range changes nothing.
    t.extend_booleans(&vec![1]);
    assert_eq!(t.booleans.len(), 5);
}

// ---------------------------------------------------------------------------
// Sparse tables.
// ---------------------------------------------------------------------------

#[test]
fn sparse_never_set_id_is_absent() {
    let t = SparsePlotTable::new();
    assert_eq!(t.get_integer(66), None);
    assert_eq!(t.get_float_bits(66), None);
    assert_eq!(t.get_boolean(0), None);
}

#[test]
fn sparse_extend_then_get_set() {
    let mut t = SparsePlotTable::new();
    t.extend_integers(&vec![2, 66]);
    // Extend fills missing ids with the default.
    assert_eq!(t.get_integer(2), Some(0));
    assert_eq!(t.get_integer(66), Some(0));
    // Setting an allocated id sticks; its neighbour is untouched.
    assert!(t.set_integer(2, 10));
    assert_eq!(t.get_integer(2), Some(10));
    assert_eq!(t.get_integer(66), Some(0));
    // Setting an unallocated id is refused and allocates nothing.
    assert!(!t.set_integer(3, 1));
    assert_eq!(t.get_integer(3), None);
}

#[test]
fn sparse_extend_never_overwrites() {
    let mut t = SparsePlotTable::new();
    t.extend_integers(&vec![5]);
    assert!(t.set_integer(5, 123));
    t.extend_integers(&vec![5, 6]);
    assert_eq!(t.get_integer(5), Some(123));
    assert_eq!(t.get_integer(6), Some(0));
}

#[test]
fn sparse_float_space_is_independent() {
    let mut t = SparsePlotTable::new();
    t.extend_floats(&vec![7]);
    assert!(t.set_float_bits(7, 0.5f32.to_bits()));
    assert_eq!(t.get_float_bits(7), Some(0.5f32.to_bits()));
    assert_eq!(t.get_integer(7), None);
}

#[test]
fn sparse_boolean_space_is_dense() {
    let mut t = SparsePlotTable::new();
    t.extend_booleans(&vec![66]);
    assert_eq!(t.get_boolean(66), Some(false));
    assert_eq!(t.get_boolean(67), None);
    assert!(t.set_boolean(66, true));
    assert_eq!(t.get_boolean(66), Some(true));
}

// ---------------------------------------------------------------------------
// The generic edit capability: the same reads and writes work on either
// storage shape.
// ---------------------------------------------------------------------------

fn me2_tree() -> SaveGame {
    SaveGame::MassEffect2(Me2SaveGame {
        version: 29,
        difficulty: Difficulty::Casual,
        end_game_state: EndGameState::NotFinished,
        player: Default::default(),
        me1_plot: PlotTable::new(),
        plot: PlotTable { booleans: vec![false; 3], integers: vec![1, 2], floats: vec![0] },
    })
}

fn me3_tree() -> SaveGame {
    let mut plot = SparsePlotTable::new();
    plot.extend_booleans(&vec![2]);
    plot.extend_integers(&vec![1]);
    plot.extend_floats(&vec![0]);
    plot.set_integer(1, 2);
    SaveGame::MassEffect3(trilogy_save_codec::mass_effect_3::Me3SaveGame {
        version: 59,
        difficulty: Difficulty::Normal,
        end_game_state: EndGameState::NotFinished,
        squad: Vec::new(),
        plot,
    })
}

#[test]
fn generic_edit_works_on_dense_storage() {
    let mut save = me2_tree();
    assert_eq!(save.get_plot_integer(1), Some(2));
    assert_eq!(save.get_plot_integer(5), None);
    assert_eq!(save.get_plot_integer(-1), None);
    assert!(save.set_plot_integer(1, 42));
    assert_eq!(save.get_plot_integer(1), Some(42));
    assert!(!save.set_plot_integer(5, 1));
    assert!(save.set_plot_boolean(2, true));
    assert_eq!(save.get_plot_boolean(2), Some(true));
    assert!(save.set_plot_float_bits(0, 2.5f32.to_bits()));
    assert_eq!(save.get_plot_float_bits(0), Some(2.5f32.to_bits()));
}

#[test]
fn generic_edit_works_on_sparse_storage() {
    let mut save = me3_tree();
    assert_eq!(save.get_plot_integer(1), Some(2));
    assert_eq!(save.get_plot_integer(5), None);
    assert!(save.set_plot_integer(1, 42));
    assert_eq!(save.get_plot_integer(1), Some(42));
    assert!(!save.set_plot_integer(5, 1));
    assert_eq!(save.get_plot_integer(5), None);
    assert!(save.set_plot_boolean(2, true));
    assert_eq!(save.get_plot_boolean(2), Some(true));
    assert!(save.set_plot_float_bits(0, 0.5f32.to_bits()));
    assert_eq!(save.get_plot_float_bits(0), Some(0.5f32.to_bits()));
}
