use sudoku_snark::paths::{
    keys_path, out_root, pk_path, poseidon_config_path, proof_hexed_path, pub_inputs_path, results_path,
    sudoku_path, sudoku_puzzle_path, sudoku_solution_path, vk_hexed_path, vk_path,
};

#[test]
fn key_paths() {
    assert_eq!(out_root(), "./out");
    assert_eq!(keys_path("k", ""), "./out/keys/k/");
    assert_eq!(poseidon_config_path("k"), "./out/keys/k/poseidon_config.json");
    assert_eq!(pk_path("k"), "./out/keys/k/pk.bin");
    assert_eq!(vk_path("k"), "./out/keys/k/vk.bin");
    assert_eq!(vk_hexed_path("k"), "./out/keys/k/params.json");
}

#[test]
fn puzzle_and_result_paths() {
    assert_eq!(sudoku_path("s", "x"), "./out/sudokus/s/x");
    assert_eq!(sudoku_puzzle_path("s"), "./out/sudokus/s/puzzle.ssv");
    assert_eq!(sudoku_solution_path("s"), "./out/sudokus/s/solution.ssv");
    assert_eq!(results_path("k", "s", ""), "./out/results/k_s/");
    assert_eq!(proof_hexed_path("k", "s"), "./out/results/k_s/redeemer.json");
    assert_eq!(pub_inputs_path("k", "s"), "./out/results/k_s/datum.json");
}
