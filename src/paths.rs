use vstd::prelude::*;

verus! {

pub open spec fn out_root_view() -> Seq<char> {
    "./out"@
}

/// The directory under which keys, puzzles and results are kept.
pub fn out_root() -> (r: String)
    ensures
        r@ == out_root_view(),
{
    String::from_str("./out")
}

/// `<root>/keys/<name>/<file>`.
pub fn keys_path(name: &str, file: &str) -> (r: String)
    ensures
        r@ == out_root_view() + "/keys/"@ + name@ + "/"@ + file@,
{
    let mut s = out_root();
    s.append("/keys/");
    s.append(name);
    s.append("/");
    s.append(file);
    s
}

/// Where the hash parameters of a key set are kept.
pub fn poseidon_config_path(name: &str) -> (r: String)
    ensures
        r@ == out_root_view() + "/keys/"@ + name@ + "/"@ + "poseidon_config.json"@,
{
    keys_path(name, "poseidon_config.json")
}

/// Where the proving key of a key set is kept.
pub fn pk_path(name: &str) -> (r: String)
    ensures
        r@ == out_root_view() + "/keys/"@ + name@ + "/"@ + "pk.bin"@,
{
    keys_path(name, "pk.bin")
}

/// Where the verifying key of a key set is kept.
pub fn vk_path(name: &str) -> (r: String)
    ensures
        r@ == out_root_view() + "/keys/"@ + name@ + "/"@ + "vk.bin"@,
{
    keys_path(name, "vk.bin")
}

/// Where the hexadecimal view of the verifying key is kept.
pub fn vk_hexed_path(name: &str) -> (r: String)
    ensures
        r@ == out_root_view() + "/keys/"@ + name@ + "/"@ + "params.json"@,
{
    keys_path(name, "params.json")
}

/// `<root>/sudokus/<name>/<file>`.
pub fn sudoku_path(name: &str, file: &str) -> (r: String)
    ensures
        r@ == out_root_view() + "/sudokus/"@ + name@ + "/"@ + file@,
{
    let mut s = out_root();
    s.append("/sudokus/");
    s.append(name);
    s.append("/");
    s.append(file);
    s
}

/// Where a puzzle's text is kept.
pub fn sudoku_puzzle_path(name: &str) -> (r: String)
    ensures
        r@ == out_root_view() + "/sudokus/"@ + name@ + "/"@ + "puzzle.ssv"@,
{
    sudoku_path(name, "puzzle.ssv")
}

/// Where a solution's text is kept.
pub fn sudoku_solution_path(name: &str) -> (r: String)
    ensures
        r@ == out_root_view() + "/sudokus/"@ + name@ + "/"@ + "solution.ssv"@,
{
    sudoku_path(name, "solution.ssv")
}

/// `<root>/results/<keys>_<sudoku>/<file>`.
pub fn results_path(keys: &str, sudoku: &str, file: &str) -> (r: String)
    ensures
        r@ == out_root_view() + "/results/"@ + keys@ + "_"@ + sudoku@ + "/"@ + file@,
{
    let mut s = out_root();
    s.append("/results/");
    s.append(keys);
    s.append("_");
    s.append(sudoku);
    s.append("/");
    s.append(file);
    s
}

/// Where the hexadecimal view of a proof is kept.
pub fn proof_hexed_path(keys: &str, sudoku: &str) -> (r: String)
    ensures
        r@ == out_root_view() + "/results/"@ + keys@ + "_"@ + sudoku@ + "/"@ + "redeemer.json"@,
{
    results_path(keys, sudoku, "redeemer.json")
}

/// Where the public inputs of a proof are kept.
pub fn pub_inputs_path(keys: &str, sudoku: &str) -> (r: String)
    ensures
        r@ == out_root_view() + "/results/"@ + keys@ + "_"@ + sudoku@ + "/"@ + "datum.json"@,
{
    results_path(keys, sudoku, "datum.json")
}

} // verus!
