//! Discovery of OpenAPI schema files in a project directory.
//!
//! The library lists where a schema may be and decides, from what the file
//! system reports about those places, which schema files were found.

use vstd::prelude::*;
use vstd::string::*;

verus! {

/// The file names a schema is looked for under, in order of preference.
pub open spec fn schema_file_names() -> Seq<Seq<char>> {
    seq![
        "openapi.yaml"@,
        "openapi.yml"@,
        "openapi.json"@,
        "swagger.yaml"@,
        "swagger.yml"@,
        "swagger.json"@,
        "api.yaml"@,
        "api.yml"@,
        "api.json"@,
    ]
}

/// The subdirectories searched after the directory itself, in order.
pub open spec fn schema_subdir_names() -> Seq<Seq<char>> {
    seq!["docs"@, "api"@, "spec"@, "schemas"@]
}

/// How many file names are tried in each place.
pub const FILE_NAME_COUNT: usize = 9;

/// How many subdirectories are searched.
pub const SUBDIR_COUNT: usize = 4;

/// How many candidate paths there are: the file names in the directory, then
/// in each subdirectory.
pub const CANDIDATE_COUNT: usize = 45;

fn file_name(i: usize) -> (name: &'static str)
    requires
        i < FILE_NAME_COUNT,
    ensures
        name@ == schema_file_names()[i as int],
{
    match i {
        0 => "openapi.yaml",
        1 => "openapi.yml",
        2 => "openapi.json",
        3 => "swagger.yaml",
        4 => "swagger.yml",
        5 => "swagger.json",
        6 => "api.yaml",
        7 => "api.yml",
        _ => "api.json",
    }
}

fn subdir_name(i: usize) -> (name: &'static str)
    requires
        i < SUBDIR_COUNT,
    ensures
        name@ == schema_subdir_names()[i as int],
{
    match i {
        0 => "docs",
        1 => "api",
        2 => "spec",
        _ => "schemas",
    }
}

/// The path that `std::path::Path::join` gives for `base` joined with `name`.
pub uninterp spec fn path_join(base: Seq<char>, name: Seq<char>) -> Seq<char>;

/// Calls `std::path::Path::join` on UTF-8 paths; the result is named by
/// `path_join`. Joining two UTF-8 paths gives a UTF-8 path, so the lossy
/// conversion back to text loses nothing.
#[verifier::external_body]
fn join_path(base: &str, name: &str) -> (joined: String)
    ensures
        joined@ == path_join(base@, name@),
{
    std::path::Path::new(base).join(name).to_string_lossy().into_owned()
}

/// The `i`-th subdirectory of `dir` that is searched.
pub open spec fn subdir_path(dir: Seq<char>, i: int) -> Seq<char> {
    path_join(dir, schema_subdir_names()[i])
}

/// The `i`-th candidate path under `dir`: first each file name in `dir`
/// itself, then each file name in each subdirectory.
pub open spec fn candidate_path(dir: Seq<char>, i: int) -> Seq<char> {
    if i < FILE_NAME_COUNT {
        path_join(dir, schema_file_names()[i])
    } else {
        path_join(
            subdir_path(dir, (i - FILE_NAME_COUNT) / FILE_NAME_COUNT as int),
            schema_file_names()[(i - FILE_NAME_COUNT) % FILE_NAME_COUNT as int],
        )
    }
}

/// The stems a schema file may have, in order of preference.
pub open spec fn schema_file_stems() -> Seq<Seq<char>> {
    seq!["openapi"@, "swagger"@, "api"@]
}

/// The extensions tried with each stem, in order of preference.
pub open spec fn schema_file_extensions() -> Seq<Seq<char>> {
    seq!["yaml"@, "yml"@, "json"@]
}

/// The candidate file names are every stem with every extension, stem by
/// stem: name `i` is stem `i / 3`, a dot and extension `i % 3`, so they run
/// `openapi.yaml`, `openapi.yml`, `openapi.json`, `swagger.yaml`, ... up to
/// `api.json`. Each candidate path in the directory itself joins the
/// directory with such a name, and each one in a subdirectory joins the
/// subdirectory with one.
pub proof fn lemma_schema_file_names(dir: Seq<char>)
    ensures
        schema_file_names().len() == FILE_NAME_COUNT,
        schema_file_stems().len() * schema_file_extensions().len() == FILE_NAME_COUNT,
        forall|i: int|
            0 <= i < FILE_NAME_COUNT ==> #[trigger] schema_file_names()[i] == schema_file_stems()[i / 3]
                + "."@ + schema_file_extensions()[i % 3],
        forall|i: int|
            0 <= i < FILE_NAME_COUNT ==> #[trigger] candidate_path(dir, i) == path_join(
                dir,
                schema_file_stems()[i / 3] + "."@ + schema_file_extensions()[i % 3],
            ),
        forall|i: int|
            FILE_NAME_COUNT <= i < CANDIDATE_COUNT ==> #[trigger] candidate_path(dir, i) == path_join(
                subdir_path(dir, (i - FILE_NAME_COUNT) / FILE_NAME_COUNT as int),
                schema_file_stems()[((i - FILE_NAME_COUNT) % FILE_NAME_COUNT as int) / 3] + "."@
                    + schema_file_extensions()[((i - FILE_NAME_COUNT) % FILE_NAME_COUNT as int) % 3],
            ),
{
    reveal_strlit("openapi.yaml");
    reveal_strlit("openapi.yml");
    reveal_strlit("openapi.json");
    reveal_strlit("swagger.yaml");
    reveal_strlit("swagger.yml");
    reveal_strlit("swagger.json");
    reveal_strlit("api.yaml");
    reveal_strlit("api.yml");
    reveal_strlit("api.json");
    reveal_strlit("openapi");
    reveal_strlit("swagger");
    reveal_strlit("api");
    reveal_strlit("yaml");
    reveal_strlit("yml");
    reveal_strlit("json");
    reveal_strlit(".");
    let names = schema_file_names();
    let stems = schema_file_stems();
    let exts = schema_file_extensions();
    assert(stems.len() == 3 && exts.len() == 3);
    assert(stems.len() * exts.len() == 9) by (nonlinear_arith)
        requires
            stems.len() == 3 && exts.len() == 3,
    ;
    assert(names[0] =~= stems[0] + "."@ + exts[0]);
    assert(names[1] =~= stems[0] + "."@ + exts[1]);
    assert(names[2] =~= stems[0] + "."@ + exts[2]);
    assert(names[3] =~= stems[1] + "."@ + exts[0]);
    assert(names[4] =~= stems[1] + "."@ + exts[1]);
    assert(names[5] =~= stems[1] + "."@ + exts[2]);
    assert(names[6] =~= stems[2] + "."@ + exts[0]);
    assert(names[7] =~= stems[2] + "."@ + exts[1]);
    assert(names[8] =~= stems[2] + "."@ + exts[2]);
    assert forall|i: int| 0 <= i < FILE_NAME_COUNT implies #[trigger] names[i] == stems[i / 3] + "."@
        + exts[i % 3] by {
        assert(i == 0 || i == 1 || i == 2 || i == 3 || i == 4 || i == 5 || i == 6 || i == 7 || i == 8);
    }
    assert forall|i: int| FILE_NAME_COUNT <= i < CANDIDATE_COUNT implies #[trigger] candidate_path(dir, i)
        == path_join(
        subdir_path(dir, (i - FILE_NAME_COUNT) / FILE_NAME_COUNT as int),
        stems[((i - FILE_NAME_COUNT) % FILE_NAME_COUNT as int) / 3] + "."@ + exts[((i - FILE_NAME_COUNT)
            % FILE_NAME_COUNT as int) % 3],
    ) by {
        let f = (i - FILE_NAME_COUNT) % FILE_NAME_COUNT as int;
        assert(0 <= f < FILE_NAME_COUNT);
        assert(names[f] == stems[f / 3] + "."@ + exts[f % 3]);
    }
}

/// Every candidate file name ends in `.yaml`, `.yml` or `.json`.
pub proof fn lemma_schema_file_extensions()
    ensures
        forall|i: int|
            0 <= i < FILE_NAME_COUNT ==> {
                let name = #[trigger] schema_file_names()[i];
                ||| name.len() >= 5 && name.subrange(name.len() - 5, name.len() as int) == ".yaml"@
                ||| name.len() >= 4 && name.subrange(name.len() - 4, name.len() as int) == ".yml"@
                ||| name.len() >= 5 && name.subrange(name.len() - 5, name.len() as int) == ".json"@
            },
{
    lemma_schema_file_names(Seq::empty());
    reveal_strlit(".yaml");
    reveal_strlit(".yml");
    reveal_strlit(".json");
    reveal_strlit("yaml");
    reveal_strlit("yml");
    reveal_strlit("json");
    reveal_strlit(".");
    reveal_strlit("openapi");
    reveal_strlit("swagger");
    reveal_strlit("api");
    assert forall|i: int| 0 <= i < FILE_NAME_COUNT implies {
        let name = #[trigger] schema_file_names()[i];
        ||| name.len() >= 5 && name.subrange(name.len() - 5, name.len() as int) == ".yaml"@
        ||| name.len() >= 4 && name.subrange(name.len() - 4, name.len() as int) == ".yml"@
        ||| name.len() >= 5 && name.subrange(name.len() - 5, name.len() as int) == ".json"@
    } by {
        let stem = schema_file_stems()[i / 3];
        let name = schema_file_names()[i];
        assert(name == stem + "."@ + schema_file_extensions()[i % 3]);
        if i % 3 == 0 {
            assert(name.subrange(name.len() - 5, name.len() as int) =~= ".yaml"@);
        } else if i % 3 == 1 {
            assert(name.subrange(name.len() - 4, name.len() as int) =~= ".yml"@);
        } else {
            assert(name.subrange(name.len() - 5, name.len() as int) =~= ".json"@);
        }
    }
}

/// The texts of a list of strings.
pub open spec fn texts(v: Seq<String>) -> Seq<Seq<char>> {
    v.map_values(|s: String| s@)
}

/// The subdirectories of `dir` searched for schemas, in order.
pub fn schema_subdirs(dir: &str) -> (dirs: Vec<String>)
    ensures
        dirs@.len() == SUBDIR_COUNT,
        forall|i: int| 0 <= i < SUBDIR_COUNT ==> #[trigger] dirs@[i]@ == subdir_path(dir@, i),
{
    let mut dirs: Vec<String> = Vec::new();
    let mut i: usize = 0;
    while i < SUBDIR_COUNT
        invariant
            0 <= i <= SUBDIR_COUNT,
            dirs@.len() == i,
            forall|j: int| 0 <= j < i ==> #[trigger] dirs@[j]@ == subdir_path(dir@, j),
        decreases SUBDIR_COUNT - i,
    {
        dirs.push(join_path(dir, subdir_name(i)));
        i = i + 1;
    }
    dirs
}

/// Every candidate path for a schema under `dir`, in order.
pub fn schema_candidates(dir: &str) -> (paths: Vec<String>)
    ensures
        paths@.len() == CANDIDATE_COUNT,
        forall|i: int| 0 <= i < CANDIDATE_COUNT ==> #[trigger] paths@[i]@ == candidate_path(dir@, i),
{
    let mut paths: Vec<String> = Vec::new();
    let mut i: usize = 0;
    while i < FILE_NAME_COUNT
        invariant
            0 <= i <= FILE_NAME_COUNT,
            paths@.len() == i,
            forall|j: int| 0 <= j < i ==> #[trigger] paths@[j]@ == candidate_path(dir@, j),
        decreases FILE_NAME_COUNT - i,
    {
        paths.push(join_path(dir, file_name(i)));
        i = i + 1;
    }
    let subdirs = schema_subdirs(dir);
    let mut d: usize = 0;
    while d < SUBDIR_COUNT
        invariant
            0 <= d <= SUBDIR_COUNT,
            subdirs@.len() == SUBDIR_COUNT,
            forall|k: int| 0 <= k < SUBDIR_COUNT ==> #[trigger] subdirs@[k]@ == subdir_path(dir@, k),
            paths@.len() == FILE_NAME_COUNT + d * FILE_NAME_COUNT,
            forall|j: int| 0 <= j < paths@.len() ==> #[trigger] paths@[j]@ == candidate_path(dir@, j),
        decreases SUBDIR_COUNT - d,
    {
        let mut f: usize = 0;
        while f < FILE_NAME_COUNT
            invariant
                0 <= d < SUBDIR_COUNT,
                0 <= f <= FILE_NAME_COUNT,
                subdirs@.len() == SUBDIR_COUNT,
                forall|k: int| 0 <= k < SUBDIR_COUNT ==> #[trigger] subdirs@[k]@ == subdir_path(dir@, k),
                paths@.len() == FILE_NAME_COUNT + d * FILE_NAME_COUNT + f,
                forall|j: int| 0 <= j < paths@.len() ==> #[trigger] paths@[j]@ == candidate_path(dir@, j),
            decreases FILE_NAME_COUNT - f,
        {
            let ghost j = paths@.len() as int;
            assert((j - 9) / 9 == d && (j - 9) % 9 == f) by (nonlinear_arith)
                requires
                    j == 9 + d * 9 + f,
                    0 <= f < 9,
            ;
            paths.push(join_path(subdirs[d].as_str(), file_name(f)));
            f = f + 1;
        }
        d = d + 1;
    }
    paths
}

/// Whether candidate `i` counts as found: it exists and, for a candidate in
/// a subdirectory, that subdirectory is a directory.
pub open spec fn candidate_found(present: Seq<bool>, subdir_is_dir: Seq<bool>, i: int) -> bool {
    present[i] && (i < FILE_NAME_COUNT || subdir_is_dir[(i - FILE_NAME_COUNT) / FILE_NAME_COUNT as int])
}

/// The found candidates among the first `k`, in order.
pub open spec fn found_among(dir: Seq<char>, present: Seq<bool>, subdir_is_dir: Seq<bool>, k: int) -> Seq<Seq<char>>
    decreases k,
{
    if k <= 0 {
        Seq::empty()
    } else if candidate_found(present, subdir_is_dir, k - 1) {
        found_among(dir, present, subdir_is_dir, k - 1).push(candidate_path(dir, k - 1))
    } else {
        found_among(dir, present, subdir_is_dir, k - 1)
    }
}

/// The positions of the found candidates among the first `k`, in order.
pub open spec fn found_positions(present: Seq<bool>, subdir_is_dir: Seq<bool>, k: int) -> Seq<int>
    decreases k,
{
    if k <= 0 {
        Seq::empty()
    } else if candidate_found(present, subdir_is_dir, k - 1) {
        found_positions(present, subdir_is_dir, k - 1).push(k - 1)
    } else {
        found_positions(present, subdir_is_dir, k - 1)
    }
}

/// Only candidates are ever reported, each at most once and in candidate
/// order: the `j`-th found path is the candidate at position
/// `found_positions(..)[j]`, these positions strictly increase, and each of
/// them counts as found.
pub proof fn lemma_found_are_candidates(dir: Seq<char>, present: Seq<bool>, subdir_is_dir: Seq<bool>, k: int)
    requires
        k >= 0,
    ensures
        ({
            let found = found_among(dir, present, subdir_is_dir, k);
            let pos = found_positions(present, subdir_is_dir, k);
            &&& pos.len() == found.len()
            &&& found.len() <= k
            &&& forall|j: int|
                0 <= j < pos.len() ==> 0 <= #[trigger] pos[j] < k && candidate_found(
                    present,
                    subdir_is_dir,
                    pos[j],
                ) && found[j] == candidate_path(dir, pos[j])
            &&& forall|j1: int, j2: int| 0 <= j1 < j2 < pos.len() ==> #[trigger] pos[j1] < #[trigger] pos[j2]
        }),
    decreases k,
{
    if k > 0 {
        lemma_found_are_candidates(dir, present, subdir_is_dir, k - 1);
    }
}

/// Candidates before `k` count alike whether or not candidate `k` exists.
proof fn lemma_found_before_unchanged(
    dir: Seq<char>,
    present: Seq<bool>,
    subdir_is_dir: Seq<bool>,
    k: int,
    n: int,
)
    requires
        0 <= n <= k < present.len(),
    ensures
        found_among(dir, present.update(k, true), subdir_is_dir, n) == found_among(
            dir,
            present,
            subdir_is_dir,
            n,
        ),
    decreases n,
{
    if n > 0 {
        lemma_found_before_unchanged(dir, present, subdir_is_dir, k, n - 1);
        assert(present.update(k, true)[n - 1] == present[n - 1]);
    }
}

/// A new schema file at candidate `k` (where `k` did not exist) is reported
/// at its place in candidate order, and nothing else changes; where it lies
/// in a subdirectory that is not a directory, nothing changes at all.
pub proof fn lemma_new_file_inserted(
    dir: Seq<char>,
    present: Seq<bool>,
    subdir_is_dir: Seq<bool>,
    k: int,
    n: int,
)
    requires
        0 <= k < n <= present.len(),
        !present[k],
    ensures
        ({
            let before = found_among(dir, present, subdir_is_dir, n);
            let after = found_among(dir, present.update(k, true), subdir_is_dir, n);
            if candidate_found(present.update(k, true), subdir_is_dir, k) {
                after == before.insert(
                    found_among(dir, present, subdir_is_dir, k).len() as int,
                    candidate_path(dir, k),
                )
            } else {
                after == before
            }
        }),
    decreases n,
{
    let p2 = present.update(k, true);
    if n == k + 1 {
        lemma_found_before_unchanged(dir, present, subdir_is_dir, k, k);
        let prev = found_among(dir, present, subdir_is_dir, k);
        assert(!candidate_found(present, subdir_is_dir, k));
        assert(found_among(dir, present, subdir_is_dir, n) == prev);
        if candidate_found(p2, subdir_is_dir, k) {
            assert(prev.insert(prev.len() as int, candidate_path(dir, k)) =~= prev.push(candidate_path(dir, k)));
        }
    } else {
        lemma_new_file_inserted(dir, present, subdir_is_dir, k, n - 1);
        let i = n - 1;
        assert(p2[i] == present[i]);
        assert(candidate_found(p2, subdir_is_dir, i) == candidate_found(present, subdir_is_dir, i));
        if candidate_found(p2, subdir_is_dir, k) {
            let prev_before = found_among(dir, present, subdir_is_dir, n - 1);
            let at = found_among(dir, present, subdir_is_dir, k).len() as int;
            lemma_found_prefix_len(dir, present, subdir_is_dir, k, n - 1);
            if candidate_found(present, subdir_is_dir, i) {
                let x = candidate_path(dir, i);
                assert(prev_before.insert(at, candidate_path(dir, k)).push(x) =~= prev_before.push(x).insert(
                    at,
                    candidate_path(dir, k),
                ));
            }
        }
    }
}

/// The same candidates counting as found give the same files.
proof fn lemma_found_same(
    dir: Seq<char>,
    present: Seq<bool>,
    dirs1: Seq<bool>,
    dirs2: Seq<bool>,
    n: int,
)
    requires
        forall|i: int|
            0 <= i < n ==> #[trigger] candidate_found(present, dirs1, i) == candidate_found(
                present,
                dirs2,
                i,
            ),
    ensures
        found_among(dir, present, dirs1, n) == found_among(dir, present, dirs2, n),
    decreases n,
{
    if n > 0 {
        lemma_found_same(dir, present, dirs1, dirs2, n - 1);
        assert(candidate_found(present, dirs1, n - 1) == candidate_found(present, dirs2, n - 1));
    }
}

/// A new schema file in subdirectory `j` that did not exist before (so held
/// no file), created together with that subdirectory, is reported at its
/// place in candidate order, and nothing else changes.
pub proof fn lemma_new_file_in_new_subdir(
    dir: Seq<char>,
    present: Seq<bool>,
    subdir_is_dir: Seq<bool>,
    j: int,
    k: int,
)
    requires
        present.len() == CANDIDATE_COUNT,
        subdir_is_dir.len() == SUBDIR_COUNT,
        0 <= j < SUBDIR_COUNT,
        !subdir_is_dir[j],
        FILE_NAME_COUNT <= k < CANDIDATE_COUNT,
        (k - FILE_NAME_COUNT) / FILE_NAME_COUNT as int == j,
        forall|i: int|
            FILE_NAME_COUNT <= i < CANDIDATE_COUNT && (i - FILE_NAME_COUNT) / FILE_NAME_COUNT as int
                == j ==> !#[trigger] present[i],
    ensures
        found_among(dir, present.update(k, true), subdir_is_dir.update(j, true), CANDIDATE_COUNT as int)
            == found_among(dir, present, subdir_is_dir, CANDIDATE_COUNT as int).insert(
            found_among(dir, present, subdir_is_dir, k).len() as int,
            candidate_path(dir, k),
        ),
{
    let dirs2 = subdir_is_dir.update(j, true);
    assert forall|i: int| 0 <= i < CANDIDATE_COUNT implies #[trigger] candidate_found(
        present,
        subdir_is_dir,
        i,
    ) == candidate_found(present, dirs2, i) by {
        if i >= FILE_NAME_COUNT && (i - FILE_NAME_COUNT) / FILE_NAME_COUNT as int == j {
            assert(!present[i]);
        } else if i >= FILE_NAME_COUNT {
            let d = (i - FILE_NAME_COUNT) / FILE_NAME_COUNT as int;
            assert(0 <= d < SUBDIR_COUNT);
            assert(dirs2[d] == subdir_is_dir[d]);
        }
    }
    lemma_found_same(dir, present, subdir_is_dir, dirs2, CANDIDATE_COUNT as int);
    lemma_found_same(dir, present, subdir_is_dir, dirs2, k);
    assert(!present[k]);
    lemma_new_file_inserted(dir, present, dirs2, k, CANDIDATE_COUNT as int);
    assert(candidate_found(present.update(k, true), dirs2, k));
}

/// More candidates never find fewer files.
proof fn lemma_found_prefix_len(dir: Seq<char>, present: Seq<bool>, subdir_is_dir: Seq<bool>, k: int, n: int)
    requires
        0 <= k <= n,
    ensures
        found_among(dir, present, subdir_is_dir, k).len() <= found_among(dir, present, subdir_is_dir, n).len(),
    decreases n - k,
{
    if k < n {
        lemma_found_prefix_len(dir, present, subdir_is_dir, k, n - 1);
    }
}

/// The schema files found under `dir`. `present[i]` tells whether candidate
/// `i` of `schema_candidates(dir)` exists, and `subdir_is_dir[j]` whether
/// subdirectory `j` of `schema_subdirs(dir)` is a directory. Files in `dir`
/// come first, then those of each subdirectory in turn.
pub fn detect_schemas(dir: &str, present: &Vec<bool>, subdir_is_dir: &Vec<bool>) -> (found: Vec<String>)
    requires
        present@.len() == CANDIDATE_COUNT,
        subdir_is_dir@.len() == SUBDIR_COUNT,
    ensures
        texts(found@) == found_among(dir@, present@, subdir_is_dir@, CANDIDATE_COUNT as int),
{
    let candidates = schema_candidates(dir);
    let mut found: Vec<String> = Vec::new();
    let mut i: usize = 0;
    while i < CANDIDATE_COUNT
        invariant
            0 <= i <= CANDIDATE_COUNT,
            present@.len() == CANDIDATE_COUNT,
            subdir_is_dir@.len() == SUBDIR_COUNT,
            candidates@.len() == CANDIDATE_COUNT,
            forall|j: int| 0 <= j < CANDIDATE_COUNT ==> #[trigger] candidates@[j]@ == candidate_path(dir@, j),
            texts(found@) == found_among(dir@, present@, subdir_is_dir@, i as int),
        decreases CANDIDATE_COUNT - i,
    {
        let in_subdir_ok = i < FILE_NAME_COUNT || subdir_is_dir[(i - FILE_NAME_COUNT) / FILE_NAME_COUNT];
        if present[i] && in_subdir_ok {
            let ghost before = found@;
            found.push(candidates[i].clone());
            assert(texts(found@) =~= texts(before).push(candidates@[i as int]@));
        }
        i = i + 1;
    }
    found
}

} // verus!
