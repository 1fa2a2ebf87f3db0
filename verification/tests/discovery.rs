use valiforge::detect::{detect_schemas, schema_candidates, schema_subdirs, CANDIDATE_COUNT, SUBDIR_COUNT};

#[test]
fn candidates_list_the_directory_then_each_subdirectory() {
    let c = schema_candidates("proj");
    assert_eq!(c.len(), CANDIDATE_COUNT);
    assert_eq!(c[0], "proj/openapi.yaml");
    assert_eq!(c[8], "proj/api.json");
    assert_eq!(c[9], "proj/docs/openapi.yaml");
    assert_eq!(c[14], "proj/docs/swagger.json");
    assert_eq!(c[18], "proj/api/openapi.yaml");
    assert_eq!(c[44], "proj/schemas/api.json");
    let d = schema_subdirs("proj/");
    assert_eq!(d, vec!["proj/docs", "proj/api", "proj/spec", "proj/schemas"]);
    assert_eq!(schema_candidates("")[0], "openapi.yaml");
}

#[test]
fn found_files_keep_candidate_order() {
    let mut present = vec![false; CANDIDATE_COUNT];
    present[5] = true; // swagger.json
    present[0] = true; // openapi.yaml
    present[9 + 9 * 2 + 1] = true; // spec/openapi.yml
    present[9 + 3] = true; // docs/swagger.yaml, but docs is not a directory
    let mut dirs = vec![true; SUBDIR_COUNT];
    dirs[0] = false;
    let found = detect_schemas("/srv/app", &present, &dirs);
    assert_eq!(found, vec!["/srv/app/openapi.yaml", "/srv/app/swagger.json", "/srv/app/spec/openapi.yml"]);
}

#[test]
fn nothing_found_in_an_empty_directory() {
    let found = detect_schemas(".", &vec![false; CANDIDATE_COUNT], &vec![true; SUBDIR_COUNT]);
    assert!(found.is_empty());
}

#[test]
fn a_new_file_is_inserted_in_place() {
    let mut present = vec![false; CANDIDATE_COUNT];
    present[0] = true;
    present[9 + 9 * 2 + 1] = true;
    let dirs = vec![true; SUBDIR_COUNT];
    let before = detect_schemas("d", &present, &dirs);
    present[9 + 4] = true; // docs/swagger.yml
    let after = detect_schemas("d", &present, &dirs);
    assert_eq!(before, vec!["d/openapi.yaml", "d/spec/openapi.yml"]);
    assert_eq!(after, vec!["d/openapi.yaml", "d/docs/swagger.yml", "d/spec/openapi.yml"]);
}
