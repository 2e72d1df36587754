use wasm_decompile::names::deduplicate_func_names;

#[test]
fn exports_win_and_repeats_get_the_index() {
    let func_names = vec![(3u32, "main".to_string()), (1, "helper".to_string()), (5, "helper".to_string())];
    let exports = vec![(3u32, "start".to_string()), (9, "helper".to_string())];
    let r = deduplicate_func_names(&func_names, &exports);
    assert_eq!(
        r,
        vec![
            (1, "helper".to_string()),
            (3, "start".to_string()),
            (5, "helper_5".to_string()),
            (9, "helper_9".to_string()),
        ]
    );
}

#[test]
fn no_names_no_entries() {
    assert!(deduplicate_func_names(&vec![], &vec![]).is_empty());
}

#[test]
fn suffixed_names_are_fresh_too() {
    let func_names = vec![(0u32, "a_2".to_string()), (1, "a".to_string()), (2, "a".to_string())];
    let r = deduplicate_func_names(&func_names, &vec![]);
    assert_eq!(
        r,
        vec![(0, "a_2".to_string()), (1, "a".to_string()), (2, "a_2_2".to_string())]
    );
}
