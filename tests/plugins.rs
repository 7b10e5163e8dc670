use subchunker::plugins::{
    acknowledge_installed,
    advance, compute_gaps, get_url, is_mod_installed, is_plugin_archive, optional_plugins,
    required_plugins, PluginGap,
};

fn strings(v: &[&str]) -> Vec<String> {
    v.iter().map(|s| s.to_string()).collect()
}

fn gap(index: usize, name: &str, optional: bool) -> PluginGap {
    PluginGap { index, name: name.to_string(), optional }
}

#[test]
fn gaps_come_optional_first_then_required() {
    let required = strings(&["A", "B"]);
    let optional = strings(&["X", "Y"]);
    let toggles = vec![false, true];
    let installed = strings(&["a"]);
    let gaps = compute_gaps(&optional, &toggles, &required, &installed);
    assert_eq!(gaps, vec![gap(1, "Y", true), gap(3, "B", false)]);
}

#[test]
fn computing_gaps_twice_gives_the_same_list() {
    let required = strings(&["Chunky", "SubChunker_Companion"]);
    let optional = strings(&["Lithium", "C2me", "Servercore"]);
    let toggles = vec![true, true, false];
    let installed = strings(&["lithium", "chunky"]);
    let first = compute_gaps(&optional, &toggles, &required, &installed);
    let second = compute_gaps(&optional, &toggles, &required, &installed);
    assert_eq!(first, second);
    let reordered = strings(&["chunky", "lithium", "chunky"]);
    assert_eq!(compute_gaps(&optional, &toggles, &required, &reordered), first);
    assert_eq!(first, vec![gap(1, "C2me", true), gap(4, "SubChunker_Companion", false)]);
}

#[test]
fn nothing_missing_gives_no_gaps() {
    let required = strings(&["A"]);
    let optional = strings(&["X"]);
    let gaps = compute_gaps(&optional, &vec![true], &required, &strings(&["a", "x"]));
    assert!(gaps.is_empty());
}

#[test]
fn missing_toggles_count_as_off() {
    let gaps = compute_gaps(&strings(&["X", "Y"]), &vec![], &strings(&[]), &strings(&[]));
    assert!(gaps.is_empty());
}

#[test]
fn advance_walks_the_gaps_in_order() {
    let required = strings(&["A", "B"]);
    let optional = strings(&["X", "Y"]);
    let toggles = vec![false, true];
    let installed = strings(&["a"]);
    let first = advance(&optional, &toggles, &required, &installed, None).unwrap();
    assert_eq!(first, gap(1, "Y", true));
    let second = advance(&optional, &toggles, &required, &installed, Some(first.index)).unwrap();
    assert_eq!(second, gap(3, "B", false));
    assert_eq!(advance(&optional, &toggles, &required, &installed, Some(second.index)), None);
    assert_eq!(advance(&optional, &toggles, &required, &installed, Some(99)), None);
}

#[test]
fn advance_skips_what_was_installed_meanwhile() {
    let required = strings(&["A", "B"]);
    let optional = strings(&["X", "Y"]);
    let toggles = vec![true, true];
    let installed = strings(&["y", "a"]);
    let next = advance(&optional, &toggles, &required, &installed, Some(0)).unwrap();
    assert_eq!(next, gap(3, "B", false));
}

#[test]
fn installed_check_lowercases_the_name() {
    assert!(is_mod_installed("Lithium", &strings(&["lithium"])));
    assert!(!is_mod_installed("Lithium", &strings(&["Lithium"])));
    assert!(!is_mod_installed("Lithium", &strings(&[])));
}

#[test]
fn url_for_optional_and_required_plugins() {
    assert_eq!(
        get_url("Lithium", "1.21.4").unwrap(),
        "https://modrinth.com/mod/lithium/versions?g=1.21.4&l=fabric"
    );
    assert_eq!(
        get_url("SubChunker_Companion", "1.21").unwrap(),
        "https://modrinth.com/project/subchunker-companion/versions?g=1.21&l=fabric"
    );
    assert_eq!(
        get_url("Chunky", "1.20.1").unwrap(),
        "https://modrinth.com/plugin/chunky/versions?g=1.20.1&l=fabric"
    );
    assert_eq!(get_url("Unknown", "1.21"), None);
}

#[test]
fn catalog_lists() {
    assert_eq!(
        optional_plugins(),
        strings(&[
            "Lithium",
            "Fabric-Api",
            "Ferritecore",
            "C2me",
            "Servercore",
            "Structure_Layout_Optimizer",
            "ResourcefulConfig",
            "ScalableLux"
        ])
    );
    assert_eq!(required_plugins(), strings(&["Chunky", "SubChunker_Companion"]));
}

#[test]
fn plugin_archives_end_in_jar() {
    assert!(is_plugin_archive("lithium-0.14.jar"));
    assert!(is_plugin_archive(".jar"));
    assert!(!is_plugin_archive("notes.txt"));
    assert!(!is_plugin_archive("jar"));
    assert!(!is_plugin_archive("lithium.jar.disabled"));
}

#[test]
fn walk_moves_past_a_gap_only_once_installed() {
    let g = gap(3, "B", false);
    assert_eq!(acknowledge_installed(Some(1), &g, &strings(&["a"])), Some(1));
    assert_eq!(acknowledge_installed(Some(1), &g, &strings(&["a", "b"])), Some(3));
    assert_eq!(acknowledge_installed(None, &g, &strings(&["B"])), None);
}
