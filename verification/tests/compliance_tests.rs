use wowasticker::compliance::{
    extract_version, govdoc_list, govdoc_lookup, lines_of, manifest_dependencies, spdx_sbom,
};

#[test]
fn version_from_plain_entry() {
    assert_eq!(extract_version("anyhow = \"1.0\""), "1.0");
}

#[test]
fn version_from_table_entry() {
    assert_eq!(
        extract_version("rusqlite = { version = \"0.32\", features = [\"bundled\"] }"),
        "0.32"
    );
}

#[test]
fn version_key_without_quotes_falls_back_to_first_quote() {
    assert_eq!(extract_version("x = \"7\" # version"), "7");
}

#[test]
fn version_unknown_without_quotes() {
    assert_eq!(extract_version("x = { path = ../y }"), "unknown");
}

#[test]
fn version_with_one_quote_is_unknown() {
    assert_eq!(extract_version("x = \"1.0"), "unknown");
}

#[test]
fn lines_split_like_str_lines() {
    let text = "a\r\nb\n\nc\r";
    let lines: Vec<String> = lines_of(text).iter().map(|l| l.iter().collect()).collect();
    let expected: Vec<String> = text.lines().map(|l| l.to_string()).collect();
    assert_eq!(lines, expected);
    assert!(lines_of("").is_empty());
    assert_eq!(lines_of("x\n").len(), 1);
}

#[test]
fn manifest_dependencies_reads_only_dependencies_table() {
    let toml = "[package]\nname = \"w\"\nversion = \"0.2.0\"\n\n[dependencies]\n# comment\nanyhow = \"1\"\n\nserde = { version = \"1.0\", optional = true }\n[dev-dependencies]\ntempfile = \"3\"\n";
    let deps = manifest_dependencies(toml);
    assert_eq!(
        deps,
        vec![
            ("anyhow".to_string(), "1".to_string(), false),
            ("serde".to_string(), "1.0".to_string(), true),
        ]
    );
}

#[test]
fn manifest_without_dependencies_lists_none() {
    assert!(manifest_dependencies("[package]\nname = \"w\"\n").is_empty());
}

#[test]
fn govdocs_listed_and_found_by_name() {
    let docs: Vec<&'static str> = vec!["A", "B", "C", "D", "E", "F", "G", "H", "I", "J", "K"];
    let list = govdoc_list(&docs);
    let names: Vec<&str> = list.iter().map(|(n, _)| *n).collect();
    assert_eq!(
        names,
        vec![
            "sbom",
            "security",
            "privacy",
            "ssdf",
            "supply-chain",
            "accessibility",
            "fips",
            "fedramp",
            "cmmc",
            "itar-ear",
            "federal-use"
        ]
    );
    assert_eq!(govdoc_lookup(&list, "security"), Some("B"));
    assert_eq!(govdoc_lookup(&list, "federal-use"), Some("K"));
    assert_eq!(govdoc_lookup(&list, "fake"), None);
}

#[test]
fn spdx_sbom_of_no_dependencies() {
    let text = spdx_sbom("0.2.0", &vec![]);
    assert_eq!(
        text,
        "SPDXVersion: SPDX-2.3\nDataLicense: CC0-1.0\nSPDXID: SPDXRef-DOCUMENT\n\
DocumentName: wowasticker-sbom\n\
DocumentNamespace: https://github.com/cochranblock/wowasticker/sbom/0.2.0\n\
Creator: Tool: wowasticker-cli-0.2.0\n\n\
PackageName: wowasticker\nSPDXID: SPDXRef-Package\nPackageVersion: 0.2.0\n\
PackageDownloadLocation: https://github.com/cochranblock/wowasticker\n\
PackageLicenseDeclared: Unlicense\n\n"
    );
}

#[test]
fn spdx_sbom_numbers_the_dependencies_of_a_manifest() {
    let manifest = "[package]\nname = \"wowasticker\"\n\n[dependencies]\n\
rusqlite = { version = \"0.32\", features = [\"bundled\"] }\n\
tokio = { version = \"1\", optional = true }\n\n[dev-dependencies]\nx = \"1\"\n";
    let text = spdx_sbom("0.2.0", &manifest_dependencies(manifest));
    assert!(text.contains("SPDXVersion: SPDX-2.3"));
    assert!(text.contains("PackageName: wowasticker"));
    assert!(text.contains("Unlicense"));
    assert!(text.ends_with(
        "PackageName: rusqlite\nSPDXID: SPDXRef-Dep-1\nPackageVersion: 0.32\n\
Relationship: SPDXRef-Package DEPENDS_ON SPDXRef-Dep-1\n\n\
PackageName: tokio\nSPDXID: SPDXRef-Dep-2\nPackageVersion: 1\nPackageComment: optional\n\
Relationship: SPDXRef-Package DEPENDS_ON SPDXRef-Dep-2\n\n"
    ));
    assert!(!text.contains("PackageName: x\n"));
}
