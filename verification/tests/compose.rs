use camofy::compose::generate_merged_config;
use camofy::compose::merge_yaml_configs;
use camofy::compose::merge_sequence_field;
use camofy::compose::ComposeError;
use camofy::compose::ListField;
use camofy::compose::MergeError;
use camofy::compose::CORE_DEFAULTS_YAML;
use camofy::yaml::is_valid;
use camofy::yaml::Yaml;
use camofy::yaml_text::parse_document;
use camofy::yaml_text::parse_yaml;
use camofy::yaml_text::is_plain_key;
use camofy::yaml_text::render_yaml;
use camofy::yaml_text::RenderError;

fn doc(text: &str) -> Yaml {
    parse_yaml(text).expect("yaml")
}

fn merged(base: &str, over: &str) -> Yaml {
    merge_yaml_configs(Some(&doc(base)), Some(&doc(over))).expect("merge")
}

fn field<'a>(tree: &'a Yaml, key: &str) -> Option<&'a Yaml> {
    match tree {
        Yaml::Mapping(entries) => entries.iter().find(|e| e.0.is_text(key)).map(|e| &e.1),
        _ => None,
    }
}

fn keys(tree: &Yaml) -> Vec<String> {
    match tree {
        Yaml::Mapping(entries) => entries
            .iter()
            .map(|e| match &e.0 {
                Yaml::Str(s) => s.clone(),
                _ => String::new(),
            })
            .collect(),
        _ => Vec::new(),
    }
}

#[test]
fn prepend_rules_go_before_the_base_rules() {
    let out = merged("rules: [Y]", "prepend-rules: [X]");
    assert!(out.same(&doc("rules: [X, Y]")));
}

#[test]
fn overlay_rules_replace_base_rules_wholesale() {
    let out = merged("rules: [B1, B2]", "rules: [U]");
    assert!(out.same(&doc("rules: [U]")));
}

#[test]
fn append_rules_go_after_the_overlay_rules() {
    let out = merged("rules: [B1]", "rules: [U]\nappend-rules: [A]");
    assert!(out.same(&doc("rules: [U, A]")));
}

#[test]
fn directives_wrap_proxies_and_proxy_groups() {
    let out = merged(
        "proxies: [P]\nproxy-groups: [G]",
        "prepend-proxies: [A]\nappend-proxies: [Z]\nappend-proxy-groups: [H]",
    );
    assert!(out.same(&doc("proxies: [A, P, Z]\nproxy-groups: [G, H]")));
}

#[test]
fn directive_on_absent_field_makes_the_field() {
    let out = merged("mode: rule", "prepend-rules: [X]");
    assert!(out.same(&doc("mode: rule\nrules: [X]")));
}

#[test]
fn null_overlay_field_supplants_base_before_wrapping() {
    let out = merged("rules: [B]", "rules: ~\nprepend-rules: [X]");
    assert!(out.same(&doc("rules: [X]")));
}

#[test]
fn merge_with_null_overlay_gives_base() {
    let base = doc("a: 1\nb: {c: 2}\nrules: [R]");
    let out = merge_yaml_configs(Some(&base), Some(&Yaml::Null)).expect("merge");
    assert!(out.same(&base));
    let out = merge_yaml_configs(Some(&base), None).expect("merge");
    assert!(out.same(&base));
}

#[test]
fn merge_with_null_base_gives_overlay() {
    let over = doc("a: 1\nb: {c: 2}\nrules: [R]");
    let out = merge_yaml_configs(Some(&Yaml::Null), Some(&over)).expect("merge");
    assert!(out.same(&over));
    let out = merge_yaml_configs(None, Some(&over)).expect("merge");
    assert!(out.same(&over));
}

#[test]
fn merge_of_nothing_is_an_empty_mapping() {
    let out = merge_yaml_configs(None, None).expect("merge");
    assert!(out.same(&Yaml::Mapping(Vec::new())));
}

#[test]
fn merge_is_not_commutative() {
    let a = doc("port: 1\nlist: [x]");
    let b = doc("port: 2\nlist: [y]");
    let ab = merge_yaml_configs(Some(&a), Some(&b)).expect("merge");
    let ba = merge_yaml_configs(Some(&b), Some(&a)).expect("merge");
    assert!(ab.same(&b));
    assert!(ba.same(&a));
    assert!(!ab.same(&ba));
}

#[test]
fn nested_mappings_merge_deeply() {
    let out = merged(
        "dns: {enable: true, listen: a, inner: {x: 1, y: 2}}\nmode: rule",
        "dns: {listen: b, inner: {y: 3, z: 4}}",
    );
    assert!(out.same(&doc(
        "dns: {enable: true, listen: b, inner: {x: 1, y: 3, z: 4}}\nmode: rule"
    )));
}

#[test]
fn mappings_under_rules_and_proxies_replace() {
    let out = merged("proxies: {a: 1}\nrules: {a: 1}\nother: {a: 1}", "proxies: {b: 2}\nrules: {b: 2}\nother: {b: 2}");
    assert!(out.same(&doc("proxies: {b: 2}\nrules: {b: 2}\nother: {a: 1, b: 2}")));
}

#[test]
fn keys_keep_base_order_then_overlay_order() {
    let out = merged("b: 1\na: 2\nc: 3", "z: 9\na: 7\ny: 8");
    assert_eq!(keys(&out), vec!["b", "a", "c", "z", "y"]);
}

#[test]
fn non_mapping_roots_are_refused() {
    let list = doc("[1, 2]");
    let map = doc("a: 1");
    assert_eq!(
        merge_yaml_configs(Some(&list), Some(&map)).err(),
        Some(MergeError::BaseRootNotMapping)
    );
    assert_eq!(
        merge_yaml_configs(Some(&map), Some(&list)).err(),
        Some(MergeError::OverlayRootNotMapping)
    );
    assert_eq!(
        merge_yaml_configs(Some(&list), Some(&list)).err(),
        Some(MergeError::BaseRootNotMapping)
    );
}

#[test]
fn directive_operands_must_be_sequences() {
    let base = doc("rules: [B]");
    assert_eq!(
        merge_yaml_configs(Some(&base), Some(&doc("prepend-rules: 5"))).err(),
        Some(MergeError::PrependNotSequence(ListField::Rules))
    );
    assert_eq!(
        merge_yaml_configs(Some(&base), Some(&doc("append-proxies: x"))).err(),
        Some(MergeError::AppendNotSequence(ListField::Proxies))
    );
    assert_eq!(
        merge_yaml_configs(Some(&doc("proxy-groups: 1")), Some(&doc("append-proxy-groups: [x]")))
            .err(),
        Some(MergeError::FieldNotSequence(ListField::ProxyGroups))
    );
    assert_eq!(
        merge_yaml_configs(Some(&doc("rules: 1")), Some(&doc("prepend-rules: 2"))).err(),
        Some(MergeError::FieldNotSequence(ListField::Rules))
    );
}

#[test]
fn null_directive_operands_count_as_empty() {
    let out = merged("rules: [B]", "prepend-rules: ~\nappend-rules: [A]");
    assert!(out.same(&doc("rules: [B, A]")));
}

#[test]
fn sequence_field_wraps_items() {
    let base = match doc("rules: [B]") {
        Yaml::Mapping(e) => e,
        _ => Vec::new(),
    };
    let over = match doc("prepend-rules: [X]") {
        Yaml::Mapping(e) => e,
        _ => Vec::new(),
    };
    let pre = doc("[X]");
    let got = merge_sequence_field(ListField::Rules, &base, &over, Some(&pre), None)
        .expect("field")
        .expect("items");
    assert!(Yaml::Sequence(got).same(&doc("[X, B]")));
    let none = merge_sequence_field(ListField::Proxies, &base, &over, None, None).expect("field");
    assert!(none.is_none());
}

#[test]
fn blank_document_is_null() {
    assert!(parse_document("  \n\t ").expect("doc").same(&Yaml::Null));
    assert!(parse_document("").expect("doc").same(&Yaml::Null));
    assert!(parse_document("a: 1").expect("doc").same(&doc("a: 1")));
    assert!(parse_document("a: [").is_err());
}

#[test]
fn parse_reads_scalars_sequences_and_mappings() {
    let tree = doc("n: 42\nf: 1.5\ns: text\nb: true\nz: ~\nl: [1, two]\nm: {k: v}");
    assert!(field(&tree, "n").expect("n").same(&Yaml::Number("42".to_string())));
    assert!(field(&tree, "f").expect("f").same(&Yaml::Number("1.5".to_string())));
    assert!(field(&tree, "s").expect("s").same(&Yaml::Str("text".to_string())));
    assert!(field(&tree, "b").expect("b").same(&Yaml::Bool(true)));
    assert!(field(&tree, "z").expect("z").same(&Yaml::Null));
    assert!(field(&tree, "l").expect("l").same(&Yaml::Sequence(vec![
        Yaml::Number("1".to_string()),
        Yaml::Str("two".to_string())
    ])));
    assert!(field(&tree, "m").expect("m").same(&Yaml::Mapping(vec![(
        Yaml::Str("k".to_string()),
        Yaml::Str("v".to_string())
    )])));
}

#[test]
fn parse_reads_tags() {
    let tree = doc("x: !Thing 5");
    assert!(field(&tree, "x").expect("x").same(&Yaml::Tagged(
        "!Thing".to_string(),
        Box::new(Yaml::Number("5".to_string()))
    )));
}

#[test]
fn render_then_parse_gives_the_tree_back() {
    let tree = doc("n: 42\nf: 1.5\ns: text\nb: true\nz: ~\nl: [1, two, {a: b}]\nm: {k: v}\nt: !Thing 5\n-3: neg");
    let text = render_yaml(&tree).expect("render");
    assert!(text.contains("n: 42"));
    assert!(doc(&text).same(&tree));
}

#[test]
fn render_writes_block_yaml() {
    let tree = Yaml::Mapping(vec![
        (Yaml::Str("mode".to_string()), Yaml::Str("rule".to_string())),
        (
            Yaml::Str("rules".to_string()),
            Yaml::Sequence(vec![Yaml::Str("A".to_string()), Yaml::Str("B".to_string())]),
        ),
    ]);
    assert_eq!(render_yaml(&tree).expect("render"), "mode: rule\nrules:\n- A\n- B\n");
}

#[test]
fn render_refuses_what_cannot_be_held() {
    let bad_number = Yaml::Number("abc".to_string());
    assert!(matches!(render_yaml(&bad_number), Err(RenderError::NotStorable)));
    let loose_number = Yaml::Number("+5".to_string());
    assert!(matches!(render_yaml(&loose_number), Err(RenderError::NotStorable)));
    let twice = Yaml::Mapping(vec![
        (Yaml::Str("a".to_string()), Yaml::Null),
        (Yaml::Str("a".to_string()), Yaml::Null),
    ]);
    assert!(matches!(render_yaml(&twice), Err(RenderError::NotStorable)));
    let float_key = Yaml::Mapping(vec![(Yaml::Number("1.5".to_string()), Yaml::Null)]);
    assert!(matches!(render_yaml(&float_key), Err(RenderError::NotStorable)));
    let wide_key = Yaml::Mapping(vec![(
        Yaml::Mapping(vec![
            (Yaml::Str("a".to_string()), Yaml::Null),
            (Yaml::Str("b".to_string()), Yaml::Null),
        ]),
        Yaml::Null,
    )]);
    assert!(matches!(render_yaml(&wide_key), Err(RenderError::NotStorable)));
    let float_in_key = Yaml::Mapping(vec![(
        Yaml::Sequence(vec![Yaml::Number("0.0".to_string())]),
        Yaml::Null,
    )]);
    assert!(matches!(render_yaml(&float_in_key), Err(RenderError::NotStorable)));
    let bare_tag = Yaml::Tagged("Thing".to_string(), Box::new(Yaml::Null));
    assert!(matches!(render_yaml(&bare_tag), Err(RenderError::NotStorable)));
    let empty_tag = Yaml::Tagged(String::new(), Box::new(Yaml::Null));
    assert!(matches!(render_yaml(&empty_tag), Err(RenderError::NotStorable)));
}

#[test]
fn core_defaults_applied_when_no_profiles() {
    let content =
        generate_merged_config(None, None, Some(CORE_DEFAULTS_YAML)).expect("generate_merged_config failed");
    let value: serde_yaml::Value = serde_yaml::from_str(&content).expect("parse merged.yaml");

    assert_eq!(
        value.get("external-controller-unix").and_then(|v| v.as_str()),
        Some("/tmp/verge/clash-verge-service.sock")
    );
    assert_eq!(value.get("mixed-port").and_then(|v| v.as_i64()), Some(7897));
    assert_eq!(value.get("mode").and_then(|v| v.as_str()), Some("rule"));
    assert_eq!(
        value
            .get("profile")
            .and_then(|p| p.get("store-selected"))
            .and_then(|v| v.as_bool()),
        Some(true)
    );
}

#[test]
fn defaults_are_laid_over_the_user_profile() {
    let content = generate_merged_config(
        None,
        Some("mixed-port: 8888\nmode: global\nsecret: mine\n"),
        Some(CORE_DEFAULTS_YAML),
    )
    .expect("generate_merged_config failed");
    let value: serde_yaml::Value = serde_yaml::from_str(&content).expect("parse merged.yaml");
    assert_eq!(value.get("mixed-port").and_then(|v| v.as_i64()), Some(7897));
    assert_eq!(value.get("mode").and_then(|v| v.as_str()), Some("rule"));
    assert_eq!(value.get("secret").and_then(|v| v.as_str()), Some("mine"));
    assert_eq!(
        value.get("external-controller-unix").and_then(|v| v.as_str()),
        Some("/tmp/verge/clash-verge-service.sock")
    );
}

#[test]
fn user_profile_overrides_without_defaults() {
    let content = generate_merged_config(
        Some("mixed-port: 7000\nmode: rule\n"),
        Some("mixed-port: 8888\nmode: global\n"),
        None,
    )
    .expect("generate_merged_config failed");
    let value: serde_yaml::Value = serde_yaml::from_str(&content).expect("parse merged.yaml");
    assert_eq!(value.get("mixed-port").and_then(|v| v.as_i64()), Some(8888));
    assert_eq!(value.get("mode").and_then(|v| v.as_str()), Some("global"));
}

#[test]
fn subscription_composes_with_defaults() {
    let remote = "proxies: [{name: A, type: ss}]\nproxy-groups: [{name: G, type: Selector, proxies: [A]}]\nrules: [R1]";
    let content = generate_merged_config(Some(remote), None, Some(CORE_DEFAULTS_YAML))
        .expect("generate_merged_config failed");
    let value: serde_yaml::Value = serde_yaml::from_str(&content).expect("parse merged.yaml");
    assert_eq!(
        value.get("proxies").and_then(|p| p.get(0)).and_then(|p| p.get("name")).and_then(|v| v.as_str()),
        Some("A")
    );
    assert_eq!(
        value
            .get("proxy-groups")
            .and_then(|p| p.get(0))
            .and_then(|p| p.get("name"))
            .and_then(|v| v.as_str()),
        Some("G")
    );
    assert_eq!(value.get("rules").and_then(|p| p.get(0)).and_then(|v| v.as_str()), Some("R1"));
    assert_eq!(value.get("mixed-port").and_then(|v| v.as_i64()), Some(7897));
    assert_eq!(value.get("mode").and_then(|v| v.as_str()), Some("rule"));
    assert_eq!(
        value.get("external-controller-unix").and_then(|v| v.as_str()),
        Some("/tmp/verge/clash-verge-service.sock")
    );
}

#[test]
fn composing_twice_gives_identical_text() {
    let remote = "z: 1\nrules: [R1]\na: {k: v}";
    let user = "prepend-rules: [X]\nb: 2\na: {j: w}";
    let first = generate_merged_config(Some(remote), Some(user), Some(CORE_DEFAULTS_YAML)).expect("first");
    let second = generate_merged_config(Some(remote), Some(user), Some(CORE_DEFAULTS_YAML)).expect("second");
    assert_eq!(first, second);
    assert!(first.starts_with("z: 1\nrules:\n- X\n- R1\na:\n  k: v\n  j: w\nb: 2\nmode: rule\n"));
}

#[test]
fn compose_reports_each_failure() {
    assert!(matches!(
        generate_merged_config(Some("a: ["), None, None),
        Err(ComposeError::BaseUnreadable(_))
    ));
    assert!(matches!(
        generate_merged_config(Some("a: 1"), Some("b: ["), None),
        Err(ComposeError::OverlayUnreadable(_))
    ));
    assert!(matches!(
        generate_merged_config(Some("[1]"), None, None),
        Err(ComposeError::Merge(MergeError::BaseRootNotMapping))
    ));
    assert!(matches!(
        generate_merged_config(Some("a: 1"), None, Some("[1]")),
        Err(ComposeError::Defaults(MergeError::OverlayRootNotMapping))
    ));
    assert!(matches!(
        generate_merged_config(Some("{1.5: 2}"), None, None),
        Err(ComposeError::Render(RenderError::NotStorable))
    ));
}

#[test]
fn unreadable_defaults_are_skipped() {
    let content = generate_merged_config(Some("a: 1"), None, Some("x: [")).expect("compose");
    assert_eq!(content, "a: 1\n");
}

fn written_by_the_parser_crate(text: &str) -> Option<String> {
    let value: serde_yaml::Value = serde_yaml::from_str(text).expect("yaml");
    serde_yaml::to_string(&value).ok()
}

#[test]
fn keys_that_are_not_scalars_are_written() {
    let texts = [
        "? [a, b]\n: 1\n",
        "? []\n: 1\n",
        "? {k: v}\n: 1\n",
        "? {}\n: 1\n",
        "? !Thing x\n: 1\n",
        "? [[1, -2], {a: [true, ~]}, !T {b: c}]\n: {? [x] : y}\n",
        "? [a]\n: 1\n? [b]\n: 2\n? a\n: 3\n",
    ];
    let mut written: Vec<String> = Vec::new();
    for text in texts {
        let tree = doc(text);
        match (render_yaml(&tree), written_by_the_parser_crate(text)) {
            (Ok(got), Some(want)) => {
                assert_eq!(got, want);
                written.push(got);
            }
            (Err(RenderError::Refused(_)), None) => {}
            (got, want) => panic!("{text:?}: {got:?} against {want:?}"),
        }
    }
    assert_eq!(
        written,
        vec![
            "? - a\n  - b\n: 1\n",
            "[]: 1\n",
            "{}: 1\n",
            "? - - 1\n    - -2\n  - a:\n    - true\n    - null\n  - !T\n    b: c\n: ? - x\n  : y\n",
            "? - a\n: 1\n? - b\n: 2\na: 3\n",
        ]
    );
    assert_eq!(
        generate_merged_config(Some("{[1]: 2}"), None, None).ok(),
        written_by_the_parser_crate("{[1]: 2}")
    );
}

#[test]
fn plain_keys_hold_no_fraction_and_no_wide_mapping() {
    let s = |t: &str| Yaml::Str(t.to_string());
    let n = |t: &str| Yaml::Number(t.to_string());
    assert!(is_plain_key(&Yaml::Null));
    assert!(is_plain_key(&Yaml::Bool(false)));
    assert!(is_plain_key(&s("")));
    assert!(is_plain_key(&n("-12")));
    assert!(!is_plain_key(&n("1.5")));
    assert!(!is_plain_key(&n(".nan")));
    assert!(!is_plain_key(&n("")));
    assert!(is_plain_key(&Yaml::Sequence(Vec::new())));
    assert!(is_plain_key(&Yaml::Sequence(vec![s("a"), n("1")])));
    assert!(!is_plain_key(&Yaml::Sequence(vec![s("a"), n("1e3")])));
    assert!(is_plain_key(&Yaml::Mapping(Vec::new())));
    assert!(is_plain_key(&Yaml::Mapping(vec![(s("a"), n("1"))])));
    assert!(!is_plain_key(&Yaml::Mapping(vec![(s("a"), n("1.0"))])));
    assert!(!is_plain_key(&Yaml::Mapping(vec![(n("1.0"), s("a"))])));
    assert!(!is_plain_key(&Yaml::Mapping(vec![(s("a"), n("1")), (s("b"), n("2"))])));
    assert!(is_plain_key(&Yaml::Tagged("!T".to_string(), Box::new(s("a")))));
    assert!(!is_plain_key(&Yaml::Tagged("!T".to_string(), Box::new(n("0.5")))));
}

#[test]
fn well_formed_trees_hold_no_key_twice() {
    let s = |t: &str| Yaml::Str(t.to_string());
    assert!(is_valid(&Yaml::Null));
    assert!(is_valid(&Yaml::Mapping(Vec::new())));
    assert!(is_valid(&Yaml::Mapping(vec![(s("a"), Yaml::Null), (s("b"), Yaml::Null)])));
    let twice = Yaml::Mapping(vec![(s("a"), Yaml::Null), (s("a"), Yaml::Bool(true))]);
    assert!(!is_valid(&twice));
    assert!(!is_valid(&Yaml::Sequence(vec![Yaml::Null, twice.deep_copy()])));
    assert!(!is_valid(&Yaml::Tagged("!T".to_string(), Box::new(twice.deep_copy()))));
    assert!(!is_valid(&Yaml::Mapping(vec![(s("k"), twice.deep_copy())])));
    assert!(!is_valid(&Yaml::Mapping(vec![(twice.deep_copy(), s("v"))])));
    assert!(is_valid(&Yaml::Mapping(vec![
        (s("a"), Yaml::Mapping(vec![(s("x"), Yaml::Null)])),
        (s("b"), Yaml::Mapping(vec![(s("x"), Yaml::Null)])),
    ])));
}

#[test]
fn parsing_and_merging_give_well_formed_trees() {
    let base = doc("a: {x: 1, y: {z: 2}}\nrules: [A]\nproxies: [{name: p}]\nl: [{k: v}]\n");
    let over = doc("a: {y: {w: 3}, x: 4}\nprepend-rules: [B]\nappend-proxies: [{name: q}]\nb: 1\n");
    assert!(is_valid(&base));
    assert!(is_valid(&over));
    let merged = merge_yaml_configs(Some(&base), Some(&over)).expect("merge");
    assert!(is_valid(&merged));
    assert!(is_valid(&doc(CORE_DEFAULTS_YAML)));
    assert!(is_valid(&parse_document("  \n").expect("blank")));
}

#[test]
fn merging_onto_nothing_gives_a_well_formed_overlay_back() {
    let over = doc("a: {x: 1}\nrules: [A]\nk: [1, 2]\n? [s]\n: t\n");
    assert!(is_valid(&over));
    assert!(merge_yaml_configs(None, Some(&over)).expect("merge").same(&over));
    assert!(merge_yaml_configs(Some(&Yaml::Null), Some(&over)).expect("merge").same(&over));
    let s = |t: &str| Yaml::Str(t.to_string());
    let twice = Yaml::Mapping(vec![(s("a"), Yaml::Null), (s("a"), Yaml::Bool(true))]);
    let kept = merge_yaml_configs(None, Some(&twice)).expect("merge");
    assert!(kept.same(&Yaml::Mapping(vec![(s("a"), Yaml::Bool(true))])));
    assert!(is_valid(&kept));
}
