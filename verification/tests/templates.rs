use es_tools::json::{Json, JsonNumber, JsonObject};
use es_tools::named::NameMap;
use es_tools::pattern::{match_outcome, matches_pattern, pattern_to_regex};
use es_tools::templates::{find_matching_templates, TemplateDefinition};

fn template(patterns: &[&str], order: Option<i32>) -> TemplateDefinition {
    TemplateDefinition {
        index_patterns: patterns.iter().map(|p| p.to_string()).collect(),
        order,
        settings: None,
        mappings: None,
        aliases: None,
        version: None,
    }
}

fn named<T>(entries: Vec<(String, T)>) -> NameMap<T> {
    let mut map = NameMap::new();
    for (name, item) in entries {
        map.insert(name, item);
    }
    map
}

fn names(found: &[(&str, &TemplateDefinition)]) -> Vec<String> {
    found.iter().map(|(name, _)| name.to_string()).collect()
}

#[test]
fn wildcard_matches_any_run() {
    assert!(matches_pattern("logs-2024-01", "logs-*"));
    assert!(!matches_pattern("metrics-2024-01", "logs-*"));
    assert!(matches_pattern("logs-", "logs-*"));
    assert!(!matches_pattern("logs", "logs-*"));
    assert!(matches_pattern("a-b-c", "a*c"));
    assert!(matches_pattern("ac", "a*c"));
    assert!(!matches_pattern("acd", "a*c"));
    assert!(matches_pattern("abcabc", "*b*b*"));
    assert!(!matches_pattern("abc", "*b*b*"));
}

#[test]
fn lone_wildcard_matches_everything() {
    for name in ["", "a", "logs-2024", "with space", "two\nlines", "世界", "*", ".*"] {
        assert!(matches_pattern(name, "*"), "on {:?}", name);
    }
}

#[test]
fn match_covers_the_whole_name() {
    assert!(matches_pattern("logs", "logs"));
    assert!(!matches_pattern("logs-1", "logs"));
    assert!(!matches_pattern("my-logs", "logs"));
    assert!(!matches_pattern("xlogs-1", "logs-*"));
    assert!(!matches_pattern("logs\n", "logs"));
    assert!(matches_pattern("", ""));
    assert!(!matches_pattern("a", ""));
}

#[test]
fn other_characters_are_literal() {
    assert!(matches_pattern("a.b", "a.b"));
    assert!(!matches_pattern("axb", "a.b"));
    assert!(matches_pattern("a+b", "a+b"));
    assert!(!matches_pattern("aab", "a+b"));
    assert!(matches_pattern("a?b", "a?b"));
    assert!(!matches_pattern("b", "a?b"));
    assert!(matches_pattern("(x)", "(x)"));
    assert!(matches_pattern("[ab]", "[ab]"));
    assert!(!matches_pattern("a", "[ab]"));
    assert!(matches_pattern("a|b", "a|b"));
    assert!(!matches_pattern("a", "a|b"));
    assert!(matches_pattern("^a$", "^a$"));
    assert!(matches_pattern("a{2}", "a{2}"));
    assert!(!matches_pattern("aa", "a{2}"));
    assert!(matches_pattern("a\\b", "a\\b"));
    assert!(matches_pattern("a\\xyz", "a\\*"));
    assert!(!matches_pattern("a*", "a\\*"));
    assert!(matches_pattern("x-1.y", "x-*.y"));
    assert!(matches_pattern("日志-2024", "日志-*"));
    assert!(matches_pattern("a\\db", "a\\db"));
    assert!(!matches_pattern("a1b", "a\\db"));
}

/// Whether `name` is `pattern` with each `*` replaced by some run of
/// characters.
fn fills_in(pattern: &[char], name: &[char]) -> bool {
    match pattern.split_first() {
        None => name.is_empty(),
        Some((&'*', rest)) => {
            fills_in(rest, name) || (!name.is_empty() && fills_in(pattern, &name[1..]))
        }
        Some((c, rest)) => !name.is_empty() && name[0] == *c && fills_in(rest, &name[1..]),
    }
}

fn words(alphabet: &[char], longest: usize) -> Vec<Vec<char>> {
    let mut all = vec![Vec::new()];
    let mut last = vec![Vec::new()];
    for _ in 0..longest {
        let mut next = Vec::new();
        for word in &last {
            for c in alphabet {
                let mut longer: Vec<char> = word.clone();
                longer.push(*c);
                next.push(longer);
            }
        }
        all.extend(next.iter().cloned());
        last = next;
    }
    all
}

#[test]
fn matching_is_filling_in_the_wildcards() {
    let patterns = words(&['a', '*', '.', '\\'], 3);
    let names = words(&['a', '.', '\\', '\n'], 3);
    for pattern in &patterns {
        let pattern_text: String = pattern.iter().collect();
        for name in &names {
            let name_text: String = name.iter().collect();
            assert_eq!(
                matches_pattern(&name_text, &pattern_text),
                fills_in(pattern, name),
                "pattern {:?}, name {:?}",
                pattern_text,
                name_text
            );
        }
    }
}

#[test]
fn regular_expression_of_a_pattern() {
    assert_eq!(pattern_to_regex(""), "(?s)^$");
    assert_eq!(pattern_to_regex("logs-*"), "(?s)^logs\\-.*$");
    assert_eq!(pattern_to_regex("*"), "(?s)^.*$");
    assert_eq!(pattern_to_regex("**"), "(?s)^.*.*$");
    assert_eq!(pattern_to_regex("a.b"), "(?s)^a\\.b$");
    assert_eq!(pattern_to_regex("\\*"), "(?s)^\\\\.*$");
    assert_eq!(pattern_to_regex("\\\\*"), "(?s)^\\\\\\\\.*$");
    assert_eq!(
        pattern_to_regex("\\.+*?()|[]{}^$#&-~"),
        "(?s)^\\\\\\.\\+.*\\?\\(\\)\\|\\[\\]\\{\\}\\^\\$\\#\\&\\-\\~$"
    );
    assert_eq!(pattern_to_regex("a b/c%d_e"), "(?s)^a b/c%d_e$");
}

#[test]
fn outcome_of_a_search() {
    assert!(match_outcome(Some(true)));
    assert!(!match_outcome(Some(false)));
    assert!(!match_outcome(None));
}

#[test]
fn pattern_too_large_to_compile_matches_nothing() {
    // The regular expression of so long a pattern is over the size that the
    // engine accepts, so not even the pattern's own text matches it.
    let pattern = "日".repeat(1_000_000);
    assert!(!matches_pattern("日", &pattern));
    assert!(!matches_pattern(&pattern, &pattern));
    let short = "日".repeat(1_000);
    assert!(matches_pattern(&short, &short));
}

#[test]
fn resolution_is_priority_descending() {
    let templates = named(vec![
        ("A".to_string(), template(&["a-*"], Some(1))),
        ("B".to_string(), template(&["a-*"], Some(5))),
        ("C".to_string(), template(&["b-*"], Some(5))),
    ]);
    let found = find_matching_templates(&templates, "a-1");
    assert_eq!(names(&found), vec!["B", "A"]);
    assert_eq!(found[0].1, templates.item(1));
    assert_eq!(found[1].1, templates.item(0));
}

#[test]
fn resolution_keeps_the_order_of_equal_priorities() {
    let templates = named(vec![
        ("first".to_string(), template(&["x*"], Some(2))),
        ("second".to_string(), template(&["x*"], None)),
        ("third".to_string(), template(&["x*"], Some(2))),
        ("fourth".to_string(), template(&["x*"], Some(0))),
        ("fifth".to_string(), template(&["x*"], Some(-3))),
        ("sixth".to_string(), template(&["x*"], Some(7))),
        ("seventh".to_string(), template(&["x*"], Some(2))),
    ]);
    let found = find_matching_templates(&templates, "x");
    assert_eq!(
        names(&found),
        vec!["sixth", "first", "third", "seventh", "second", "fourth", "fifth"]
    );
}

#[test]
fn resolution_agrees_with_a_stable_sort() {
    let orders = [Some(3), None, Some(-1), Some(3), Some(0), Some(i32::MAX), Some(i32::MIN), None];
    let listed: Vec<(String, TemplateDefinition)> = orders
        .iter()
        .enumerate()
        .map(|(i, order)| {
            let pattern = if i % 3 == 2 { "other-*" } else { "logs-*" };
            (format!("t{}", i), template(&[pattern], *order))
        })
        .collect();
    let mut expected: Vec<&(String, TemplateDefinition)> =
        listed.iter().filter(|(_, t)| t.index_patterns[0] == "logs-*").collect();
    expected.sort_by(|a, b| b.1.order.unwrap_or(0).cmp(&a.1.order.unwrap_or(0)));
    let templates = named(listed.clone());
    let found = find_matching_templates(&templates, "logs-1");
    assert_eq!(names(&found), expected.iter().map(|(n, _)| n.clone()).collect::<Vec<_>>());
}

#[test]
fn any_pattern_of_a_template_may_match() {
    let templates = named(vec![
        ("multi".to_string(), template(&["a-*", "b-*", "c"], None)),
        ("none".to_string(), template(&[], Some(9))),
    ]);
    assert_eq!(names(&find_matching_templates(&templates, "a-1")), vec!["multi"]);
    assert_eq!(names(&find_matching_templates(&templates, "b-1")), vec!["multi"]);
    assert_eq!(names(&find_matching_templates(&templates, "c")), vec!["multi"]);
    assert!(find_matching_templates(&templates, "d").is_empty());
    assert!(templates.item(0).applies_to("b-"));
    assert!(!templates.item(1).applies_to("b-"));
    assert_eq!(templates.item(0).priority(), 0);
    assert_eq!(templates.item(1).priority(), 9);
}

#[test]
fn resolution_of_nothing_is_empty() {
    let templates: NameMap<TemplateDefinition> = NameMap::new();
    assert!(find_matching_templates(&templates, "a-1").is_empty());
    let templates = named(vec![("C".to_string(), template(&["b-*"], Some(5)))]);
    assert!(find_matching_templates(&templates, "a-1").is_empty());
}

#[test]
fn template_as_json() {
    let mut settings = JsonObject::new();
    settings.insert("number_of_shards".to_string(), Json::Text("1".to_string()));
    let full = TemplateDefinition {
        index_patterns: vec!["logs-*".to_string(), "metrics-*".to_string()],
        order: Some(-2),
        settings: Some(Json::Object(settings.clone())),
        mappings: Some(Json::Null),
        aliases: Some(Json::Bool(true)),
        version: Some(3),
    };
    let mut expected = JsonObject::new();
    expected.insert(
        "index_patterns".to_string(),
        Json::Array(vec![Json::Text("logs-*".to_string()), Json::Text("metrics-*".to_string())]),
    );
    expected.insert("order".to_string(), Json::Number(JsonNumber::Negative(-2)));
    expected.insert("settings".to_string(), Json::Object(settings));
    expected.insert("mappings".to_string(), Json::Null);
    expected.insert("aliases".to_string(), Json::Bool(true));
    expected.insert("version".to_string(), Json::Number(JsonNumber::Unsigned(3)));
    assert_eq!(full.to_json(), Json::Object(expected));

    let bare = template(&[], None);
    let mut expected = JsonObject::new();
    expected.insert("index_patterns".to_string(), Json::Array(Vec::new()));
    expected.insert("order".to_string(), Json::Null);
    assert_eq!(bare.to_json(), Json::Object(expected));
}

#[test]
fn a_template_under_a_name_that_is_there_takes_its_place() {
    let mut templates = named(vec![
        ("A".to_string(), template(&["a-*"], Some(1))),
        ("B".to_string(), template(&["a-*"], Some(5))),
    ]);
    let replaced = templates.insert("A".to_string(), template(&["a-*"], Some(9)));
    assert_eq!(replaced, Some(template(&["a-*"], Some(1))));
    assert_eq!(templates.len(), 2);
    assert_eq!(templates.name(0), "A");
    assert_eq!(templates.item(0).order, Some(9));
    assert_eq!(templates.name(1), "B");
    assert_eq!(names(&find_matching_templates(&templates, "a-1")), vec!["A", "B"]);
}

#[test]
fn name_map_lookups() {
    let mut map: NameMap<u32> = NameMap::new();
    assert!(map.is_empty());
    assert_eq!(map.insert("x".to_string(), 1), None);
    assert_eq!(map.insert("y".to_string(), 2), None);
    assert_eq!(map.insert("x".to_string(), 3), Some(1));
    assert!(!map.is_empty());
    assert_eq!(map.len(), 2);
    assert_eq!(map.position("y"), Some(1));
    assert_eq!(map.position("z"), None);
    assert_eq!(map.get("x"), Some(&3));
    assert_eq!(map.get("z"), None);
    assert_eq!(map.clone(), map);
}
