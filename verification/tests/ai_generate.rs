use opencli_rs::ai_generate::{capture_failed_error, finish_generated_adapter, CAPTURE_PAGE_DATA_SCRIPT};
use opencli_rs::error::CliError;

#[test]
fn site_line_is_replaced_and_name_read() {
    let yaml = "site: 例子\nname: \"hot\"\ndescription: x\n";
    let (name, fixed) = finish_generated_adapter(yaml, "example", "goal");
    assert_eq!(fixed, "site: example\nname: \"hot\"\ndescription: x\n");
    assert_eq!(name, "hot");
}

#[test]
fn missing_name_falls_back_to_goal() {
    let (name, fixed) = finish_generated_adapter("description: x", "s", "my goal");
    assert_eq!(fixed, "description: x");
    assert_eq!(name, "my goal");
}

#[test]
fn the_site_line_itself_is_replaced() {
    let yaml = "xsite: a\nsite: a\n";
    let (_, fixed) = finish_generated_adapter(yaml, "b", "g");
    assert_eq!(fixed, "xsite: a\nsite: b\n");
    let (name, fixed) = finish_generated_adapter("# site: foo\nsite: foo\nname: bar", "s", "g");
    assert_eq!(fixed, "# site: foo\nsite: s\nname: bar");
    assert_eq!(name, "bar");
    let (_, fixed) = finish_generated_adapter("a: 1\r\nsite: x\r\nsite: y", "z", "g");
    assert_eq!(fixed, "a: 1\r\nsite: z\r\nsite: y");
}

#[test]
fn name_is_trimmed_then_unquoted() {
    let (name, _) = finish_generated_adapter("name:   \"\"top\"\"  \r\n", "s", "g");
    assert_eq!(name, "top");
    let (name, _) = finish_generated_adapter("  name: indented\nname: real", "s", "g");
    assert_eq!(name, "real");
}

#[test]
fn capture_script_and_error() {
    assert!(CAPTURE_PAGE_DATA_SCRIPT.contains("perf_urls: uniqueUrls"));
    match capture_failed_error() {
        CliError::EmptyResult { message } => assert_eq!(message, "Failed to capture page data"),
        other => panic!("unexpected {:?}", other),
    }
}

fn expected(yaml: &str, site: &str, goal: &str) -> (String, String) {
    let mut fixed = String::new();
    let mut done = false;
    for seg in yaml.split_inclusive('\n') {
        let (line, ending) = match seg.strip_suffix('\n') {
            Some(l) => match l.strip_suffix('\r') {
                Some(l2) => (l2, "\r\n"),
                None => (l, "\n"),
            },
            None => (seg, ""),
        };
        if !done && line.starts_with("site:") {
            fixed.push_str(&format!("site: {}", site));
            done = true;
        } else {
            fixed.push_str(line);
        }
        fixed.push_str(ending);
    }
    let name = fixed
        .lines()
        .find(|l| l.starts_with("name:"))
        .and_then(|l| l.strip_prefix("name:"))
        .map(|s| s.trim().trim_matches('"').to_string())
        .unwrap_or_else(|| goal.to_string());
    (name, fixed)
}

#[test]
fn finish_agrees_with_line_by_line_fix_up() {
    let inputs = [
        "",
        "\n",
        "site:",
        "site:\r\nname:\r\n",
        "site: a\r",
        "a\nsite: a\nsite: b\nname: n1\nname: n2",
        "name:\"\"",
        "name: \u{3000}\"ü\"\u{2028}",
        "x\r\rsite: q\n\nname:\tz\t",
        "sitesite: q\nsite: q",
        "site: x\nsite: x\n",
    ];
    for y in inputs {
        for site in ["", "s", "site: q"] {
            assert_eq!(finish_generated_adapter(y, site, "goal"), expected(y, site, "goal"), "{:?} {:?}", y, site);
        }
    }
}
