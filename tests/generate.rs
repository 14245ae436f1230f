use starter_gen::{
    collect_templates, ArgsPlaceholder, Pattern, RuleDoc, StarterEntry, Template, TemplateDoc,
    TemplateRule, TemplateRuleKind,
};

fn args() -> ArgsPlaceholder {
    ArgsPlaceholder { lib_name: "blog".to_string(), secret: "s3cr3t".to_string() }
}

fn pat(src: &str) -> Pattern {
    Pattern::new(src).unwrap()
}

fn rule(src: &str, kind: TemplateRuleKind) -> TemplateRule {
    TemplateRule { pattern: pat(src), kind, file_patterns: None }
}

fn template(file_patterns: Option<Vec<Pattern>>, rules: Vec<TemplateRule>) -> Template {
    Template { description: "starter".to_string(), file_patterns, rules: Some(rules) }
}

fn rule_doc(pattern: &str, kind: &str) -> RuleDoc {
    RuleDoc { pattern: pattern.to_string(), kind: kind.to_string(), file_patterns: None }
}

fn doc(rules: Vec<RuleDoc>) -> TemplateDoc {
    TemplateDoc { description: "a starter".to_string(), file_patterns: None, rules: Some(rules) }
}

#[test]
fn get_val_per_kind() {
    let a = args();
    assert_eq!(TemplateRuleKind::LibName.get_val(&a), "blog");
    assert_eq!(TemplateRuleKind::Secret.get_val(&a), "s3cr3t");
    assert_eq!(TemplateRuleKind::Any("fixed".to_string()).get_val(&a), "fixed");
}

#[test]
fn kind_from_word() {
    assert!(matches!(TemplateRuleKind::from_word("LibName"), TemplateRuleKind::LibName));
    assert!(matches!(TemplateRuleKind::from_word("Secret"), TemplateRuleKind::Secret));
    match TemplateRuleKind::from_word("libname") {
        TemplateRuleKind::Any(s) => assert_eq!(s, "libname"),
        _ => panic!("expected a literal kind"),
    }
}

#[test]
fn pattern_compiles_or_not() {
    assert!(Pattern::new("(").is_none());
    let p = pat("a+b");
    assert_eq!(p.as_str(), "a+b");
    assert!(p.is_match("xaab"));
    assert!(!p.is_match("xb"));
    assert_eq!(p.replace_all("ab-aab", "X"), "X-X");
    assert_eq!(p.replace_all("none", "X"), "none");
}

#[test]
fn lib_name_rule_rewrites_file() {
    let t = template(None, vec![rule("__APP_NAME__", TemplateRuleKind::LibName)]);
    let out = t.apply_rules("Cargo.toml", true, "name = \"__APP_NAME__\"", &args());
    assert_eq!(out, Some("name = \"blog\"".to_string()));
}

#[test]
fn secret_rule_replaces_every_match() {
    let t = template(None, vec![rule("SECRET", TemplateRuleKind::Secret)]);
    let out = t.apply_rules("config.yaml", true, "a: SECRET\nb: SECRET\n", &args());
    assert_eq!(out, Some("a: s3cr3t\nb: s3cr3t\n".to_string()));
}

#[test]
fn template_patterns_gate_files() {
    let t = template(
        Some(vec![pat("\\.rs$")]),
        vec![rule("__APP_NAME__", TemplateRuleKind::LibName)],
    );
    assert!(!t.should_visit(false, "starter/notes.txt", true));
    assert!(t.should_visit(false, "starter/src/main.rs", true));
    let out = t.apply_rules("starter/src/main.rs", true, "use __APP_NAME__;", &args());
    assert_eq!(out, Some("use blog;".to_string()));
}

#[test]
fn build_output_is_never_visited() {
    let t = template(None, vec![rule("__APP_NAME__", TemplateRuleKind::LibName)]);
    assert!(!t.should_visit(true, "starter/target/debug/out.rs", true));
    assert!(t.should_visit(false, "starter/src/lib.rs", true));
}

#[test]
fn directories_are_not_visited() {
    let t = template(None, vec![]);
    assert!(!t.should_visit(false, "starter/src", false));
}

#[test]
fn should_run_file_without_patterns() {
    assert!(Template::should_run_file("anything", false, None));
    let ps = vec![pat("\\.toml$"), pat("\\.rs$")];
    assert!(Template::should_run_file("x/lib.rs", true, Some(&ps)));
    assert!(!Template::should_run_file("x/lib.rs", false, Some(&ps)));
    assert!(!Template::should_run_file("x/lib.txt", true, Some(&ps)));
}

#[test]
fn rule_file_patterns_restrict_rule() {
    let mut r = rule("NAME", TemplateRuleKind::Any("x".to_string()));
    r.file_patterns = Some(vec![pat("\\.md$")]);
    let t = template(None, vec![r]);
    assert_eq!(t.apply_rules("a.rs", true, "NAME", &args()), None);
    assert_eq!(t.apply_rules("a.md", true, "NAME", &args()), Some("x".to_string()));
}

#[test]
fn unmatched_rule_causes_no_rewrite() {
    let t = template(None, vec![rule("__NEVER__", TemplateRuleKind::LibName)]);
    assert_eq!(t.apply_rules("a.rs", true, "fn main() {}", &args()), None);
    let t2 = template(
        None,
        vec![
            rule("__NEVER__", TemplateRuleKind::LibName),
            rule("__APP__", TemplateRuleKind::Secret),
        ],
    );
    assert_eq!(t2.apply_rules("a.rs", true, "k=__APP__", &args()), Some("k=s3cr3t".to_string()));
}

#[test]
fn second_run_changes_nothing() {
    let t = template(None, vec![rule("__APP_NAME__", TemplateRuleKind::LibName)]);
    let once = t.apply_rules("a.rs", true, "crate __APP_NAME__", &args()).unwrap();
    assert_eq!(once, "crate blog");
    assert_eq!(t.apply_rules("a.rs", true, &once, &args()), None);
}

#[test]
fn rules_apply_in_declared_order() {
    let forward = template(
        None,
        vec![
            rule("foo", TemplateRuleKind::Any("bar".to_string())),
            rule("bar", TemplateRuleKind::Any("baz".to_string())),
        ],
    );
    assert_eq!(forward.apply_rules("a", true, "foo", &args()), Some("baz".to_string()));
    let reverse = template(
        None,
        vec![
            rule("bar", TemplateRuleKind::Any("baz".to_string())),
            rule("foo", TemplateRuleKind::Any("bar".to_string())),
        ],
    );
    assert_eq!(reverse.apply_rules("a", true, "foo", &args()), Some("bar".to_string()));
}

#[test]
fn no_rules_leave_file_untouched() {
    let t = Template { description: "d".to_string(), file_patterns: None, rules: None };
    assert_eq!(t.apply_rules("a", true, "__APP_NAME__", &args()), None);
}

#[test]
fn template_from_doc_builds_rules() {
    let mut d = doc(vec![rule_doc("__APP_NAME__", "LibName"), rule_doc("X+", "literal")]);
    d.file_patterns = Some(vec!["\\.rs$".to_string()]);
    let t = Template::from_doc(&d).unwrap();
    assert_eq!(t.description, "a starter");
    assert_eq!(t.file_patterns.as_ref().unwrap()[0].as_str(), "\\.rs$");
    let rules = t.rules.as_ref().unwrap();
    assert_eq!(rules.len(), 2);
    assert_eq!(rules[0].pattern.as_str(), "__APP_NAME__");
    assert!(matches!(rules[0].kind, TemplateRuleKind::LibName));
    assert!(matches!(&rules[1].kind, TemplateRuleKind::Any(s) if s == "literal"));
}

#[test]
fn template_from_doc_rejects_bad_regex() {
    assert!(Template::from_doc(&doc(vec![rule_doc("(", "LibName")])).is_none());
    let mut d = doc(vec![]);
    d.file_patterns = Some(vec!["[".to_string()]);
    assert!(Template::from_doc(&d).is_none());
    let mut rd = rule_doc("ok", "Secret");
    rd.file_patterns = Some(vec!["*".to_string()]);
    assert!(TemplateRule::from_doc(&rd).is_none());
}

#[test]
fn broken_starters_are_left_out() {
    let entries = vec![
        StarterEntry {
            name: "saas".to_string(),
            is_dir: true,
            descriptor: Some(doc(vec![rule_doc("__APP_NAME__", "LibName")])),
        },
        StarterEntry { name: "no_descriptor".to_string(), is_dir: true, descriptor: None },
        StarterEntry {
            name: "bad_regex".to_string(),
            is_dir: true,
            descriptor: Some(doc(vec![rule_doc("(", "LibName")])),
        },
        StarterEntry {
            name: "README.md".to_string(),
            is_dir: false,
            descriptor: Some(doc(vec![])),
        },
        StarterEntry { name: "lightweight".to_string(), is_dir: true, descriptor: Some(doc(vec![])) },
    ];
    let found = collect_templates(&entries);
    let names: Vec<&str> = found.iter().map(|(n, _)| n.as_str()).collect();
    assert_eq!(names, vec!["saas", "lightweight"]);
}

#[test]
fn empty_root_gives_empty_registry() {
    assert!(collect_templates(&vec![]).is_empty());
}
