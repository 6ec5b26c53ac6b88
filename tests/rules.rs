use atlas_launcher::rules::{
    argument_arch_name, evaluate_rules, library_os_name, native_bits, Platform, Rule, RuleAction,
};

fn windows64() -> Platform {
    Platform { os: "windows".to_string(), arch: "64".to_string() }
}

fn rule(action: RuleAction, os: Option<&str>, arch: Option<&str>) -> Rule {
    Rule { action, os_name: os.map(|s| s.to_string()), os_arch: arch.map(|s| s.to_string()) }
}

#[test]
fn rule_evaluation_on_windows_64() {
    let p = windows64();
    assert!(!evaluate_rules(&vec![rule(RuleAction::Allow, Some("linux"), None)], &p, true));
    assert!(evaluate_rules(&vec![rule(RuleAction::Allow, Some("windows"), None)], &p, true));
    assert!(evaluate_rules(&vec![], &p, true));
    assert!(!evaluate_rules(&vec![], &p, false));
}

#[test]
fn last_matching_rule_wins() {
    let p = windows64();
    let rules = vec![rule(RuleAction::Allow, None, None), rule(RuleAction::Disallow, Some("windows"), None)];
    assert!(!evaluate_rules(&rules, &p, true));
    let rules = vec![rule(RuleAction::Disallow, Some("windows"), None), rule(RuleAction::Allow, None, None)];
    assert!(evaluate_rules(&rules, &p, false));
}

#[test]
fn disallow_that_does_not_match_keeps_result() {
    let p = windows64();
    let rules = vec![rule(RuleAction::Allow, None, None), rule(RuleAction::Disallow, Some("osx"), None)];
    assert!(evaluate_rules(&rules, &p, false));
}

#[test]
fn arch_predicate_is_checked() {
    let p = Platform { os: "windows".to_string(), arch: "x86".to_string() };
    assert!(!evaluate_rules(&vec![rule(RuleAction::Allow, Some("windows"), Some("x64"))], &p, false));
    assert!(evaluate_rules(&vec![rule(RuleAction::Allow, Some("windows"), Some("x86"))], &p, false));
}

#[test]
fn platform_names_are_normalised() {
    assert_eq!(library_os_name(&"macos".to_string()), "osx");
    assert_eq!(library_os_name(&"linux".to_string()), "linux");
    assert_eq!(argument_arch_name(&"x86".to_string()), "x86");
    assert_eq!(argument_arch_name(&"x86_64".to_string()), "x64");
    assert_eq!(native_bits(&"x86".to_string()), "32");
    assert_eq!(native_bits(&"aarch64".to_string()), "64");
}
