//! Allow/disallow rules that gate libraries, natives and arguments by platform.

use vstd::prelude::*;

verus! {

/// What a rule does when its predicates match.
#[derive(Clone, Copy, Debug, PartialEq, Eq, Structural)]
pub enum RuleAction {
    Allow,
    Disallow,
}

/// One rule: an action and optional operating-system name and architecture predicates.
#[derive(Clone, Debug)]
pub struct Rule {
    pub action: RuleAction,
    pub os_name: Option<String>,
    pub os_arch: Option<String>,
}

/// The platform the rules are evaluated against, in whatever naming
/// convention the caller uses for the rule set at hand.
#[derive(Clone, Debug)]
pub struct Platform {
    pub os: String,
    pub arch: String,
}

/// An optional predicate holds of `actual`: absent, or equal to it.
pub open spec fn predicate_holds(p: Option<String>, actual: Seq<char>) -> bool {
    match p {
        Some(v) => v@ == actual,
        None => true,
    }
}

/// All predicates of `r` hold on the platform.
pub open spec fn rule_matches(r: Rule, os: Seq<char>, arch: Seq<char>) -> bool {
    predicate_holds(r.os_name, os) && predicate_holds(r.os_arch, arch)
}

/// The inclusion decided by `rules`, read in order from `default`: an allow
/// rule sets the result to whether it matches, a matching disallow rule
/// clears it, and a disallow rule that does not match leaves it as it was.
pub open spec fn rules_result(rules: Seq<Rule>, os: Seq<char>, arch: Seq<char>, default: bool) -> bool
    decreases rules.len(),
{
    if rules.len() == 0 {
        default
    } else {
        let prev = rules_result(rules.drop_last(), os, arch, default);
        let r = rules.last();
        match r.action {
            RuleAction::Allow => rule_matches(r, os, arch),
            RuleAction::Disallow => if rule_matches(r, os, arch) {
                false
            } else {
                prev
            },
        }
    }
}

fn predicate_check(p: &Option<String>, actual: &String) -> (r: bool)
    ensures
        r == predicate_holds(*p, actual@),
{
    match p {
        Some(v) => *v == *actual,
        None => true,
    }
}

/// Whether the rule's predicates all hold on `platform`.
pub fn rule_applies(rule: &Rule, platform: &Platform) -> (r: bool)
    ensures
        r == rule_matches(*rule, platform.os@, platform.arch@),
{
    predicate_check(&rule.os_name, &platform.os) && predicate_check(&rule.os_arch, &platform.arch)
}

/// Evaluates `rules` in order on `platform`, starting from `default`
/// (include for library entries, exclude for modern argument entries).
pub fn evaluate_rules(rules: &Vec<Rule>, platform: &Platform, default: bool) -> (r: bool)
    ensures
        r == rules_result(rules@, platform.os@, platform.arch@, default),
{
    let mut result = default;
    let mut i: usize = 0;
    while i < rules.len()
        invariant
            i <= rules@.len(),
            result == rules_result(rules@.take(i as int), platform.os@, platform.arch@, default),
        decreases rules@.len() - i,
    {
        let rule = &rules[i];
        let m = rule_applies(rule, platform);
        proof {
            assert(rules@.take(i as int + 1).drop_last() =~= rules@.take(i as int));
            assert(rules@.take(i as int + 1).last() == rules@[i as int]);
        }
        match rule.action {
            RuleAction::Allow => {
                result = m;
            },
            RuleAction::Disallow => {
                if m {
                    result = false;
                }
            },
        }
        i += 1;
    }
    proof {
        assert(rules@.take(rules@.len() as int) =~= rules@);
    }
    result
}

/// Operating-system name as library rules and native maps write it.
pub open spec fn library_os_spec(os: Seq<char>) -> Seq<char> {
    if os == "macos"@ {
        "osx"@
    } else {
        os
    }
}

/// Maps the host's operating-system name to the one library rules use.
pub fn library_os_name(os: &String) -> (r: String)
    ensures
        r@ == library_os_spec(os@),
{
    let macos = String::from_str("macos");
    proof {
        reveal_strlit("macos");
    }
    if *os == macos {
        proof {
            reveal_strlit("osx");
        }
        String::from_str("osx")
    } else {
        os.clone()
    }
}

/// Architecture name as argument rules write it.
pub open spec fn argument_arch_spec(arch: Seq<char>) -> Seq<char> {
    if arch == "x86"@ {
        "x86"@
    } else {
        "x64"@
    }
}

/// Maps the host's architecture to the one argument rules use.
pub fn argument_arch_name(arch: &String) -> (r: String)
    ensures
        r@ == argument_arch_spec(arch@),
{
    let x86 = String::from_str("x86");
    proof {
        reveal_strlit("x86");
        reveal_strlit("x64");
    }
    if *arch == x86 {
        x86
    } else {
        String::from_str("x64")
    }
}

/// Pointer width that native classifiers substitute for `${arch}`.
pub open spec fn native_bits_spec(arch: Seq<char>) -> Seq<char> {
    if arch == "x86"@ {
        "32"@
    } else {
        "64"@
    }
}

/// Maps the host's architecture to the pointer width used in native classifiers.
pub fn native_bits(arch: &String) -> (r: String)
    ensures
        r@ == native_bits_spec(arch@),
{
    let x86 = String::from_str("x86");
    proof {
        reveal_strlit("x86");
        reveal_strlit("32");
        reveal_strlit("64");
    }
    if *arch == x86 {
        String::from_str("32")
    } else {
        String::from_str("64")
    }
}

/// With no rules the default decides: libraries are included, modern
/// argument entries are not.
pub proof fn lemma_no_rules(os: Seq<char>, arch: Seq<char>, default: bool)
    ensures
        rules_result(Seq::<Rule>::empty(), os, arch, default) == default,
{
}

/// A single allow rule that names an operating system and no architecture
/// includes exactly on that operating system, whatever the default.
pub proof fn lemma_single_os_rule(r: Rule, os: Seq<char>, arch: Seq<char>, default: bool)
    requires
        r.action == RuleAction::Allow,
        r.os_name is Some,
        r.os_arch is None,
    ensures
        rules_result(seq![r], os, arch, default) == (r.os_name->Some_0@ == os),
{
    assert(seq![r].drop_last() =~= Seq::<Rule>::empty());
}

} // verus!
