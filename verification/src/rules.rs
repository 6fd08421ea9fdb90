//! Platform-conditional rule evaluation. A library descriptor may carry an
//! ordered list of allow/disallow rules, each optionally scoped to one
//! platform; evaluation accumulates an allow list and a deny list, and a
//! platform may use the library exactly when it is on the first and not on
//! the second. Absent or empty rule lists allow every known platform.
use vstd::prelude::*;

use serde_json::Value;

use crate::errors::LauncherError;
use crate::jsonval::{json_as_array, json_as_str, json_get, json_is_null};
use crate::text::{seq_views, str_eq, vec_contains_str};

verus! {

#[derive(Debug, Clone, Copy, PartialEq, Eq, Structural)]
pub enum RuleAction {
    Allow,
    Disallow,
}

/// One conditional rule: an action, optionally scoped to a single platform
/// name. A rule without a platform applies to every known platform.
#[derive(Debug, Clone, PartialEq, Eq)]
pub struct Rule {
    pub action: RuleAction,
    pub os: Option<String>,
}

/// The outcome of evaluating a rule list: the accumulated allow and deny
/// lists of platform names.
#[derive(Debug, Clone, PartialEq, Eq)]
pub struct LibraryRules {
    pub allowed_oses: Vec<String>,
    pub disallowed_oses: Vec<String>,
}

/// Every platform name the engine knows.
pub open spec fn all_platforms() -> Seq<Seq<char>> {
    seq!["osx"@, "windows"@, "linux"@]
}

/// The platform names one rule contributes: its own platform, or every known
/// platform when it is unscoped.
pub open spec fn spec_rule_oses(r: Rule) -> Seq<Seq<char>> {
    match r.os {
        Option::None => all_platforms(),
        Option::Some(o) => seq![o@],
    }
}

/// The allow list accumulated over `rules` in order.
pub open spec fn spec_allowed(rules: Seq<Rule>) -> Seq<Seq<char>>
    decreases rules.len(),
{
    if rules.len() == 0 {
        Seq::empty()
    } else {
        (if rules[0].action == RuleAction::Allow {
            spec_rule_oses(rules[0])
        } else {
            Seq::empty()
        }) + spec_allowed(rules.skip(1))
    }
}

/// The deny list accumulated over `rules` in order.
pub open spec fn spec_disallowed(rules: Seq<Rule>) -> Seq<Seq<char>>
    decreases rules.len(),
{
    if rules.len() == 0 {
        Seq::empty()
    } else {
        (if rules[0].action == RuleAction::Disallow {
            spec_rule_oses(rules[0])
        } else {
            Seq::empty()
        }) + spec_disallowed(rules.skip(1))
    }
}

/// The allow list of a possibly empty rule list: an empty list allows every
/// known platform.
pub open spec fn spec_effective_allowed(rules: Seq<Rule>) -> Seq<Seq<char>> {
    if rules.len() == 0 {
        all_platforms()
    } else {
        spec_allowed(rules)
    }
}

/// The deny list of a possibly empty rule list.
pub open spec fn spec_effective_disallowed(rules: Seq<Rule>) -> Seq<Seq<char>> {
    if rules.len() == 0 {
        Seq::empty()
    } else {
        spec_disallowed(rules)
    }
}

fn push_all_platforms(out: &mut Vec<String>)
    ensures
        seq_views(final(out)@) == seq_views(old(out)@) + all_platforms(),
{
    let ghost base = out@;
    out.push("osx".to_owned());
    out.push("windows".to_owned());
    out.push("linux".to_owned());
    proof {
        assert(seq_views(out@) =~= seq_views(base) + all_platforms());
    }
}

/// Evaluates a rule list into its allow and deny lists, in rule order.
pub fn evaluate_rules(rules: &Vec<Rule>) -> (r: LibraryRules)
    ensures
        seq_views(r.allowed_oses@) == spec_effective_allowed(rules@),
        seq_views(r.disallowed_oses@) == spec_effective_disallowed(rules@),
{
    let mut allowed: Vec<String> = Vec::new();
    let mut disallowed: Vec<String> = Vec::new();
    if rules.len() == 0 {
        push_all_platforms(&mut allowed);
        proof {
            assert(seq_views(allowed@) =~= all_platforms());
            assert(seq_views(disallowed@) =~= Seq::<Seq<char>>::empty());
        }
        return LibraryRules { allowed_oses: allowed, disallowed_oses: disallowed };
    }
    let mut i: usize = 0;
    while i < rules.len()
        invariant
            i <= rules@.len(),
            seq_views(allowed@) == spec_allowed(rules@.take(i as int)),
            seq_views(disallowed@) == spec_disallowed(rules@.take(i as int)),
        decreases rules@.len() - i,
    {
        let ghost r0 = rules@[i as int];
        proof {
            lemma_allowed_concat(rules@.take(i as int), seq![r0]);
            lemma_disallowed_concat(rules@.take(i as int), seq![r0]);
            assert(rules@.take(i as int) + seq![r0] =~= rules@.take(i + 1));
            assert(seq![r0].skip(1) =~= Seq::<Rule>::empty());
            assert(seq![r0][0] == r0);
            assert(spec_allowed(Seq::<Rule>::empty()) == Seq::<Seq<char>>::empty());
            assert(spec_disallowed(Seq::<Rule>::empty()) == Seq::<Seq<char>>::empty());
            assert(seq![r0].len() == 1);
            assert(spec_allowed(seq![r0]) == (if seq![r0][0].action == RuleAction::Allow {
                spec_rule_oses(seq![r0][0])
            } else {
                Seq::empty()
            }) + spec_allowed(seq![r0].skip(1)));
            assert(spec_disallowed(seq![r0]) == (if seq![r0][0].action == RuleAction::Disallow {
                spec_rule_oses(seq![r0][0])
            } else {
                Seq::empty()
            }) + spec_disallowed(seq![r0].skip(1)));
            assert(spec_allowed(seq![r0]) =~= (if r0.action == RuleAction::Allow {
                spec_rule_oses(r0)
            } else {
                Seq::empty()
            }));
            assert(spec_disallowed(seq![r0]) =~= (if r0.action == RuleAction::Disallow {
                spec_rule_oses(r0)
            } else {
                Seq::empty()
            }));
        }
        let rule = &rules[i];
        let ghost prev_allowed = allowed@;
        let ghost prev_disallowed = disallowed@;
        match rule.action {
            RuleAction::Allow => {
                match &rule.os {
                    Option::None => {
                        push_all_platforms(&mut allowed);
                        proof {
                            assert(spec_rule_oses(r0) == all_platforms());
                        }
                    },
                    Option::Some(o) => {
                        allowed.push(o.clone());
                        proof {
                            assert(allowed@ == prev_allowed.push(rules@[i as int].os->Some_0));
                            assert(seq_views(allowed@) =~= seq_views(prev_allowed) + seq![
                                (rules@[i as int].os->Some_0)@,
                            ]);
                            assert(spec_rule_oses(r0) == seq![(rules@[i as int].os->Some_0)@]);
                        }
                    },
                }
            },
            RuleAction::Disallow => {
                match &rule.os {
                    Option::None => {
                        push_all_platforms(&mut disallowed);
                        proof {
                            assert(spec_rule_oses(r0) == all_platforms());
                        }
                    },
                    Option::Some(o) => {
                        disallowed.push(o.clone());
                        proof {
                            assert(disallowed@ == prev_disallowed.push(
                                rules@[i as int].os->Some_0,
                            ));
                            assert(seq_views(disallowed@) =~= seq_views(prev_disallowed) + seq![
                                (rules@[i as int].os->Some_0)@,
                            ]);
                            assert(spec_rule_oses(r0) == seq![(rules@[i as int].os->Some_0)@]);
                        }
                    },
                }
            },
        }
        proof {
            assert(seq_views(allowed@) =~= spec_allowed(rules@.take(i + 1)));
            assert(seq_views(disallowed@) =~= spec_disallowed(rules@.take(i + 1)));
        }
        i += 1;
    }
    proof {
        assert(rules@.take(rules@.len() as int) =~= rules@);
    }
    LibraryRules { allowed_oses: allowed, disallowed_oses: disallowed }
}

/// Whether platform `os` may use a library under the evaluated rules: it must
/// be on the allow list and not on the deny list.
pub fn is_os_allowed(rules: &LibraryRules, os: &str) -> (r: bool)
    ensures
        r == (seq_views(rules.allowed_oses@).contains(os@) && !seq_views(
            rules.disallowed_oses@,
        ).contains(os@)),
{
    vec_contains_str(&rules.allowed_oses, os) && !vec_contains_str(&rules.disallowed_oses, os)
}

/// Reads a rule list out of a descriptor's JSON. Malformed entries fail the
/// whole load: a corrupt manifest must not silently admit wrong-platform
/// artifacts.
pub fn rules_from_value(value: &Value) -> (r: Result<Vec<Rule>, LauncherError>)
    ensures
        r is Err ==> r == Err::<Vec<Rule>, LauncherError>(LauncherError::ManifestCorrupt),
{
    let arr = match json_as_array(value) {
        Option::Some(a) => a,
        Option::None => {
            return Err(LauncherError::ManifestCorrupt);
        },
    };
    let mut out: Vec<Rule> = Vec::new();
    let mut i: usize = 0;
    while i < arr.len()
        decreases arr@.len() - i,
    {
        let rule_value = &arr[i];
        let action_str = match json_get(rule_value, "action") {
            Option::Some(a) => match json_as_str(a) {
                Option::Some(s) => s,
                Option::None => {
                    return Err(LauncherError::ManifestCorrupt);
                },
            },
            Option::None => {
                return Err(LauncherError::ManifestCorrupt);
            },
        };
        let action = if str_eq(action_str, "allow") {
            RuleAction::Allow
        } else if str_eq(action_str, "disallow") {
            RuleAction::Disallow
        } else {
            return Err(LauncherError::ManifestCorrupt);
        };
        let os = match json_get(rule_value, "os") {
            Option::None => Option::None,
            Option::Some(os_value) => match json_get(os_value, "name") {
                Option::None => Option::None,
                Option::Some(name_value) => {
                    if json_is_null(name_value) {
                        Option::None
                    } else {
                        match json_as_str(name_value) {
                            Option::Some(s) => Option::Some(s.to_owned()),
                            Option::None => {
                                return Err(LauncherError::ManifestCorrupt);
                            },
                        }
                    }
                },
            },
        };
        out.push(Rule { action, os });
        i += 1;
    }
    Ok(out)
}

/// Reads and evaluates the optional rule list of a library descriptor. An
/// absent or JSON-null rule list allows every known platform.
pub fn fetch_rules(value: Option<&Value>) -> (r: Result<LibraryRules, LauncherError>)
    ensures
        match r {
            Ok(lr) => exists|rs: Seq<Rule>|
                seq_views(lr.allowed_oses@) == spec_effective_allowed(rs) && seq_views(
                    lr.disallowed_oses@,
                ) == spec_effective_disallowed(rs),
            Err(e) => e == LauncherError::ManifestCorrupt && value is Some,
        },
        value is None ==> (r matches Ok(lr) && seq_views(lr.allowed_oses@) == all_platforms()
            && lr.disallowed_oses@.len() == 0),
{
    match value {
        Option::None => {
            let empty: Vec<Rule> = Vec::new();
            let r = evaluate_rules(&empty);
            proof {
                assert(seq_views(r.allowed_oses@) == spec_effective_allowed(empty@) && seq_views(
                    r.disallowed_oses@,
                ) == spec_effective_disallowed(empty@));
                assert(seq_views(r.allowed_oses@) == all_platforms());
                assert(seq_views(r.disallowed_oses@).len() == 0);
                assert(r.disallowed_oses@.len() == 0);
            }
            Ok(r)
        },
        Option::Some(v) => {
            if json_is_null(v) {
                let empty: Vec<Rule> = Vec::new();
                let r = evaluate_rules(&empty);
                proof {
                    assert(seq_views(r.allowed_oses@) == spec_effective_allowed(empty@)
                        && seq_views(r.disallowed_oses@) == spec_effective_disallowed(empty@));
                }
                Ok(r)
            } else {
                match rules_from_value(v) {
                    Ok(rs) => {
                        let r = evaluate_rules(&rs);
                        proof {
                            assert(seq_views(r.allowed_oses@) == spec_effective_allowed(rs@)
                                && seq_views(r.disallowed_oses@) == spec_effective_disallowed(rs@));
                        }
                        Ok(r)
                    },
                    Err(e) => Err(e),
                }
            }
        },
    }
}

/// The allow list of concatenated rule lists is the concatenation of their
/// allow lists.
pub proof fn lemma_allowed_concat(r1: Seq<Rule>, r2: Seq<Rule>)
    ensures
        spec_allowed(r1 + r2) == spec_allowed(r1) + spec_allowed(r2),
    decreases r1.len(),
{
    if r1.len() == 0 {
        assert(r1 + r2 =~= r2);
        assert(spec_allowed(r1) + spec_allowed(r2) =~= spec_allowed(r2));
    } else {
        lemma_allowed_concat(r1.skip(1), r2);
        assert((r1 + r2).skip(1) =~= r1.skip(1) + r2);
        assert((r1 + r2)[0] == r1[0]);
        assert(spec_allowed(r1 + r2) =~= spec_allowed(r1) + spec_allowed(r2));
    }
}

/// The deny list of concatenated rule lists is the concatenation of their
/// deny lists.
pub proof fn lemma_disallowed_concat(r1: Seq<Rule>, r2: Seq<Rule>)
    ensures
        spec_disallowed(r1 + r2) == spec_disallowed(r1) + spec_disallowed(r2),
    decreases r1.len(),
{
    if r1.len() == 0 {
        assert(r1 + r2 =~= r2);
        assert(spec_disallowed(r1) + spec_disallowed(r2) =~= spec_disallowed(r2));
    } else {
        lemma_disallowed_concat(r1.skip(1), r2);
        assert((r1 + r2).skip(1) =~= r1.skip(1) + r2);
        assert((r1 + r2)[0] == r1[0]);
        assert(spec_disallowed(r1 + r2) =~= spec_disallowed(r1) + spec_disallowed(r2));
    }
}

/// An empty rule list allows every known platform and denies none.
pub proof fn lemma_empty_rules_allow_all(rules: Seq<Rule>, os: Seq<char>)
    requires
        rules.len() == 0,
        all_platforms().contains(os),
    ensures
        spec_effective_allowed(rules).contains(os),
        !spec_effective_disallowed(rules).contains(os),
{
}

/// Later rules only add memberships: whatever a rule list already allows or
/// denies stays allowed or denied when more rules follow.
pub proof fn lemma_rule_order_additive(rules: Seq<Rule>, more: Seq<Rule>, os: Seq<char>)
    ensures
        spec_allowed(rules).contains(os) ==> spec_allowed(rules + more).contains(os),
        spec_disallowed(rules).contains(os) ==> spec_disallowed(rules + more).contains(os),
{
    lemma_allowed_concat(rules, more);
    lemma_disallowed_concat(rules, more);
    if spec_allowed(rules).contains(os) {
        let j = choose|j: int|
            0 <= j < spec_allowed(rules).len() && spec_allowed(rules)[j] == os;
        assert(spec_allowed(rules + more)[j] == os);
    }
    if spec_disallowed(rules).contains(os) {
        let j = choose|j: int|
            0 <= j < spec_disallowed(rules).len() && spec_disallowed(rules)[j] == os;
        assert(spec_disallowed(rules + more)[j] == os);
    }
}

} // verus!
