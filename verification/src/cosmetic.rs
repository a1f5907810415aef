//! Conversion of an element-hiding filter record into exactly one target
//! rule: location extraction from the raw line, hide/unhide polarity, and
//! selector pass-through.

use crate::model::{
    rule_result_view, spec_non_empty, CbAction, CbActionV, CbLoadType, CbRule,
    CbRuleCreationFailure, CbRuleV, CbTrigger, CbTriggerV, CbType,
};
use crate::records::{CosmeticFilter, CosmeticFilterV};
use crate::strutil::{find_char, find_char_in, lemma_find_char_props, split_on, split_str};
use vstd::prelude::*;

verus! {

/// Whether a location token names a domain entity (a group written with a
/// `.*` suffix) rather than a literal hostname; an exclusion marker `~` in
/// front does not change that.
pub open spec fn is_entity_tok(t: Seq<char>) -> bool {
    let u = if t.len() > 0 && t[0] == '~' {
        t.drop_first()
    } else {
        t
    };
    u.len() >= 2 && u[u.len() - 2] == '.' && u[u.len() - 1] == '*'
}

/// Whether any non-empty location token is an entity.
pub open spec fn cosmetic_any_entities(toks: Seq<Seq<char>>) -> bool
    decreases toks.len(),
{
    if toks.len() == 0 {
        false
    } else {
        (toks[0].len() > 0 && is_entity_tok(toks[0])) || cosmetic_any_entities(toks.drop_first())
    }
}

/// What one location token contributes to the hostname inclusions.
pub open spec fn hostname_contrib(t: Seq<char>) -> Seq<Seq<char>> {
    if t.len() == 0 || is_entity_tok(t) || t[0] == '~' {
        Seq::<Seq<char>>::empty()
    } else {
        seq![t]
    }
}

/// What one location token contributes to the hostname exclusions.
pub open spec fn not_hostname_contrib(t: Seq<char>) -> Seq<Seq<char>> {
    if t.len() > 0 && !is_entity_tok(t) && t[0] == '~' {
        seq![t.drop_first()]
    } else {
        Seq::<Seq<char>>::empty()
    }
}

/// The literal hostnames a hide rule is scoped to, in order.
pub open spec fn cosmetic_hostnames(toks: Seq<Seq<char>>) -> Seq<Seq<char>>
    decreases toks.len(),
{
    if toks.len() == 0 {
        Seq::<Seq<char>>::empty()
    } else {
        hostname_contrib(toks[0]) + cosmetic_hostnames(toks.drop_first())
    }
}

/// The literal hostnames a hide rule is excluded from, in order.
pub open spec fn cosmetic_not_hostnames(toks: Seq<Seq<char>>) -> Seq<Seq<char>>
    decreases toks.len(),
{
    if toks.len() == 0 {
        Seq::<Seq<char>>::empty()
    } else {
        not_hostname_contrib(toks[0]) + cosmetic_not_hostnames(toks.drop_first())
    }
}

/// The input contract the upstream parser guarantees: a cosmetic rule's
/// raw line always holds the `#` marker that starts the selector part.
pub open spec fn cosmetic_record_wf(v: CosmeticFilterV) -> bool {
    v.style is None && !v.mask.script_inject ==> match v.raw_line {
        Some(raw) => find_char(raw, '#') is Some,
        None => true,
    }
}

/// The whole cosmetic conversion, as a function of the record's value.
pub open spec fn spec_from_cosmetic(v: CosmeticFilterV) -> Result<CbRuleV, CbRuleCreationFailure> {
    if v.style is Some {
        Err(CbRuleCreationFailure::CosmeticStyleRulesNotSupported)
    } else if v.mask.script_inject {
        Err(CbRuleCreationFailure::ScriptletInjectionsNotSupported)
    } else {
        match v.raw_line {
            None => Err(CbRuleCreationFailure::NeedsDebugMode),
            Some(raw) => match find_char(raw, '#') {
                None => Err(CbRuleCreationFailure::NeedsDebugMode),
                Some(sharp) => {
                    let toks = split_on(raw.take(sharp), ',');
                    if cosmetic_any_entities(toks) {
                        Err(CbRuleCreationFailure::CosmeticEntitiesUnsupported)
                    } else {
                        let hosts = cosmetic_hostnames(toks);
                        let not_hosts = cosmetic_not_hostnames(toks);
                        if hosts.len() > 0 && not_hosts.len() > 0 {
                            Err(CbRuleCreationFailure::UnlessAndIfDomainTogetherUnsupported)
                        } else {
                            let lists = if v.mask.unhide {
                                (spec_non_empty(not_hosts), spec_non_empty(hosts))
                            } else {
                                (spec_non_empty(hosts), spec_non_empty(not_hosts))
                            };
                            Ok(
                                CbRuleV {
                                    action: CbActionV {
                                        typ: CbType::CssDisplayNone,
                                        selector: Some(v.selector),
                                    },
                                    trigger: CbTriggerV {
                                        url_filter: (".*")@,
                                        url_filter_is_case_sensitive: None,
                                        if_domain: lists.0,
                                        unless_domain: lists.1,
                                        resource_type: None,
                                        load_type: Seq::<CbLoadType>::empty(),
                                        if_top_url: None,
                                        unless_top_url: None,
                                    },
                                },
                            )
                        }
                    }
                },
            },
        }
    }
}

pub proof fn lemma_any_entities_snoc(toks: Seq<Seq<char>>, t: Seq<char>)
    ensures
        cosmetic_any_entities(toks.push(t)) == (cosmetic_any_entities(toks) || (t.len() > 0
            && is_entity_tok(t))),
    decreases toks.len(),
{
    if toks.len() == 0 {
        assert(toks.push(t).drop_first() =~= Seq::<Seq<char>>::empty());
        assert(toks.push(t)[0] == t);
        assert(!cosmetic_any_entities(Seq::<Seq<char>>::empty()));
        assert(cosmetic_any_entities(toks.push(t)) == ((t.len() > 0 && is_entity_tok(t))
            || cosmetic_any_entities(toks.push(t).drop_first())));
    } else {
        assert(toks.push(t).drop_first() =~= toks.drop_first().push(t));
        lemma_any_entities_snoc(toks.drop_first(), t);
        assert(toks.push(t)[0] == toks[0]);
        assert(cosmetic_any_entities(toks.push(t)) == ((toks[0].len() > 0 && is_entity_tok(
            toks[0],
        )) || cosmetic_any_entities(toks.push(t).drop_first())));
        assert(cosmetic_any_entities(toks) == ((toks[0].len() > 0 && is_entity_tok(toks[0]))
            || cosmetic_any_entities(toks.drop_first())));
    }
}

pub proof fn lemma_hostnames_snoc(toks: Seq<Seq<char>>, t: Seq<char>)
    ensures
        cosmetic_hostnames(toks.push(t)) == cosmetic_hostnames(toks) + hostname_contrib(t),
    decreases toks.len(),
{
    if toks.len() == 0 {
        assert(toks.push(t).drop_first() =~= Seq::<Seq<char>>::empty());
        assert(toks.push(t)[0] == t);
        assert(cosmetic_hostnames(Seq::<Seq<char>>::empty()) == Seq::<Seq<char>>::empty());
        assert(cosmetic_hostnames(toks.push(t)) == hostname_contrib(t) + cosmetic_hostnames(
            toks.push(t).drop_first(),
        ));
        assert(cosmetic_hostnames(toks.push(t)) =~= cosmetic_hostnames(toks) + hostname_contrib(t));
    } else {
        assert(toks.push(t).drop_first() =~= toks.drop_first().push(t));
        lemma_hostnames_snoc(toks.drop_first(), t);
        assert(toks.push(t)[0] == toks[0]);
        assert(cosmetic_hostnames(toks.push(t)) == hostname_contrib(toks[0])
            + cosmetic_hostnames(toks.push(t).drop_first()));
        assert(cosmetic_hostnames(toks) == hostname_contrib(toks[0]) + cosmetic_hostnames(
            toks.drop_first(),
        ));
        assert(cosmetic_hostnames(toks.push(t)) =~= cosmetic_hostnames(toks) + hostname_contrib(t));
    }
}

pub proof fn lemma_not_hostnames_snoc(toks: Seq<Seq<char>>, t: Seq<char>)
    ensures
        cosmetic_not_hostnames(toks.push(t)) == cosmetic_not_hostnames(toks)
            + not_hostname_contrib(t),
    decreases toks.len(),
{
    if toks.len() == 0 {
        assert(toks.push(t).drop_first() =~= Seq::<Seq<char>>::empty());
        assert(toks.push(t)[0] == t);
        assert(cosmetic_not_hostnames(Seq::<Seq<char>>::empty()) == Seq::<Seq<char>>::empty());
        assert(cosmetic_not_hostnames(toks.push(t)) == not_hostname_contrib(t)
            + cosmetic_not_hostnames(toks.push(t).drop_first()));
        assert(cosmetic_not_hostnames(toks.push(t)) =~= cosmetic_not_hostnames(toks)
            + not_hostname_contrib(t));
    } else {
        assert(toks.push(t).drop_first() =~= toks.drop_first().push(t));
        lemma_not_hostnames_snoc(toks.drop_first(), t);
        assert(toks.push(t)[0] == toks[0]);
        assert(cosmetic_not_hostnames(toks.push(t)) == not_hostname_contrib(toks[0])
            + cosmetic_not_hostnames(toks.push(t).drop_first()));
        assert(cosmetic_not_hostnames(toks) == not_hostname_contrib(toks[0])
            + cosmetic_not_hostnames(toks.drop_first()));
        assert(cosmetic_not_hostnames(toks.push(t)) =~= cosmetic_not_hostnames(toks)
            + not_hostname_contrib(t));
    }
}

/// Whether a location token names an entity.
fn is_entity_token(t: &str) -> (r: bool)
    ensures
        r == is_entity_tok(t@),
{
    let n = t.unicode_len();
    let start: usize = if n > 0 && t.get_char(0) == '~' {
        1
    } else {
        0
    };
    if n - start >= 2 {
        let r = t.get_char(n - 2) == '.' && t.get_char(n - 1) == '*';
        proof {
            let u = if t@.len() > 0 && t@[0] == '~' {
                t@.drop_first()
            } else {
                t@
            };
            assert(u[u.len() - 2] == t@[n - 2]);
            assert(u[u.len() - 1] == t@[n - 1]);
        }
        r
    } else {
        false
    }
}

/// Classifies the location tokens of a cosmetic rule: whether any entity
/// occurs, the hostname inclusions, and the hostname exclusions.
fn classify_locations(toks: &Vec<String>) -> (r: (bool, Vec<String>, Vec<String>))
    ensures
        r.0 == cosmetic_any_entities(toks.deep_view()),
        r.1.deep_view() == cosmetic_hostnames(toks.deep_view()),
        r.2.deep_view() == cosmetic_not_hostnames(toks.deep_view()),
{
    let mut any_entities = false;
    let mut hosts: Vec<String> = Vec::new();
    let mut not_hosts: Vec<String> = Vec::new();
    let mut i: usize = 0;
    while i < toks.len()
        invariant
            i <= toks@.len(),
            any_entities == cosmetic_any_entities(toks.deep_view().take(i as int)),
            hosts.deep_view() == cosmetic_hostnames(toks.deep_view().take(i as int)),
            not_hosts.deep_view() == cosmetic_not_hostnames(toks.deep_view().take(i as int)),
        decreases toks@.len() - i,
    {
        let t = &toks[i];
        proof {
            assert(toks.deep_view()[i as int] == t@);
        }
        let tn = t.as_str().unicode_len();
        if tn > 0 {
            if is_entity_token(t.as_str()) {
                any_entities = true;
            } else if t.as_str().get_char(0) == '~' {
                let d = t.as_str().substring_char(1, tn).to_owned();
                let ghost dv = d@;
                let ghost old_deep = not_hosts.deep_view();
                not_hosts.push(d);
                proof {
                    assert(dv =~= t@.drop_first());
                    assert(not_hosts.deep_view() =~= old_deep.push(dv));
                }
            } else {
                let d = clone_str(t);
                let ghost dv = d@;
                let ghost old_deep = hosts.deep_view();
                hosts.push(d);
                proof {
                    assert(hosts.deep_view() =~= old_deep.push(dv));
                }
            }
        }
        proof {
            lemma_any_entities_snoc(toks.deep_view().take(i as int), t@);
            lemma_hostnames_snoc(toks.deep_view().take(i as int), t@);
            lemma_not_hostnames_snoc(toks.deep_view().take(i as int), t@);
            assert(toks.deep_view().take(i as int).push(t@) =~= toks.deep_view().take(i + 1));
            assert(hosts.deep_view() =~= cosmetic_hostnames(toks.deep_view().take(i + 1)));
            assert(not_hosts.deep_view() =~= cosmetic_not_hostnames(toks.deep_view().take(i + 1)));
        }
        i += 1;
    }
    proof {
        assert(toks.deep_view().take(toks@.len() as int) =~= toks.deep_view());
    }
    (any_entities, hosts, not_hosts)
}

fn clone_str(s: &String) -> (r: String)
    ensures
        r@ == s@,
{
    s.clone()
}

impl CbRule {
    /// Converts an element-hiding record into a single target rule, or
    /// reports the first unsupported feature found.
    #[verifier::rlimit(50)]
    pub fn try_from(v: CosmeticFilter) -> (r: Result<CbRule, CbRuleCreationFailure>)
        requires
            cosmetic_record_wf(v@),
        ensures
            rule_result_view(r) == spec_from_cosmetic(v@),
    {
        let ghost vg = v@;
        let CosmeticFilter { mask, style, selector, raw_line } = v;
        if style.is_some() {
            return Err(CbRuleCreationFailure::CosmeticStyleRulesNotSupported);
        }
        if mask.script_inject {
            return Err(CbRuleCreationFailure::ScriptletInjectionsNotSupported);
        }
        let raw = match raw_line {
            Some(r) => r,
            None => {
                return Err(CbRuleCreationFailure::NeedsDebugMode);
            },
        };
        let sharp_opt = find_char_in(raw.as_str(), '#');
        proof {
            if sharp_opt is None {
                assert(false);
            }
        }
        let sharp = sharp_opt.unwrap();
        proof {
            lemma_find_char_props(raw@, '#');
        }
        let before = raw.as_str().substring_char(0, sharp);
        proof {
            assert(before@ =~= raw@.take(sharp as int));
        }
        let toks = split_str(before, ',');
        let (any_entities, hosts, not_hosts) = classify_locations(&toks);
        if any_entities {
            return Err(CbRuleCreationFailure::CosmeticEntitiesUnsupported);
        }
        let hosts_opt = crate::model::non_empty(hosts);
        let not_hosts_opt = crate::model::non_empty(not_hosts);
        if hosts_opt.is_some() && not_hosts_opt.is_some() {
            return Err(CbRuleCreationFailure::UnlessAndIfDomainTogetherUnsupported);
        }
        let (unless_domain, if_domain) = if mask.unhide {
            (hosts_opt, not_hosts_opt)
        } else {
            (not_hosts_opt, hosts_opt)
        };
        let rule = CbRule {
            action: CbAction { typ: CbType::CssDisplayNone, selector: Some(selector) },
            trigger: CbTrigger {
                url_filter: String::from_str(".*"),
                url_filter_is_case_sensitive: None,
                if_domain,
                unless_domain,
                resource_type: None,
                load_type: Vec::new(),
                if_top_url: None,
                unless_top_url: None,
            },
        };
        proof {
            assert(rule@.trigger.load_type =~= Seq::<CbLoadType>::empty());
            assert(rule_result_view(Ok::<CbRule, CbRuleCreationFailure>(rule))
                == spec_from_cosmetic(vg));
        }
        Ok(rule)
    }
}

} // verus!
