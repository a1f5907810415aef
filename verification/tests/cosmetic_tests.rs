use content_blocking::{
    CbAction, CbRule, CbRuleCreationFailure, CbRuleEquivalent, CbTrigger, CbType, CosmeticFilter,
    CosmeticFilterMask, ParsedFilter,
};

fn cosmetic_record(raw: &str, selector: &str, unhide: bool) -> CosmeticFilter {
    CosmeticFilter {
        mask: CosmeticFilterMask { unhide, script_inject: false },
        style: None,
        selector: selector.to_string(),
        raw_line: Some(raw.to_string()),
    }
}

fn convert(f: CosmeticFilter) -> Vec<CbRule> {
    let eq = CbRuleEquivalent::try_from(ParsedFilter::Cosmetic(f)).unwrap();
    let mut it = eq.into_iter();
    let mut rules = Vec::new();
    while let Some(r) = it.next() {
        rules.push(r);
    }
    rules
}

fn hide_rule(selector: &str, trigger: CbTrigger) -> CbRule {
    CbRule {
        action: CbAction { typ: CbType::CssDisplayNone, selector: Some(selector.to_string()) },
        trigger,
    }
}

fn names(entries: &[&str]) -> Option<Vec<String>> {
    Some(entries.iter().map(|d| d.to_string()).collect())
}

#[test]
fn element_hiding_tests() {
    let f = cosmetic_record("###A9AdsMiddleBoxTop", "#A9AdsMiddleBoxTop", false);
    assert_eq!(
        convert(f),
        vec![hide_rule("#A9AdsMiddleBoxTop", CbTrigger {
            url_filter: ".*".to_string(),
            ..CbTrigger::default()
        })]
    );

    let f = cosmetic_record("thedailygreen.com#@##AD_banner", "#AD_banner", true);
    assert_eq!(
        convert(f),
        vec![hide_rule("#AD_banner", CbTrigger {
            url_filter: ".*".to_string(),
            unless_domain: names(&["thedailygreen.com"]),
            ..CbTrigger::default()
        })]
    );

    let f = cosmetic_record("sprouts.com,tbns.com.au#@##AdImage", "#AdImage", true);
    assert_eq!(
        convert(f),
        vec![hide_rule("#AdImage", CbTrigger {
            url_filter: ".*".to_string(),
            unless_domain: names(&["sprouts.com", "tbns.com.au"]),
            ..CbTrigger::default()
        })]
    );

    let f = cosmetic_record(
        "santander.co.uk#@#a[href^=\"http://ad-emea.doubleclick.net/\"]",
        "a[href^=\"http://ad-emea.doubleclick.net/\"]",
        true,
    );
    assert_eq!(
        convert(f),
        vec![hide_rule("a[href^=\"http://ad-emea.doubleclick.net/\"]", CbTrigger {
            url_filter: ".*".to_string(),
            unless_domain: names(&["santander.co.uk"]),
            ..CbTrigger::default()
        })]
    );

    let f = cosmetic_record("search.safefinder.com,search.snapdo.com###ABottomD", "#ABottomD", false);
    assert_eq!(
        convert(f),
        vec![hide_rule("#ABottomD", CbTrigger {
            url_filter: ".*".to_string(),
            if_domain: names(&["search.safefinder.com", "search.snapdo.com"]),
            ..CbTrigger::default()
        })]
    );

    let f = cosmetic_record(
        "tweakguides.com###adbar > br + p[style=\"text-align: center\"] + p[style=\"text-align: center\"]",
        "#adbar > br + p[style=\"text-align: center\"] + p[style=\"text-align: center\"]",
        false,
    );
    assert_eq!(
        convert(f),
        vec![hide_rule(
            "#adbar > br + p[style=\"text-align: center\"] + p[style=\"text-align: center\"]",
            CbTrigger { url_filter: ".*".to_string(), if_domain: names(&["tweakguides.com"]), ..CbTrigger::default() }
        )]
    );
}

#[test]
fn cosmetic_unhide_polarity() {
    let f = cosmetic_record("a.com#@##ad", "#ad", true);
    let rules = convert(f);
    assert_eq!(rules[0].trigger.unless_domain, names(&["a.com"]));
    assert_eq!(rules[0].trigger.if_domain, None);

    let f = cosmetic_record("~a.com#@##ad", "#ad", true);
    let rules = convert(f);
    assert_eq!(rules[0].trigger.if_domain, names(&["a.com"]));
    assert_eq!(rules[0].trigger.unless_domain, None);
}

#[test]
fn cosmetic_entities_rejected() {
    let f = cosmetic_record("google.*###ad", "#ad", false);
    let r = CbRule::try_from(f);
    assert_eq!(r.unwrap_err(), CbRuleCreationFailure::CosmeticEntitiesUnsupported);

    let f = cosmetic_record("~google.*###ad", "#ad", false);
    let r = CbRule::try_from(f);
    assert_eq!(r.unwrap_err(), CbRuleCreationFailure::CosmeticEntitiesUnsupported);
}

#[test]
fn cosmetic_style_rules_rejected() {
    let mut f = cosmetic_record("a.com###ad:style(margin: 0)", "#ad", false);
    f.style = Some("margin: 0".to_string());
    let r = CbRule::try_from(f);
    assert_eq!(r.unwrap_err(), CbRuleCreationFailure::CosmeticStyleRulesNotSupported);
}

#[test]
fn cosmetic_scriptlet_rejected() {
    let mut f = cosmetic_record("a.com##+js(nowebrtc)", "+js(nowebrtc)", false);
    f.mask.script_inject = true;
    let r = CbRule::try_from(f);
    assert_eq!(r.unwrap_err(), CbRuleCreationFailure::ScriptletInjectionsNotSupported);
}

#[test]
fn cosmetic_needs_debug_mode() {
    let mut f = cosmetic_record("a.com###ad", "#ad", false);
    f.raw_line = None;
    let r = CbRule::try_from(f);
    assert_eq!(r.unwrap_err(), CbRuleCreationFailure::NeedsDebugMode);
}

#[test]
fn cosmetic_domain_conflict() {
    let f = cosmetic_record("a.com,~b.com###ad", "#ad", false);
    let r = CbRule::try_from(f);
    assert_eq!(r.unwrap_err(), CbRuleCreationFailure::UnlessAndIfDomainTogetherUnsupported);
}
