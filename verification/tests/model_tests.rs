use content_blocking::{
    non_empty, CbLoadType, CbResourceType, CbResourceTypeSet, CbRule, CbRuleCreationFailure,
    CbRuleEquivalent, CbTrigger, FilterPart, NetworkFilter, NetworkFilterMask, ParsedFilter,
};

fn any_resource_mask() -> NetworkFilterMask {
    let mut m = NetworkFilterMask::empty();
    m.third_party = true;
    m.first_party = true;
    m.from_http = true;
    m.from_https = true;
    m.from_image = true;
    m.from_media = true;
    m.from_object = true;
    m.from_other = true;
    m.from_ping = true;
    m.from_script = true;
    m.from_stylesheet = true;
    m.from_subdocument = true;
    m.from_websocket_type = true;
    m.from_xmlhttprequest = true;
    m.from_font = true;
    m
}

fn record(raw: &str, mask: NetworkFilterMask, filter: FilterPart) -> NetworkFilter {
    NetworkFilter {
        mask,
        filter,
        hostname: None,
        redirect: None,
        opt_domains: None,
        opt_not_domains: None,
        raw_line: Some(raw.to_string()),
    }
}

fn collect(eq: CbRuleEquivalent) -> Vec<CbRule> {
    let mut it = eq.into_iter();
    let mut rules = Vec::new();
    while let Some(r) = it.next() {
        rules.push(r);
    }
    rules
}

#[test]
fn conversion_is_deterministic() {
    let make = || {
        let mut m = any_resource_mask();
        m.from_object = false;
        m.from_other = false;
        m.from_ping = false;
        m.from_websocket_type = false;
        m.from_font = false;
        m.from_media = false;
        m.from_script = false;
        m.from_stylesheet = false;
        m.from_xmlhttprequest = false;
        NetworkFilter {
            mask: m,
            filter: FilterPart::Simple("/banners/".to_string()),
            hostname: Some("com".to_string()),
            redirect: None,
            opt_domains: Some(Vec::new()),
            opt_not_domains: None,
            raw_line: Some("||com/banners/$image,subdocument,domain=a.com".to_string()),
        }
    };
    let first = collect(CbRuleEquivalent::try_from(ParsedFilter::Network(make())).unwrap());
    let second = collect(CbRuleEquivalent::try_from(ParsedFilter::Network(make())).unwrap());
    assert_eq!(first, second);
    assert_eq!(first.len(), 2);
}

#[test]
fn domain_exclusivity_conflict_reported() {
    let mut f = record(
        "||ads.example$domain=a.com|~b.com",
        any_resource_mask(),
        FilterPart::Simple("ads.example".to_string()),
    );
    f.opt_domains = Some(Vec::new());
    f.opt_not_domains = Some(Vec::new());
    let r = CbRuleEquivalent::try_from(ParsedFilter::Network(f));
    assert!(matches!(
        r,
        Err(CbRuleCreationFailure::UnlessAndIfDomainTogetherUnsupported)
    ));
}

#[test]
fn network_error_variants() {
    let mut f = record("ad", any_resource_mask(), FilterPart::Simple("ad".to_string()));
    f.raw_line = None;
    assert!(matches!(
        CbRuleEquivalent::try_from(ParsedFilter::Network(f)),
        Err(CbRuleCreationFailure::NeedsDebugMode)
    ));

    let mut f = record("ad$redirect=x", any_resource_mask(), FilterPart::Simple("ad".to_string()));
    f.redirect = Some("x".to_string());
    assert!(matches!(
        CbRuleEquivalent::try_from(ParsedFilter::Network(f)),
        Err(CbRuleCreationFailure::NetworkRedirectUnsupported)
    ));

    let mut m = any_resource_mask();
    m.fuzzy_match = true;
    let f = record("ad$fuzzy", m, FilterPart::Simple("ad".to_string()));
    assert!(matches!(
        CbRuleEquivalent::try_from(ParsedFilter::Network(f)),
        Err(CbRuleCreationFailure::NetworkFuzzyMatchUnsupported)
    ));

    let mut m = any_resource_mask();
    m.generic_hide = true;
    let f = record("ad$generichide", m, FilterPart::Simple("ad".to_string()));
    assert!(matches!(
        CbRuleEquivalent::try_from(ParsedFilter::Network(f)),
        Err(CbRuleCreationFailure::NetworkGenerichideUnsupported)
    ));

    let mut m = any_resource_mask();
    m.explicit_cancel = true;
    let f = record("ad$explicitcancel", m, FilterPart::Simple("ad".to_string()));
    assert!(matches!(
        CbRuleEquivalent::try_from(ParsedFilter::Network(f)),
        Err(CbRuleCreationFailure::NetworkExplicitCancelUnsupported)
    ));

    let mut m = any_resource_mask();
    m.bad_filter = true;
    let f = record("ad$badfilter", m, FilterPart::Simple("ad".to_string()));
    assert!(matches!(
        CbRuleEquivalent::try_from(ParsedFilter::Network(f)),
        Err(CbRuleCreationFailure::NetworkBadFilterUnsupported)
    ));

    let mut m = any_resource_mask();
    m.is_csp = true;
    let f = record("ad$csp=default-src", m, FilterPart::Simple("ad".to_string()));
    assert!(matches!(
        CbRuleEquivalent::try_from(ParsedFilter::Network(f)),
        Err(CbRuleCreationFailure::NetworkCspUnsupported)
    ));

    let f = record(
        "ad",
        any_resource_mask(),
        FilterPart::AnyOf(vec!["a".to_string(), "b".to_string()]),
    );
    assert!(matches!(
        CbRuleEquivalent::try_from(ParsedFilter::Network(f)),
        Err(CbRuleCreationFailure::OptimizedRulesUnsupported)
    ));
}

#[test]
fn no_supported_resource_types() {
    let mut m = any_resource_mask();
    m.from_image = false;
    m.from_media = false;
    m.from_other = false;
    m.from_ping = false;
    m.from_script = false;
    m.from_stylesheet = false;
    m.from_subdocument = false;
    m.from_websocket_type = false;
    m.from_xmlhttprequest = false;
    m.from_font = false;
    // only `object` is left: no target tag exists for it
    let f = record("ad$object", m, FilterPart::Simple("ad".to_string()));
    let r = CbRuleEquivalent::try_from(ParsedFilter::Network(f));
    let mut expected = NetworkFilterMask::empty();
    expected.from_object = true;
    assert_eq!(
        r.unwrap_err(),
        CbRuleCreationFailure::NoSupportedNetworkOptions(expected)
    );
}

#[test]
fn unsupported_flags_dropped_when_supported_present() {
    let mut m = any_resource_mask();
    m.from_media = false;
    m.from_other = false;
    m.from_ping = false;
    m.from_script = false;
    m.from_stylesheet = false;
    m.from_subdocument = false;
    m.from_websocket_type = false;
    m.from_xmlhttprequest = false;
    m.from_font = false;
    // image and object: object is silently dropped
    let f = record("ad$image,object", m, FilterPart::Simple("ad".to_string()));
    let rules = collect(CbRuleEquivalent::try_from(ParsedFilter::Network(f)).unwrap());
    let mut expected = CbResourceTypeSet::empty();
    expected.insert(CbResourceType::Image);
    assert_eq!(rules[0].trigger.resource_type, Some(expected));
}

#[test]
fn iterator_hands_rules_out_once() {
    let f = record("&ad_box_", any_resource_mask(), FilterPart::Simple("&ad_box_".to_string()));
    let eq = CbRuleEquivalent::try_from(ParsedFilter::Network(f)).unwrap();
    let mut it = eq.into_iter();
    let first = it.next();
    assert!(first.is_some());
    assert!(it.next().is_none());
    assert!(it.next().is_none());
}

#[test]
fn split_iterates_in_order() {
    let mut m = any_resource_mask();
    m.from_object = false;
    m.from_other = false;
    m.from_ping = false;
    m.from_websocket_type = false;
    m.from_media = false;
    m.from_script = false;
    m.from_stylesheet = false;
    m.from_xmlhttprequest = false;
    m.from_font = false;
    // image and subdocument left, no party restriction: splits in two
    let f = record("ad$image,subdocument", m, FilterPart::Simple("ad".to_string()));
    let rules = collect(CbRuleEquivalent::try_from(ParsedFilter::Network(f)).unwrap());
    assert_eq!(rules.len(), 2);
    let mut non_doc = CbResourceTypeSet::empty();
    non_doc.insert(CbResourceType::Image);
    let mut doc_only = CbResourceTypeSet::empty();
    doc_only.insert(CbResourceType::Document);
    assert_eq!(rules[0].trigger.resource_type, Some(non_doc));
    assert_eq!(rules[1].trigger.resource_type, Some(doc_only));
    assert_eq!(rules[0].trigger.load_type, Vec::<CbLoadType>::new());
    assert_eq!(rules[1].trigger.load_type, vec![CbLoadType::ThirdParty]);
    assert_eq!(rules[0].trigger.url_filter, rules[1].trigger.url_filter);
}

#[test]
fn non_empty_keeps_filled_lists() {
    assert_eq!(non_empty(Vec::new()), None);
    assert_eq!(
        non_empty(vec!["a.com".to_string()]),
        Some(vec!["a.com".to_string()])
    );
}

#[test]
fn resource_type_set_operations() {
    let mut s = CbResourceTypeSet::empty();
    assert_eq!(s.len(), 0);
    s.insert(CbResourceType::Image);
    s.insert(CbResourceType::Document);
    s.insert(CbResourceType::Image);
    assert_eq!(s.len(), 2);
    assert!(s.contains(CbResourceType::Image));
    assert!(s.contains(CbResourceType::Document));
    assert!(!s.contains(CbResourceType::Script));
    assert_eq!(
        s.members(),
        vec![CbResourceType::Document, CbResourceType::Image]
    );
    let without = s.without_document();
    assert!(!without.contains(CbResourceType::Document));
    assert!(without.contains(CbResourceType::Image));
    assert_eq!(CbResourceTypeSet::document_only().members(), vec![CbResourceType::Document]);
}

#[test]
fn default_trigger_is_unrestricted() {
    let t = CbTrigger::default();
    assert_eq!(t.url_filter, "");
    assert_eq!(t.url_filter_is_case_sensitive, None);
    assert_eq!(t.if_domain, None);
    assert_eq!(t.unless_domain, None);
    assert_eq!(t.resource_type, None);
    assert_eq!(t.load_type, Vec::<CbLoadType>::new());
    assert_eq!(t.if_top_url, None);
    assert_eq!(t.unless_top_url, None);
}

#[test]
fn case_sensitivity_flag_carried() {
    let mut m = any_resource_mask();
    m.match_case = true;
    let f = record("AdBox$match-case", m, FilterPart::Simple("AdBox".to_string()));
    let rules = collect(CbRuleEquivalent::try_from(ParsedFilter::Network(f)).unwrap());
    assert_eq!(rules[0].trigger.url_filter_is_case_sensitive, Some(true));
}
