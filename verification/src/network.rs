//! Conversion of a network-blocking filter record into one or two target
//! rules: URL-pattern synthesis, domain-list extraction from the raw line,
//! resource- and load-type mapping, and the document-split policy.

use crate::model::{
    non_empty, result_view, spec_non_empty, CbAction, CbActionV, CbLoadType, CbResourceType,
    CbResourceTypeSet, CbRule, CbRuleCreationFailure, CbRuleEquivalent, CbRuleEquivalentV, CbRuleV,
    CbTrigger, CbTriggerV, CbType,
};
use crate::records::{FilterPart, FilterPartV, NetworkFilter, NetworkFilterMask, NetworkFilterV};
use crate::strutil::{
    escape_special, escape_special_chars, find_char, find_char_in, find_sub, find_substr,
    lemma_find_char_props, lemma_find_sub_props, split_on, split_str, strip_trailing_separator,
    translate_body, translate_filter_body,
};
use vstd::prelude::*;

verus! {

/// The load types named by the party flags: both (or neither) set means no
/// restriction.
pub open spec fn spec_load_type(m: NetworkFilterMask) -> Seq<CbLoadType> {
    if m.third_party && m.first_party {
        Seq::<CbLoadType>::empty()
    } else if m.third_party {
        seq![CbLoadType::ThirdParty]
    } else if m.first_party {
        seq![CbLoadType::FirstParty]
    } else {
        Seq::<CbLoadType>::empty()
    }
}

/// The pattern prefix that matches any scheme, an optional `//`, and an
/// optional subdomain, in front of an escaped hostname.
pub open spec fn hostname_pattern_prefix() -> Seq<char> {
    ("^[^:]+:(//)?([^/]+\\.)?")@
}

/// The scheme prefix used in front of a non-anchored literal body.
pub open spec fn spec_scheme_part_simple(m: NetworkFilterMask) -> Seq<char> {
    if m.from_http && m.from_https {
        Seq::<char>::empty()
    } else if m.from_http {
        ("^http://.*")@
    } else if m.from_https {
        ("^https://.*")@
    } else if m.from_websocket {
        ("^wss?://.*")@
    } else {
        Seq::<char>::empty()
    }
}

/// The whole pattern when the record has neither a body nor a hostname.
pub open spec fn spec_scheme_prefix_empty(m: NetworkFilterMask) -> Seq<char> {
    if m.from_http && m.from_https {
        ("^https?://")@
    } else if m.from_http {
        ("^http://")@
    } else if m.from_https {
        ("^https://")@
    } else if m.from_websocket {
        ("^wss?://")@
    } else {
        Seq::<char>::empty()
    }
}

pub open spec fn spec_right_anchor(m: NetworkFilterMask) -> Seq<char> {
    if m.is_right_anchor {
        ("$")@
    } else {
        Seq::<char>::empty()
    }
}

/// The synthesized URL pattern of a record whose body is not the
/// pre-compiled multi-pattern form.
pub open spec fn spec_url_filter(v: NetworkFilterV) -> Seq<char> {
    match (v.filter, v.hostname) {
        (FilterPartV::Simple(part), Some(hostname)) => {
            let body = translate_body(strip_trailing_separator(part));
            let anchored = hostname_pattern_prefix() + escape_special(hostname);
            let anchored_re = if v.mask.is_hostname_regex {
            anchored + (".*")@
            } else {
            anchored
            };
            anchored_re + body + spec_right_anchor(v.mask)
        },
        (FilterPartV::Simple(part), None) => {
            let body = translate_body(strip_trailing_separator(part));
            let base = if v.mask.is_left_anchor {
            ("^")@ + body
            } else {
            spec_scheme_part_simple(v.mask) + body
            };
            base + spec_right_anchor(v.mask)
        },
        (FilterPartV::Empty, Some(hostname)) => hostname_pattern_prefix() + escape_special(
            hostname,
        ),
        (FilterPartV::Empty, None) => spec_scheme_prefix_empty(v.mask),
        _ => Seq::<char>::empty(),
    }
}

/// The resource-type flags that have a target tag, as a target set.
pub open spec fn spec_resource_types(m: NetworkFilterMask) -> CbResourceTypeSet {
    CbResourceTypeSet {
        document: m.from_subdocument,
        image: m.from_image,
        style_sheet: m.from_stylesheet,
        script: m.from_script,
        font: m.from_font,
        raw: m.from_xmlhttprequest,
        svg_document: false,
        media: m.from_media,
        popup: false,
    }
}

/// The resource-type flags with no target tag, kept for diagnostics.
pub open spec fn spec_unsupported_flags(m: NetworkFilterMask) -> NetworkFilterMask {
    NetworkFilterMask {
        from_object: m.from_object,
        from_other: m.from_other,
        from_ping: m.from_ping,
        from_websocket_type: m.from_websocket_type,
        ..NetworkFilterMask::spec_empty()
    }
}

pub open spec fn has_unsupported_flags(m: NetworkFilterMask) -> bool {
    m.from_object || m.from_other || m.from_ping || m.from_websocket_type
}

/// The value of the `domain=` option in the raw line: the text after the
/// first `domain=` past the `$` options delimiter, up to the next comma.
pub open spec fn spec_domains_section(raw: Seq<char>) -> Seq<char> {
    match find_char(raw, '$') {
        Some(d) => {
            let opts = raw.skip(d + 1);
            match find_sub(opts, ("domain=")@) {
                Some(ds) => {
                    let tail = opts.skip(ds + ("domain=")@.len());
                    match find_char(tail, ',') {
                        Some(c) => tail.take(c),
                        None => tail,
                    }
                },
                None => Seq::<char>::empty(),
            }
        },
        None => Seq::<char>::empty(),
    }
}

/// A domain entry, prefixed with `*` so that subdomains match too.
pub open spec fn star_dom(t: Seq<char>) -> Seq<char> {
    seq!['*'] + t
}

/// What one `domain=` entry contributes to the inclusion list.
pub open spec fn if_contrib(t: Seq<char>) -> Seq<Seq<char>> {
    if t.len() > 0 && t[0] == '~' {
        Seq::<Seq<char>>::empty()
    } else {
        seq![star_dom(t)]
    }
}

/// What one `domain=` entry contributes to the exclusion list.
pub open spec fn unless_contrib(t: Seq<char>) -> Seq<Seq<char>> {
    if t.len() > 0 && t[0] == '~' {
        seq![star_dom(t.drop_first())]
    } else {
        Seq::<Seq<char>>::empty()
    }
}

/// The inclusion entries of a `domain=` list, in order.
pub open spec fn spec_if_domains(toks: Seq<Seq<char>>) -> Seq<Seq<char>>
    decreases toks.len(),
{
    if toks.len() == 0 {
        Seq::<Seq<char>>::empty()
    } else {
        if_contrib(toks[0]) + spec_if_domains(toks.drop_first())
    }
}

/// The exclusion entries of a `domain=` list, in order.
pub open spec fn spec_unless_domains(toks: Seq<Seq<char>>) -> Seq<Seq<char>>
    decreases toks.len(),
{
    if toks.len() == 0 {
        Seq::<Seq<char>>::empty()
    } else {
        unless_contrib(toks[0]) + spec_unless_domains(toks.drop_first())
    }
}

/// The two domain lists re-extracted from the raw line.
pub open spec fn spec_network_domains(raw: Seq<char>) -> (Option<Seq<Seq<char>>>, Option<
    Seq<Seq<char>>,
>) {
    let toks = split_on(spec_domains_section(raw), '|');
    (spec_non_empty(spec_if_domains(toks)), spec_non_empty(spec_unless_domains(toks)))
}

/// The record survives every fail-fast option check.
pub open spec fn passes_option_checks(v: NetworkFilterV) -> bool {
    v.raw_line is Some && v.redirect is None && !v.mask.fuzzy_match && !v.mask.generic_hide
        && !v.mask.explicit_cancel && !v.mask.bad_filter && !v.mask.is_csp && !(v.filter
        is AnyOf)
}

/// The pattern synthesis must resolve a scheme from the flags.
pub open spec fn needs_scheme(v: NetworkFilterV) -> bool {
    v.hostname is None && (v.filter is Empty || (v.filter is Simple && !v.mask.is_left_anchor))
}

pub open spec fn scheme_resolvable(m: NetworkFilterMask) -> bool {
    m.from_http || m.from_https || m.from_websocket
}

/// When a domain option flag is set, the raw line must really hold an
/// options delimiter followed by a `domain=` option.
pub open spec fn domain_option_wf(v: NetworkFilterV) -> bool {
    (v.opt_domains is Some || v.opt_not_domains is Some) ==> match v.raw_line {
        Some(raw) => match find_char(raw, '$') {
            Some(d) => find_sub(raw.skip(d + 1), ("domain=")@) is Some,
            None => false,
        },
        None => true,
    }
}

/// The input contract the upstream parser guarantees for well-formed
/// records: a resolvable scheme where the synthesis needs one, and a real
/// `domain=` option where the flags announce one.
pub open spec fn network_record_wf(v: NetworkFilterV) -> bool {
    &&& passes_option_checks(v) && needs_scheme(v) ==> scheme_resolvable(v.mask)
    &&& passes_option_checks(v) ==> domain_option_wf(v)
}

/// The single candidate rule, before the document-split policy.
pub open spec fn spec_candidate_rule(
    v: NetworkFilterV,
    if_domain: Option<Seq<Seq<char>>>,
    unless_domain: Option<Seq<Seq<char>>>,
) -> CbRuleV {
    CbRuleV {
        action: CbActionV {
            typ: if v.mask.is_exception {
                CbType::IgnorePreviousRules
            } else {
                CbType::Block
            },
            selector: None,
        },
        trigger: CbTriggerV {
            url_filter: spec_url_filter(v),
            url_filter_is_case_sensitive: if v.mask.match_case {
                Some(true)
            } else {
                None
            },
            if_domain,
            unless_domain,
            resource_type: if v.mask.from_any() {
                None
            } else {
                Some(spec_resource_types(v.mask))
            },
            load_type: spec_load_type(v.mask),
            if_top_url: None,
            unless_top_url: None,
        },
    }
}

/// The document-split policy: a rule whose resource types mix `Document`
/// with others and whose load type is unrestricted becomes two rules.
pub open spec fn spec_apply_split(rule: CbRuleV) -> CbRuleEquivalentV {
    match rule.trigger.resource_type {
        Some(types) => if types.count() > 1 && types.document && rule.trigger.load_type.len()
            == 0 {
            let non_doc = CbRuleV {
                action: rule.action,
                trigger: CbTriggerV {
                    resource_type: Some(types.spec_without_document()),
                    ..rule.trigger
                },
            };
            let just_doc = CbRuleV {
                action: rule.action,
                trigger: CbTriggerV {
                    resource_type: Some(CbResourceTypeSet::spec_document_only()),
                    load_type: seq![CbLoadType::ThirdParty],
                    ..rule.trigger
                },
            };
            CbRuleEquivalentV::SplitDocument(non_doc, just_doc)
        } else {
            CbRuleEquivalentV::SingleRule(rule)
        },
        None => CbRuleEquivalentV::SingleRule(rule),
    }
}

/// The whole network conversion, as a function of the record's value.
pub open spec fn spec_from_network(v: NetworkFilterV) -> Result<
    CbRuleEquivalentV,
    CbRuleCreationFailure,
> {
    match v.raw_line {
        None => Err(CbRuleCreationFailure::NeedsDebugMode),
        Some(raw) => if v.redirect is Some {
            Err(CbRuleCreationFailure::NetworkRedirectUnsupported)
        } else if v.mask.fuzzy_match {
            Err(CbRuleCreationFailure::NetworkFuzzyMatchUnsupported)
        } else if v.mask.generic_hide {
            Err(CbRuleCreationFailure::NetworkGenerichideUnsupported)
        } else if v.mask.explicit_cancel {
            Err(CbRuleCreationFailure::NetworkExplicitCancelUnsupported)
        } else if v.mask.bad_filter {
            Err(CbRuleCreationFailure::NetworkBadFilterUnsupported)
        } else if v.mask.is_csp {
            Err(CbRuleCreationFailure::NetworkCspUnsupported)
        } else if v.filter is AnyOf {
            Err(CbRuleCreationFailure::OptimizedRulesUnsupported)
        } else {
            let domains = if v.opt_domains is Some || v.opt_not_domains is Some {
                spec_network_domains(raw)
            } else {
                (None, None)
            };
            if domains.0 is Some && domains.1 is Some {
                Err(CbRuleCreationFailure::UnlessAndIfDomainTogetherUnsupported)
            } else if !v.mask.from_any() && has_unsupported_flags(v.mask) && spec_resource_types(
                v.mask,
            ).count() == 0 {
                Err(CbRuleCreationFailure::NoSupportedNetworkOptions(spec_unsupported_flags(v.mask)))
            } else {
                Ok(spec_apply_split(spec_candidate_rule(v, domains.0, domains.1)))
            }
        },
    }
}

pub proof fn lemma_if_domains_snoc(toks: Seq<Seq<char>>, t: Seq<char>)
    ensures
        spec_if_domains(toks.push(t)) == spec_if_domains(toks) + if_contrib(t),
    decreases toks.len(),
{
    if toks.len() == 0 {
        assert(toks.push(t).drop_first() =~= Seq::<Seq<char>>::empty());
        assert(toks.push(t)[0] == t);
        assert(spec_if_domains(Seq::<Seq<char>>::empty()) == Seq::<Seq<char>>::empty());
        assert(spec_if_domains(toks.push(t)) == if_contrib(t) + spec_if_domains(
            toks.push(t).drop_first(),
        ));
        assert(spec_if_domains(toks.push(t)) =~= spec_if_domains(toks) + if_contrib(t));
    } else {
        assert(toks.push(t).drop_first() =~= toks.drop_first().push(t));
        lemma_if_domains_snoc(toks.drop_first(), t);
        assert(toks.push(t)[0] == toks[0]);
        assert(spec_if_domains(toks.push(t)) == if_contrib(toks[0]) + spec_if_domains(
            toks.push(t).drop_first(),
        ));
        assert(spec_if_domains(toks) == if_contrib(toks[0]) + spec_if_domains(toks.drop_first()));
        assert(spec_if_domains(toks.push(t)) =~= spec_if_domains(toks) + if_contrib(t));
    }
}

pub proof fn lemma_unless_domains_snoc(toks: Seq<Seq<char>>, t: Seq<char>)
    ensures
        spec_unless_domains(toks.push(t)) == spec_unless_domains(toks) + unless_contrib(t),
    decreases toks.len(),
{
    if toks.len() == 0 {
        assert(toks.push(t).drop_first() =~= Seq::<Seq<char>>::empty());
        assert(toks.push(t)[0] == t);
        assert(spec_unless_domains(Seq::<Seq<char>>::empty()) == Seq::<Seq<char>>::empty());
        assert(spec_unless_domains(toks.push(t)) == unless_contrib(t) + spec_unless_domains(
            toks.push(t).drop_first(),
        ));
        assert(spec_unless_domains(toks.push(t)) =~= spec_unless_domains(toks) + unless_contrib(t));
    } else {
        assert(toks.push(t).drop_first() =~= toks.drop_first().push(t));
        lemma_unless_domains_snoc(toks.drop_first(), t);
        assert(toks.push(t)[0] == toks[0]);
        assert(spec_unless_domains(toks.push(t)) == unless_contrib(toks[0]) + spec_unless_domains(
            toks.push(t).drop_first(),
        ));
        assert(spec_unless_domains(toks) == unless_contrib(toks[0]) + spec_unless_domains(
            toks.drop_first(),
        ));
        assert(spec_unless_domains(toks.push(t)) =~= spec_unless_domains(toks) + unless_contrib(t));
    }
}

/// Sorts the entries of a `domain=` list into inclusions and exclusions,
/// each entry prefixed with `*`.
fn build_domain_lists(toks: &Vec<String>) -> (r: (Vec<String>, Vec<String>))
    ensures
        r.0.deep_view() == spec_if_domains(toks.deep_view()),
        r.1.deep_view() == spec_unless_domains(toks.deep_view()),
{
    let mut ifd: Vec<String> = Vec::new();
    let mut unl: Vec<String> = Vec::new();
    let mut i: usize = 0;
    while i < toks.len()
        invariant
            i <= toks@.len(),
            ifd.deep_view() == spec_if_domains(toks.deep_view().take(i as int)),
            unl.deep_view() == spec_unless_domains(toks.deep_view().take(i as int)),
        decreases toks@.len() - i,
    {
        let t = &toks[i];
        proof {
            assert(toks.deep_view()[i as int] == t@);
            reveal_strlit("*");
            assert(("*")@ =~= seq!['*']);
        }
        let tn = t.as_str().unicode_len();
        let mut d = String::from_str("*");
        if tn > 0 && t.as_str().get_char(0) == '~' {
            d.append(t.as_str().substring_char(1, tn));
            let ghost dv = d@;
            let ghost old_unl = unl.deep_view();
            unl.push(d);
            proof {
                assert(t@.subrange(1, tn as int) =~= t@.drop_first());
                assert(dv =~= star_dom(t@.drop_first()));
                assert(unl.deep_view() =~= old_unl.push(dv));
            }
        } else {
            d.append(t.as_str());
            let ghost dv = d@;
            let ghost old_ifd = ifd.deep_view();
            ifd.push(d);
            proof {
                assert(dv =~= star_dom(t@));
                assert(ifd.deep_view() =~= old_ifd.push(dv));
            }
        }
        proof {
            lemma_if_domains_snoc(toks.deep_view().take(i as int), t@);
            lemma_unless_domains_snoc(toks.deep_view().take(i as int), t@);
            assert(toks.deep_view().take(i as int).push(t@) =~= toks.deep_view().take(i + 1));
            assert(ifd.deep_view() =~= spec_if_domains(toks.deep_view().take(i + 1)));
            assert(unl.deep_view() =~= spec_unless_domains(toks.deep_view().take(i + 1)));
        }
        i += 1;
    }
    proof {
        assert(toks.deep_view().take(toks@.len() as int) =~= toks.deep_view());
    }
    (ifd, unl)
}

fn clone_string(s: &String) -> (r: String)
    ensures
        r@ == s@,
{
    s.clone()
}

fn clone_opt_domains(v: &Option<Vec<String>>) -> (r: Option<Vec<String>>)
    ensures
        r.deep_view() == v.deep_view(),
{
    match v {
        None => None,
        Some(l) => {
            let mut out: Vec<String> = Vec::new();
            let mut i: usize = 0;
            while i < l.len()
                invariant
                    i <= l@.len(),
                    out.deep_view() == l.deep_view().take(i as int),
                decreases l@.len() - i,
            {
                let ghost old_out = out.deep_view();
                out.push(l[i].clone());
                proof {
                    assert(l.deep_view()[i as int] == l@[i as int]@);
                    assert(out.deep_view() =~= old_out.push(l@[i as int]@));
                    assert(out.deep_view() =~= l.deep_view().take(i + 1));
                }
                i += 1;
            }
            proof {
                assert(l.deep_view().take(l@.len() as int) =~= l.deep_view());
            }
            Some(out)
        },
    }
}

impl CbRuleEquivalent {
    /// Converts a network-blocking record into one or two target rules, or
    /// reports the first unsupported feature found.
    #[verifier::rlimit(100)]
    pub fn try_from_network(v: NetworkFilter) -> (r: Result<
        CbRuleEquivalent,
        CbRuleCreationFailure,
    >)
        requires
            network_record_wf(v@),
        ensures
            result_view(r) == spec_from_network(v@),
    {
        let ghost vg = v@;
        let NetworkFilter { mask, filter, hostname, redirect, opt_domains, opt_not_domains, raw_line } = v;
        let raw = match raw_line {
            Some(r) => r,
            None => {
                return Err(CbRuleCreationFailure::NeedsDebugMode);
            },
        };
        if redirect.is_some() {
            return Err(CbRuleCreationFailure::NetworkRedirectUnsupported);
        }
        if mask.fuzzy_match {
            return Err(CbRuleCreationFailure::NetworkFuzzyMatchUnsupported);
        }
        if mask.generic_hide {
            return Err(CbRuleCreationFailure::NetworkGenerichideUnsupported);
        }
        if mask.explicit_cancel {
            return Err(CbRuleCreationFailure::NetworkExplicitCancelUnsupported);
        }
        if mask.bad_filter {
            return Err(CbRuleCreationFailure::NetworkBadFilterUnsupported);
        }
        if mask.is_csp {
            return Err(CbRuleCreationFailure::NetworkCspUnsupported);
        }
        let url_filter: String = match (filter, hostname) {
            (FilterPart::AnyOf(_), _) => {
                return Err(CbRuleCreationFailure::OptimizedRulesUnsupported);
            },
            (FilterPart::Simple(part), Some(hn)) => {
                let mut uf = String::from_str("^[^:]+:(//)?([^/]+\\.)?");
                let eh = escape_special_chars(hn.as_str());
                uf.append(eh.as_str());
                if mask.is_hostname_regex {
                    uf.append(".*");
                }
                let body = translate_filter_body(part.as_str());
                uf.append(body.as_str());
                if mask.is_right_anchor {
                    uf.append("$");
                }
                proof {
                    assert(uf@ =~= spec_url_filter(vg));
                }
                uf
            },
            (FilterPart::Simple(part), None) => {
                let body = translate_filter_body(part.as_str());
                let mut uf = if mask.is_left_anchor {
                    let mut u = String::from_str("^");
                    u.append(body.as_str());
                    u
                } else {
                    let scheme = if mask.from_http && mask.from_https {
                        ""
                    } else if mask.from_http {
                        "^http://.*"
                    } else if mask.from_https {
                        "^https://.*"
                    } else {
                        proof {
                            assert(needs_scheme(vg));
                            assert(mask.from_websocket);
                        }
                        "^wss?://.*"
                    };
                    let mut u = String::from_str(scheme);
                    u.append(body.as_str());
                    u
                };
                if mask.is_right_anchor {
                    uf.append("$");
                }
                proof {
                    reveal_strlit("");
                    assert(uf@ =~= spec_url_filter(vg));
                }
                uf
            },
            (FilterPart::Empty, Some(hn)) => {
                let mut uf = String::from_str("^[^:]+:(//)?([^/]+\\.)?");
                let eh = escape_special_chars(hn.as_str());
                uf.append(eh.as_str());
                proof {
                    assert(uf@ =~= spec_url_filter(vg));
                }
                uf
            },
            (FilterPart::Empty, None) => {
                let lit = if mask.from_http && mask.from_https {
                    "^https?://"
                } else if mask.from_http {
                    "^http://"
                } else if mask.from_https {
                    "^https://"
                } else {
                    proof {
                        assert(needs_scheme(vg));
                        assert(mask.from_websocket);
                    }
                    "^wss?://"
                };
                let uf = String::from_str(lit);
                proof {
                    assert(uf@ =~= spec_url_filter(vg));
                }
                uf
            },
        };
        let (if_domain, unless_domain) = if opt_domains.is_some() || opt_not_domains.is_some() {
            proof {
                assert(passes_option_checks(vg));
            }
            let dollar_opt = find_char_in(raw.as_str(), '$');
            proof {
                if dollar_opt is None {
                    assert(false);
                }
            }
            let d = dollar_opt.unwrap();
            proof {
                lemma_find_char_props(raw@, '$');
            }
            let rn = raw.as_str().unicode_len();
            let opts = raw.as_str().substring_char(d + 1, rn);
            proof {
                assert(opts@ =~= raw@.skip(d + 1));
            }
            let ds_opt = find_substr(opts, "domain=");
            proof {
                if ds_opt is None {
                    assert(false);
                }
            }
            let ds = ds_opt.unwrap();
            proof {
                lemma_find_sub_props(opts@, ("domain=")@);
                reveal_strlit("domain=");
                assert(("domain=")@.len() == 7);
            }
            let on = opts.unicode_len();
            let tail = opts.substring_char(ds + 7, on);
            proof {
                assert(tail@ =~= opts@.skip(ds + 7));
            }
            let section = match find_char_in(tail, ',') {
                Some(c) => {
                    proof {
                        lemma_find_char_props(tail@, ',');
                    }
                    tail.substring_char(0, c)
                },
                None => tail,
            };
            proof {
                assert(section@ == spec_domains_section(raw@));
            }
            let toks = split_str(section, '|');
            let (ifd, unl) = build_domain_lists(&toks);
            let r = (non_empty(ifd), non_empty(unl));
            proof {
                assert(r.0.deep_view() == spec_network_domains(raw@).0);
                assert(r.1.deep_view() == spec_network_domains(raw@).1);
            }
            r
        } else {
            (None, None)
        };
        if if_domain.is_some() && unless_domain.is_some() {
            return Err(CbRuleCreationFailure::UnlessAndIfDomainTogetherUnsupported);
        }
        let from_any = mask.from_image && mask.from_media && mask.from_object && mask.from_other
            && mask.from_ping && mask.from_script && mask.from_stylesheet && mask.from_subdocument
            && mask.from_websocket_type && mask.from_xmlhttprequest && mask.from_font;
        let resource_type: Option<CbResourceTypeSet> = if from_any {
            None
        } else {
            let types = CbResourceTypeSet {
                document: mask.from_subdocument,
                image: mask.from_image,
                style_sheet: mask.from_stylesheet,
                script: mask.from_script,
                font: mask.from_font,
                raw: mask.from_xmlhttprequest,
                svg_document: false,
                media: mask.from_media,
                popup: false,
            };
            let unsupported = NetworkFilterMask {
                from_object: mask.from_object,
                from_other: mask.from_other,
                from_ping: mask.from_ping,
                from_websocket_type: mask.from_websocket_type,
                ..NetworkFilterMask::empty()
            };
            if (mask.from_object || mask.from_other || mask.from_ping || mask.from_websocket_type)
                && types.len() == 0 {
                return Err(CbRuleCreationFailure::NoSupportedNetworkOptions(unsupported));
            }
            Some(types)
        };
        let mut load_type: Vec<CbLoadType> = Vec::new();
        if mask.third_party && mask.first_party {
        } else if mask.third_party {
            load_type.push(CbLoadType::ThirdParty);
        } else if mask.first_party {
            load_type.push(CbLoadType::FirstParty);
        }
        proof {
            assert(load_type@ =~= spec_load_type(mask));
        }
        let url_filter_is_case_sensitive = if mask.match_case {
            Some(true)
        } else {
            None
        };
        let typ = if mask.is_exception {
            CbType::IgnorePreviousRules
        } else {
            CbType::Block
        };
        let ghost candidate = spec_candidate_rule(vg, if_domain.deep_view(), unless_domain.deep_view());
        let do_split = match &resource_type {
            Some(t) => t.len() > 1 && t.contains(CbResourceType::Document) && load_type.len() == 0,
            None => false,
        };
        if do_split {
            let types = match &resource_type {
                Some(t) => *t,
                None => CbResourceTypeSet::empty(),
            };
            let non_doc = CbRule {
                action: CbAction { typ, selector: None },
                trigger: CbTrigger {
                    url_filter: clone_string(&url_filter),
                    url_filter_is_case_sensitive,
                    if_domain: clone_opt_domains(&if_domain),
                    unless_domain: clone_opt_domains(&unless_domain),
                    resource_type: Some(types.without_document()),
                    load_type: Vec::new(),
                    if_top_url: None,
                    unless_top_url: None,
                },
            };
            let mut doc_load: Vec<CbLoadType> = Vec::new();
            doc_load.push(CbLoadType::ThirdParty);
            let just_doc = CbRule {
                action: CbAction { typ, selector: None },
                trigger: CbTrigger {
                    url_filter,
                    url_filter_is_case_sensitive,
                    if_domain,
                    unless_domain,
                    resource_type: Some(CbResourceTypeSet::document_only()),
                    load_type: doc_load,
                    if_top_url: None,
                    unless_top_url: None,
                },
            };
            proof {
                assert(candidate.trigger.load_type =~= Seq::<CbLoadType>::empty());
                assert(non_doc@.trigger.load_type =~= candidate.trigger.load_type);
                assert(doc_load@ =~= seq![CbLoadType::ThirdParty]);
                assert(spec_apply_split(candidate) == CbRuleEquivalentV::SplitDocument(
                    non_doc@,
                    just_doc@,
                ));
            }
            Ok(CbRuleEquivalent::SplitDocument(non_doc, just_doc))
        } else {
            let rule = CbRule {
                action: CbAction { typ, selector: None },
                trigger: CbTrigger {
                    url_filter,
                    url_filter_is_case_sensitive,
                    if_domain,
                    unless_domain,
                    resource_type,
                    load_type,
                    if_top_url: None,
                    unless_top_url: None,
                },
            };
            proof {
                assert(rule@ == candidate);
                assert(spec_apply_split(candidate) == CbRuleEquivalentV::SingleRule(rule@));
            }
            Ok(CbRuleEquivalent::SingleRule(rule))
        }
    }
}

} // verus!
