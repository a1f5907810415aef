//! The library-wide laws: determinism, domain exclusivity, completeness of
//! the document-split policy, escaping of pattern characters, and the
//! polarity inversion of unhide rules.

use crate::cosmetic::{
    cosmetic_hostnames, cosmetic_not_hostnames, spec_from_cosmetic,
};
use crate::dispatch::spec_try_from;
use crate::model::{
    spec_non_empty, CbLoadType, CbResourceTypeSet, CbRuleEquivalentV, CbRuleV,
};
use crate::network::{
    spec_apply_split, spec_candidate_rule, spec_from_network, spec_load_type,
    spec_network_domains, spec_resource_types,
};
use crate::records::{CosmeticFilterV, NetworkFilterV, ParsedFilterV};
use crate::strutil::{
    find_char, is_special_char, split_on, translate_body, translate_char,
};
use vstd::prelude::*;

verus! {

/// Determinism: the conversion outcome is a function of the record's value
/// alone, as `CbRuleEquivalent::try_from` ensures; converting two records
/// with equal values therefore yields equal outcomes, and iterating each
/// outcome yields the same rule sequence.
pub proof fn lemma_conversion_deterministic(v1: ParsedFilterV, v2: ParsedFilterV)
    requires
        v1 == v2,
    ensures
        spec_try_from(v1) == spec_try_from(v2),
        spec_try_from(v1) matches Ok(eq) ==> eq.rules() == spec_try_from(
            v2,
        )->Ok_0.rules(),
{
}

/// Every rule of a split outcome keeps the candidate rule's domain lists.
proof fn lemma_split_preserves_domains(rule: CbRuleV)
    ensures
        forall|i: int|
            0 <= i < spec_apply_split(rule).rules().len() ==> (#[trigger] spec_apply_split(
                rule,
            ).rules()[i]).trigger.if_domain == rule.trigger.if_domain && spec_apply_split(
                rule,
            ).rules()[i].trigger.unless_domain == rule.trigger.unless_domain,
{
    match rule.trigger.resource_type {
        Some(types) => {},
        None => {},
    }
}

/// Domain exclusivity: no produced trigger ever carries both a
/// restrict-domains and an exclude-domains list; a record that would need
/// both fails with the domain-conflict error instead.
pub proof fn lemma_domain_exclusivity(v: ParsedFilterV)
    ensures
        match spec_try_from(v) {
            Ok(eq) => forall|i: int|
                0 <= i < eq.rules().len() ==> !((#[trigger] eq.rules()[i]).trigger.if_domain
                    is Some && eq.rules()[i].trigger.unless_domain is Some),
            Err(_) => true,
        },
{
    match v {
        ParsedFilterV::Network(f) => {
            if spec_from_network(f) is Ok {
                let raw = f.raw_line->Some_0;
                let d0 = if f.opt_domains is Some || f.opt_not_domains is Some {
                    spec_network_domains(raw).0
                } else {
                    None
                };
                let d1 = if f.opt_domains is Some || f.opt_not_domains is Some {
                    spec_network_domains(raw).1
                } else {
                    None
                };
                assert(!(d0 is Some && d1 is Some));
                let candidate = spec_candidate_rule(f, d0, d1);
                assert(spec_from_network(f) == Ok::<CbRuleEquivalentV, crate::model::CbRuleCreationFailure>(spec_apply_split(
                    candidate,
                )));
                lemma_split_preserves_domains(candidate);
            }
        },
        ParsedFilterV::Cosmetic(f) => {
            if spec_from_cosmetic(f) is Ok {
                let rule = spec_from_cosmetic(f)->Ok_0;
                let eq = spec_try_from(v)->Ok_0;
                assert(eq.rules() =~= seq![rule]);
            }
        },
    }
}

/// Split completeness: a network record whose mapped resource-type set has
/// at least two members including `Document`, with no load-type
/// restriction, always splits; the two rules' resource-type sets partition
/// the mapped set into everything-but-`Document` and `Document` alone, and
/// the document rule's load type is exactly third-party.
pub proof fn lemma_split_completeness(f: NetworkFilterV)
    ensures
        match spec_from_network(f) {
            Ok(eq) => {
                let types = spec_resource_types(f.mask);
                let splits = !f.mask.from_any() && types.count() > 1 && types.document
                    && spec_load_type(f.mask).len() == 0;
                &&& (eq is SplitDocument <==> splits)
                &&& match eq {
                    CbRuleEquivalentV::SplitDocument(a, b) => {
                        &&& a.trigger.resource_type == Some(types.spec_without_document())
                        &&& b.trigger.resource_type == Some(CbResourceTypeSet::spec_document_only())
                        &&& types.spec_without_document().spec_union(
                            CbResourceTypeSet::spec_document_only(),
                        ) == types
                        &&& !types.spec_without_document().document
                        &&& a.trigger.load_type.len() == 0
                        &&& b.trigger.load_type == seq![CbLoadType::ThirdParty]
                    },
                    CbRuleEquivalentV::SingleRule(_) => true,
                }
            },
            Err(_) => true,
        },
{
}

/// Round-trip escaping: in the translated pattern, each body character
/// occupies its own contiguous piece, in order: a special character
/// becomes exactly one backslash followed by the character, a `*` becomes
/// `.*`, and any other character stays alone.
pub proof fn lemma_round_trip_escaping(s: Seq<char>, i: int)
    requires
        0 <= i < s.len(),
    ensures
        ({
            let t = translate_body(s);
            let off = translate_body(s.take(i)).len() as int;
            &&& 0 <= off
            &&& off + translate_char(s[i]).len() as int <= t.len()
            &&& t.subrange(off, off + translate_char(s[i]).len() as int) == translate_char(s[i])
            &&& (is_special_char(s[i]) ==> translate_char(s[i]) == seq!['\\', s[i]])
            &&& (s[i] == '*' ==> translate_char(s[i]) == seq!['.', '*'])
            &&& (!is_special_char(s[i]) && s[i] != '*' ==> translate_char(s[i]) == seq![s[i]])
        }),
{
    lemma_translate_decompose(s, i);
    let a = translate_body(s.take(i));
    let p = translate_char(s[i]);
    let b = translate_body(s.skip(i + 1));
    assert(translate_body(s).subrange(a.len() as int, a.len() as int + p.len() as int) =~= p);
}

/// A translated body decomposes around any one of its characters.
pub proof fn lemma_translate_decompose(s: Seq<char>, i: int)
    requires
        0 <= i < s.len(),
    ensures
        translate_body(s) == translate_body(s.take(i)) + translate_char(s[i]) + translate_body(
            s.skip(i + 1),
        ),
    decreases i,
{
    if i == 0 {
        assert(s.take(0) =~= Seq::<char>::empty());
        assert(translate_body(Seq::<char>::empty()) == Seq::<char>::empty());
        assert(s.skip(1) =~= s.drop_first());
        assert(translate_body(s) == translate_char(s[0]) + translate_body(s.drop_first()));
        assert(translate_body(s) =~= translate_body(s.take(0)) + translate_char(s[0])
            + translate_body(s.skip(1)));
    } else {
        lemma_translate_decompose(s.drop_first(), i - 1);
        assert(s.drop_first()[i - 1] == s[i]);
        assert(s.drop_first().take(i - 1) =~= s.take(i).drop_first());
        assert(s.drop_first().skip(i) =~= s.skip(i + 1));
        assert(translate_body(s) == translate_char(s[0]) + translate_body(s.drop_first()));
        assert(s.take(i)[0] == s[0]);
        assert(translate_body(s.take(i)) == translate_char(s[0]) + translate_body(
            s.take(i).drop_first(),
        ));
        assert(translate_body(s) =~= translate_body(s.take(i)) + translate_char(s[i])
            + translate_body(s.skip(i + 1)));
    }
}

/// Cosmetic polarity: for an unhide rule, the extracted hostname
/// inclusions become the trigger's exclude-domain list and the extracted
/// exclusions its restrict-domain list.
pub proof fn lemma_cosmetic_polarity(f: CosmeticFilterV)
    requires
        f.mask.unhide,
    ensures
        match spec_from_cosmetic(f) {
            Ok(rule) => {
                let raw = f.raw_line->Some_0;
                let toks = split_on(raw.take(find_char(raw, '#')->Some_0), ',');
                &&& rule.trigger.unless_domain == spec_non_empty(cosmetic_hostnames(toks))
                &&& rule.trigger.if_domain == spec_non_empty(cosmetic_not_hostnames(toks))
            },
            Err(_) => true,
        },
{
}

} // verus!
