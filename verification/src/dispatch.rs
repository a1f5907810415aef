//! The single entry point: routes an already-classified parsed record to
//! the network or cosmetic converter and unifies the two under one result.

use crate::cosmetic::{cosmetic_record_wf, spec_from_cosmetic};
use crate::model::{result_view, CbRule, CbRuleCreationFailure, CbRuleEquivalent, CbRuleEquivalentV};
use crate::network::{network_record_wf, spec_from_network};
use crate::records::{ParsedFilter, ParsedFilterV};
use vstd::prelude::*;

verus! {

/// The input contract the upstream parser guarantees, by record kind.
pub open spec fn parsed_filter_wf(v: ParsedFilterV) -> bool {
    match v {
        ParsedFilterV::Network(f) => network_record_wf(f),
        ParsedFilterV::Cosmetic(f) => cosmetic_record_wf(f),
    }
}

/// The whole conversion, as a function of the record's value.
pub open spec fn spec_try_from(v: ParsedFilterV) -> Result<
    CbRuleEquivalentV,
    CbRuleCreationFailure,
> {
    match v {
        ParsedFilterV::Network(f) => spec_from_network(f),
        ParsedFilterV::Cosmetic(f) => match spec_from_cosmetic(f) {
            Ok(rule) => Ok(CbRuleEquivalentV::SingleRule(rule)),
            Err(e) => Err(e),
        },
    }
}

impl CbRuleEquivalent {
    /// Converts one parsed filter record into its content-blocking
    /// equivalent. The outcome is a function of the record's value alone:
    /// converting equal records always yields identical outcomes.
    pub fn try_from(v: ParsedFilter) -> (r: Result<CbRuleEquivalent, CbRuleCreationFailure>)
        requires
            parsed_filter_wf(v@),
        ensures
            result_view(r) == spec_try_from(v@),
    {
        match v {
            ParsedFilter::Network(f) => CbRuleEquivalent::try_from_network(f),
            ParsedFilter::Cosmetic(f) => match CbRule::try_from(f) {
                Ok(rule) => Ok(CbRuleEquivalent::SingleRule(rule)),
                Err(e) => Err(e),
            },
        }
    }
}

} // verus!
