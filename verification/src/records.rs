//! Source filter records, as the upstream filter-list parser hands them
//! over: a network-blocking record or an element-hiding record, each with
//! its option flags and, when parsed in a mode that keeps it, the original
//! raw text line.

use vstd::prelude::*;

verus! {

/// The option flags of a network filter record, one named flag per option.
#[derive(Clone, Copy, Debug, PartialEq, Eq, Structural)]
pub struct NetworkFilterMask {
    /// Matches third-party loads.
    pub third_party: bool,
    /// Matches first-party loads.
    pub first_party: bool,
    /// Matches http URLs.
    pub from_http: bool,
    /// Matches https URLs.
    pub from_https: bool,
    /// Matches websocket URLs.
    pub from_websocket: bool,
    /// The pattern is anchored at the start of the URL.
    pub is_left_anchor: bool,
    /// The pattern is anchored at the end of the URL.
    pub is_right_anchor: bool,
    /// The hostname part itself carries a wildcard.
    pub is_hostname_regex: bool,
    /// An exception rule: cancels earlier rules instead of blocking.
    pub is_exception: bool,
    /// The pattern is matched case-sensitively.
    pub match_case: bool,
    /// Fuzzy matching was requested.
    pub fuzzy_match: bool,
    /// Generic element hiding is disabled by this rule.
    pub generic_hide: bool,
    /// The rule cancels a request explicitly.
    pub explicit_cancel: bool,
    /// The rule disables another filter.
    pub bad_filter: bool,
    /// The rule injects a Content-Security-Policy directive.
    pub is_csp: bool,
    /// Resource type flags.
    pub from_image: bool,
    pub from_media: bool,
    pub from_object: bool,
    pub from_other: bool,
    pub from_ping: bool,
    pub from_script: bool,
    pub from_stylesheet: bool,
    pub from_subdocument: bool,
    pub from_websocket_type: bool,
    pub from_xmlhttprequest: bool,
    pub from_font: bool,
}

impl NetworkFilterMask {
    /// The mask with every flag cleared.
    pub open spec fn spec_empty() -> NetworkFilterMask {
        NetworkFilterMask {
            third_party: false,
            first_party: false,
            from_http: false,
            from_https: false,
            from_websocket: false,
            is_left_anchor: false,
            is_right_anchor: false,
            is_hostname_regex: false,
            is_exception: false,
            match_case: false,
            fuzzy_match: false,
            generic_hide: false,
            explicit_cancel: false,
            bad_filter: false,
            is_csp: false,
            from_image: false,
            from_media: false,
            from_object: false,
            from_other: false,
            from_ping: false,
            from_script: false,
            from_stylesheet: false,
            from_subdocument: false,
            from_websocket_type: false,
            from_xmlhttprequest: false,
            from_font: false,
        }
    }

    pub fn empty() -> (r: NetworkFilterMask)
        ensures
            r == Self::spec_empty(),
    {
        NetworkFilterMask {
            third_party: false,
            first_party: false,
            from_http: false,
            from_https: false,
            from_websocket: false,
            is_left_anchor: false,
            is_right_anchor: false,
            is_hostname_regex: false,
            is_exception: false,
            match_case: false,
            fuzzy_match: false,
            generic_hide: false,
            explicit_cancel: false,
            bad_filter: false,
            is_csp: false,
            from_image: false,
            from_media: false,
            from_object: false,
            from_other: false,
            from_ping: false,
            from_script: false,
            from_stylesheet: false,
            from_subdocument: false,
            from_websocket_type: false,
            from_xmlhttprequest: false,
            from_font: false,
        }
    }

    /// The record matches every resource type: all resource flags are set.
    pub open spec fn from_any(self) -> bool {
        self.from_image && self.from_media && self.from_object && self.from_other
            && self.from_ping && self.from_script && self.from_stylesheet
            && self.from_subdocument && self.from_websocket_type && self.from_xmlhttprequest
            && self.from_font
    }
}

/// The pattern body of a network filter record.
pub enum FilterPart {
    /// No literal pattern at all.
    Empty,
    /// A single literal pattern.
    Simple(String),
    /// A pre-compiled multi-pattern form, produced by an optimizer.
    AnyOf(Vec<String>),
}

/// Mathematical value of a `FilterPart`.
pub ghost enum FilterPartV {
    Empty,
    Simple(Seq<char>),
    AnyOf(Seq<Seq<char>>),
}

impl View for FilterPart {
    type V = FilterPartV;

    open spec fn view(&self) -> FilterPartV {
        match self {
            FilterPart::Empty => FilterPartV::Empty,
            FilterPart::Simple(s) => FilterPartV::Simple(s@),
            FilterPart::AnyOf(v) => FilterPartV::AnyOf(v.deep_view()),
        }
    }
}

/// A parsed network-blocking filter record.
pub struct NetworkFilter {
    pub mask: NetworkFilterMask,
    /// The literal pattern body, if any.
    pub filter: FilterPart,
    /// The hostname the pattern is anchored to, if any.
    pub hostname: Option<String>,
    /// A redirect target, if the rule carries one.
    pub redirect: Option<String>,
    /// Hashes of the `domain=` inclusions, when that option is present.
    pub opt_domains: Option<Vec<u64>>,
    /// Hashes of the `domain=` exclusions, when that option is present.
    pub opt_not_domains: Option<Vec<u64>>,
    /// The original raw text line, kept only in debug parsing mode.
    pub raw_line: Option<String>,
}

/// Mathematical value of a `NetworkFilter`.
pub ghost struct NetworkFilterV {
    pub mask: NetworkFilterMask,
    pub filter: FilterPartV,
    pub hostname: Option<Seq<char>>,
    pub redirect: Option<Seq<char>>,
    pub opt_domains: Option<Seq<u64>>,
    pub opt_not_domains: Option<Seq<u64>>,
    pub raw_line: Option<Seq<char>>,
}

impl View for NetworkFilter {
    type V = NetworkFilterV;

    open spec fn view(&self) -> NetworkFilterV {
        NetworkFilterV {
            mask: self.mask,
            filter: self.filter@,
            hostname: self.hostname.deep_view(),
            redirect: self.redirect.deep_view(),
            opt_domains: self.opt_domains.deep_view(),
            opt_not_domains: self.opt_not_domains.deep_view(),
            raw_line: self.raw_line.deep_view(),
        }
    }
}

/// The option flags of a cosmetic filter record.
#[derive(Clone, Copy, Debug, PartialEq, Eq, Structural)]
pub struct CosmeticFilterMask {
    /// An exception rule: reveals instead of hiding.
    pub unhide: bool,
    /// The rule injects a scriptlet instead of hiding an element.
    pub script_inject: bool,
}

/// A parsed element-hiding filter record.
pub struct CosmeticFilter {
    pub mask: CosmeticFilterMask,
    /// A custom style specification, if the rule carries one.
    pub style: Option<String>,
    /// The CSS selector naming what to hide.
    pub selector: String,
    /// The original raw text line, kept only in debug parsing mode.
    pub raw_line: Option<String>,
}

/// Mathematical value of a `CosmeticFilter`.
pub ghost struct CosmeticFilterV {
    pub mask: CosmeticFilterMask,
    pub style: Option<Seq<char>>,
    pub selector: Seq<char>,
    pub raw_line: Option<Seq<char>>,
}

impl View for CosmeticFilter {
    type V = CosmeticFilterV;

    open spec fn view(&self) -> CosmeticFilterV {
        CosmeticFilterV {
            mask: self.mask,
            style: self.style.deep_view(),
            selector: self.selector@,
            raw_line: self.raw_line.deep_view(),
        }
    }
}

/// An already-classified parsed filter record, ready for dispatch.
pub enum ParsedFilter {
    Network(NetworkFilter),
    Cosmetic(CosmeticFilter),
}

/// Mathematical value of a `ParsedFilter`.
pub ghost enum ParsedFilterV {
    Network(NetworkFilterV),
    Cosmetic(CosmeticFilterV),
}

impl View for ParsedFilter {
    type V = ParsedFilterV;

    open spec fn view(&self) -> ParsedFilterV {
        match self {
            ParsedFilter::Network(f) => ParsedFilterV::Network(f@),
            ParsedFilter::Cosmetic(f) => ParsedFilterV::Cosmetic(f@),
        }
    }
}

} // verus!
