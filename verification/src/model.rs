//! The target rule model: one content-blocking rule is an action plus a
//! trigger, and a converted source record yields one or two such rules.

use crate::records::NetworkFilterMask;
use vstd::prelude::*;

verus! {

/// The action kind of a target rule.
#[derive(Clone, Copy, Debug, PartialEq, Eq, Structural)]
pub enum CbType {
    /// Stops loading of the resource.
    Block,
    /// Strips cookies from the request before sending it.
    BlockCookies,
    /// Hides elements matched by the accompanying CSS selector.
    CssDisplayNone,
    /// Ignores previously triggered actions.
    IgnorePreviousRules,
    /// Rewrites an http URL to https.
    MakeHttps,
}

/// First-party or third-party origin of a load, relative to the main page.
#[derive(Clone, Copy, Debug, PartialEq, Eq, Structural)]
pub enum CbLoadType {
    FirstParty,
    ThirdParty,
}

/// A category of web resource that a trigger may be scoped to.
#[derive(Clone, Copy, Debug, PartialEq, Eq, Structural)]
pub enum CbResourceType {
    Document,
    Image,
    StyleSheet,
    Script,
    Font,
    Raw,
    SvgDocument,
    Media,
    Popup,
}

/// A set of resource types, one membership flag per tag.
#[derive(Clone, Copy, Debug, PartialEq, Eq, Structural)]
pub struct CbResourceTypeSet {
    pub document: bool,
    pub image: bool,
    pub style_sheet: bool,
    pub script: bool,
    pub font: bool,
    pub raw: bool,
    pub svg_document: bool,
    pub media: bool,
    pub popup: bool,
}

impl CbResourceTypeSet {
    /// The set with no members.
    pub open spec fn spec_empty() -> CbResourceTypeSet {
        CbResourceTypeSet {
            document: false,
            image: false,
            style_sheet: false,
            script: false,
            font: false,
            raw: false,
            svg_document: false,
            media: false,
            popup: false,
        }
    }

    pub fn empty() -> (r: CbResourceTypeSet)
        ensures
            r == Self::spec_empty(),
    {
        CbResourceTypeSet {
            document: false,
            image: false,
            style_sheet: false,
            script: false,
            font: false,
            raw: false,
            svg_document: false,
            media: false,
            popup: false,
        }
    }

    pub open spec fn spec_contains(self, t: CbResourceType) -> bool {
        match t {
            CbResourceType::Document => self.document,
            CbResourceType::Image => self.image,
            CbResourceType::StyleSheet => self.style_sheet,
            CbResourceType::Script => self.script,
            CbResourceType::Font => self.font,
            CbResourceType::Raw => self.raw,
            CbResourceType::SvgDocument => self.svg_document,
            CbResourceType::Media => self.media,
            CbResourceType::Popup => self.popup,
        }
    }

    pub fn contains(&self, t: CbResourceType) -> (r: bool)
        ensures
            r == self.spec_contains(t),
    {
        match t {
            CbResourceType::Document => self.document,
            CbResourceType::Image => self.image,
            CbResourceType::StyleSheet => self.style_sheet,
            CbResourceType::Script => self.script,
            CbResourceType::Font => self.font,
            CbResourceType::Raw => self.raw,
            CbResourceType::SvgDocument => self.svg_document,
            CbResourceType::Media => self.media,
            CbResourceType::Popup => self.popup,
        }
    }

    pub open spec fn spec_insert(self, t: CbResourceType) -> CbResourceTypeSet {
        match t {
            CbResourceType::Document => CbResourceTypeSet { document: true, ..self },
            CbResourceType::Image => CbResourceTypeSet { image: true, ..self },
            CbResourceType::StyleSheet => CbResourceTypeSet { style_sheet: true, ..self },
            CbResourceType::Script => CbResourceTypeSet { script: true, ..self },
            CbResourceType::Font => CbResourceTypeSet { font: true, ..self },
            CbResourceType::Raw => CbResourceTypeSet { raw: true, ..self },
            CbResourceType::SvgDocument => CbResourceTypeSet { svg_document: true, ..self },
            CbResourceType::Media => CbResourceTypeSet { media: true, ..self },
            CbResourceType::Popup => CbResourceTypeSet { popup: true, ..self },
        }
    }

    pub fn insert(&mut self, t: CbResourceType)
        ensures
            *final(self) == old(self).spec_insert(t),
    {
        match t {
            CbResourceType::Document => self.document = true,
            CbResourceType::Image => self.image = true,
            CbResourceType::StyleSheet => self.style_sheet = true,
            CbResourceType::Script => self.script = true,
            CbResourceType::Font => self.font = true,
            CbResourceType::Raw => self.raw = true,
            CbResourceType::SvgDocument => self.svg_document = true,
            CbResourceType::Media => self.media = true,
            CbResourceType::Popup => self.popup = true,
        }
    }

    /// How many resource types are in the set.
    pub open spec fn count(self) -> int {
        (if self.document { 1int } else { 0 }) + (if self.image { 1int } else { 0 }) + (
        if self.style_sheet { 1int } else { 0 }) + (if self.script { 1int } else { 0 }) + (
        if self.font { 1int } else { 0 }) + (if self.raw { 1int } else { 0 }) + (
        if self.svg_document { 1int } else { 0 }) + (if self.media { 1int } else { 0 }) + (
        if self.popup { 1int } else { 0 })
    }

    pub fn len(&self) -> (n: usize)
        ensures
            n == self.count(),
    {
        let n1: usize = if self.document { 1 } else { 0 };
        let n2: usize = if self.image { 1 } else { 0 };
        let n3: usize = if self.style_sheet { 1 } else { 0 };
        let n4: usize = if self.script { 1 } else { 0 };
        let n5: usize = if self.font { 1 } else { 0 };
        let n6: usize = if self.raw { 1 } else { 0 };
        let n7: usize = if self.svg_document { 1 } else { 0 };
        let n8: usize = if self.media { 1 } else { 0 };
        let n9: usize = if self.popup { 1 } else { 0 };
        n1 + n2 + n3 + n4 + n5 + n6 + n7 + n8 + n9
    }

    /// The set with `Document` taken out.
    pub open spec fn spec_without_document(self) -> CbResourceTypeSet {
        CbResourceTypeSet { document: false, ..self }
    }

    pub fn without_document(&self) -> (r: CbResourceTypeSet)
        ensures
            r == self.spec_without_document(),
    {
        CbResourceTypeSet { document: false, ..*self }
    }

    /// The set holding only `Document`.
    pub open spec fn spec_document_only() -> CbResourceTypeSet {
        CbResourceTypeSet { document: true, ..Self::spec_empty() }
    }

    pub fn document_only() -> (r: CbResourceTypeSet)
        ensures
            r == Self::spec_document_only(),
    {
        let mut s = Self::empty();
        s.document = true;
        s
    }

    pub open spec fn spec_union(self, other: CbResourceTypeSet) -> CbResourceTypeSet {
        CbResourceTypeSet {
            document: self.document || other.document,
            image: self.image || other.image,
            style_sheet: self.style_sheet || other.style_sheet,
            script: self.script || other.script,
            font: self.font || other.font,
            raw: self.raw || other.raw,
            svg_document: self.svg_document || other.svg_document,
            media: self.media || other.media,
            popup: self.popup || other.popup,
        }
    }

    /// The members, listed in the fixed declaration order of the tags.
    pub open spec fn spec_members(self) -> Seq<CbResourceType> {
        let r0 = Seq::<CbResourceType>::empty();
        let r1 = if self.document { r0.push(CbResourceType::Document) } else { r0 };
        let r2 = if self.image { r1.push(CbResourceType::Image) } else { r1 };
        let r3 = if self.style_sheet { r2.push(CbResourceType::StyleSheet) } else { r2 };
        let r4 = if self.script { r3.push(CbResourceType::Script) } else { r3 };
        let r5 = if self.font { r4.push(CbResourceType::Font) } else { r4 };
        let r6 = if self.raw { r5.push(CbResourceType::Raw) } else { r5 };
        let r7 = if self.svg_document { r6.push(CbResourceType::SvgDocument) } else { r6 };
        let r8 = if self.media { r7.push(CbResourceType::Media) } else { r7 };
        if self.popup { r8.push(CbResourceType::Popup) } else { r8 }
    }

    /// The members in a fixed order, for serialization.
    pub fn members(&self) -> (r: Vec<CbResourceType>)
        ensures
            r@ == self.spec_members(),
    {
        let mut r: Vec<CbResourceType> = Vec::new();
        if self.document { r.push(CbResourceType::Document); }
        if self.image { r.push(CbResourceType::Image); }
        if self.style_sheet { r.push(CbResourceType::StyleSheet); }
        if self.script { r.push(CbResourceType::Script); }
        if self.font { r.push(CbResourceType::Font); }
        if self.raw { r.push(CbResourceType::Raw); }
        if self.svg_document { r.push(CbResourceType::SvgDocument); }
        if self.media { r.push(CbResourceType::Media); }
        if self.popup { r.push(CbResourceType::Popup); }
        r
    }
}

/// The action half of a target rule. `selector` is present exactly when
/// `typ` is `CssDisplayNone`.
#[derive(Clone, Debug, PartialEq)]
pub struct CbAction {
    pub typ: CbType,
    pub selector: Option<String>,
}

/// Mathematical value of a `CbAction`.
pub ghost struct CbActionV {
    pub typ: CbType,
    pub selector: Option<Seq<char>>,
}

impl View for CbAction {
    type V = CbActionV;

    open spec fn view(&self) -> CbActionV {
        CbActionV { typ: self.typ, selector: self.selector.deep_view() }
    }
}

/// The matching conditions of a target rule.
#[derive(Clone, Debug, PartialEq)]
pub struct CbTrigger {
    /// Pattern the URL is matched against; always present and non-empty.
    pub url_filter: String,
    /// Absent means the default, case-insensitive matching.
    pub url_filter_is_case_sensitive: Option<bool>,
    /// Restricts the action to these domains; `*` in front of an entry also
    /// matches its subdomains. Cannot be combined with `unless_domain`.
    pub if_domain: Option<Vec<String>>,
    /// Acts everywhere except on these domains. Cannot be combined with
    /// `if_domain`.
    pub unless_domain: Option<Vec<String>>,
    /// Resource types the rule matches; absent means all resource types.
    pub resource_type: Option<CbResourceTypeSet>,
    /// Empty means both first-party and third-party loads.
    pub load_type: Vec<CbLoadType>,
    /// Restricts the action to main documents matching these patterns.
    pub if_top_url: Option<Vec<String>>,
    /// Acts on any main document except those matching these patterns.
    pub unless_top_url: Option<Vec<String>>,
}

/// Mathematical value of a `CbTrigger`.
pub ghost struct CbTriggerV {
    pub url_filter: Seq<char>,
    pub url_filter_is_case_sensitive: Option<bool>,
    pub if_domain: Option<Seq<Seq<char>>>,
    pub unless_domain: Option<Seq<Seq<char>>>,
    pub resource_type: Option<CbResourceTypeSet>,
    pub load_type: Seq<CbLoadType>,
    pub if_top_url: Option<Seq<Seq<char>>>,
    pub unless_top_url: Option<Seq<Seq<char>>>,
}

impl View for CbTrigger {
    type V = CbTriggerV;

    open spec fn view(&self) -> CbTriggerV {
        CbTriggerV {
            url_filter: self.url_filter@,
            url_filter_is_case_sensitive: self.url_filter_is_case_sensitive,
            if_domain: self.if_domain.deep_view(),
            unless_domain: self.unless_domain.deep_view(),
            resource_type: self.resource_type,
            load_type: self.load_type@,
            if_top_url: self.if_top_url.deep_view(),
            unless_top_url: self.unless_top_url.deep_view(),
        }
    }
}

/// The trigger with an empty pattern and no restriction at all; the
/// converters overwrite the fields they use.
pub open spec fn spec_default_trigger() -> CbTriggerV {
    CbTriggerV {
        url_filter: Seq::<char>::empty(),
        url_filter_is_case_sensitive: None,
        if_domain: None,
        unless_domain: None,
        resource_type: None,
        load_type: Seq::<CbLoadType>::empty(),
        if_top_url: None,
        unless_top_url: None,
    }
}

impl Default for CbTrigger {
    fn default() -> (r: CbTrigger)
        ensures
            r@ == spec_default_trigger(),
    {
        CbTrigger {
            url_filter: String::new(),
            url_filter_is_case_sensitive: None,
            if_domain: None,
            unless_domain: None,
            resource_type: None,
            load_type: Vec::new(),
            if_top_url: None,
            unless_top_url: None,
        }
    }
}

/// One unit of the content-blocking output format.
#[derive(Clone, Debug, PartialEq)]
pub struct CbRule {
    pub action: CbAction,
    pub trigger: CbTrigger,
}

/// Mathematical value of a `CbRule`.
pub ghost struct CbRuleV {
    pub action: CbActionV,
    pub trigger: CbTriggerV,
}

impl View for CbRule {
    type V = CbRuleV;

    open spec fn view(&self) -> CbRuleV {
        CbRuleV { action: self.action@, trigger: self.trigger@ }
    }
}

/// Keeps a domain list only when it has at least one entry.
pub open spec fn spec_non_empty(v: Seq<Seq<char>>) -> Option<Seq<Seq<char>>> {
    if v.len() > 0 {
        Some(v)
    } else {
        None
    }
}

pub fn non_empty(v: Vec<String>) -> (r: Option<Vec<String>>)
    ensures
        r.deep_view() == spec_non_empty(v.deep_view()),
{
    if v.len() > 0 {
        Some(v)
    } else {
        None
    }
}

/// Why a source record could not be converted: one variant per unsupported
/// source feature or invalid combination.
#[derive(Clone, Copy, Debug, PartialEq, Eq, Structural)]
pub enum CbRuleCreationFailure {
    /// The record was parsed without keeping its raw text, which the
    /// domain-list extraction needs.
    NeedsDebugMode,
    /// The record would need both a restrict-domains and an exclude-domains
    /// list, which a trigger cannot carry together.
    UnlessAndIfDomainTogetherUnsupported,
    /// Every resource-type flag on the record maps to no target tag; the
    /// carried mask holds exactly the unmappable flags.
    NoSupportedNetworkOptions(NetworkFilterMask),
    /// The record specifies a redirect target.
    NetworkRedirectUnsupported,
    /// The record asks for fuzzy matching.
    NetworkFuzzyMatchUnsupported,
    /// The record disables generic element hiding.
    NetworkGenerichideUnsupported,
    /// The record cancels requests explicitly.
    NetworkExplicitCancelUnsupported,
    /// The record disables another filter.
    NetworkBadFilterUnsupported,
    /// The record injects a Content-Security-Policy directive.
    NetworkCspUnsupported,
    /// The record's pattern body is a pre-compiled multi-pattern form.
    OptimizedRulesUnsupported,
    /// The cosmetic record scopes to a domain entity rather than to a
    /// literal hostname.
    CosmeticEntitiesUnsupported,
    /// The cosmetic record carries a custom style specification.
    CosmeticStyleRulesNotSupported,
    /// The cosmetic record is a scriptlet injection.
    ScriptletInjectionsNotSupported,
}

/// One source rule maps to one target rule, or splits into two.
#[derive(Debug)]
pub enum CbRuleEquivalent {
    /// The common case: a single target rule.
    SingleRule(CbRule),
    /// A network rule whose resource types mixed `Document` with others and
    /// that named no load type: the first rule keeps every other resource
    /// type, the second keeps only `Document`, scoped to third-party loads.
    SplitDocument(CbRule, CbRule),
}

/// Mathematical value of a `CbRuleEquivalent`.
pub ghost enum CbRuleEquivalentV {
    SingleRule(CbRuleV),
    SplitDocument(CbRuleV, CbRuleV),
}

impl View for CbRuleEquivalent {
    type V = CbRuleEquivalentV;

    open spec fn view(&self) -> CbRuleEquivalentV {
        match self {
            CbRuleEquivalent::SingleRule(r) => CbRuleEquivalentV::SingleRule(r@),
            CbRuleEquivalent::SplitDocument(a, b) => CbRuleEquivalentV::SplitDocument(a@, b@),
        }
    }
}

impl CbRuleEquivalentV {
    /// The produced rules, in their fixed order.
    pub open spec fn rules(self) -> Seq<CbRuleV> {
        match self {
            CbRuleEquivalentV::SingleRule(r) => seq![r],
            CbRuleEquivalentV::SplitDocument(a, b) => seq![a, b],
        }
    }
}

impl CbRuleEquivalent {
    /// Hands the produced rules out one by one, first rule first.
    pub fn into_iter(self) -> (it: CbRuleEquivalentIterator)
        ensures
            it.wf(),
            it.remaining() == self@.rules(),
    {
        match self {
            CbRuleEquivalent::SingleRule(r) => CbRuleEquivalentIterator {
                first: Some(r),
                second: None,
                index: 0,
            },
            CbRuleEquivalent::SplitDocument(a, b) => CbRuleEquivalentIterator {
                first: Some(a),
                second: Some(b),
                index: 0,
            },
        }
    }
}

/// Walks the one or two rules of a `CbRuleEquivalent` in order; each rule
/// is handed out once.
pub struct CbRuleEquivalentIterator {
    first: Option<CbRule>,
    second: Option<CbRule>,
    index: usize,
}

pub open spec fn opt_rule_seq(r: Option<CbRule>) -> Seq<CbRuleV> {
    match r {
        Some(rule) => seq![rule@],
        None => Seq::<CbRuleV>::empty(),
    }
}

impl CbRuleEquivalentIterator {
    /// The iterator never holds a second rule without a first one.
    pub closed spec fn wf(self) -> bool {
        self.index == 0 && self.first is None ==> self.second is None
    }

    /// The rules not yet handed out, in order.
    pub closed spec fn remaining(self) -> Seq<CbRuleV> {
        if self.index == 0 {
            opt_rule_seq(self.first) + opt_rule_seq(self.second)
        } else if self.index == 1 {
            opt_rule_seq(self.second)
        } else {
            Seq::<CbRuleV>::empty()
        }
    }

    pub fn next(&mut self) -> (r: Option<CbRule>)
        requires
            old(self).wf(),
        ensures
            final(self).wf(),
            old(self).remaining().len() > 0 ==> (r matches Some(rule)
                && rule@ == old(self).remaining()[0]
                && final(self).remaining() == old(self).remaining().drop_first()),
            old(self).remaining().len() == 0 ==> (r is None
                && final(self).remaining() == Seq::<CbRuleV>::empty()),
    {
        if self.index >= 2 {
            return None;
        }
        let result = if self.index == 0 {
            self.first.take()
        } else {
            self.second.take()
        };
        self.index += 1;
        proof {
            if old(self).remaining().len() > 0 {
                assert(final(self).remaining() =~= old(self).remaining().drop_first());
            }
        }
        result
    }
}

/// A conversion result with the outcome replaced by its mathematical value;
/// what the converters' contracts pin down.
pub open spec fn result_view(r: Result<CbRuleEquivalent, CbRuleCreationFailure>) -> Result<
    CbRuleEquivalentV,
    CbRuleCreationFailure,
> {
    match r {
        Ok(eq) => Ok(eq@),
        Err(e) => Err(e),
    }
}

/// The same, for the cosmetic converter's single-rule result.
pub open spec fn rule_result_view(r: Result<CbRule, CbRuleCreationFailure>) -> Result<
    CbRuleV,
    CbRuleCreationFailure,
> {
    match r {
        Ok(rule) => Ok(rule@),
        Err(e) => Err(e),
    }
}

} // verus!
