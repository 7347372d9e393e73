//! The rule engine: which rules apply to an element, and in which order
//! their handlers run.

use crate::html_parser::attributes::{attribute_entries, attribute_pairs, get_attribute, lookup};
use crate::html_parser::element::{element_view, Element, ElementView};
use crate::post::{PostParserContext, PostRaw};
use crate::rules::abbr::AbbrHandler;
use crate::rules::anchor::AnchorRuleHandler;
use crate::rules::bold::BoldHandler;
use crate::rules::line_break::LineBreakRuleHandler;
use crate::rules::pre::PreHandler;
use crate::rules::rule_handler::{rendered, viewer_of, Rendered, RuleHandler, Viewer};
use crate::rules::span::SpanHandler;
use crate::rules::spoiler::SpoilerHandler;
use crate::rules::style::StyleHandler;
use crate::rules::table::TableHandler;
use crate::rules::table_data::TableDataHandler;
use crate::rules::table_row::TableRowHandler;
use crate::spannable::Spannable;
use crate::text::str_eq;
use crate::text_part::TextPart;
use vstd::prelude::*;
use vstd::string::StringExecFns;

verus! {

/// The name that stands for every tag, and for every attribute.
pub const WILDCARD: &'static str = "*";

/// A demand on the attributes of an element: that it has the attribute
/// `attr_name`, and with the value `attr_value` if one is given. The name
/// `*` stands for any attribute.
#[derive(Debug, Clone, PartialEq, Eq, Hash)]
pub struct Attribute {
    attr_name: String,
    attr_value: Option<String>,
}

impl View for Attribute {
    type V = (Seq<char>, Option<Seq<char>>);

    closed spec fn view(&self) -> (Seq<char>, Option<Seq<char>>) {
        (
            self.attr_name@,
            match self.attr_value {
                Some(value) => Some(value@),
                None => None,
            },
        )
    }
}

impl Attribute {
    /// The demand that the attribute `attr_name` is there.
    pub fn with_name(attr_name: &str) -> (attribute: Attribute)
        ensures
            attribute@ == (attr_name@, None::<Seq<char>>),
    {
        Attribute { attr_name: String::from_str(attr_name), attr_value: None }
    }

    /// The demand that the attribute `attr_name` has the value `attr_value`.
    pub fn with_name_and_value(attr_name: &str, attr_value: &str) -> (attribute: Attribute)
        ensures
            attribute@ == (attr_name@, Some(attr_value@)),
    {
        Attribute {
            attr_name: String::from_str(attr_name),
            attr_value: Some(String::from_str(attr_value)),
        }
    }

    /// The demand that the attribute `class` has the value `attr_value`.
    pub fn with_class(attr_value: &str) -> (attribute: Attribute)
        ensures
            attribute@ == ("class"@, Some(attr_value@)),
    {
        Attribute {
            attr_name: String::from_str("class"),
            attr_value: Some(String::from_str(attr_value)),
        }
    }
}

/// A rule: the tag it is for (`*` for every tag), the demands on the
/// attributes, and the handler.
pub struct ParsingRule {
    tag_name: String,
    required_attributes: Vec<Attribute>,
    handler: RuleHandler,
}

/// The mathematical value of a [`ParsingRule`].
pub struct RuleView {
    pub tag_name: Seq<char>,
    pub required: Seq<(Seq<char>, Option<Seq<char>>)>,
    pub handler: RuleHandler,
}

/// The values of the demands.
pub open spec fn demands_view(demands: Seq<Attribute>) -> Seq<(Seq<char>, Option<Seq<char>>)> {
    demands.map_values(|a: Attribute| a@)
}

/// The values of the rules.
pub open spec fn rules_view(rules: Seq<ParsingRule>) -> Seq<RuleView> {
    rules.map_values(|r: ParsingRule| r@)
}

/// Whether the attributes meet one demand. With the name `*`, some
/// attribute must have the demanded value, or, if none is demanded, there
/// must be an attribute. With another name, the attribute of that name must
/// be there, and have the demanded value if one is demanded.
pub open spec fn demand_met(
    attributes: Seq<(Seq<char>, Seq<char>)>,
    name: Seq<char>,
    value: Option<Seq<char>>,
) -> bool {
    if name == WILDCARD@ {
        match value {
            Some(wanted) => exists|i: int|
                0 <= i < attributes.len() && (#[trigger] attributes[i]).1 == wanted,
            None => attributes.len() > 0,
        }
    } else {
        match lookup(attributes, name) {
            Some(found) => match value {
                Some(wanted) => found == wanted,
                None => true,
            },
            None => false,
        }
    }
}

/// Whether the attributes meet every demand.
pub open spec fn demands_met(
    attributes: Seq<(Seq<char>, Seq<char>)>,
    demands: Seq<(Seq<char>, Option<Seq<char>>)>,
) -> bool {
    forall|i: int|
        0 <= i < demands.len() ==> demand_met(attributes, (#[trigger] demands[i]).0, demands[i].1)
}

/// Whether the rule applies to the element: it is for the element's tag or
/// for every tag, and the element's attributes meet its demands.
pub open spec fn rule_applies(rule: RuleView, element: ElementView) -> bool {
    (rule.tag_name == WILDCARD@ || rule.tag_name == element.tag_name) && demands_met(
        element.attributes,
        rule.required,
    )
}

/// Whether the rule has high priority: it makes demands on the attributes.
pub open spec fn is_high_priority(rule: RuleView) -> bool {
    rule.required.len() > 0
}

/// The positions, in order, of those of the first `n` rules that apply to
/// the element.
pub open spec fn matching_upto(rules: Seq<RuleView>, element: ElementView, n: int) -> Seq<int>
    decreases n,
{
    if n <= 0 || n > rules.len() {
        Seq::empty()
    } else if rule_applies(rules[n - 1], element) {
        matching_upto(rules, element, n - 1).push(n - 1)
    } else {
        matching_upto(rules, element, n - 1)
    }
}

/// The positions, in the order of registration, of the rules that apply to
/// the element.
pub open spec fn matching_rules(rules: Seq<RuleView>, element: ElementView) -> Seq<int> {
    matching_upto(rules, element, rules.len() as int)
}

/// Positions as integers.
pub open spec fn positions_view(positions: Seq<usize>) -> Seq<int> {
    positions.map_values(|p: usize| p as int)
}

/// What the handlers of one priority do before the children of `element`
/// are rendered, from the `k`-th of the matching rules on: they run in order
/// until one says that the element is done.
pub open spec fn pre_phase(
    rules: Seq<RuleView>,
    matching: Seq<int>,
    high: bool,
    viewer: Viewer,
    element: ElementView,
    k: int,
    out: Rendered,
) -> (bool, Rendered)
    decreases matching.len() - k,
{
    if k < 0 || k >= matching.len() {
        (false, out)
    } else if 0 <= matching[k] < rules.len() && is_high_priority(rules[matching[k]]) == high {
        let step = rules[matching[k]].handler.pre_handled(viewer, element, out);
        if step.0 {
            step
        } else {
            pre_phase(rules, matching, high, viewer, element, k + 1, step.1)
        }
    } else {
        pre_phase(rules, matching, high, viewer, element, k + 1, out)
    }
}

/// What the rules do before the children of `element` are rendered: the
/// handlers of the matching rules of high priority run first, then those of
/// low priority, until one says that the element is done.
pub open spec fn pre_processed(
    rules: Seq<RuleView>,
    viewer: Viewer,
    element: ElementView,
    out: Rendered,
) -> (bool, Rendered) {
    let matching = matching_rules(rules, element);
    let high = pre_phase(rules, matching, true, viewer, element, 0, out);
    if high.0 {
        high
    } else {
        pre_phase(rules, matching, false, viewer, element, 0, high.1)
    }
}

/// What the handlers of one priority do after the children of `element`
/// were rendered, from the `k`-th of the matching rules on: each of them
/// runs.
pub open spec fn post_phase(
    rules: Seq<RuleView>,
    matching: Seq<int>,
    high: bool,
    element: ElementView,
    mark: int,
    k: int,
    out: Rendered,
) -> Rendered
    decreases matching.len() - k,
{
    if k < 0 || k >= matching.len() {
        out
    } else if 0 <= matching[k] < rules.len() && is_high_priority(rules[matching[k]]) == high {
        post_phase(
            rules,
            matching,
            high,
            element,
            mark,
            k + 1,
            rules[matching[k]].handler.post_handled(element, mark, out),
        )
    } else {
        post_phase(rules, matching, high, element, mark, k + 1, out)
    }
}

/// What the rules do after the children of `element` were rendered: the
/// handlers of all matching rules run, those of high priority first.
pub open spec fn post_processed(
    rules: Seq<RuleView>,
    element: ElementView,
    mark: int,
    out: Rendered,
) -> Rendered {
    let matching = matching_rules(rules, element);
    post_phase(
        rules,
        matching,
        false,
        element,
        mark,
        0,
        post_phase(rules, matching, true, element, mark, 0, out),
    )
}

impl View for ParsingRule {
    type V = RuleView;

    closed spec fn view(&self) -> RuleView {
        RuleView {
            tag_name: self.tag_name@,
            required: demands_view(self.required_attributes@),
            handler: self.handler,
        }
    }
}

/// Decides `demand_met` for the attributes of `element`.
fn meets_demand(element: &Element, demand: &Attribute) -> (met: bool)
    ensures
        met == demand_met(element_view(*element).attributes, demand@.0, demand@.1),
{
    if str_eq(demand.attr_name.as_str(), WILDCARD) {
        let pairs = attribute_pairs(&element.attributes);
        match &demand.attr_value {
            Some(wanted) => {
                let mut i: usize = 0;
                while i < pairs.len()
                    invariant
                        i <= pairs@.len(),
                        demand@ == (WILDCARD@, Some(wanted@)),
                        pairs@.len() == attribute_entries(element.attributes).len(),
                        forall|k: int|
                            0 <= k < pairs@.len() ==> (#[trigger] pairs@[k]).0@
                                == attribute_entries(element.attributes)[k].0 && pairs@[k].1@
                                == attribute_entries(element.attributes)[k].1,
                        forall|k: int|
                            0 <= k < i ==> (#[trigger] attribute_entries(
                                element.attributes,
                            )[k]).1 != wanted@,
                    decreases pairs@.len() - i,
                {
                    assert(pairs@[i as int].1@ == attribute_entries(element.attributes)[i as int].1);
                    if str_eq(pairs[i].1.as_str(), wanted.as_str()) {
                        assert(element_view(*element).attributes[i as int].1 == wanted@);
                        return true;
                    }
                    i += 1;
                }
                false
            },
            None => pairs.len() > 0,
        }
    } else {
        match get_attribute(&element.attributes, demand.attr_name.as_str()) {
            Some(found) => match &demand.attr_value {
                Some(wanted) => str_eq(found.as_str(), wanted.as_str()),
                None => true,
            },
            None => false,
        }
    }
}

impl ParsingRule {
    /// The rule for the tag `tag` with the demands `req_attributes` and the
    /// handler `handler`.
    pub fn new(tag: &str, req_attributes: Vec<Attribute>, handler: RuleHandler) -> (rule:
        ParsingRule)
        ensures
            rule@ == (RuleView {
                tag_name: tag@,
                required: demands_view(req_attributes@),
                handler,
            }),
    {
        ParsingRule {
            tag_name: String::from_str(tag),
            required_attributes: req_attributes,
            handler,
        }
    }

    /// Whether the rule has high priority.
    pub fn high_priority(&self) -> (high: bool)
        ensures
            high == is_high_priority(self@),
    {
        self.required_attributes.len() > 0
    }

    /// Whether the rule applies to the element.
    pub fn applies(&self, element: &Element) -> (applies: bool)
        ensures
            applies == rule_applies(self@, element_view(*element)),
    {
        if !str_eq(self.tag_name.as_str(), WILDCARD) && !str_eq(
            self.tag_name.as_str(),
            element.tag_name.as_str(),
        ) {
            return false;
        }
        let ghost demands = demands_view(self.required_attributes@);
        let mut i: usize = 0;
        while i < self.required_attributes.len()
            invariant
                i <= self.required_attributes@.len(),
                demands == demands_view(self.required_attributes@),
                forall|k: int|
                    0 <= k < i ==> demand_met(
                        element_view(*element).attributes,
                        (#[trigger] demands[k]).0,
                        demands[k].1,
                    ),
            decreases self.required_attributes@.len() - i,
        {
            assert(demands[i as int] == self.required_attributes@[i as int]@);
            if !meets_demand(element, &self.required_attributes[i]) {
                return false;
            }
            i += 1;
        }
        true
    }

    /// The handler of the rule.
    pub fn handler(&self) -> (handler: &RuleHandler)
        ensures
            *handler == self@.handler,
    {
        &self.handler
    }
}

/// The rule engine: the rules in the order of their registration, and the
/// replacements that are made in a comment before it is parsed.
pub struct CommentParser<'a> {
    post_parser_context: &'a PostParserContext,
    matching_rules: Vec<ParsingRule>,
    replacement_rules: Vec<(String, String)>,
}

/// The values of the replacements.
pub open spec fn replacements_view(replacements: Seq<(String, String)>) -> Seq<
    (Seq<char>, Seq<char>),
> {
    replacements.map_values(|r: (String, String)| (r.0@, r.1@))
}

/// The rules of a new engine after `add_default_matching_rules`. The rule
/// for every tag comes first, then the rules with demands, then the rules for
/// one tag each.
pub open spec fn default_rules() -> Seq<RuleView> {
    seq![
        RuleView {
            tag_name: WILDCARD@,
            required: seq![("style"@, None::<Seq<char>>)],
            handler: RuleHandler::Style(StyleHandler {  }),
        },
        RuleView {
            tag_name: "span"@,
            required: seq![("class"@, Some("abbr"@))],
            handler: RuleHandler::Abbr(AbbrHandler {  }),
        },
        RuleView {
            tag_name: "pre"@,
            required: seq![(WILDCARD@, Some("prettyprint"@))],
            handler: RuleHandler::Pre(PreHandler {  }),
        },
        RuleView {
            tag_name: "span"@,
            required: Seq::empty(),
            handler: RuleHandler::Span(SpanHandler {  }),
        },
        RuleView {
            tag_name: "a"@,
            required: Seq::empty(),
            handler: RuleHandler::Anchor(AnchorRuleHandler {  }),
        },
        RuleView {
            tag_name: "br"@,
            required: Seq::empty(),
            handler: RuleHandler::LineBreak(LineBreakRuleHandler {  }),
        },
        RuleView {
            tag_name: "s"@,
            required: Seq::empty(),
            handler: RuleHandler::Spoiler(SpoilerHandler {  }),
        },
        RuleView {
            tag_name: "tr"@,
            required: Seq::empty(),
            handler: RuleHandler::TableRow(TableRowHandler {  }),
        },
        RuleView {
            tag_name: "td"@,
            required: Seq::empty(),
            handler: RuleHandler::TableData(TableDataHandler {  }),
        },
        RuleView {
            tag_name: "b"@,
            required: Seq::empty(),
            handler: RuleHandler::Bold(BoldHandler {  }),
        },
        RuleView {
            tag_name: "strong"@,
            required: Seq::empty(),
            handler: RuleHandler::Bold(BoldHandler {  }),
        },
        RuleView {
            tag_name: "table"@,
            required: Seq::empty(),
            handler: RuleHandler::Table(TableHandler {  }),
        },
    ]
}

/// Whether `pattern` is among the patterns of the replacements.
pub open spec fn has_pattern(replacements: Seq<(Seq<char>, Seq<char>)>, pattern: Seq<char>)
    -> bool {
    exists|i: int| 0 <= i < replacements.len() && (#[trigger] replacements[i]).0 == pattern
}

impl<'a> CommentParser<'a> {
    /// The rules, in the order of their registration.
    pub closed spec fn rules(&self) -> Seq<RuleView> {
        rules_view(self.matching_rules@)
    }

    /// The replacements, in the order of their registration.
    pub closed spec fn replacements(&self) -> Seq<(Seq<char>, Seq<char>)> {
        replacements_view(self.replacement_rules@)
    }

    /// The context of the viewer.
    pub closed spec fn context(&self) -> PostParserContext {
        *self.post_parser_context
    }

    /// An engine without rules.
    pub fn new(post_parser_context: &'a PostParserContext) -> (parser: CommentParser<'a>)
        ensures
            parser.rules() == Seq::<RuleView>::empty(),
            parser.replacements() == Seq::<(Seq<char>, Seq<char>)>::empty(),
            parser.context() == *post_parser_context,
    {
        let parser = CommentParser {
            post_parser_context,
            matching_rules: Vec::new(),
            replacement_rules: Vec::new(),
        };
        assert(parser.rules() =~= Seq::<RuleView>::empty());
        assert(parser.replacements() =~= Seq::<(Seq<char>, Seq<char>)>::empty());
        parser
    }

    /// The replacements, in the order of their registration.
    pub fn replacement_pairs(&self) -> (pairs: &Vec<(String, String)>)
        ensures
            replacements_view(pairs@) == self.replacements(),
    {
        &self.replacement_rules
    }

    /// Registers a rule behind those that are registered.
    pub fn add_matching_rule(&mut self, rule: ParsingRule)
        ensures
            final(self).rules() == old(self).rules().push(rule@),
            final(self).replacements() == old(self).replacements(),
            final(self).context() == old(self).context(),
    {
        self.matching_rules.push(rule);
        assert(self.rules() =~= old(self).rules().push(rule@));
    }

    /// Registers the replacement of `pattern` by `value`, unless `pattern`
    /// has a replacement already. Says whether it did.
    pub fn add_replacement_rule(&mut self, pattern: &str, value: &str) -> (added: bool)
        ensures
            added == !has_pattern(old(self).replacements(), pattern@),
            final(self).replacements() == (if added {
                old(self).replacements().push((pattern@, value@))
            } else {
                old(self).replacements()
            }),
            final(self).rules() == old(self).rules(),
            final(self).context() == old(self).context(),
    {
        let mut i: usize = 0;
        while i < self.replacement_rules.len()
            invariant
                i <= self.replacement_rules@.len(),
                *self == *old(self),
                forall|k: int| 0 <= k < i ==> (#[trigger] self.replacements()[k]).0 != pattern@,
            decreases self.replacement_rules@.len() - i,
        {
            assert(self.replacements()[i as int].0 == self.replacement_rules@[i as int].0@);
            if str_eq(self.replacement_rules[i].0.as_str(), pattern) {
                return false;
            }
            i += 1;
        }
        self.replacement_rules.push((String::from_str(pattern), String::from_str(value)));
        assert(self.replacements() =~= old(self).replacements().push((pattern@, value@)));
        true
    }

    /// Registers the rules of this library, as `default_rules` lists them.
    pub fn add_default_matching_rules(&mut self)
        ensures
            final(self).rules() == old(self).rules() + default_rules(),
            final(self).replacements() == old(self).replacements(),
            final(self).context() == old(self).context(),
    {
        let mut style_demands: Vec<Attribute> = Vec::new();
        style_demands.push(Attribute::with_name("style"));
        assert(demands_view(style_demands@) =~= seq![("style"@, None::<Seq<char>>)]);
        self.add_matching_rule(
            ParsingRule::new(WILDCARD, style_demands, RuleHandler::Style(StyleHandler::new())),
        );
        let mut abbr_demands: Vec<Attribute> = Vec::new();
        abbr_demands.push(Attribute::with_class("abbr"));
        assert(demands_view(abbr_demands@) =~= seq![("class"@, Some("abbr"@))]);
        self.add_matching_rule(
            ParsingRule::new("span", abbr_demands, RuleHandler::Abbr(AbbrHandler::new())),
        );
        let mut pre_demands: Vec<Attribute> = Vec::new();
        pre_demands.push(Attribute::with_name_and_value(WILDCARD, "prettyprint"));
        assert(demands_view(pre_demands@) =~= seq![(WILDCARD@, Some("prettyprint"@))]);
        self.add_matching_rule(
            ParsingRule::new("pre", pre_demands, RuleHandler::Pre(PreHandler::new())),
        );
        self.add_plain_rule("span", RuleHandler::Span(SpanHandler::new()));
        self.add_plain_rule("a", RuleHandler::Anchor(AnchorRuleHandler::new()));
        self.add_plain_rule("br", RuleHandler::LineBreak(LineBreakRuleHandler::new()));
        self.add_plain_rule("s", RuleHandler::Spoiler(SpoilerHandler::new()));
        self.add_plain_rule("tr", RuleHandler::TableRow(TableRowHandler::new()));
        self.add_plain_rule("td", RuleHandler::TableData(TableDataHandler::new()));
        self.add_plain_rule("b", RuleHandler::Bold(BoldHandler::new()));
        self.add_plain_rule("strong", RuleHandler::Bold(BoldHandler::new()));
        self.add_plain_rule("table", RuleHandler::Table(TableHandler::new()));
        assert(self.rules() =~= old(self).rules() + default_rules());
    }

    /// Registers a rule for the tag `tag` that makes no demands.
    fn add_plain_rule(&mut self, tag: &str, handler: RuleHandler)
        ensures
            final(self).rules() == old(self).rules().push(
                RuleView { tag_name: tag@, required: Seq::empty(), handler },
            ),
            final(self).replacements() == old(self).replacements(),
            final(self).context() == old(self).context(),
    {
        let demands: Vec<Attribute> = Vec::new();
        assert(demands_view(demands@) =~= Seq::<(Seq<char>, Option<Seq<char>>)>::empty());
        self.add_matching_rule(ParsingRule::new(tag, demands, handler));
    }

    /// The positions of the rules that apply to the element, in the order
    /// of registration.
    pub fn get_matching_rules(&self, element: &Element) -> (matching: Vec<usize>)
        ensures
            positions_view(matching@) == matching_rules(self.rules(), element_view(*element)),
            forall|k: int| 0 <= k < matching@.len() ==> (#[trigger] matching@[k]) < self.rules().len(),
    {
        let mut matching: Vec<usize> = Vec::new();
        let mut i: usize = 0;
        assert(positions_view(matching@) =~= Seq::<int>::empty());
        while i < self.matching_rules.len()
            invariant
                i <= self.matching_rules@.len(),
                self.rules().len() == self.matching_rules@.len(),
                positions_view(matching@) == matching_upto(
                    self.rules(),
                    element_view(*element),
                    i as int,
                ),
                forall|k: int| 0 <= k < matching@.len() ==> (#[trigger] matching@[k]) < i,
            decreases self.matching_rules@.len() - i,
        {
            assert(self.rules()[i as int] == self.matching_rules@[i as int]@);
            if self.matching_rules[i].applies(element) {
                let ghost before = positions_view(matching@);
                matching.push(i);
                assert(positions_view(matching@) =~= before.push(i as int));
            }
            i += 1;
        }
        matching
    }

    /// Runs the handlers before the children of `element` are rendered, as
    /// `pre_processed` says. The result tells whether the element is done, so
    /// that its children are not to be rendered.
    pub fn pre_process_element(
        &self,
        post_raw: &PostRaw,
        element: &Element,
        out_text_parts: &mut Vec<TextPart>,
        out_spannables: &mut Vec<Spannable>,
    ) -> (done: bool)
        ensures
            (done, rendered(final(out_text_parts)@, final(out_spannables)@)) == pre_processed(
                self.rules(),
                viewer_of(*post_raw, self.context()),
                element_view(*element),
                rendered(old(out_text_parts)@, old(out_spannables)@),
            ),
    {
        let matching = self.get_matching_rules(element);
        if self.pre_process_phase(
            post_raw,
            element,
            &matching,
            true,
            out_text_parts,
            out_spannables,
        ) {
            return true;
        }
        self.pre_process_phase(post_raw, element, &matching, false, out_text_parts, out_spannables)
    }

    /// Runs the handlers of one priority before the children, as
    /// `pre_phase` says.
    fn pre_process_phase(
        &self,
        post_raw: &PostRaw,
        element: &Element,
        matching: &Vec<usize>,
        high: bool,
        out_text_parts: &mut Vec<TextPart>,
        out_spannables: &mut Vec<Spannable>,
    ) -> (done: bool)
        requires
            forall|k: int| 0 <= k < matching@.len() ==> (#[trigger] matching@[k]) < self.rules().len(),
        ensures
            (done, rendered(final(out_text_parts)@, final(out_spannables)@)) == pre_phase(
                self.rules(),
                positions_view(matching@),
                high,
                viewer_of(*post_raw, self.context()),
                element_view(*element),
                0,
                rendered(old(out_text_parts)@, old(out_spannables)@),
            ),
    {
        let ghost goal = pre_phase(
            self.rules(),
            positions_view(matching@),
            high,
            viewer_of(*post_raw, self.context()),
            element_view(*element),
            0,
            rendered(out_text_parts@, out_spannables@),
        );
        let mut k: usize = 0;
        while k < matching.len()
            invariant
                k <= matching@.len(),
                self.rules().len() == self.matching_rules@.len(),
                forall|j: int|
                    0 <= j < matching@.len() ==> (#[trigger] matching@[j]) < self.rules().len(),
                goal == pre_phase(
                    self.rules(),
                    positions_view(matching@),
                    high,
                    viewer_of(*post_raw, self.context()),
                    element_view(*element),
                    0,
                    rendered(old(out_text_parts)@, old(out_spannables)@),
                ),
                pre_phase(
                    self.rules(),
                    positions_view(matching@),
                    high,
                    viewer_of(*post_raw, self.context()),
                    element_view(*element),
                    k as int,
                    rendered(out_text_parts@, out_spannables@),
                ) == goal,
            decreases matching@.len() - k,
        {
            let at = matching[k];
            assert(positions_view(matching@)[k as int] == at as int);
            assert(self.rules()[at as int] == self.matching_rules@[at as int]@);
            let rule = &self.matching_rules[at];
            if rule.high_priority() == high {
                let ghost before = rendered(out_text_parts@, out_spannables@);
                let done = rule.handler().pre_handle(
                    post_raw,
                    self.post_parser_context,
                    element,
                    out_text_parts,
                    out_spannables,
                );
                proof {
                    let step = self.rules()[at as int].handler.pre_handled(
                        viewer_of(*post_raw, self.context()),
                        element_view(*element),
                        before,
                    );
                    assert(step == (done, rendered(out_text_parts@, out_spannables@)));
                    assert(step.0 == done);
                    assert(step.1 == rendered(out_text_parts@, out_spannables@));
                }
                if done {
                    return true;
                }
            }
            k += 1;
        }
        false
    }

    /// Runs the handlers after the children of `element` were rendered, as
    /// `post_processed` says. `prev_out_text_parts_index` is the mark that
    /// was taken before the element.
    pub fn post_process_element(
        &self,
        post_raw: &PostRaw,
        element: &Element,
        prev_out_text_parts_index: usize,
        out_text_parts: &mut Vec<TextPart>,
        prev_out_spannables_index: usize,
        out_spannables: &mut Vec<Spannable>,
    )
        ensures
            rendered(final(out_text_parts)@, final(out_spannables)@) == post_processed(
                self.rules(),
                element_view(*element),
                prev_out_text_parts_index as int,
                rendered(old(out_text_parts)@, old(out_spannables)@),
            ),
    {
        let matching = self.get_matching_rules(element);
        self.post_process_phase(
            post_raw,
            element,
            &matching,
            true,
            prev_out_text_parts_index,
            out_text_parts,
            prev_out_spannables_index,
            out_spannables,
        );
        self.post_process_phase(
            post_raw,
            element,
            &matching,
            false,
            prev_out_text_parts_index,
            out_text_parts,
            prev_out_spannables_index,
            out_spannables,
        );
    }

    /// Runs the handlers of one priority after the children, as
    /// `post_phase` says.
    fn post_process_phase(
        &self,
        post_raw: &PostRaw,
        element: &Element,
        matching: &Vec<usize>,
        high: bool,
        prev_out_text_parts_index: usize,
        out_text_parts: &mut Vec<TextPart>,
        prev_out_spannables_index: usize,
        out_spannables: &mut Vec<Spannable>,
    )
        requires
            forall|k: int| 0 <= k < matching@.len() ==> (#[trigger] matching@[k]) < self.rules().len(),
        ensures
            rendered(final(out_text_parts)@, final(out_spannables)@) == post_phase(
                self.rules(),
                positions_view(matching@),
                high,
                element_view(*element),
                prev_out_text_parts_index as int,
                0,
                rendered(old(out_text_parts)@, old(out_spannables)@),
            ),
    {
        let ghost goal = post_phase(
            self.rules(),
            positions_view(matching@),
            high,
            element_view(*element),
            prev_out_text_parts_index as int,
            0,
            rendered(out_text_parts@, out_spannables@),
        );
        let mut k: usize = 0;
        while k < matching.len()
            invariant
                k <= matching@.len(),
                self.rules().len() == self.matching_rules@.len(),
                forall|j: int|
                    0 <= j < matching@.len() ==> (#[trigger] matching@[j]) < self.rules().len(),
                post_phase(
                    self.rules(),
                    positions_view(matching@),
                    high,
                    element_view(*element),
                    prev_out_text_parts_index as int,
                    k as int,
                    rendered(out_text_parts@, out_spannables@),
                ) == goal,
            decreases matching@.len() - k,
        {
            let at = matching[k];
            assert(positions_view(matching@)[k as int] == at as int);
            assert(self.rules()[at as int] == self.matching_rules@[at as int]@);
            let rule = &self.matching_rules[at];
            if rule.high_priority() == high {
                rule.handler().post_handle(
                    post_raw,
                    self.post_parser_context,
                    element,
                    prev_out_text_parts_index,
                    out_text_parts,
                    prev_out_spannables_index,
                    out_spannables,
                );
            }
            k += 1;
        }
    }
}

} // verus!
