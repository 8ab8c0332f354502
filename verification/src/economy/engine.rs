//! The income engine: what each faction earns, what it pays, and whether it
//! stays solvent.
use vstd::prelude::*;
use vstd::string::StringExecFns;
use crate::economy::types::{
    fits_i128, EconomicModifier, EconomicNode, GlobalEconomicRules, NodeType, ResourceLedger,
    ResourceState, Resources, SCALE_FACTOR,
};
use crate::fixed::trunc_div;
use crate::observability::{CorrelationContext, Event, EventLog, EventSeverity};
use crate::text::{same_text, signed_decimal_digits, signed_decimal_string};

verus! {

/// Mathematical view of an [`EconomicModifier`].
pub struct ModifierView {
    pub name: Seq<char>,
    pub multiplier_scaled: int,
    pub flat_bonus: Resources,
}

impl View for EconomicModifier {
    type V = ModifierView;

    open spec fn view(&self) -> ModifierView {
        ModifierView {
            name: self.name@,
            multiplier_scaled: self.multiplier_scaled as int,
            flat_bonus: self.flat_bonus@,
        }
    }
}

/// Mathematical view of an [`EconomicNode`].
pub struct EconomicNodeView {
    pub id: Seq<char>,
    pub owner_faction: Seq<char>,
    pub node_type: NodeType,
    pub base_income: Resources,
    pub base_upkeep: Resources,
    pub efficiency_scaled: int,
    pub modifiers: Seq<ModifierView>,
}

impl View for EconomicNode {
    type V = EconomicNodeView;

    open spec fn view(&self) -> EconomicNodeView {
        EconomicNodeView {
            id: self.id@,
            owner_faction: self.owner_faction@,
            node_type: self.node_type,
            base_income: self.base_income@,
            base_upkeep: self.base_upkeep@,
            efficiency_scaled: self.efficiency_scaled as int,
            modifiers: Seq::new(self.modifiers@.len(), |k: int| self.modifiers@[k]@),
        }
    }
}

/// Mathematical view of the [`GlobalEconomicRules`].
pub struct RulesView {
    pub orbit_discount_scaled: int,
    pub garrison_discount_scaled: int,
    pub navy_penalty_ratio: int,
    pub navy_penalty_rate_scaled: int,
    pub vassal_tribute_rate_scaled: int,
    pub fleet_upkeep_scalar_scaled: int,
}

impl View for GlobalEconomicRules {
    type V = RulesView;

    open spec fn view(&self) -> RulesView {
        RulesView {
            orbit_discount_scaled: self.orbit_discount_scaled as int,
            garrison_discount_scaled: self.garrison_discount_scaled as int,
            navy_penalty_ratio: self.navy_penalty_ratio as int,
            navy_penalty_rate_scaled: self.navy_penalty_rate_scaled as int,
            vassal_tribute_rate_scaled: self.vassal_tribute_rate_scaled as int,
            fleet_upkeep_scalar_scaled: self.fleet_upkeep_scalar_scaled as int,
        }
    }
}

/// Views of a sequence of nodes, position by position.
pub open spec fn economic_views(nodes: Seq<EconomicNode>) -> Seq<EconomicNodeView> {
    Seq::new(nodes.len(), |i: int| nodes[i]@)
}

/// An income after the first `k` modifiers: each multiplies the income and
/// then adds its flat bonus.
pub open spec fn modified_income(income: Resources, modifiers: Seq<ModifierView>, k: int) -> Resources
    decreases k,
{
    if k <= 0 {
        income
    } else {
        modified_income(income, modifiers, k - 1).scaled(modifiers[k - 1].multiplier_scaled).plus(
            modifiers[k - 1].flat_bonus,
        )
    }
}

/// Applying the first `k` modifiers stays within the 128-bit range.
pub open spec fn modifiers_fit(income: Resources, modifiers: Seq<ModifierView>, k: int) -> bool
    decreases k,
{
    if k <= 0 {
        true
    } else {
        &&& modifiers_fit(income, modifiers, k - 1)
        &&& modified_income(income, modifiers, k - 1).times(
            modifiers[k - 1].multiplier_scaled,
        ).fits()
        &&& modified_income(income, modifiers, k).fits()
    }
}

/// What a node earns: its base income scaled by its efficiency, then
/// modified.
pub open spec fn node_income(node: EconomicNodeView) -> Resources {
    modified_income(
        node.base_income.scaled(node.efficiency_scaled),
        node.modifiers,
        node.modifiers.len() as int,
    )
}

/// The discount a node's upkeep gets, if any: a fleet below full efficiency
/// is in orbit, an army below full efficiency is in garrison.
pub open spec fn upkeep_discount(node: EconomicNodeView, rules: RulesView) -> Option<int> {
    if node.efficiency_scaled < SCALE_FACTOR && node.node_type == NodeType::Fleet {
        Some(rules.orbit_discount_scaled)
    } else if node.efficiency_scaled < SCALE_FACTOR && node.node_type == NodeType::Army {
        Some(rules.garrison_discount_scaled)
    } else {
        None
    }
}

/// A node's upkeep after its discount.
pub open spec fn discounted_upkeep(node: EconomicNodeView, rules: RulesView) -> Resources {
    match upkeep_discount(node, rules) {
        Some(discount) => node.base_upkeep.scaled(discount),
        None => node.base_upkeep,
    }
}

/// What a node costs: its base upkeep after its discount, and for a fleet
/// after the fleet upkeep scalar.
pub open spec fn node_upkeep(node: EconomicNodeView, rules: RulesView) -> Resources {
    if node.node_type == NodeType::Fleet {
        discounted_upkeep(node, rules).scaled(rules.fleet_upkeep_scalar_scaled)
    } else {
        discounted_upkeep(node, rules)
    }
}

/// Computing a node's income and upkeep stays within the 128-bit range.
pub open spec fn node_fits(node: EconomicNodeView, rules: RulesView) -> bool {
    &&& node.base_income.times(node.efficiency_scaled).fits()
    &&& modifiers_fit(
        node.base_income.scaled(node.efficiency_scaled),
        node.modifiers,
        node.modifiers.len() as int,
    )
    &&& match upkeep_discount(node, rules) {
        Some(discount) => node.base_upkeep.times(discount).fits(),
        None => true,
    }
    &&& node.node_type == NodeType::Fleet ==> discounted_upkeep(node, rules).times(
        rules.fleet_upkeep_scalar_scaled,
    ).fits()
}

/// The category a node's income is booked under.
pub open spec fn category_of(node_type: NodeType) -> Seq<char> {
    match node_type {
        NodeType::Planet => "Tax"@,
        NodeType::Station => "Mining"@,
        _ => "Other"@,
    }
}

/// The income of a faction's nodes among the first `n`.
pub open spec fn income_before(nodes: Seq<EconomicNodeView>, faction: Seq<char>, n: int) -> Resources
    decreases n,
{
    if n <= 0 {
        Resources::zero()
    } else if nodes[n - 1].owner_faction == faction {
        income_before(nodes, faction, n - 1).plus(node_income(nodes[n - 1]))
    } else {
        income_before(nodes, faction, n - 1)
    }
}

/// The upkeep of a faction's nodes among the first `n`.
pub open spec fn upkeep_before(
    nodes: Seq<EconomicNodeView>,
    rules: RulesView,
    faction: Seq<char>,
    n: int,
) -> Resources
    decreases n,
{
    if n <= 0 {
        Resources::zero()
    } else if nodes[n - 1].owner_faction == faction {
        upkeep_before(nodes, rules, faction, n - 1).plus(node_upkeep(nodes[n - 1], rules))
    } else {
        upkeep_before(nodes, rules, faction, n - 1)
    }
}

/// The income booked under a category by a faction's nodes among the first
/// `n`.
pub open spec fn category_income(
    nodes: Seq<EconomicNodeView>,
    faction: Seq<char>,
    category: Seq<char>,
    n: int,
) -> Resources
    decreases n,
{
    if n <= 0 {
        Resources::zero()
    } else if nodes[n - 1].owner_faction == faction && category_of(nodes[n - 1].node_type)
        == category {
        category_income(nodes, faction, category, n - 1).plus(node_income(nodes[n - 1]))
    } else {
        category_income(nodes, faction, category, n - 1)
    }
}

/// How many of the first `n` nodes a faction owns.
pub open spec fn owned_before(nodes: Seq<EconomicNodeView>, faction: Seq<char>, n: int) -> int
    decreases n,
{
    if n <= 0 {
        0
    } else if nodes[n - 1].owner_faction == faction {
        owned_before(nodes, faction, n - 1) + 1
    } else {
        owned_before(nodes, faction, n - 1)
    }
}

/// How many of the first `n` nodes are of a type and owned by a faction.
pub open spec fn typed_before(
    nodes: Seq<EconomicNodeView>,
    faction: Seq<char>,
    node_type: NodeType,
    n: int,
) -> int
    decreases n,
{
    if n <= 0 {
        0
    } else if nodes[n - 1].owner_faction == faction && nodes[n - 1].node_type == node_type {
        typed_before(nodes, faction, node_type, n - 1) + 1
    } else {
        typed_before(nodes, faction, node_type, n - 1)
    }
}

/// A faction owns one of the first `n` nodes whose income is booked under
/// the category.
pub open spec fn books_category(
    nodes: Seq<EconomicNodeView>,
    faction: Seq<char>,
    category: Seq<char>,
    n: int,
) -> bool {
    exists|i: int|
        0 <= i < n && (#[trigger] nodes[i]).owner_faction == faction && category_of(
            nodes[i].node_type,
        ) == category
}

/// Fleets a faction may keep before the navy penalty applies: the ratio for
/// each planet, but at least one.
pub open spec fn fleet_limit(planets: int, ratio: int) -> int {
    if planets * ratio < 1 {
        1
    } else {
        planets * ratio
    }
}

/// The share of credit upkeep added as navy penalty: the penalty rate for
/// each fleet over the limit, but at most the whole upkeep again.
pub open spec fn navy_penalty_share(planets: int, fleets: int, rules: RulesView) -> int {
    let limit = fleet_limit(planets, rules.navy_penalty_ratio);
    if fleets > limit {
        let share = (fleets - limit) * rules.navy_penalty_rate_scaled;
        if share < SCALE_FACTOR {
            share
        } else {
            SCALE_FACTOR as int
        }
    } else {
        0
    }
}

/// Upkeep after the navy penalty, which raises the credits only.
pub open spec fn penalized_upkeep(upkeep: Resources, planets: int, fleets: int, rules: RulesView) -> Resources {
    let limit = fleet_limit(planets, rules.navy_penalty_ratio);
    if fleets > limit {
        Resources {
            credits: upkeep.credits + trunc_div(
                upkeep.credits * navy_penalty_share(planets, fleets, rules),
                SCALE_FACTOR as int,
            ),
            ..upkeep
        }
    } else {
        upkeep
    }
}

/// What a faction's report states, as plain values.
pub struct ReportView {
    pub faction_name: Seq<char>,
    pub total_income: Resources,
    pub total_upkeep: Resources,
    pub net_profit: Resources,
    pub is_insolvent: bool,
    pub active_nodes: int,
}

/// The report of a faction over the given nodes under the given rules.
pub open spec fn faction_report(
    nodes: Seq<EconomicNodeView>,
    rules: RulesView,
    faction: Seq<char>,
) -> ReportView {
    let n = nodes.len() as int;
    let income = income_before(nodes, faction, n);
    let upkeep = penalized_upkeep(
        upkeep_before(nodes, rules, faction, n),
        typed_before(nodes, faction, NodeType::Planet, n),
        typed_before(nodes, faction, NodeType::Fleet, n),
        rules,
    );
    ReportView {
        faction_name: faction,
        total_income: income,
        total_upkeep: upkeep,
        net_profit: income.minus(upkeep),
        is_insolvent: income.credits - upkeep.credits < 0,
        active_nodes: owned_before(nodes, faction, n),
    }
}

/// No amount computed for a faction's report leaves the 128-bit range.
pub open spec fn faction_fits(nodes: Seq<EconomicNodeView>, rules: RulesView, faction: Seq<char>) -> bool {
    let n = nodes.len() as int;
    let upkeep = upkeep_before(nodes, rules, faction, n);
    let planets = typed_before(nodes, faction, NodeType::Planet, n);
    let fleets = typed_before(nodes, faction, NodeType::Fleet, n);
    let limit = fleet_limit(planets, rules.navy_penalty_ratio);
    &&& forall|m: int|
        #![trigger nodes[m - 1]]
        1 <= m <= n && nodes[m - 1].owner_faction == faction ==> {
            &&& node_fits(nodes[m - 1], rules)
            &&& income_before(nodes, faction, m).fits()
            &&& upkeep_before(nodes, rules, faction, m).fits()
            &&& category_income(nodes, faction, category_of(nodes[m - 1].node_type), m).fits()
        }
    &&& fleets > limit ==> {
        &&& fits_i128((fleets - limit) * rules.navy_penalty_rate_scaled)
        &&& fits_i128(upkeep.credits * navy_penalty_share(planets, fleets, rules))
        &&& penalized_upkeep(upkeep, planets, fleets, rules).fits()
    }
    &&& faction_report(nodes, rules, faction).net_profit.fits()
}

/// What a faction earns and pays.
#[derive(Debug, Clone)]
pub struct EconomicReport {
    pub faction_name: String,
    pub total_income: ResourceState,
    pub total_upkeep: ResourceState,
    pub net_profit: ResourceState,
    pub income_by_category: ResourceLedger,
    pub is_insolvent: bool,
    pub active_nodes: usize,
}

impl View for EconomicReport {
    type V = ReportView;

    open spec fn view(&self) -> ReportView {
        ReportView {
            faction_name: self.faction_name@,
            total_income: self.total_income@,
            total_upkeep: self.total_upkeep@,
            net_profit: self.net_profit@,
            is_insolvent: self.is_insolvent,
            active_nodes: self.active_nodes as int,
        }
    }
}

/// Computes faction reports from the economic nodes.
pub struct IncomeEngine {
    pub nodes: Vec<EconomicNode>,
    pub rules: GlobalEconomicRules,
    /// Where insolvency warnings are sent, once a log is attached.
    pub event_log: Option<EventLog>,
    /// The context that emitted events are derived from.
    pub current_context: CorrelationContext,
}

/// The text of the warning that reports a faction's insolvency.
pub open spec fn insolvency_message(faction: Seq<char>, credits: int) -> Seq<char> {
    "Faction "@ + faction + " is insolvent! Deficit: "@ + signed_decimal_digits(credits)
}

/// The warning that reports a faction's insolvency, in the economy
/// category, under a child of the given context.
pub fn insolvency_event(faction_name: &str, credits: i128, context: &CorrelationContext) -> (event:
    Event)
    ensures
        event.severity == EventSeverity::Warning,
        event.category@ == "Economy"@,
        event.message@ == insolvency_message(faction_name@, credits as int),
        event.context.trace_id@ == context.trace_id@,
        event.context.parent_id.is_some(),
        event.context.parent_id.unwrap()@ == context.span_id@,
        event.data.is_none(),
{
    let mut message = String::from_str("Faction ");
    message.append(faction_name);
    message.append(" is insolvent! Deficit: ");
    let digits = signed_decimal_string(credits);
    message.append(digits.as_str());
    Event::new(
        EventSeverity::Warning,
        String::from_str("Economy"),
        message,
        context.child(),
        None,
    )
}

impl NodeType {
    /// The category a node's income is booked under.
    pub fn category(&self) -> (name: &'static str)
        ensures
            name@ == category_of(*self),
    {
        match self {
            NodeType::Planet => "Tax",
            NodeType::Station => "Mining",
            _ => "Other",
        }
    }
}

impl EconomicNode {
    /// What the node earns.
    pub fn income(&self) -> (income: ResourceState)
        requires
            self@.base_income.times(self@.efficiency_scaled).fits(),
            modifiers_fit(
                self@.base_income.scaled(self@.efficiency_scaled),
                self@.modifiers,
                self@.modifiers.len() as int,
            ),
        ensures
            income@ == node_income(self@),
    {
        let mut income = self.base_income;
        income.multiply_fixed(self.efficiency_scaled);
        let ghost start = income@;
        let ghost modifiers = self@.modifiers;
        let mut k: usize = 0;
        while k < self.modifiers.len()
            invariant
                k <= self.modifiers@.len(),
                modifiers == self@.modifiers,
                modifiers.len() == self.modifiers@.len(),
                modifiers_fit(start, modifiers, modifiers.len() as int),
                income@ == modified_income(start, modifiers, k as int),
            decreases self.modifiers@.len() - k,
        {
            let modifier = &self.modifiers[k];
            assert(modifier@ == modifiers[k as int]);
            proof {
                lemma_modifiers_fit_prefix(start, modifiers, modifiers.len() as int, k + 1);
            }
            income.multiply_fixed(modifier.multiplier_scaled);
            income.add(&modifier.flat_bonus);
            k += 1;
        }
        income
    }

    /// What the node costs under the given rules.
    pub fn upkeep(&self, rules: &GlobalEconomicRules) -> (upkeep: ResourceState)
        requires
            match upkeep_discount(self@, rules@) {
                Some(discount) => self@.base_upkeep.times(discount).fits(),
                None => true,
            },
            self.node_type == NodeType::Fleet ==> discounted_upkeep(self@, rules@).times(
                rules@.fleet_upkeep_scalar_scaled,
            ).fits(),
        ensures
            upkeep@ == node_upkeep(self@, rules@),
    {
        let mut upkeep = self.base_upkeep;
        if self.efficiency_scaled < SCALE_FACTOR {
            if self.node_type == NodeType::Fleet {
                upkeep.multiply_fixed(rules.orbit_discount_scaled);
            } else if self.node_type == NodeType::Army {
                upkeep.multiply_fixed(rules.garrison_discount_scaled);
            }
        }
        if self.node_type == NodeType::Fleet {
            upkeep.multiply_fixed(rules.fleet_upkeep_scalar_scaled);
        }
        upkeep
    }
}

impl EconomicNode {
    /// What the node earns, or nothing where computing it would leave the
    /// 128-bit range.
    pub fn checked_income(&self) -> (income: Option<ResourceState>)
        ensures
            match income {
                Some(amount) => {
                    &&& self@.base_income.times(self@.efficiency_scaled).fits()
                    &&& modifiers_fit(
                        self@.base_income.scaled(self@.efficiency_scaled),
                        self@.modifiers,
                        self@.modifiers.len() as int,
                    )
                    &&& amount@ == node_income(self@)
                },
                None => !(self@.base_income.times(self@.efficiency_scaled).fits() && modifiers_fit(
                    self@.base_income.scaled(self@.efficiency_scaled),
                    self@.modifiers,
                    self@.modifiers.len() as int,
                )),
            },
    {
        if !self.base_income.product_fits(self.efficiency_scaled) {
            return None;
        }
        let mut income = self.base_income;
        income.multiply_fixed(self.efficiency_scaled);
        let ghost start = income@;
        let ghost modifiers = self@.modifiers;
        let mut k: usize = 0;
        while k < self.modifiers.len()
            invariant
                k <= self.modifiers@.len(),
                modifiers == self@.modifiers,
                modifiers.len() == self.modifiers@.len(),
                start == self@.base_income.scaled(self@.efficiency_scaled),
                modifiers_fit(start, modifiers, k as int),
                income@ == modified_income(start, modifiers, k as int),
            decreases self.modifiers@.len() - k,
        {
            let modifier = &self.modifiers[k];
            assert(modifier@ == modifiers[k as int]);
            if !income.product_fits(modifier.multiplier_scaled) {
                proof {
                    if modifiers_fit(start, modifiers, modifiers.len() as int) {
                        lemma_modifiers_fit_prefix(start, modifiers, modifiers.len() as int, k + 1);
                    }
                }
                return None;
            }
            income.multiply_fixed(modifier.multiplier_scaled);
            if !income.sum_fits(&modifier.flat_bonus) {
                proof {
                    if modifiers_fit(start, modifiers, modifiers.len() as int) {
                        lemma_modifiers_fit_prefix(start, modifiers, modifiers.len() as int, k + 1);
                    }
                }
                return None;
            }
            income.add(&modifier.flat_bonus);
            k += 1;
        }
        Some(income)
    }

    /// What the node costs under the given rules, or nothing where
    /// computing it would leave the 128-bit range.
    pub fn checked_upkeep(&self, rules: &GlobalEconomicRules) -> (upkeep: Option<ResourceState>)
        ensures
            match upkeep {
                Some(amount) => {
                    &&& match upkeep_discount(self@, rules@) {
                        Some(discount) => self@.base_upkeep.times(discount).fits(),
                        None => true,
                    }
                    &&& self.node_type == NodeType::Fleet ==> discounted_upkeep(self@, rules@).times(
                        rules@.fleet_upkeep_scalar_scaled,
                    ).fits()
                    &&& amount@ == node_upkeep(self@, rules@)
                },
                None => !({
                    &&& match upkeep_discount(self@, rules@) {
                        Some(discount) => self@.base_upkeep.times(discount).fits(),
                        None => true,
                    }
                    &&& self.node_type == NodeType::Fleet ==> discounted_upkeep(self@, rules@).times(
                        rules@.fleet_upkeep_scalar_scaled,
                    ).fits()
                }),
            },
    {
        let mut upkeep = self.base_upkeep;
        if self.efficiency_scaled < SCALE_FACTOR {
            if self.node_type == NodeType::Fleet {
                if !upkeep.product_fits(rules.orbit_discount_scaled) {
                    return None;
                }
                upkeep.multiply_fixed(rules.orbit_discount_scaled);
            } else if self.node_type == NodeType::Army {
                if !upkeep.product_fits(rules.garrison_discount_scaled) {
                    return None;
                }
                upkeep.multiply_fixed(rules.garrison_discount_scaled);
            }
        }
        if self.node_type == NodeType::Fleet {
            if !upkeep.product_fits(rules.fleet_upkeep_scalar_scaled) {
                return None;
            }
            upkeep.multiply_fixed(rules.fleet_upkeep_scalar_scaled);
        }
        Some(upkeep)
    }
}

/// Where all modifiers can be applied within range, so can any first few.
pub proof fn lemma_modifiers_fit_prefix(
    income: Resources,
    modifiers: Seq<ModifierView>,
    n: int,
    k: int,
)
    requires
        0 <= k <= n,
        modifiers_fit(income, modifiers, n),
    ensures
        modifiers_fit(income, modifiers, k),
    decreases n - k,
{
    if k < n {
        lemma_modifiers_fit_prefix(income, modifiers, n, k + 1);
    }
}

impl IncomeEngine {
    /// An engine without nodes, with no event log and a fresh root context.
    pub fn new(rules: GlobalEconomicRules) -> (engine: Self)
        ensures
            engine.nodes@.len() == 0,
            engine.rules == rules,
            engine.event_log.is_none(),
            engine.current_context.parent_id.is_none(),
    {
        IncomeEngine {
            nodes: Vec::new(),
            rules,
            event_log: None,
            current_context: CorrelationContext::new(),
        }
    }

    /// Attaches the log that insolvency warnings are sent to.
    pub fn set_event_log(&mut self, log: EventLog)
        ensures
            final(self).event_log == Some(log),
            final(self).nodes == old(self).nodes,
            final(self).rules == old(self).rules,
            final(self).current_context == old(self).current_context,
    {
        self.event_log = Some(log);
    }

    /// Installs the context that emitted events are derived from.
    pub fn set_correlation_context(&mut self, context: CorrelationContext)
        ensures
            final(self).current_context == context,
            final(self).nodes == old(self).nodes,
            final(self).rules == old(self).rules,
            final(self).event_log == old(self).event_log,
    {
        self.current_context = context;
    }

    /// Appends a node.
    pub fn add_node(&mut self, node: EconomicNode)
        ensures
            final(self).nodes@ == old(self).nodes@.push(node),
            final(self).rules == old(self).rules,
            final(self).event_log == old(self).event_log,
            final(self).current_context == old(self).current_context,
    {
        self.nodes.push(node);
    }

    /// Replaces the rules.
    pub fn set_rules(&mut self, rules: GlobalEconomicRules)
        ensures
            final(self).rules == rules,
            final(self).nodes == old(self).nodes,
            final(self).event_log == old(self).event_log,
            final(self).current_context == old(self).current_context,
    {
        self.rules = rules;
    }

    /// The report of one faction: the income and upkeep of the nodes it
    /// owns, the navy penalty on its credit upkeep, its net profit and its
    /// income by category. An insolvent faction is reported to the attached
    /// log.
    pub fn process_faction(&self, faction_name: &str) -> (report: EconomicReport)
        requires
            faction_fits(economic_views(self.nodes@), self.rules@, faction_name@),
        ensures
            report@ == faction_report(economic_views(self.nodes@), self.rules@, faction_name@),
            report.income_by_category.well_formed(),
            forall|category: Seq<char>| #[trigger]
                report.income_by_category.total(category) == category_income(
                    economic_views(self.nodes@),
                    faction_name@,
                    category,
                    self.nodes@.len() as int,
                ),
            forall|category: Seq<char>| #[trigger]
                report.income_by_category.lists(category) == books_category(
                    economic_views(self.nodes@),
                    faction_name@,
                    category,
                    self.nodes@.len() as int,
                ),
    {
        let ghost nodes = economic_views(self.nodes@);
        let ghost rules = self.rules@;
        let ghost faction = faction_name@;
        let mut total_income = ResourceState::default();
        let mut total_upkeep = ResourceState::default();
        let mut income_by_category = ResourceLedger::new();
        let mut active_nodes: usize = 0;
        let mut planet_count: usize = 0;
        let mut fleet_count: usize = 0;
        let mut i: usize = 0;
        while i < self.nodes.len()
            invariant
                i <= self.nodes@.len(),
                nodes == economic_views(self.nodes@),
                rules == self.rules@,
                faction == faction_name@,
                faction_fits(nodes, rules, faction),
                total_income@ == income_before(nodes, faction, i as int),
                total_upkeep@ == upkeep_before(nodes, rules, faction, i as int),
                active_nodes == owned_before(nodes, faction, i as int),
                planet_count == typed_before(nodes, faction, NodeType::Planet, i as int),
                fleet_count == typed_before(nodes, faction, NodeType::Fleet, i as int),
                active_nodes <= i,
                planet_count <= i,
                fleet_count <= i,
                income_by_category.well_formed(),
                forall|category: Seq<char>| #[trigger]
                    income_by_category.total(category) == category_income(
                        nodes,
                        faction,
                        category,
                        i as int,
                    ),
                forall|category: Seq<char>| #[trigger]
                    income_by_category.lists(category) == books_category(
                        nodes,
                        faction,
                        category,
                        i as int,
                    ),
            decreases self.nodes@.len() - i,
        {
            let node = &self.nodes[i];
            assert(node@ == nodes[i as int]);
            assert(nodes[i + 1 - 1] == nodes[i as int]);
            if same_text(node.owner_faction.as_str(), faction_name) {
                active_nodes = active_nodes + 1;
                if node.node_type == NodeType::Planet {
                    planet_count = planet_count + 1;
                } else if node.node_type == NodeType::Fleet {
                    fleet_count = fleet_count + 1;
                }
                let node_income = node.income();
                let node_upkeep = node.upkeep(&self.rules);
                total_income.add(&node_income);
                total_upkeep.add(&node_upkeep);
                income_by_category.credit(node.node_type.category(), &node_income);
            }
            proof {
                assert forall|category: Seq<char>| #[trigger]
                    income_by_category.total(category) == category_income(
                        nodes,
                        faction,
                        category,
                        i + 1,
                    ) by {}
                assert forall|category: Seq<char>| #[trigger]
                    income_by_category.lists(category) == books_category(
                        nodes,
                        faction,
                        category,
                        i + 1,
                    ) by {
                    if books_category(nodes, faction, category, i + 1) {
                        let w = choose|w: int|
                            0 <= w < i + 1 && (#[trigger] nodes[w]).owner_faction == faction
                                && category_of(nodes[w].node_type) == category;
                        if w < i {
                            assert(books_category(nodes, faction, category, i as int));
                        }
                    }
                    if books_category(nodes, faction, category, i as int) {
                        let w = choose|w: int|
                            0 <= w < i && (#[trigger] nodes[w]).owner_faction == faction
                                && category_of(nodes[w].node_type) == category;
                        assert(0 <= w < i + 1 && nodes[w].owner_faction == faction && category_of(
                            nodes[w].node_type,
                        ) == category);
                    }
                    if nodes[i as int].owner_faction == faction && category_of(
                        nodes[i as int].node_type,
                    ) == category {
                        assert(0 <= i < i + 1 && nodes[i as int].owner_faction == faction);
                    }
                }
            }
            i += 1;
        }
        let ratio = self.rules.navy_penalty_ratio as i128;
        let planets = planet_count as i128;
        let fleets = fleet_count as i128;
        proof {
            assert(0 <= planets * ratio <= 0x1_0000_0000_0000_0000 * 0x1_0000_0000)
                by (nonlinear_arith)
                requires
                    0 <= planets <= 0x1_0000_0000_0000_0000,
                    0 <= ratio <= 0x1_0000_0000,
            ;
        }
        let allowed = planets * ratio;
        let limit = if allowed < 1 {
            1
        } else {
            allowed
        };
        if fleets > limit {
            let over = fleets - limit;
            let share = over * self.rules.navy_penalty_rate_scaled;
            let capped = if share < SCALE_FACTOR {
                share
            } else {
                SCALE_FACTOR
            };
            let penalty = (total_upkeep.credits * capped) / SCALE_FACTOR;
            total_upkeep.credits = total_upkeep.credits + penalty;
        }
        let mut net_profit = total_income;
        net_profit.subtract(&total_upkeep);
        let is_insolvent = net_profit.credits < 0;
        if is_insolvent {
            self.report_insolvency(faction_name, net_profit.credits);
        }
        EconomicReport {
            faction_name: String::from_str(faction_name),
            total_income,
            total_upkeep,
            net_profit,
            income_by_category,
            is_insolvent,
            active_nodes,
        }
    }

    /// Sends an insolvency warning to the attached log. Without a log
    /// nothing is sent.
    fn report_insolvency(&self, faction_name: &str, credits: i128) {
        match &self.event_log {
            Some(log) => {
                log.add(insolvency_event(faction_name, credits, &self.current_context));
            },
            None => {},
        }
    }
}

/// One of the first `n` nodes is owned by the faction.
pub open spec fn owns_node(nodes: Seq<EconomicNodeView>, faction: Seq<char>, n: int) -> bool {
    exists|i: int| 0 <= i < n && (#[trigger] nodes[i]).owner_faction == faction
}

/// One of the first `n` reports is about the faction.
pub open spec fn reports_on(reports: Seq<EconomicReport>, faction: Seq<char>, n: int) -> bool {
    exists|i: int| 0 <= i < n && (#[trigger] reports[i]).faction_name@ == faction
}

impl IncomeEngine {
    /// Whether one of the reports is about the faction.
    fn already_reported(reports: &Vec<EconomicReport>, faction_name: &str) -> (found: bool)
        ensures
            found == reports_on(reports@, faction_name@, reports@.len() as int),
    {
        let mut i: usize = 0;
        while i < reports.len()
            invariant
                i <= reports@.len(),
                !reports_on(reports@, faction_name@, i as int),
            decreases reports@.len() - i,
        {
            if same_text(reports[i].faction_name.as_str(), faction_name) {
                return true;
            }
            assert forall|j: int| 0 <= j < i + 1 implies (#[trigger] reports@[j]).faction_name@
                != faction_name@ by {
                if j < i {
                    assert(!reports_on(reports@, faction_name@, i as int));
                }
            }
            i += 1;
        }
        false
    }

    /// The reports of every faction that owns a node, one each, in the
    /// order in which the factions first appear among the nodes.
    pub fn process_all(&self) -> (reports: Vec<EconomicReport>)
        requires
            forall|i: int|
                0 <= i < self.nodes@.len() ==> faction_fits(
                    economic_views(self.nodes@),
                    self.rules@,
                    (#[trigger] self.nodes@[i]).owner_faction@,
                ),
        ensures
            forall|k: int|
                0 <= k < reports@.len() ==> (#[trigger] reports@[k])@ == faction_report(
                    economic_views(self.nodes@),
                    self.rules@,
                    reports@[k].faction_name@,
                ) && owns_node(
                    economic_views(self.nodes@),
                    reports@[k].faction_name@,
                    self.nodes@.len() as int,
                ),
            forall|a: int, b: int|
                0 <= a < reports@.len() && 0 <= b < reports@.len() && a != b ==> (
                #[trigger] reports@[a]).faction_name@ != (#[trigger] reports@[b]).faction_name@,
            forall|i: int|
                0 <= i < self.nodes@.len() ==> reports_on(
                    reports@,
                    (#[trigger] self.nodes@[i]).owner_faction@,
                    reports@.len() as int,
                ),
    {
        let ghost nodes = economic_views(self.nodes@);
        let mut reports: Vec<EconomicReport> = Vec::new();
        let mut i: usize = 0;
        while i < self.nodes.len()
            invariant
                i <= self.nodes@.len(),
                nodes == economic_views(self.nodes@),
                forall|j: int|
                    0 <= j < self.nodes@.len() ==> faction_fits(
                        nodes,
                        self.rules@,
                        (#[trigger] self.nodes@[j]).owner_faction@,
                    ),
                forall|k: int|
                    0 <= k < reports@.len() ==> (#[trigger] reports@[k])@ == faction_report(
                        nodes,
                        self.rules@,
                        reports@[k].faction_name@,
                    ) && owns_node(nodes, reports@[k].faction_name@, self.nodes@.len() as int),
                forall|a: int, b: int|
                    0 <= a < reports@.len() && 0 <= b < reports@.len() && a != b ==> (
                    #[trigger] reports@[a]).faction_name@ != (#[trigger] reports@[b]).faction_name@,
                forall|j: int|
                    0 <= j < i ==> reports_on(
                        reports@,
                        (#[trigger] self.nodes@[j]).owner_faction@,
                        reports@.len() as int,
                    ),
            decreases self.nodes@.len() - i,
        {
            let owner = self.nodes[i].owner_faction.as_str();
            let ghost before = reports@;
            if !Self::already_reported(&reports, owner) {
                let report = self.process_faction(owner);
                reports.push(report);
                proof {
                    let last = before.len() as int;
                    assert(reports@[last].faction_name@ == owner@);
                    assert(nodes[i as int].owner_faction == owner@);
                    assert(owns_node(nodes, owner@, self.nodes@.len() as int));
                    assert forall|a: int, b: int|
                        0 <= a < reports@.len() && 0 <= b < reports@.len() && a != b implies (
                    #[trigger] reports@[a]).faction_name@ != (
                    #[trigger] reports@[b]).faction_name@ by {
                        if a == last {
                            assert(reports@[b] == before[b]);
                            if before[b].faction_name@ == owner@ {
                                assert(reports_on(before, owner@, before.len() as int));
                            }
                        } else if b == last {
                            assert(reports@[a] == before[a]);
                            if before[a].faction_name@ == owner@ {
                                assert(reports_on(before, owner@, before.len() as int));
                            }
                        } else {
                            assert(reports@[a] == before[a] && reports@[b] == before[b]);
                        }
                    }
                    assert forall|j: int| 0 <= j < i implies reports_on(
                        reports@,
                        (#[trigger] self.nodes@[j]).owner_faction@,
                        reports@.len() as int,
                    ) by {
                        let name = self.nodes@[j].owner_faction@;
                        assert(reports_on(before, name, before.len() as int));
                        let w = choose|w: int|
                            0 <= w < before.len() && (#[trigger] before[w]).faction_name@ == name;
                        assert(reports@[w] == before[w]);
                    }
                    assert(reports@[last].faction_name@ == self.nodes@[i as int].owner_faction@);
                }
            }
            assert(reports_on(
                reports@,
                self.nodes@[i as int].owner_faction@,
                reports@.len() as int,
            ));
            i += 1;
        }
        reports
    }
}

impl IncomeEngine {
    /// Whether a faction's report can be computed without leaving the
    /// 128-bit range.
    pub fn can_process(&self, faction_name: &str) -> (fits: bool)
        ensures
            fits == faction_fits(economic_views(self.nodes@), self.rules@, faction_name@),
    {
        let ghost nodes = economic_views(self.nodes@);
        let ghost rules = self.rules@;
        let ghost faction = faction_name@;
        let mut total_income = ResourceState::default();
        let mut total_upkeep = ResourceState::default();
        let mut income_by_category = ResourceLedger::new();
        let mut planet_count: usize = 0;
        let mut fleet_count: usize = 0;
        let mut i: usize = 0;
        while i < self.nodes.len()
            invariant
                i <= self.nodes@.len(),
                nodes == economic_views(self.nodes@),
                rules == self.rules@,
                faction == faction_name@,
                total_income@ == income_before(nodes, faction, i as int),
                total_upkeep@ == upkeep_before(nodes, rules, faction, i as int),
                planet_count == typed_before(nodes, faction, NodeType::Planet, i as int),
                fleet_count == typed_before(nodes, faction, NodeType::Fleet, i as int),
                planet_count <= i,
                fleet_count <= i,
                income_by_category.well_formed(),
                forall|category: Seq<char>| #[trigger]
                    income_by_category.total(category) == category_income(
                        nodes,
                        faction,
                        category,
                        i as int,
                    ),
                forall|m: int|
                    #![trigger nodes[m - 1]]
                    1 <= m <= i && nodes[m - 1].owner_faction == faction ==> {
                        &&& node_fits(nodes[m - 1], rules)
                        &&& income_before(nodes, faction, m).fits()
                        &&& upkeep_before(nodes, rules, faction, m).fits()
                        &&& category_income(
                            nodes,
                            faction,
                            category_of(nodes[m - 1].node_type),
                            m,
                        ).fits()
                    },
            decreases self.nodes@.len() - i,
        {
            let node = &self.nodes[i];
            assert(node@ == nodes[i as int]);
            assert(nodes[i + 1 - 1] == nodes[i as int]);
            if same_text(node.owner_faction.as_str(), faction_name) {
                if node.node_type == NodeType::Planet {
                    planet_count = planet_count + 1;
                } else if node.node_type == NodeType::Fleet {
                    fleet_count = fleet_count + 1;
                }
                let node_income = match node.checked_income() {
                    Some(amount) => amount,
                    None => {
                        assert(!node_fits(nodes[i + 1 - 1], rules));
                        return false;
                    },
                };
                let node_upkeep = match node.checked_upkeep(&self.rules) {
                    Some(amount) => amount,
                    None => {
                        assert(!node_fits(nodes[i + 1 - 1], rules));
                        return false;
                    },
                };
                if !total_income.sum_fits(&node_income) {
                    assert(!income_before(nodes, faction, i + 1).fits());
                    return false;
                }
                if !total_upkeep.sum_fits(&node_upkeep) {
                    assert(!upkeep_before(nodes, rules, faction, i + 1).fits());
                    return false;
                }
                let booked = match income_by_category.get(node.node_type.category()) {
                    Some(amount) => amount,
                    None => ResourceState::default(),
                };
                if !booked.sum_fits(&node_income) {
                    assert(!category_income(
                        nodes,
                        faction,
                        category_of(nodes[i + 1 - 1].node_type),
                        i + 1,
                    ).fits());
                    return false;
                }
                total_income.add(&node_income);
                total_upkeep.add(&node_upkeep);
                income_by_category.credit(node.node_type.category(), &node_income);
            }
            proof {
                assert forall|category: Seq<char>| #[trigger]
                    income_by_category.total(category) == category_income(
                        nodes,
                        faction,
                        category,
                        i + 1,
                    ) by {}
            }
            i += 1;
        }
        let ratio = self.rules.navy_penalty_ratio as i128;
        let planets = planet_count as i128;
        let fleets = fleet_count as i128;
        proof {
            assert(0 <= planets * ratio <= 0x1_0000_0000_0000_0000 * 0x1_0000_0000)
                by (nonlinear_arith)
                requires
                    0 <= planets <= 0x1_0000_0000_0000_0000,
                    0 <= ratio <= 0x1_0000_0000,
            ;
        }
        let allowed = planets * ratio;
        let limit = if allowed < 1 {
            1
        } else {
            allowed
        };
        if fleets > limit {
            let over = fleets - limit;
            let share = match over.checked_mul(self.rules.navy_penalty_rate_scaled) {
                Some(share) => share,
                None => {
                    return false;
                },
            };
            let capped = if share < SCALE_FACTOR {
                share
            } else {
                SCALE_FACTOR
            };
            let product = match total_upkeep.credits.checked_mul(capped) {
                Some(product) => product,
                None => {
                    return false;
                },
            };
            let penalty = product / SCALE_FACTOR;
            match total_upkeep.credits.checked_add(penalty) {
                Some(credits) => {
                    total_upkeep.credits = credits;
                },
                None => {
                    return false;
                },
            }
        }
        total_income.difference_fits(&total_upkeep)
    }
}

} // verus!
