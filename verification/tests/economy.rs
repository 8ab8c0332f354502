use void_reckoning::economy::engine::{insolvency_event, IncomeEngine};
use void_reckoning::economy::trade::{efficiency_for, TradeRoute, TradeRouteManager};
use void_reckoning::economy::types::{
    EconomicModifier, EconomicNode, GlobalEconomicRules, NodeType, ResourceLedger, ResourceState,
    SCALE_FACTOR,
};
use void_reckoning::observability::{CorrelationContext, EventLog, EventSeverity};
use void_reckoning::pathfinder::GraphTopology;

const ONE: i128 = SCALE_FACTOR;

fn amount(credits: i128, minerals: i128, energy: i128, research: i128) -> ResourceState {
    ResourceState {
        credits: credits * ONE,
        minerals: minerals * ONE,
        energy: energy * ONE,
        research: research * ONE,
    }
}

fn node(owner: &str, kind: NodeType, income: i128, upkeep: i128, efficiency: i128) -> EconomicNode {
    EconomicNode {
        id: format!("{}-{:?}", owner, kind),
        owner_faction: owner.to_string(),
        node_type: kind,
        base_income: amount(income, income / 2, 0, 0),
        base_upkeep: amount(upkeep, 0, upkeep / 2, 0),
        efficiency_scaled: efficiency,
        modifiers: Vec::new(),
    }
}

#[test]
fn resource_arithmetic_is_componentwise() {
    let mut state = amount(10, 20, 30, 40);
    state.add(&amount(1, 2, 3, 4));
    assert_eq!(state, amount(11, 22, 33, 44));
    state.subtract(&amount(12, 2, 3, 4));
    assert_eq!(state, amount(-1, 20, 30, 40));
    state.multiply_int(3);
    assert_eq!(state, amount(-3, 60, 90, 120));
    state.multiply_fixed(ONE / 2);
    assert_eq!(
        state,
        ResourceState { credits: -1_500_000, minerals: 30 * ONE, energy: 45 * ONE, research: 60 * ONE }
    );
    assert_eq!(ResourceState::default(), amount(0, 0, 0, 0));
}

#[test]
fn fixed_multiplication_and_halving_round_toward_zero() {
    let mut state = ResourceState { credits: 7, minerals: -7, energy: 1, research: -1 };
    state.multiply_fixed(ONE / 2);
    assert_eq!(state, ResourceState { credits: 3, minerals: -3, energy: 0, research: 0 });
    let mut state = ResourceState { credits: 7, minerals: -7, energy: 1, research: -1 };
    state.halve();
    assert_eq!(state, ResourceState { credits: 3, minerals: -3, energy: 0, research: 0 });
}

#[test]
fn range_checks_detect_overflow() {
    let big = ResourceState { credits: i128::MAX, minerals: 0, energy: 0, research: 0 };
    assert!(!big.product_fits(2));
    assert!(big.product_fits(1));
    assert!(!big.sum_fits(&ResourceState { credits: 1, minerals: 0, energy: 0, research: 0 }));
    assert!(big.sum_fits(&ResourceState { credits: -1, minerals: 5, energy: 0, research: 0 }));
}

#[test]
fn ledger_books_amounts_under_names() {
    let mut ledger = ResourceLedger::new();
    assert_eq!(ledger.get("Tax"), None);
    ledger.credit("Tax", &amount(1, 0, 0, 0));
    ledger.credit("Mining", &amount(0, 5, 0, 0));
    ledger.credit("Tax", &amount(2, 0, 0, 1));
    assert_eq!(ledger.get("Tax"), Some(amount(3, 0, 0, 1)));
    assert_eq!(ledger.get("Mining"), Some(amount(0, 5, 0, 0)));
    assert_eq!(ledger.get("Other"), None);
    assert_eq!(ledger.find("Mining"), Some(1));
    assert_eq!(ledger.entries.len(), 2);
    assert_eq!(ledger.entries[0].name, "Tax");
}

#[test]
fn trade_income_is_split_between_both_ends() {
    let mut manager = TradeRouteManager::new();
    assert_eq!(manager.route_count(), 0);
    manager.add_route(TradeRoute {
        from: "Sol".to_string(),
        to: "Vega".to_string(),
        base_value: amount(100, 10, 0, 0),
        efficiency_scaled: ONE,
    });
    manager.add_route(TradeRoute {
        from: "Vega".to_string(),
        to: "Rigel".to_string(),
        base_value: amount(50, 0, 0, 3),
        efficiency_scaled: ONE / 2,
    });
    manager.add_route(TradeRoute {
        from: "Sol".to_string(),
        to: "Sol".to_string(),
        base_value: amount(8, 0, 0, 0),
        efficiency_scaled: 0,
    });
    assert_eq!(manager.route_count(), 3);
    assert!(manager.income_fits());
    let income = manager.get_total_trade_income();
    assert_eq!(income.get("Sol"), Some(amount(50, 5, 0, 0)));
    assert_eq!(
        income.get("Vega"),
        Some(ResourceState {
            credits: 50 * ONE + 12_500_000,
            minerals: 5 * ONE,
            energy: 0,
            research: 750_000
        })
    );
    assert_eq!(
        income.get("Rigel"),
        Some(ResourceState { credits: 12_500_000, minerals: 0, energy: 0, research: 750_000 })
    );
    assert_eq!(income.get("Deneb"), None);
    assert_eq!(income.entries.len(), 3);
    assert!(TradeRouteManager::new().get_total_trade_income().entries.is_empty());
}

#[test]
fn trade_overflow_is_detected_before_paying_out() {
    let mut manager = TradeRouteManager::new();
    manager.add_route(TradeRoute {
        from: "Sol".to_string(),
        to: "Vega".to_string(),
        base_value: ResourceState { credits: i128::MAX / 4, minerals: 0, energy: 0, research: 0 },
        efficiency_scaled: ONE,
    });
    assert!(!manager.income_fits());
    let mut manager = TradeRouteManager::new();
    for _ in 0..3 {
        manager.add_route(TradeRoute {
            from: "Sol".to_string(),
            to: "Sol".to_string(),
            base_value: ResourceState { credits: i128::MAX / 2, minerals: 0, energy: 0, research: 0 },
            efficiency_scaled: 1,
        });
    }
    assert!(manager.income_fits());
}

#[test]
fn route_efficiency_follows_the_average_jump_cost() {
    let one = ONE as u64;
    assert_eq!(efficiency_for(3, 2 * one), ONE);
    assert_eq!(efficiency_for(3, one), ONE);
    assert_eq!(efficiency_for(3, 3 * one), ONE / 2);
    assert_eq!(efficiency_for(3, 4 * one), 0);
    assert_eq!(efficiency_for(3, 4 * one + 1), 0);
    assert_eq!(efficiency_for(2, one + one / 4), 3 * ONE / 4);
    assert_eq!(efficiency_for(1, 0), ONE);
    assert_eq!(efficiency_for(0, 9 * one), ONE);
}

#[test]
fn efficiencies_come_from_the_topology() {
    let one = ONE as u64;
    let mut topo = GraphTopology::new();
    topo.add_edge("A", "B", one);
    topo.add_edge("B", "C", 2 * one);
    topo.add_edge("C", "D", 9 * one);
    let mut manager = TradeRouteManager::new();
    for (from, to) in [("A", "B"), ("A", "C"), ("A", "D"), ("D", "A"), ("A", "Z"), ("A", "A")] {
        manager.add_route(TradeRoute {
            from: from.to_string(),
            to: to.to_string(),
            base_value: amount(100, 0, 0, 0),
            efficiency_scaled: 123,
        });
    }
    manager.calculate_efficiencies(&topo);
    let income = manager.get_total_trade_income();
    // A-B: full; A-C: average 1.5 per jump, half; A-D: average 4, severed;
    // D-A and A-Z: no way; A-A: already there, full, both halves to A.
    assert_eq!(income.get("B"), Some(amount(50, 0, 0, 0)));
    assert_eq!(income.get("C"), Some(amount(25, 0, 0, 0)));
    assert_eq!(income.get("D"), Some(amount(0, 0, 0, 0)));
    assert_eq!(income.get("Z"), Some(amount(0, 0, 0, 0)));
    assert_eq!(income.get("A"), Some(amount(50 + 25 + 100, 0, 0, 0)));
}

#[test]
fn faction_report_sums_income_and_upkeep() {
    let mut engine = IncomeEngine::new(GlobalEconomicRules::default());
    engine.add_node(node("Terran", NodeType::Planet, 100, 10, ONE));
    engine.add_node(node("Terran", NodeType::Station, 40, 4, ONE / 2));
    engine.add_node(node("Zerg", NodeType::Planet, 999, 1, ONE));
    // In orbit: half upkeep.
    engine.add_node(node("Terran", NodeType::Fleet, 0, 20, ONE / 2));
    // In garrison: a quarter upkeep.
    engine.add_node(node("Terran", NodeType::Army, 0, 8, ONE / 2));
    engine.add_node(node("Terran", NodeType::Army, 0, 8, ONE));
    let report = engine.process_faction("Terran");
    assert_eq!(report.faction_name, "Terran");
    assert_eq!(report.active_nodes, 5);
    assert_eq!(report.total_income, amount(120, 60, 0, 0));
    assert_eq!(report.total_upkeep, amount(10 + 4 + 10 + 2 + 8, 0, 5 + 2 + 5 + 1 + 4, 0));
    assert_eq!(report.net_profit, amount(120 - 34, 60, -17, 0));
    assert!(!report.is_insolvent);
    assert_eq!(report.income_by_category.get("Tax"), Some(amount(100, 50, 0, 0)));
    assert_eq!(report.income_by_category.get("Mining").map(|a| a.credits), Some(20 * ONE));
    assert_eq!(report.income_by_category.get("Other"), Some(amount(0, 0, 0, 0)));
    let nobody = engine.process_faction("Protoss");
    assert_eq!(nobody.active_nodes, 0);
    assert_eq!(nobody.net_profit, amount(0, 0, 0, 0));
    assert!(nobody.income_by_category.entries.is_empty());
}

#[test]
fn modifiers_multiply_then_add() {
    let mut holding = node("Terran", NodeType::Planet, 100, 0, ONE);
    holding.modifiers.push(EconomicModifier {
        name: "boom".to_string(),
        multiplier_scaled: 2 * ONE,
        flat_bonus: amount(5, 0, 0, 0),
    });
    holding.modifiers.push(EconomicModifier {
        name: "tax".to_string(),
        multiplier_scaled: ONE / 2,
        flat_bonus: amount(0, 1, 0, 0),
    });
    assert_eq!(
        holding.income(),
        ResourceState {
            credits: 102_500_000,
            minerals: 51 * ONE,
            energy: 0,
            research: 0
        }
    );
    assert_eq!(holding.upkeep(&GlobalEconomicRules::default()), amount(0, 0, 0, 0));
    assert_eq!(NodeType::Planet.category(), "Tax");
    assert_eq!(NodeType::Station.category(), "Mining");
    assert_eq!(NodeType::Fleet.category(), "Other");
    assert_eq!(NodeType::Army.category(), "Other");
}

#[test]
fn navy_penalty_raises_credit_upkeep() {
    let mut rules = GlobalEconomicRules::default();
    rules.navy_penalty_ratio = 1;
    rules.fleet_upkeep_scalar_scaled = ONE / 2;
    let mut engine = IncomeEngine::new(rules);
    engine.add_node(node("Terran", NodeType::Planet, 10, 0, ONE));
    for _ in 0..4 {
        engine.add_node(node("Terran", NodeType::Fleet, 0, 20, ONE));
    }
    let report = engine.process_faction("Terran");
    // Four fleets at half upkeep cost 40; three over the limit add 15 percent.
    assert_eq!(report.total_upkeep, amount(46, 0, 20, 0));
    assert_eq!(report.net_profit.credits, -36 * ONE);
    assert!(report.is_insolvent);
    // Without planets the limit is one fleet.
    let mut engine = IncomeEngine::new(GlobalEconomicRules::default());
    engine.add_node(node("Terran", NodeType::Fleet, 0, 100, ONE));
    engine.add_node(node("Terran", NodeType::Fleet, 0, 100, ONE));
    assert_eq!(engine.process_faction("Terran").total_upkeep.credits, 210 * ONE);
    // The penalty is capped at the whole upkeep again.
    let mut rules = GlobalEconomicRules::default();
    rules.navy_penalty_rate_scaled = ONE;
    let mut engine = IncomeEngine::new(rules);
    for _ in 0..5 {
        engine.add_node(node("Terran", NodeType::Fleet, 0, 10, ONE));
    }
    assert_eq!(engine.process_faction("Terran").total_upkeep.credits, 100 * ONE);
}

#[test]
fn insolvency_is_logged() {
    let mut engine = IncomeEngine::new(GlobalEconomicRules::default());
    let log = EventLog::new();
    engine.set_event_log(log.clone());
    let context = CorrelationContext::new();
    let span = context.span_id.clone();
    engine.set_correlation_context(context);
    engine.add_node(node("Terran", NodeType::Army, 0, 7, ONE));
    engine.add_node(node("Zerg", NodeType::Planet, 7, 0, ONE));
    let reports = engine.process_all();
    assert_eq!(reports.len(), 2);
    assert_eq!(reports[0].faction_name, "Terran");
    assert!(reports[0].is_insolvent);
    assert_eq!(reports[1].faction_name, "Zerg");
    assert!(!reports[1].is_insolvent);
    let events = log.get_all();
    assert_eq!(events.len(), 1);
    assert_eq!(events[0].severity, EventSeverity::Warning);
    assert_eq!(events[0].category, "Economy");
    assert_eq!(events[0].message, "Faction Terran is insolvent! Deficit: -7000000");
    assert_eq!(events[0].context.parent_id, Some(span));
    let event = insolvency_event("Zerg", 12, &CorrelationContext::new());
    assert_eq!(event.message, "Faction Zerg is insolvent! Deficit: 12");
}

#[test]
fn default_rules_are_the_documented_ones() {
    let rules = GlobalEconomicRules::default();
    assert_eq!(rules.orbit_discount_scaled, 500_000);
    assert_eq!(rules.garrison_discount_scaled, 250_000);
    assert_eq!(rules.navy_penalty_ratio, 4);
    assert_eq!(rules.navy_penalty_rate_scaled, 50_000);
    assert_eq!(rules.vassal_tribute_rate_scaled, 200_000);
    assert_eq!(rules.fleet_upkeep_scalar_scaled, 1_000_000);
    let mut engine = IncomeEngine::new(GlobalEconomicRules::default());
    let mut rules = GlobalEconomicRules::default();
    rules.navy_penalty_ratio = 9;
    engine.set_rules(rules);
    assert_eq!(engine.rules.navy_penalty_ratio, 9);
}

#[test]
fn overflowing_accounts_are_recognised() {
    let mut engine = IncomeEngine::new(GlobalEconomicRules::default());
    engine.add_node(node("Terran", NodeType::Planet, 100, 10, ONE));
    assert!(engine.can_process("Terran"));
    assert!(engine.can_process("Nobody"));
    let mut huge = node("Zerg", NodeType::Planet, 1, 0, ONE);
    huge.base_income.credits = i128::MAX / 2;
    engine.add_node(huge);
    assert!(!engine.can_process("Zerg"));
    assert!(engine.can_process("Terran"));
    let mut growing = node("Protoss", NodeType::Planet, 1, 0, ONE);
    growing.base_income.credits = i128::MAX / (2 * ONE);
    for _ in 0..3 {
        growing.modifiers.push(EconomicModifier {
            name: "double".to_string(),
            multiplier_scaled: 2 * ONE,
            flat_bonus: amount(0, 0, 0, 0),
        });
    }
    assert_eq!(growing.checked_income(), None);
    growing.modifiers.pop();
    growing.modifiers.pop();
    growing.modifiers.pop();
    assert_eq!(growing.checked_income().map(|a| a.credits), Some(i128::MAX / (2 * ONE)));
    let mut fleet = node("Protoss", NodeType::Fleet, 0, 0, ONE / 2);
    fleet.base_upkeep.credits = i128::MAX / 1000;
    assert_eq!(fleet.checked_upkeep(&GlobalEconomicRules::default()), None);
    fleet.base_upkeep.credits = 40 * ONE;
    assert_eq!(
        fleet.checked_upkeep(&GlobalEconomicRules::default()).map(|a| a.credits),
        Some(20 * ONE)
    );
    let a = amount(1, 0, 0, 0);
    assert!(a.difference_fits(&amount(2, 0, 0, 0)));
    let low = ResourceState { credits: i128::MIN, minerals: 0, energy: 0, research: 0 };
    assert!(!low.difference_fits(&a));
}
