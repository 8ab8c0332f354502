//! Trade routes and the income they bring to the stations at their ends.
use vstd::prelude::*;
use crate::economy::types::{ResourceLedger, ResourceState, Resources, SCALE_FACTOR};
use crate::pathfinder::{GraphTopology, MovementProfile};

verus! {

/// A trade route between two stations.
#[derive(Debug, Clone)]
pub struct TradeRoute {
    pub from: String,
    pub to: String,
    pub base_value: ResourceState,
    /// Share of the base value that gets through, in fixed point.
    pub efficiency_scaled: i128,
}

/// Mathematical view of a [`TradeRoute`].
pub struct TradeRouteView {
    pub from: Seq<char>,
    pub to: Seq<char>,
    pub base_value: Resources,
    pub efficiency_scaled: int,
}

impl View for TradeRoute {
    type V = TradeRouteView;

    open spec fn view(&self) -> TradeRouteView {
        TradeRouteView {
            from: self.from@,
            to: self.to@,
            base_value: self.base_value@,
            efficiency_scaled: self.efficiency_scaled as int,
        }
    }
}

/// Views of a sequence of routes, position by position.
pub open spec fn route_views(routes: Seq<TradeRoute>) -> Seq<TradeRouteView> {
    Seq::new(routes.len(), |i: int| routes[i]@)
}

/// What a route pays to each of its two ends: half of its base value
/// scaled by its efficiency.
pub open spec fn half_gain(route: TradeRouteView) -> Resources {
    route.base_value.scaled(route.efficiency_scaled).halved()
}

/// What the first `n` routes pay to a station.
pub open spec fn station_income(routes: Seq<TradeRouteView>, name: Seq<char>, n: int) -> Resources
    decreases n,
{
    if n <= 0 {
        Resources::zero()
    } else {
        let at_origin = income_after_origin(routes, name, n);
        if routes[n - 1].to == name {
            at_origin.plus(half_gain(routes[n - 1]))
        } else {
            at_origin
        }
    }
}

/// What a station has received once the first `n - 1` routes have paid both
/// ends and the `n`-th has paid its origin.
pub open spec fn income_after_origin(routes: Seq<TradeRouteView>, name: Seq<char>, n: int) -> Resources
    decreases n, 0int,
{
    if n <= 0 {
        Resources::zero()
    } else if routes[n - 1].from == name {
        station_income(routes, name, n - 1).plus(half_gain(routes[n - 1]))
    } else {
        station_income(routes, name, n - 1)
    }
}

/// One of the first `n` routes starts or ends at the station.
pub open spec fn is_station(routes: Seq<TradeRouteView>, name: Seq<char>, n: int) -> bool {
    exists|i: int| 0 <= i < n && ((#[trigger] routes[i]).from == name || routes[i].to == name)
}

/// No amount computed while the routes pay out leaves the 128-bit range.
pub open spec fn trade_fits(routes: Seq<TradeRouteView>) -> bool {
    forall|n: int|
        #![trigger routes[n - 1]]
        1 <= n <= routes.len() ==> {
            &&& routes[n - 1].base_value.times(routes[n - 1].efficiency_scaled).fits()
            &&& income_after_origin(routes, routes[n - 1].from, n).fits()
            &&& station_income(routes, routes[n - 1].to, n).fits()
        }
}

/// The efficiency of a trade route, given the cheapest way between its
/// ends: nothing gets through where there is no way or where a jump costs
/// more than two whole units on average; everything gets through where a
/// jump costs at most one; in between, the share falls linearly from
/// everything to nothing.
pub open spec fn route_efficiency(route: Option<(Seq<Seq<char>>, u64)>) -> int {
    match route {
        Some((path, weight)) => {
            let hops = path.len() - 1;
            if hops <= 0 {
                SCALE_FACTOR as int
            } else if weight > 2 * SCALE_FACTOR * hops {
                0
            } else if weight > SCALE_FACTOR * hops {
                2 * SCALE_FACTOR - weight as int / hops
            } else {
                SCALE_FACTOR as int
            }
        },
        None => 0,
    }
}

/// The efficiency of a trade route whose cheapest way has `systems`
/// systems on it and costs `weight`.
pub fn efficiency_for(systems: usize, weight: u64) -> (efficiency: i128)
    ensures
        efficiency == (if systems <= 1 {
            SCALE_FACTOR as int
        } else if weight > 2 * SCALE_FACTOR * (systems - 1) {
            0
        } else if weight > SCALE_FACTOR * (systems - 1) {
            2 * SCALE_FACTOR - weight as int / (systems - 1)
        } else {
            SCALE_FACTOR as int
        }),
        0 <= efficiency <= SCALE_FACTOR,
{
    if systems <= 1 {
        return SCALE_FACTOR;
    }
    let hops: i128 = (systems - 1) as i128;
    let cost: i128 = weight as i128;
    if cost > 2 * SCALE_FACTOR * hops {
        0
    } else if cost > SCALE_FACTOR * hops {
        proof {
            assert(SCALE_FACTOR <= cost / hops <= 2 * SCALE_FACTOR) by (nonlinear_arith)
                requires
                    hops >= 1,
                    SCALE_FACTOR * hops < cost <= 2 * SCALE_FACTOR * hops,
                    SCALE_FACTOR == 1_000_000,
            ;
        }
        2 * SCALE_FACTOR - cost / hops
    } else {
        SCALE_FACTOR
    }
}

/// The routes of an economy.
pub struct TradeRouteManager {
    routes: Vec<TradeRoute>,
}

impl View for TradeRouteManager {
    type V = Seq<TradeRouteView>;

    closed spec fn view(&self) -> Seq<TradeRouteView> {
        route_views(self.routes@)
    }
}

impl TradeRouteManager {
    /// A manager without routes.
    pub fn new() -> (manager: Self)
        ensures
            manager@ == Seq::<TradeRouteView>::empty(),
    {
        let manager = TradeRouteManager { routes: Vec::new() };
        assert(manager@ =~= Seq::<TradeRouteView>::empty());
        manager
    }

    /// Appends a route.
    pub fn add_route(&mut self, route: TradeRoute)
        ensures
            final(self)@ == old(self)@.push(route@),
    {
        self.routes.push(route);
        assert(self@ =~= old(self)@.push(route@));
    }

    /// Number of routes.
    pub fn route_count(&self) -> (count: usize)
        ensures
            count == self@.len(),
    {
        self.routes.len()
    }

    /// Whether the routes can pay out without leaving the 128-bit range.
    pub fn income_fits(&self) -> (fits: bool)
        ensures
            fits == trade_fits(self@),
    {
        let ghost routes = self@;
        let mut ledger = ResourceLedger::new();
        let mut i: usize = 0;
        while i < self.routes.len()
            invariant
                i <= self.routes@.len(),
                routes == self@,
                ledger.well_formed(),
                forall|name: Seq<char>| #[trigger]
                    ledger.total(name) == station_income(routes, name, i as int),
                forall|n: int|
                    #![trigger routes[n - 1]]
                    1 <= n <= i ==> {
                        &&& routes[n - 1].base_value.times(routes[n - 1].efficiency_scaled).fits()
                        &&& income_after_origin(routes, routes[n - 1].from, n).fits()
                        &&& station_income(routes, routes[n - 1].to, n).fits()
                    },
            decreases self.routes@.len() - i,
        {
            let route = &self.routes[i];
            assert(route@ == routes[i as int]);
            assert(routes[i + 1 - 1] == routes[i as int]);
            if !route.base_value.product_fits(route.efficiency_scaled) {
                assert(!routes[i + 1 - 1].base_value.times(
                    routes[i + 1 - 1].efficiency_scaled,
                ).fits());
                return false;
            }
            let mut gain = route.base_value;
            gain.multiply_fixed(route.efficiency_scaled);
            gain.halve();
            assert(gain@ == half_gain(routes[i as int]));
            let held = match ledger.get(route.from.as_str()) {
                Some(amount) => amount,
                None => ResourceState::default(),
            };
            assert(held@ == ledger.total(route.from@));
            if !held.sum_fits(&gain) {
                assert(!income_after_origin(routes, routes[i + 1 - 1].from, i + 1).fits());
                return false;
            }
            ledger.credit(route.from.as_str(), &gain);
            assert forall|name: Seq<char>| #[trigger]
                ledger.total(name) == income_after_origin(routes, name, i + 1) by {}
            let held = match ledger.get(route.to.as_str()) {
                Some(amount) => amount,
                None => ResourceState::default(),
            };
            if !held.sum_fits(&gain) {
                assert(!station_income(routes, routes[i + 1 - 1].to, i + 1).fits());
                return false;
            }
            ledger.credit(route.to.as_str(), &gain);
            assert forall|name: Seq<char>| #[trigger]
                ledger.total(name) == station_income(routes, name, i + 1) by {}
            i += 1;
        }
        true
    }

    /// What the routes pay to each station: every route pays half of its
    /// base value scaled by its efficiency to each of its two ends. Stations
    /// are listed in the order in which the routes first name them.
    pub fn get_total_trade_income(&self) -> (income: ResourceLedger)
        requires
            trade_fits(self@),
        ensures
            income.well_formed(),
            forall|name: Seq<char>| #[trigger]
                income.lists(name) == is_station(self@, name, self@.len() as int),
            forall|name: Seq<char>| #[trigger]
                income.total(name) == station_income(self@, name, self@.len() as int),
    {
        let ghost routes = self@;
        let mut income = ResourceLedger::new();
        let mut i: usize = 0;
        while i < self.routes.len()
            invariant
                i <= self.routes@.len(),
                routes == self@,
                trade_fits(routes),
                income.well_formed(),
                forall|name: Seq<char>| #[trigger]
                    income.lists(name) == is_station(routes, name, i as int),
                forall|name: Seq<char>| #[trigger]
                    income.total(name) == station_income(routes, name, i as int),
            decreases self.routes@.len() - i,
        {
            let route = &self.routes[i];
            assert(route@ == routes[i as int]);
            assert(routes[i + 1 - 1] == routes[i as int]);
            let mut gain = route.base_value;
            gain.multiply_fixed(route.efficiency_scaled);
            gain.halve();
            income.credit(route.from.as_str(), &gain);
            assert forall|name: Seq<char>| #[trigger]
                income.total(name) == income_after_origin(routes, name, i + 1) by {}
            income.credit(route.to.as_str(), &gain);
            assert forall|name: Seq<char>| #[trigger]
                income.total(name) == station_income(routes, name, i + 1) by {}
            assert forall|name: Seq<char>| #[trigger]
                income.lists(name) == is_station(routes, name, i + 1) by {
                if is_station(routes, name, i + 1) {
                    let w = choose|w: int|
                        0 <= w < i + 1 && ((#[trigger] routes[w]).from == name || routes[w].to
                            == name);
                    if w < i {
                        assert(is_station(routes, name, i as int));
                    }
                }
                if is_station(routes, name, i as int) {
                    let w = choose|w: int|
                        0 <= w < i && ((#[trigger] routes[w]).from == name || routes[w].to
                            == name);
                    assert(0 <= w < i + 1 && (routes[w].from == name || routes[w].to == name));
                }
                if name == routes[i as int].from || name == routes[i as int].to {
                    assert(0 <= i < i + 1 && (routes[i as int].from == name || routes[i as int].to
                        == name));
                }
            }
            i += 1;
        }
        income
    }

    /// Sets the efficiency of every route from the cheapest way that the
    /// topology offers between its ends for travel through space.
    pub fn calculate_efficiencies(&mut self, topology: &GraphTopology)
        requires
            topology.well_formed(),
        ensures
            final(self)@.len() == old(self)@.len(),
            forall|i: int|
                0 <= i < old(self)@.len() ==> (#[trigger] final(self)@[i]) == (TradeRouteView {
                    efficiency_scaled: route_efficiency(
                        topology.route(old(self)@[i].from, old(self)@[i].to, MovementProfile::Space),
                    ),
                    ..old(self)@[i]
                }),
    {
        let ghost before = self@;
        let n = self.routes.len();
        let mut i: usize = 0;
        while i < n
            invariant
                i <= n,
                n == before.len(),
                self.routes@.len() == n,
                topology.well_formed(),
                forall|j: int|
                    0 <= j < i ==> (#[trigger] self.routes@[j])@ == (TradeRouteView {
                        efficiency_scaled: route_efficiency(
                            topology.route(before[j].from, before[j].to, MovementProfile::Space),
                        ),
                        ..before[j]
                    }),
                forall|j: int| i <= j < n ==> (#[trigger] self.routes@[j])@ == before[j],
            decreases n - i,
        {
            let ghost prev = self.routes@;
            let found = topology.find_path(
                self.routes[i].from.as_str(),
                self.routes[i].to.as_str(),
                None,
            );
            let efficiency = match &found {
                Some((path, weight)) => efficiency_for(path.len(), *weight),
                None => 0,
            };
            self.routes[i].efficiency_scaled = efficiency;
            proof {
                assert(forall|j: int| 0 <= j < n && j != i ==> self.routes@[j] == prev[j]);
                assert(self.routes@[i as int]@ == (TradeRouteView {
                    efficiency_scaled: efficiency as int,
                    ..prev[i as int]@
                }));
            }
            i += 1;
        }
        assert(self@.len() == before.len());
        assert forall|i: int| 0 <= i < before.len() implies (#[trigger] self@[i]) == (TradeRouteView {
            efficiency_scaled: route_efficiency(
                topology.route(before[i].from, before[i].to, MovementProfile::Space),
            ),
            ..before[i]
        }) by {
            assert(self.routes@[i]@ == self@[i]);
        }
    }
}

} // verus!
