//! Maximum speeds by mode, with the overrides a caller can set.
use vstd::prelude::*;
use crate::model::RouteType;

verus! {

/// Overrides of the maximum speed of each mode, in metres per hour. A mode
/// left unset keeps its default.
#[derive(Debug, Clone, Copy, PartialEq, Eq, Structural, Hash)]
pub struct CustomRules {
    pub max_tramway_speed: Option<u64>,
    pub max_subway_speed: Option<u64>,
    pub max_rail_speed: Option<u64>,
    pub max_bus_speed: Option<u64>,
    pub max_ferry_speed: Option<u64>,
    pub max_cable_car_speed: Option<u64>,
    pub max_gondola_speed: Option<u64>,
    pub max_funicular_speed: Option<u64>,
    pub max_coach_speed: Option<u64>,
    pub max_air_speed: Option<u64>,
    pub max_taxi_speed: Option<u64>,
    pub max_other_speed: Option<u64>,
}

/// The value set, or else the default.
pub open spec fn or_default(o: Option<u64>, d: u64) -> u64 {
    match o {
        Some(v) => v,
        None => d,
    }
}

/// The maximum speed of a mode in metres per hour: the override where one
/// is set, else the default. A code outside the main specification goes by
/// the speed for other modes.
pub open spec fn max_speed_of(route_type: RouteType, rules: CustomRules) -> u64 {
    match route_type {
        RouteType::Tramway => or_default(rules.max_tramway_speed, 100_000),
        RouteType::Subway => or_default(rules.max_subway_speed, 140_000),
        RouteType::Rail => or_default(rules.max_rail_speed, 320_000),
        RouteType::Bus => or_default(rules.max_bus_speed, 120_000),
        RouteType::Ferry => or_default(rules.max_ferry_speed, 90_000),
        RouteType::CableCar => or_default(rules.max_cable_car_speed, 30_000),
        RouteType::Gondola => or_default(rules.max_gondola_speed, 45_000),
        RouteType::Funicular => or_default(rules.max_funicular_speed, 40_000),
        RouteType::Coach => or_default(rules.max_coach_speed, 120_000),
        RouteType::Air => or_default(rules.max_air_speed, 1_000_000),
        RouteType::Taxi => or_default(rules.max_taxi_speed, 50_000),
        RouteType::Other(_) => or_default(rules.max_other_speed, 120_000),
    }
}

fn value_or(o: Option<u64>, d: u64) -> (r: u64)
    ensures
        r == or_default(o, d),
{
    match o {
        Some(v) => v,
        None => d,
    }
}

impl CustomRules {
    /// The rules with no override.
    pub open spec fn unset() -> CustomRules {
        CustomRules {
            max_tramway_speed: None,
            max_subway_speed: None,
            max_rail_speed: None,
            max_bus_speed: None,
            max_ferry_speed: None,
            max_cable_car_speed: None,
            max_gondola_speed: None,
            max_funicular_speed: None,
            max_coach_speed: None,
            max_air_speed: None,
            max_taxi_speed: None,
            max_other_speed: None,
        }
    }

    /// The maximum speed of a mode under these rules, in metres per hour.
    pub fn max_speed(&self, route_type: RouteType) -> (r: u64)
        ensures
            r == max_speed_of(route_type, *self),
    {
        match route_type {
            RouteType::Tramway => value_or(self.max_tramway_speed, 100_000),
            RouteType::Subway => value_or(self.max_subway_speed, 140_000),
            RouteType::Rail => value_or(self.max_rail_speed, 320_000),
            RouteType::Bus => value_or(self.max_bus_speed, 120_000),
            RouteType::Ferry => value_or(self.max_ferry_speed, 90_000),
            RouteType::CableCar => value_or(self.max_cable_car_speed, 30_000),
            RouteType::Gondola => value_or(self.max_gondola_speed, 45_000),
            RouteType::Funicular => value_or(self.max_funicular_speed, 40_000),
            RouteType::Coach => value_or(self.max_coach_speed, 120_000),
            RouteType::Air => value_or(self.max_air_speed, 1_000_000),
            RouteType::Taxi => value_or(self.max_taxi_speed, 50_000),
            RouteType::Other(_) => value_or(self.max_other_speed, 120_000),
        }
    }
}

impl Default for CustomRules {
    fn default() -> (r: CustomRules)
        ensures
            r == CustomRules::unset(),
    {
        CustomRules {
            max_tramway_speed: None,
            max_subway_speed: None,
            max_rail_speed: None,
            max_bus_speed: None,
            max_ferry_speed: None,
            max_cable_car_speed: None,
            max_gondola_speed: None,
            max_funicular_speed: None,
            max_coach_speed: None,
            max_air_speed: None,
            max_taxi_speed: None,
            max_other_speed: None,
        }
    }
}

/// The rules to validate with: those read from a file where a file was
/// given, else the rules with no override.
pub fn custom_rules(loaded: Option<CustomRules>) -> (r: CustomRules)
    ensures
        r == match loaded {
            Some(c) => c,
            None => CustomRules::unset(),
        },
{
    match loaded {
        Some(c) => c,
        None => CustomRules::default(),
    }
}

} // verus!
