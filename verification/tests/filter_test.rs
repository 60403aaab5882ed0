#![allow(non_snake_case)]
use data_statistics::filter::{
    to_like_predicate, to_predicate, Clause, Operand, Operator, Order, StatisticSearchPayload,
    Test,
};
use data_statistics::query::{
    get_aggregator, mileage_band, power_band, relax, sort_columns, sort_keys, to_aggregator,
    widen_to_bands, AggregateKind, SortBy, MILEAGE_BANDS, POWER_BANDS,
};

fn empty_payload() -> StatisticSearchPayload {
    StatisticSearchPayload {
        search: None,
        make: None,
        model: None,
        engine: None,
        gearbox: None,
        yearFrom: None,
        yearTo: None,
        year: None,
        powerFrom: None,
        powerTo: None,
        power: None,
        mileageFrom: None,
        mileageTo: None,
        mileage: None,
        ccFrom: None,
        ccTo: None,
        cc: None,
        saveDiffFrom: None,
        saveDiffTo: None,
        discountFrom: None,
        discountTo: None,
        createdOnFrom: None,
        createdOnTo: None,
        group: vec![],
        aggregators: vec![],
        order: vec![],
        stat_column: None,
        estimated_price: None,
        price: None,
        priceFrom: None,
        priceTo: None,
    }
}

fn show_operand(o: &Operand) -> String {
    match o {
        Operand::Text(t) => format!("'{}'", t),
        Operand::Number(n) => format!("{}", n),
        Operand::DaysAgo(n) => format!("today-{}", n),
    }
}

fn show_test(t: &Test) -> String {
    let op = match t.operator {
        Operator::Equal => "==",
        Operator::NotEqual => "!=",
        Operator::AtLeast => ">=",
        Operator::AtMost => "<=",
        Operator::Contains => "contains",
        Operator::StartsWith => "starts",
        Operator::EndsWith => "ends",
    };
    format!("{} {} {}", t.column, op, show_operand(&t.operand))
}

fn show(clauses: &[Clause]) -> Vec<String> {
    clauses
        .iter()
        .map(|c| {
            c.any_of
                .iter()
                .map(show_test)
                .collect::<Vec<String>>()
                .join(" | ")
        })
        .collect()
}

#[test]
fn a_search_for_nothing_matches_every_make() {
    assert_eq!(show(&to_predicate(&empty_payload())), vec!["make != 'x'"]);
}

#[test]
fn free_text_search_is_lowercased() {
    let mut payload = empty_payload();
    payload.search = Some("Corolla".to_string());
    assert_eq!(
        show(&to_predicate(&payload)),
        vec!["title contains 'corolla' | equipment contains 'corolla'"]
    );
}

#[test]
fn asterisks_anchor_a_search() {
    let mut payload = empty_payload();
    payload.search = Some("*AMG".to_string());
    assert_eq!(
        show(&to_predicate(&payload)),
        vec!["title ends 'amg' | equipment ends 'amg'"]
    );
    payload.search = Some("X-Dri*ve*".to_string());
    assert_eq!(
        show(&to_predicate(&payload)),
        vec!["title starts 'x-drive' | equipment starts 'x-drive'"]
    );
    payload.search = Some("*".to_string());
    assert_eq!(
        show(&to_predicate(&payload)),
        vec!["title ends '' | equipment ends ''"]
    );
    payload.search = Some("a*b".to_string());
    assert_eq!(
        show(&to_predicate(&payload)),
        vec!["title contains 'a*b' | equipment contains 'a*b'"]
    );
    payload.search = Some(String::new());
    assert_eq!(
        show(&to_predicate(&payload)),
        vec!["title contains '' | equipment contains ''"]
    );
}

#[test]
fn every_part_of_a_selection_becomes_a_clause() {
    let mut payload = empty_payload();
    payload.make = Some("Audi".to_string());
    payload.model = Some("A4".to_string());
    payload.engine = Some(vec!["Petrol".to_string(), "Diesel".to_string()]);
    payload.gearbox = Some("Automatic".to_string());
    payload.estimated_price = Some(20_000);
    payload.price = Some(15_000);
    payload.yearFrom = Some(2015);
    payload.yearTo = Some(2020);
    payload.discountFrom = Some(5);
    payload.discountTo = Some(25);
    payload.saveDiffFrom = Some(1_500);
    payload.saveDiffTo = Some(4_000);
    payload.powerTo = Some(200);
    payload.mileageFrom = Some(10_000);
    payload.cc = Some(2_000);
    payload.ccFrom = Some(1);
    payload.ccTo = Some(2);
    payload.createdOnFrom = Some(14);
    payload.createdOnTo = Some(1);
    assert_eq!(
        show(&to_predicate(&payload)),
        vec![
            "make == 'Audi'",
            "model == 'A4'",
            "engine == 'Petrol' | engine == 'Diesel'",
            "gearbox == 'Automatic'",
            "estimated_price_in_eur >= 20000",
            "price_in_eur >= 15000",
            "year >= 2015",
            "year <= 2020",
            "discount >= 5",
            "discount <= 25",
            "save_diff_in_eur >= 1500",
            "save_diff_in_eur <= 4000",
            "power <= 200",
            "mileage >= 10000",
            "cc == 2000",
            "created_on >= today-14",
            "created_on <= today-1",
        ]
    );
}

#[test]
fn an_exact_value_overrides_its_range() {
    let mut payload = empty_payload();
    payload.year = Some(2018);
    payload.yearFrom = Some(2015);
    payload.yearTo = Some(2020);
    payload.power = Some(150);
    payload.powerFrom = Some(100);
    payload.mileage = Some(61_234);
    payload.mileageTo = Some(5);
    assert_eq!(
        show(&to_predicate(&payload)),
        vec!["year == 2018", "power == 150", "mileage == 61234"]
    );
}

#[test]
fn an_empty_engine_list_asks_for_nothing() {
    let mut payload = empty_payload();
    payload.engine = Some(vec![]);
    assert_eq!(show(&to_predicate(&payload)), vec!["make != 'x'"]);
}

#[test]
fn aggregates_by_name() {
    let a = get_aggregator("price_in_eur", "quantile_75").unwrap();
    assert_eq!(a.kind, AggregateKind::Quantile(75));
    assert_eq!(a.column, "price_in_eur");
    assert_eq!(a.alias, "quantile_75");
    assert!(get_aggregator("price_in_eur", "variance").is_none());
    assert!(get_aggregator("price_in_eur", "quantile_85").is_none());
    assert!(get_aggregator("price_in_eur", "Count").is_none());
    let names: Vec<String> = [
        "count", "min", "bogus", "max", "mean", "median", "sum", "avg", "std", "rsd",
        "quantile_60", "quantile_66", "quantile_70", "", "quantile_80", "quantile_90",
    ]
    .iter()
    .map(|s| s.to_string())
    .collect();
    let found = to_aggregator(&names, "price_in_eur");
    let kinds: Vec<AggregateKind> = found.iter().map(|a| a.kind).collect();
    assert_eq!(
        kinds,
        vec![
            AggregateKind::Count,
            AggregateKind::Min,
            AggregateKind::Max,
            AggregateKind::Mean,
            AggregateKind::Median,
            AggregateKind::Sum,
            AggregateKind::Avg,
            AggregateKind::Std,
            AggregateKind::Rsd,
            AggregateKind::Quantile(60),
            AggregateKind::Quantile(66),
            AggregateKind::Quantile(70),
            AggregateKind::Quantile(80),
            AggregateKind::Quantile(90),
        ]
    );
    let aliases: Vec<&str> = found.iter().map(|a| a.alias.as_str()).collect();
    assert_eq!(aliases[0], "count");
    assert_eq!(aliases[13], "quantile_90");
    assert!(found.iter().all(|a| a.column == "price_in_eur"));
}

#[test]
fn sort_keys_turn_ascending_into_descending_flags() {
    let order = vec![
        Order { column: "stat_category".to_string(), asc: false },
        Order { column: "count".to_string(), asc: true },
    ];
    let keys = sort_keys(&order);
    let read: Vec<(&str, bool)> = keys.iter().map(|k| (k.column.as_str(), k.descending)).collect();
    assert_eq!(read, vec![("stat_category", true), ("count", false)]);
    assert!(sort_keys(&Vec::new()).is_empty());
}

#[test]
fn exact_mileage_and_power_widen_to_bands() {
    let mut payload = empty_payload();
    payload.make = Some("BMW".to_string());
    payload.model = Some("320".to_string());
    payload.year = Some(2018);
    payload.engine = Some(vec!["Petrol".to_string()]);
    payload.gearbox = Some("Automatic".to_string());
    payload.power = Some(200);
    payload.mileage = Some(61_234);
    payload.search = Some("xdrive".to_string());
    widen_to_bands(&mut payload);
    assert_eq!(payload.mileage, None);
    assert_eq!((payload.mileageFrom, payload.mileageTo), (Some(60_001), Some(80_000)));
    assert_eq!(payload.power, None);
    assert_eq!((payload.powerFrom, payload.powerTo), (Some(151), Some(200)));
    assert_eq!(payload.make.as_deref(), Some("BMW"));
    assert_eq!(payload.year, Some(2018));
    assert_eq!(payload.search.as_deref(), Some("xdrive"));
    relax(&mut payload);
    assert_eq!(payload.search, None);
    assert_eq!(payload.cc, None);
    assert_eq!(payload.model.as_deref(), Some("320"));
    assert_eq!((payload.mileageFrom, payload.mileageTo), (Some(60_001), Some(80_000)));
}

#[test]
fn values_outside_every_band_leave_the_range() {
    let mut payload = empty_payload();
    payload.mileage = Some(1_000_000);
    payload.mileageFrom = Some(7);
    payload.power = Some(-1);
    payload.powerTo = Some(9);
    widen_to_bands(&mut payload);
    assert_eq!(payload.mileage, None);
    assert_eq!((payload.mileageFrom, payload.mileageTo), (Some(7), None));
    assert_eq!(payload.power, None);
    assert_eq!((payload.powerFrom, payload.powerTo), (None, Some(9)));
}

#[test]
fn bands_cover_their_tables() {
    assert_eq!((MILEAGE_BANDS, POWER_BANDS), (8, 10));
    assert_eq!(mileage_band(0), Some((0, 20_000)));
    assert_eq!(mileage_band(20_000), Some((0, 20_000)));
    assert_eq!(mileage_band(20_001), Some((20_001, 40_000)));
    assert_eq!(mileage_band(150_000), Some((120_001, 150_000)));
    assert_eq!(mileage_band(999_999), Some((150_001, 999_999)));
    assert_eq!(mileage_band(1_000_000), None);
    assert_eq!(mileage_band(-1), None);
    assert_eq!(power_band(90), Some((0, 90)));
    assert_eq!(power_band(91), Some((91, 130)));
    assert_eq!(power_band(404), Some((359, 404)));
    assert_eq!(power_band(455), Some((455, 9_999)));
    assert_eq!(power_band(10_000), None);
}

#[test]
fn named_sort_columns_keep_their_direction() {
    let keys = sort_columns(&vec![
        SortBy::Descending("year".to_string(), true),
        SortBy::Ascending("source".to_string(), false),
    ]);
    let read: Vec<(&str, bool)> = keys.iter().map(|k| (k.column.as_str(), k.descending)).collect();
    assert_eq!(read, vec![("year", true), ("source", false)]);
}

#[test]
fn VehicleService_test_to_like_predicate() {
    let filter = vec![
        ("model".to_string(), "Toyota".to_string()),
        ("make".to_string(), "Corolla".to_string()),
    ];
    let predicate = to_like_predicate(&filter, true);
    assert!(predicate.is_some());
}

#[test]
fn PriceStatistic_test_to_like_predicate() {
    let filter = vec![
        ("model".to_string(), "Toyota".to_string()),
        ("make".to_string(), "Corolla".to_string()),
    ];
    let predicate = to_like_predicate(&filter, true);
    assert!(predicate.is_some());
    let clause = predicate.unwrap();
    assert_eq!(
        show(&[clause]),
        vec!["model contains 'Toyota' | make contains 'Corolla'"]
    );
    assert!(to_like_predicate(&Vec::new(), true).is_none());
    let anchored = to_like_predicate(&vec![("model".to_string(), "AMG*".to_string())], false);
    assert_eq!(show(&[anchored.unwrap()]), vec!["model starts 'AMG'"]);
}
