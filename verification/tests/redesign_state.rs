use mameuix::models::RomStatus;
use mameuix::redesign::state::{RedesignCollection, RedesignState, YearDecade};

#[test]
fn filter_decades_are_fixed_to_1960s_through_2020s() {
    let sixties = YearDecade::from_year(1965).expect("valid four-digit year");
    let twenties = YearDecade::from_year(2029).expect("valid filter year");

    assert_eq!(sixties.label(), "1960s");
    assert_eq!(sixties.range(), (1960, 1969));
    assert_eq!(twenties.label(), "2020s");
    assert_eq!(twenties.range(), (2020, 2029));
    assert_eq!(
        YearDecade::filter_choices().map(|decade| decade.label()),
        ["1960s", "1970s", "1980s", "1990s", "2000s", "2010s", "2020s"]
    );
    assert_eq!(YearDecade::from_year(1959), None);
    assert_eq!(YearDecade::from_year(2030), None);
}

#[test]
fn missing_and_issues_are_disjoint_status_collections() {
    assert!(RedesignCollection::Missing.matches_status(RomStatus::Missing));
    assert!(!RedesignCollection::Issues.matches_status(RomStatus::Missing));

    for status in [
        RomStatus::ChdMissing,
        RomStatus::ChdRequired,
        RomStatus::Incorrect,
        RomStatus::NotWorking,
        RomStatus::Preliminary,
    ] {
        assert!(RedesignCollection::Issues.matches_status(status));
        assert!(!RedesignCollection::Missing.matches_status(status));
    }

    assert!(!RedesignCollection::Issues.matches_status(RomStatus::Available));
    assert!(!RedesignCollection::Issues.matches_status(RomStatus::Unknown));
}

#[test]
fn search_focus_request_is_consumed_once() {
    let mut state = RedesignState::new();

    assert!(!state.take_search_focus_request());
    state.request_search_focus();
    assert!(state.take_search_focus_request());
    assert!(!state.take_search_focus_request());
}

#[test]
fn decade_of_a_year_contains_that_year() {
    for year in [1960u16, 1969, 1970, 1985, 1999, 2000, 2024, 2029] {
        let decade = YearDecade::from_year(year).expect("year inside the filter range");
        let (from, to) = decade.range();
        assert!(from <= year && year <= to);
        assert_eq!(to - from, 9);
        assert_eq!(from % 10, 0);
    }
}

#[test]
fn every_status_falls_in_at_most_one_of_missing_and_issues() {
    for status in [
        RomStatus::Available,
        RomStatus::Missing,
        RomStatus::Incorrect,
        RomStatus::NotWorking,
        RomStatus::Preliminary,
        RomStatus::ChdRequired,
        RomStatus::ChdMissing,
        RomStatus::Unknown,
    ] {
        assert!(
            !(RedesignCollection::Missing.matches_status(status)
                && RedesignCollection::Issues.matches_status(status))
        );
        assert!(RedesignCollection::AllGames.matches_status(status));
    }
}
