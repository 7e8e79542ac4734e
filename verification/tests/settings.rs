use fizz::settings::{day_name_text, day_title_text, workday_names, workdays_from_names};

fn names(all: &[&str]) -> Vec<String> {
    all.iter().map(|n| n.to_string()).collect()
}

#[test]
fn days_by_name() {
    let small = ["sunday", "monday", "tuesday", "wednesday", "thursday", "friday", "saturday"];
    let shown = ["Sunday", "Monday", "Tuesday", "Wednesday", "Thursday", "Friday", "Saturday"];
    for day in 0..7 {
        assert_eq!(day_name_text(day), small[day as usize]);
        assert_eq!(day_title_text(day), shown[day as usize]);
    }
}

#[test]
fn workdays_from_the_names_of_days() {
    assert_eq!(workdays_from_names(&names(&["monday", "tuesday"])), "12");
    assert_eq!(
        workdays_from_names(&names(&["monday", "tuesday", "wednesday", "thursday", "friday"])),
        "12345"
    );
    assert_eq!(workdays_from_names(&names(&["saturday", "sunday"])), "06");
    assert_eq!(
        workdays_from_names(&names(&[
            "sunday", "monday", "tuesday", "wednesday", "thursday", "friday", "saturday"
        ])),
        "0123456"
    );
}

#[test]
fn workdays_come_in_the_order_of_the_week() {
    assert_eq!(workdays_from_names(&names(&["friday", "monday", "wednesday"])), "135");
    assert_eq!(workdays_from_names(&names(&["saturday", "sunday", "monday"])), "016");
}

#[test]
fn workday_named_twice_counts_once() {
    assert_eq!(workdays_from_names(&names(&["monday", "monday", "friday", "monday"])), "15");
}

#[test]
fn names_that_are_no_days_count_for_nothing() {
    assert_eq!(workdays_from_names(&names(&[])), "");
    assert_eq!(workdays_from_names(&names(&[""])), "");
    assert_eq!(workdays_from_names(&names(&["Monday", "mon", "funday", " tuesday"])), "");
    assert_eq!(workdays_from_names(&names(&["someday", "thursday"])), "4");
}

#[test]
fn workdays_by_their_names() {
    assert_eq!(workday_names("12345"), "Monday, Tuesday, Wednesday, Thursday, Friday");
    assert_eq!(workday_names("06"), "Sunday, Saturday");
    assert_eq!(workday_names("3"), "Wednesday");
    assert_eq!(workday_names(""), "");
    assert_eq!(workday_names("531"), "Monday, Wednesday, Friday");
    assert_eq!(workday_names("11"), "Monday");
    assert_eq!(workday_names("789x"), "");
    assert_eq!(
        workday_names("0123456"),
        "Sunday, Monday, Tuesday, Wednesday, Thursday, Friday, Saturday"
    );
}

#[test]
fn names_and_digits_agree() {
    let all = ["sunday", "monday", "tuesday", "wednesday", "thursday", "friday", "saturday"];
    for day in 0..7u32 {
        let digits = workdays_from_names(&names(&[all[day as usize]]));
        assert_eq!(digits, day.to_string());
        assert_eq!(workday_names(&digits), day_title_text(day));
        assert!(fizz::window::is_workday(&digits, day));
    }
}
