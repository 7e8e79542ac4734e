//! What users tell of themselves: their workdays, by the names of the days.

use vstd::prelude::*;
use vstd::string::*;
use crate::render::texts;
use crate::window::{is_workday, weekday_digit, works_on};

verus! {

/// The name of a day of the week as users write it: in small letters,
/// Sunday being day 0 and Saturday day 6 (and any later one).
pub open spec fn day_name(day: u32) -> Seq<char> {
    if day == 0 {
        "sunday"@
    } else if day == 1 {
        "monday"@
    } else if day == 2 {
        "tuesday"@
    } else if day == 3 {
        "wednesday"@
    } else if day == 4 {
        "thursday"@
    } else if day == 5 {
        "friday"@
    } else {
        "saturday"@
    }
}

/// The name of a day of the week as it is shown, Sunday being day 0 and
/// Saturday day 6 (and any later one).
pub open spec fn day_title(day: u32) -> Seq<char> {
    if day == 0 {
        "Sunday"@
    } else if day == 1 {
        "Monday"@
    } else if day == 2 {
        "Tuesday"@
    } else if day == 3 {
        "Wednesday"@
    } else if day == 4 {
        "Thursday"@
    } else if day == 5 {
        "Friday"@
    } else {
        "Saturday"@
    }
}

/// The name of a day of the week as users write it.
pub fn day_name_text(day: u32) -> (r: &'static str)
    ensures
        r@ == day_name(day),
{
    if day == 0 {
        "sunday"
    } else if day == 1 {
        "monday"
    } else if day == 2 {
        "tuesday"
    } else if day == 3 {
        "wednesday"
    } else if day == 4 {
        "thursday"
    } else if day == 5 {
        "friday"
    } else {
        "saturday"
    }
}

/// The name of a day of the week as it is shown.
pub fn day_title_text(day: u32) -> (r: &'static str)
    ensures
        r@ == day_title(day),
{
    if day == 0 {
        "Sunday"
    } else if day == 1 {
        "Monday"
    } else if day == 2 {
        "Tuesday"
    } else if day == 3 {
        "Wednesday"
    } else if day == 4 {
        "Thursday"
    } else if day == 5 {
        "Friday"
    } else {
        "Saturday"
    }
}

fn digit_of_day(day: u32) -> (r: &'static str)
    requires
        day < 7,
    ensures
        weekday_digit(day) == Some(r@[0]),
        r@.len() == 1,
{
    proof {
        reveal_strlit("0");
        reveal_strlit("1");
        reveal_strlit("2");
        reveal_strlit("3");
        reveal_strlit("4");
        reveal_strlit("5");
        reveal_strlit("6");
    }
    if day == 0 {
        "0"
    } else if day == 1 {
        "1"
    } else if day == 2 {
        "2"
    } else if day == 3 {
        "3"
    } else if day == 4 {
        "4"
    } else if day == 5 {
        "5"
    } else {
        "6"
    }
}

/// The digits of the days from `day` on that are among the names, in the
/// order of the week.
pub open spec fn workdays_from(names: Seq<Seq<char>>, day: u32) -> Seq<char>
    decreases 7 - day,
{
    if day >= 7 {
        Seq::empty()
    } else if names.contains(day_name(day)) {
        seq![weekday_digit(day)->0] + workdays_from(names, (day + 1) as u32)
    } else {
        workdays_from(names, (day + 1) as u32)
    }
}

/// The list of workdays for the days that the user named: the digit of
/// every day whose name is among `names`, in the order of the week. A name
/// that is no day's name counts for nothing.
pub fn workdays_from_names(names: &Vec<String>) -> (r: String)
    ensures
        r@ == workdays_from(texts(names@), 0),
{
    let mut workdays = String::new();
    let mut day: u32 = 7;
    while day > 0
        invariant
            day <= 7,
            workdays@ == workdays_from(texts(names@), day),
        decreases day,
    {
        day -= 1;
        let name = String::from_str(day_name_text(day));
        let mut found = false;
        let mut i: usize = 0;
        while i < names.len()
            invariant
                i <= names@.len(),
                name@ == day_name(day),
                found == texts(names@).take(i as int).contains(day_name(day)),
            decreases names@.len() - i,
        {
            proof {
                let all = texts(names@);
                assert(all.take(i + 1) =~= all.take(i as int).push(names@[i as int]@));
                if all.take(i as int).contains(day_name(day)) {
                    let k = choose|k: int|
                        0 <= k < all.take(i as int).len() && all.take(i as int)[k] == day_name(day);
                    assert(all.take(i + 1)[k] == day_name(day));
                }
                if names@[i as int]@ == day_name(day) {
                    assert(all.take(i + 1)[i as int] == day_name(day));
                }
            }
            if names[i] == name {
                found = true;
            }
            i += 1;
        }
        assert(texts(names@).take(i as int) =~= texts(names@));
        if found {
            let digit = digit_of_day(day);
            let mut grown = String::from_str(digit);
            grown.append(workdays.as_str());
            proof {
                assert(digit@ =~= seq![weekday_digit(day)->0]);
            }
            workdays = grown;
        }
    }
    workdays
}

/// The names of the workdays from `day` on, each but the first of all
/// with a comma and a blank before it; `shown` is what the days before
/// gave.
pub open spec fn workday_names_from(workdays: Seq<char>, day: u32, shown: Seq<char>) -> Seq<char>
    decreases 7 - day,
{
    if day >= 7 {
        shown
    } else if works_on(workdays, day) {
        workday_names_from(
            workdays,
            (day + 1) as u32,
            if shown.len() == 0 {
                day_title(day)
            } else {
                shown + ", "@ + day_title(day)
            },
        )
    } else {
        workday_names_from(workdays, (day + 1) as u32, shown)
    }
}

/// The workdays by their names, in the order of the week, with a comma
/// and a blank between them.
pub fn workday_names(workdays: &str) -> (r: String)
    ensures
        r@ == workday_names_from(workdays@, 0, Seq::empty()),
{
    let mut shown = String::new();
    let mut day: u32 = 0;
    while day < 7
        invariant
            day <= 7,
            workday_names_from(workdays@, day, shown@) == workday_names_from(
                workdays@,
                0,
                Seq::empty(),
            ),
        decreases 7 - day,
    {
        if is_workday(workdays, day) {
            let ghost before = shown@;
            if !shown.as_str().is_empty() {
                shown.append(", ");
            }
            shown.append(day_title_text(day));
            proof {
                if before.len() == 0 {
                    assert(shown@ =~= day_title(day));
                }
            }
        }
        day += 1;
    }
    shown
}

} // verus!
