//! The names of schedules.
use crate::defaults;
use crate::error::{Error, ErrorModel};
use crate::gc;
use crate::names;
use crate::text;
use vstd::prelude::*;

verus! {

/// What is wrong with the name of a schedule. The name of the older, unnamed schedule is taken.
pub open spec fn problem(name: Seq<char>) -> Option<Seq<char>> {
    match defaults::name_problem("schedule"@, name) {
        Some(complaint) => Some(complaint),
        None => if name == "daily"@ {
            Some("schedule name 'daily' is reserved for legacy migration"@)
        } else {
            None
        },
    }
}

/// Accepts the name of a schedule, or says what is wrong with it.
pub fn validate_schedule_name(name: &str) -> (r: Result<(), Error>)
    ensures
        gc::done_model(r) == (match problem(name@) {
            Some(complaint) => Err(ErrorModel::plain(complaint)),
            None => Ok(()),
        }),
        r is Ok <==> defaults::valid_name(name@) && name@ != "daily"@,
{
    match defaults::validate_registration_name("schedule", name) {
        Ok(()) => {},
        Err(e) => return Err(e),
    }
    if text::same(name, "daily") {
        return Err(Error::new("schedule name 'daily' is reserved for legacy migration".to_owned()));
    }
    Ok(())
}

/// `shown` holds the names that are shown: the given ones once each in order, or the usual name
/// where none is given.
pub open spec fn printable(given: Seq<Seq<char>>, shown: Seq<Seq<char>>) -> bool {
    if given.len() == 0 {
        shown == seq!["default"@]
    } else {
        names::distinct_from(given, shown)
    }
}

/// The names that are shown.
pub fn printable_schedule_names(given: &Vec<String>) -> (r: Vec<String>)
    ensures
        printable(given.deep_view(), r.deep_view()),
{
    let mut shown: Vec<String> = Vec::new();
    if given.len() == 0 {
        names::put(&mut shown, "default".to_owned());
        assert(shown.deep_view() =~= seq!["default"@]);
        return shown;
    }
    let mut i: usize = 0;
    while i < given.len()
        invariant
            i <= given.len(),
            shown.deep_view() == given.deep_view().subrange(0, i as int),
        decreases given.len() - i,
    {
        names::put(&mut shown, given[i].clone());
        assert(shown.deep_view() =~= given.deep_view().subrange(0, i + 1));
        i = i + 1;
    }
    assert(shown.deep_view() =~= given.deep_view());
    names::sort_distinct(&mut shown);
    shown
}

} // verus!
