//! Runbook selection.
//!
//! The planner prefers a declared runbook: for a recognized pattern it picks
//! the first runbook whose name (lowered) contains the preferred keyword;
//! a generic pattern selects nothing.

use vstd::prelude::*;
use crate::rules::IncidentPattern;
use crate::runbooks::{ActionView, Runbook};
use crate::strutil::{spec_lower, spec_contains, lower_contains};

verus! {

/// The keyword a pattern asks for in a runbook name, if any.
pub open spec fn spec_preferred_keyword(pattern: IncidentPattern) -> Option<Seq<char>> {
    match pattern {
        IncidentPattern::CrashLoop => Some("crashloop"@),
        IncidentPattern::OomKill => Some("oomkill"@),
        IncidentPattern::Generic => None,
    }
}

/// A runbook name matches when, lowered, it contains the keyword.
pub open spec fn spec_name_matches(name: Seq<char>, keyword: Seq<char>) -> bool {
    spec_contains(spec_lower(name), keyword)
}

/// The first runbook in the list whose name matches the pattern's keyword;
/// `None` for a generic pattern or when nothing matches.
pub open spec fn spec_select_runbook(
    pattern: IncidentPattern,
    runbooks: Seq<(Seq<char>, Seq<ActionView>)>,
) -> Option<(Seq<char>, Seq<ActionView>)> {
    match spec_preferred_keyword(pattern) {
        None => None,
        Some(keyword) => spec_first_matching(runbooks, keyword),
    }
}

/// The first entry whose name matches the keyword.
pub open spec fn spec_first_matching(
    runbooks: Seq<(Seq<char>, Seq<ActionView>)>,
    keyword: Seq<char>,
) -> Option<(Seq<char>, Seq<ActionView>)>
    decreases runbooks.len(),
{
    if runbooks.len() == 0 {
        None
    } else if spec_name_matches(runbooks[0].0, keyword) {
        Some(runbooks[0])
    } else {
        spec_first_matching(runbooks.drop_first(), keyword)
    }
}

/// The mathematical value of a declared runbook list.
pub open spec fn spec_runbooks_view(runbooks: Seq<(&str, Runbook)>) -> Seq<(Seq<char>, Seq<ActionView>)> {
    runbooks.map_values(|e: (&str, Runbook)| (e.0@, e.1.deep_view()))
}

/// Select the first declared runbook matching the pattern, as
/// [`spec_select_runbook`] says: `CrashLoop` looks for `crashloop` in a
/// name, `OomKill` for `oomkill`, `Generic` selects nothing.
pub fn select_runbook(
    pattern: IncidentPattern,
    runbooks: &[(&'static str, Runbook)],
) -> (r: Option<(&'static str, Runbook)>)
    ensures
        match r {
            Some(found) => spec_select_runbook(pattern, spec_runbooks_view(runbooks@))
                == Some((found.0@, found.1.deep_view())),
            None => spec_select_runbook(pattern, spec_runbooks_view(runbooks@)) is None,
        },
{
    let keyword: &str = match pattern {
        IncidentPattern::CrashLoop => "crashloop",
        IncidentPattern::OomKill => "oomkill",
        IncidentPattern::Generic => {
            return None;
        },
    };
    let ghost all = spec_runbooks_view(runbooks@);
    proof {
        assert(all.skip(0) =~= all);
    }
    let mut i: usize = 0;
    while i < runbooks.len()
        invariant
            all == spec_runbooks_view(runbooks@),
            all.len() == runbooks@.len(),
            spec_preferred_keyword(pattern) == Some(keyword@),
            i <= runbooks@.len(),
            spec_first_matching(all, keyword@) == spec_first_matching(all.skip(i as int), keyword@),
        decreases runbooks@.len() - i,
    {
        let entry = &runbooks[i];
        proof {
            assert(all.skip(i as int)[0] == all[i as int]);
            assert(all[i as int] == (runbooks@[i as int].0@, runbooks@[i as int].1.deep_view()));
        }
        if lower_contains(entry.0, keyword) {
            let cloned: Runbook = entry.1.clone();
            proof {
                assert(cloned.deep_view() =~= entry.1.deep_view());
            }
            return Some((entry.0, cloned));
        }
        proof {
            assert(all.skip(i as int).drop_first() =~= all.skip(i + 1 as int));
        }
        i += 1;
    }
    proof {
        assert(all.skip(i as int).len() == 0);
    }
    None
}

} // verus!
