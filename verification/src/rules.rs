//! Pattern detection.
//!
//! A fact is mapped to a coarse incident pattern by case-insensitive
//! keyword matching on the alert's title and tags; the first rule that
//! matches wins.

use vstd::prelude::*;
use crate::facts::{Fact, FactView};
use crate::strutil::{spec_lower, spec_contains, lower_chars, contains_chars, lower_contains};

verus! {

/// A coarse classification of an incident.
#[derive(Clone, Copy, Debug, PartialEq, Eq, Structural)]
pub enum IncidentPattern {
    CrashLoop,
    OomKill,
    Generic,
}

/// Some tag, lowered, contains the needle.
pub open spec fn spec_any_tag_contains(tags: Seq<Seq<char>>, needle: Seq<char>) -> bool {
    exists|i: int| 0 <= i < tags.len() && spec_contains(spec_lower(#[trigger] tags[i]), needle)
}

/// The pattern a fact falls under: `CrashLoop` when title or a tag mentions
/// `crashloop`; else `OomKill` when title mentions `oom` or `out of memory`
/// or a tag mentions `oom`; else `Generic`. All matching is on ASCII-lowered
/// text.
pub open spec fn spec_detect_pattern(f: FactView) -> IncidentPattern {
    match f {
        FactView::Alert(a) => {
            let title = spec_lower(a.title);
            if spec_contains(title, "crashloop"@) || spec_any_tag_contains(a.tags, "crashloop"@) {
                IncidentPattern::CrashLoop
            } else if spec_contains(title, "oom"@) || spec_contains(title, "out of memory"@)
                || spec_any_tag_contains(a.tags, "oom"@) {
                IncidentPattern::OomKill
            } else {
                IncidentPattern::Generic
            }
        },
    }
}

fn any_tag_contains(tags: &Vec<String>, needle: &str) -> (r: bool)
    ensures
        r == spec_any_tag_contains(tags.deep_view(), needle@),
{
    let mut i: usize = 0;
    while i < tags.len()
        invariant
            i <= tags@.len(),
            forall|j: int| 0 <= j < i
                ==> !spec_contains(spec_lower(#[trigger] tags.deep_view()[j]), needle@),
        decreases tags@.len() - i,
    {
        let lowered = lower_chars(tags[i].as_str());
        if contains_chars(&lowered, needle) {
            proof {
                assert(tags.deep_view()[i as int] == tags@[i as int]@);
                assert(spec_contains(spec_lower(tags.deep_view()[i as int]), needle@));
            }
            return true;
        }
        i += 1;
    }
    false
}

/// Classify a fact; see [`spec_detect_pattern`] for the policy.
pub fn detect_pattern(fact: &Fact) -> (r: IncidentPattern)
    ensures
        r == spec_detect_pattern(fact@),
{
    match fact {
        Fact::Alert(a) => {
            if lower_contains(a.title.as_str(), "crashloop")
                || any_tag_contains(&a.tags, "crashloop") {
                IncidentPattern::CrashLoop
            } else if lower_contains(a.title.as_str(), "oom")
                || lower_contains(a.title.as_str(), "out of memory")
                || any_tag_contains(&a.tags, "oom") {
                IncidentPattern::OomKill
            } else {
                IncidentPattern::Generic
            }
        },
    }
}

} // verus!
