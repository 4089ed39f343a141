//! Interpreting and validating LLM output.
//!
//! The provider itself is an opaque endpoint that lives outside the library;
//! what reaches this module is the raw text it returned. Parsing that text,
//! applying the documented defaults, and above all gating proposed action
//! names against the whitelist of known actions, is all verified here. The
//! LLM never selects an action the whitelist does not contain.

use vstd::prelude::*;
use crate::json::{
    JsonVal, JsonValue, parse_json, spec_parse_json, spec_get_arr, spec_get_str, spec_str_items,
    str_items, view_arr,
};
use crate::runbooks::{ActionSchema, ActionView};
use crate::strutil::str_eq;

verus! {

use vstd::string::StringExecFns;
use vstd::string::StrSliceExecFns;

/// What the interpreter call extracts from recent facts.
#[derive(Debug)]
pub struct Interpretation {
    pub hypothesis: String,
    pub goal: String,
    pub candidate_actions: Vec<String>,
}

/// Mathematical value of an interpretation.
pub struct InterpretationView {
    pub hypothesis: Seq<char>,
    pub goal: Seq<char>,
    pub candidate_actions: Seq<Seq<char>>,
}

impl View for Interpretation {
    type V = InterpretationView;

    open spec fn view(&self) -> InterpretationView {
        InterpretationView {
            hypothesis: self.hypothesis@,
            goal: self.goal@,
            candidate_actions: self.candidate_actions.deep_view(),
        }
    }
}

impl Clone for Interpretation {
    /// Copy with the same mathematical value.
    fn clone(&self) -> (res: Self)
        ensures
            res@ == self@,
    {
        let res = Interpretation {
            hypothesis: self.hypothesis.clone(),
            goal: self.goal.clone(),
            candidate_actions: self.candidate_actions.clone(),
        };
        proof {
            assert(res.candidate_actions.deep_view() =~= self.candidate_actions.deep_view());
        }
        res
    }
}

/// A fact the LLM suggests adding, pending a human decision.
#[derive(Debug)]
pub struct SuggestedFact {
    pub fact_id: String,
    pub title: String,
    pub severity: String,
    pub tags: Vec<String>,
    pub rationale: String,
}

/// Mathematical value of a suggested fact.
pub struct SuggestedFactView {
    pub fact_id: Seq<char>,
    pub title: Seq<char>,
    pub severity: Seq<char>,
    pub tags: Seq<Seq<char>>,
    pub rationale: Seq<char>,
}

impl View for SuggestedFact {
    type V = SuggestedFactView;

    open spec fn view(&self) -> SuggestedFactView {
        SuggestedFactView {
            fact_id: self.fact_id@,
            title: self.title@,
            severity: self.severity@,
            tags: self.tags.deep_view(),
            rationale: self.rationale@,
        }
    }
}

impl DeepView for SuggestedFact {
    type V = SuggestedFactView;

    open spec fn deep_view(&self) -> SuggestedFactView {
        self@
    }
}

/// A string field with a default: the field's value unless it is missing,
/// not a string, or empty.
pub open spec fn spec_str_or(v: JsonVal, key: Seq<char>, dflt: Seq<char>) -> Seq<char> {
    match spec_get_str(v, key) {
        Some(s) => if s.len() > 0 {
            s
        } else {
            dflt
        },
        None => dflt,
    }
}

/// A string field with a default that applies only when the field is
/// missing or not a string; an empty string is kept.
pub open spec fn spec_field_or(v: JsonVal, key: Seq<char>, dflt: Seq<char>) -> Seq<char> {
    match spec_get_str(v, key) {
        Some(s) => s,
        None => dflt,
    }
}

/// The string field under `key`, or the default on a missing or non-string
/// value.
pub fn field_or(v: &JsonValue, key: &str, dflt: &str) -> (r: String)
    ensures
        r@ == spec_field_or(v@, key@, dflt@),
{
    match v.get_str(key) {
        Some(s) => s.clone(),
        None => dflt.to_owned(),
    }
}

/// The string items under an array key; empty when the key is missing or
/// not an array.
pub open spec fn spec_str_list(v: JsonVal, key: Seq<char>) -> Seq<Seq<char>> {
    match spec_get_arr(v, key) {
        Some(xs) => spec_str_items(xs),
        None => Seq::empty(),
    }
}

/// The interpretation a parsed reply decodes to: `hypothesis` defaulting to
/// `unknown`, `goal` defaulting to `recovery_verified`, and the string items
/// of `candidate_actions` passed through.
pub open spec fn spec_interpretation_of(v: JsonVal) -> InterpretationView {
    InterpretationView {
        hypothesis: spec_str_or(v, "hypothesis"@, "unknown"@),
        goal: spec_str_or(v, "goal"@, "recovery_verified"@),
        candidate_actions: spec_str_list(v, "candidate_actions"@),
    }
}

/// The string field under `key`, or the default on a missing, non-string or
/// empty value.
fn str_or(v: &JsonValue, key: &str, dflt: &str) -> (r: String)
    ensures
        r@ == spec_str_or(v@, key@, dflt@),
{
    match v.get_str(key) {
        Some(s) => {
            if s.as_str().unicode_len() > 0 {
                s.clone()
            } else {
                dflt.to_owned()
            }
        },
        None => dflt.to_owned(),
    }
}

/// The string items under an array key, or nothing.
pub fn str_list(v: &JsonValue, key: &str) -> (r: Vec<String>)
    ensures
        r.deep_view() == spec_str_list(v@, key@),
{
    match v.get_arr(key) {
        Some(xs) => {
            let r = str_items(xs);
            proof {
                assert(r.deep_view() =~= r@.map_values(|s: String| s@));
            }
            r
        },
        None => {
            let r: Vec<String> = Vec::new();
            proof {
                assert(r.deep_view() =~= Seq::<Seq<char>>::empty());
            }
            r
        },
    }
}

/// Parse the interpreter's raw reply; see [`spec_interpretation_of`] for
/// the defaults. Fails exactly on text that is not JSON.
pub fn parse_interpretation(raw: &str) -> (r: Result<Interpretation, String>)
    ensures
        match r {
            Ok(interp) => spec_parse_json(raw@) matches Some(v)
                && interp@ == spec_interpretation_of(v),
            Err(e) => spec_parse_json(raw@) is None
                && e@ == "invalid llm interpretation json"@,
        },
{
    let v = match parse_json(raw) {
        Some(v) => v,
        None => {
            return Err(String::from_str("invalid llm interpretation json"));
        },
    };
    Ok(Interpretation {
        hypothesis: str_or(&v, "hypothesis", "unknown"),
        goal: str_or(&v, "goal", "recovery_verified"),
        candidate_actions: str_list(&v, "candidate_actions"),
    })
}

/// Parse the planner's raw reply: the string items under `actions`. Fails
/// exactly on text that is not JSON.
pub fn parse_action_list(raw: &str) -> (r: Result<Vec<String>, String>)
    ensures
        match r {
            Ok(names) => spec_parse_json(raw@) matches Some(v)
                && names.deep_view() == spec_str_list(v, "actions"@),
            Err(e) => spec_parse_json(raw@) is None
                && e@ == "invalid llm action-list json"@,
        },
{
    let v = match parse_json(raw) {
        Some(v) => v,
        None => {
            return Err(String::from_str("invalid llm action-list json"));
        },
    };
    Ok(str_list(&v, "actions"))
}

/// The suggested fact one reply item decodes to: each string field
/// defaulted when missing or not a string (a present empty string is
/// kept), and the string items of `tags`.
pub open spec fn spec_suggested_of(v: JsonVal) -> SuggestedFactView {
    SuggestedFactView {
        fact_id: spec_field_or(v, "fact_id"@, "suggested-fact"@),
        title: spec_field_or(v, "title"@, "Suggested fact"@),
        severity: spec_field_or(v, "severity"@, "high"@),
        tags: spec_str_list(v, "tags"@),
        rationale: spec_field_or(v, "rationale"@, "llm suggestion"@),
    }
}

/// The suggestions a parsed reply decodes to: one per item of the
/// `suggestions` array, or none without such an array.
pub open spec fn spec_suggestions_of(v: JsonVal) -> Seq<SuggestedFactView> {
    match spec_get_arr(v, "suggestions"@) {
        Some(xs) => xs.map_values(|item: JsonVal| spec_suggested_of(item)),
        None => Seq::empty(),
    }
}

/// Parse the suggestion call's raw reply; see [`spec_suggestions_of`].
/// Fails exactly on text that is not JSON.
pub fn parse_suggested_facts(raw: &str) -> (r: Result<Vec<SuggestedFact>, String>)
    ensures
        match r {
            Ok(out) => spec_parse_json(raw@) matches Some(v)
                && out.deep_view() == spec_suggestions_of(v),
            Err(e) => spec_parse_json(raw@) is None
                && e@ == "invalid llm suggestions json"@,
        },
{
    let v = match parse_json(raw) {
        Some(v) => v,
        None => {
            return Err(String::from_str("invalid llm suggestions json"));
        },
    };
    let items = match v.get_arr("suggestions") {
        Some(xs) => xs,
        None => {
            let r: Vec<SuggestedFact> = Vec::new();
            proof {
                assert(r.deep_view() =~= Seq::<SuggestedFactView>::empty());
            }
            return Ok(r);
        },
    };
    let mut out: Vec<SuggestedFact> = Vec::new();
    let mut i: usize = 0;
    while i < items.len()
        invariant
            i <= items@.len(),
            out.deep_view().len() == i,
            forall|j: int| 0 <= j < i
                ==> out.deep_view()[j] == spec_suggested_of(view_arr(items@)[j]),
        decreases items@.len() - i,
    {
        let item = &items[i];
        let ghost prev = out.deep_view();
        out.push(SuggestedFact {
            fact_id: field_or(item, "fact_id", "suggested-fact"),
            title: field_or(item, "title", "Suggested fact"),
            severity: field_or(item, "severity", "high"),
            tags: str_list(item, "tags"),
            rationale: field_or(item, "rationale", "llm suggestion"),
        });
        proof {
            assert(out.deep_view() =~= prev.push(spec_suggested_of(view_arr(items@)[i as int])));
        }
        i += 1;
    }
    proof {
        assert(out.deep_view() =~= view_arr(items@).map_values(|item: JsonVal| spec_suggested_of(item)));
    }
    Ok(out)
}

/// The first action of the whitelist with the given name.
pub open spec fn spec_find_action(all: Seq<ActionView>, name: Seq<char>) -> Option<ActionView>
    decreases all.len(),
{
    if all.len() == 0 {
        None
    } else if all[0].name == name {
        Some(all[0])
    } else {
        spec_find_action(all.drop_first(), name)
    }
}

/// Proposed names resolved against the whitelist, in proposal order;
/// unknown names are dropped.
pub open spec fn spec_selected_actions(names: Seq<Seq<char>>, all: Seq<ActionView>) -> Seq<ActionView>
    decreases names.len(),
{
    if names.len() == 0 {
        Seq::empty()
    } else {
        let rest = spec_selected_actions(names.drop_last(), all);
        match spec_find_action(all, names.last()) {
            Some(a) => rest.push(a),
            None => rest,
        }
    }
}

/// The fallback when no proposed name is known: every whitelist action whose
/// name was a candidate, in whitelist order.
pub open spec fn spec_fallback_actions(all: Seq<ActionView>, candidates: Seq<Seq<char>>) -> Seq<ActionView> {
    all.filter(|a: ActionView| candidates.contains(a.name))
}

/// What the validator returns: the proposed names resolved against the
/// whitelist; when that intersection is empty, the candidate-name fallback.
pub open spec fn spec_validate_actions(
    names: Seq<Seq<char>>,
    candidates: Seq<Seq<char>>,
    all: Seq<ActionView>,
) -> Seq<ActionView> {
    let selected = spec_selected_actions(names, all);
    if selected.len() > 0 {
        selected
    } else {
        spec_fallback_actions(all, candidates)
    }
}

fn find_action(all: &Vec<ActionSchema>, name: &str) -> (r: Option<ActionSchema>)
    ensures
        match r {
            Some(a) => spec_find_action(all.deep_view(), name@) == Some(a@),
            None => spec_find_action(all.deep_view(), name@) is None,
        },
{
    let ghost whole = all.deep_view();
    proof {
        assert(whole.skip(0) =~= whole);
    }
    let mut i: usize = 0;
    while i < all.len()
        invariant
            whole == all.deep_view(),
            whole.len() == all@.len(),
            i <= all@.len(),
            spec_find_action(whole, name@) == spec_find_action(whole.skip(i as int), name@),
        decreases all@.len() - i,
    {
        proof {
            assert(whole.skip(i as int)[0] == whole[i as int]);
        }
        if str_eq(all[i].name.as_str(), name) {
            return Some(all[i].clone());
        }
        proof {
            assert(whole.skip(i as int).drop_first() =~= whole.skip(i + 1 as int));
        }
        i += 1;
    }
    proof {
        assert(whole.skip(i as int).len() == 0);
    }
    None
}

fn contains_name(names: &Vec<String>, name: &str) -> (r: bool)
    ensures
        r == names.deep_view().contains(name@),
{
    let mut i: usize = 0;
    while i < names.len()
        invariant
            i <= names@.len(),
            forall|j: int| 0 <= j < i ==> names.deep_view()[j] != name@,
        decreases names@.len() - i,
    {
        if str_eq(names[i].as_str(), name) {
            proof {
                assert(names.deep_view()[i as int] == name@);
            }
            return true;
        }
        i += 1;
    }
    false
}

/// Gate the LLM's proposed action names against the whitelist `all_actions`:
/// keep, in proposal order, each proposed name the whitelist knows; if none
/// is known, fall back to the whitelist actions whose names were candidates,
/// in whitelist order. Every returned action is a whitelist action.
pub fn validate_actions(
    names: &Vec<String>,
    candidate_actions: &Vec<String>,
    all_actions: &Vec<ActionSchema>,
) -> (r: Vec<ActionSchema>)
    ensures
        r.deep_view() == spec_validate_actions(
            names.deep_view(),
            candidate_actions.deep_view(),
            all_actions.deep_view(),
        ),
        forall|i: int| 0 <= i < r.deep_view().len()
            ==> all_actions.deep_view().contains(#[trigger] r.deep_view()[i]),
{
    let ghost all = all_actions.deep_view();
    let mut selected: Vec<ActionSchema> = Vec::new();
    let mut i: usize = 0;
    proof {
        assert(selected.deep_view()
            =~= spec_selected_actions(names.deep_view().take(0), all));
    }
    while i < names.len()
        invariant
            all == all_actions.deep_view(),
            i <= names@.len(),
            names.deep_view().len() == names@.len(),
            selected.deep_view() == spec_selected_actions(names.deep_view().take(i as int), all),
        decreases names@.len() - i,
    {
        let ghost next_prefix = names.deep_view().take(i + 1 as int);
        proof {
            assert(next_prefix.drop_last() =~= names.deep_view().take(i as int));
            assert(next_prefix.last() == names.deep_view()[i as int]);
        }
        let ghost prev = selected.deep_view();
        match find_action(all_actions, names[i].as_str()) {
            Some(a) => {
                selected.push(a);
                proof {
                    assert(selected.deep_view()
                        =~= prev.push(spec_find_action(all, names.deep_view()[i as int])->0));
                }
            },
            None => {},
        }
        i += 1;
    }
    proof {
        assert(names.deep_view().take(names.deep_view().len() as int) =~= names.deep_view());
    }
    if selected.len() > 0 {
        proof {
            lemma_selected_members(names.deep_view(), all);
        }
        return selected;
    }
    let ghost pred = |a: ActionView| candidate_actions.deep_view().contains(a.name);
    let mut fallback: Vec<ActionSchema> = Vec::new();
    let mut i: usize = 0;
    proof {
        reveal(Seq::filter);
        assert(fallback.deep_view() =~= all.take(0).filter(pred));
    }
    while i < all_actions.len()
        invariant
            all == all_actions.deep_view(),
            all.len() == all_actions@.len(),
            i <= all_actions@.len(),
            fallback.deep_view() == all.take(i as int).filter(pred),
            pred == (|a: ActionView| candidate_actions.deep_view().contains(a.name)),
        decreases all_actions@.len() - i,
    {
        let ghost next_prefix = all.take(i + 1 as int);
        proof {
            reveal(Seq::filter);
            assert(next_prefix.drop_last() =~= all.take(i as int));
            assert(next_prefix.last() == all[i as int]);
        }
        let ghost prev = fallback.deep_view();
        if contains_name(candidate_actions, all_actions[i].name.as_str()) {
            fallback.push(all_actions[i].clone());
            proof {
                assert(fallback.deep_view() =~= prev.push(all[i as int]));
            }
        }
        i += 1;
    }
    proof {
        assert(all.take(all.len() as int) =~= all);
        lemma_filter_members_actions(all, pred);
    }
    fallback
}

/// Every selected action is a whitelist member.
proof fn lemma_selected_members(names: Seq<Seq<char>>, all: Seq<ActionView>)
    ensures
        forall|i: int| 0 <= i < spec_selected_actions(names, all).len()
            ==> all.contains(#[trigger] spec_selected_actions(names, all)[i]),
    decreases names.len(),
{
    if names.len() > 0 {
        lemma_selected_members(names.drop_last(), all);
        let rest = spec_selected_actions(names.drop_last(), all);
        match spec_find_action(all, names.last()) {
            Some(a) => {
                lemma_find_member(all, names.last());
                assert forall|i: int| 0 <= i < spec_selected_actions(names, all).len()
                    implies all.contains(#[trigger] spec_selected_actions(names, all)[i]) by {
                    if i < rest.len() {
                        assert(spec_selected_actions(names, all)[i] == rest[i]);
                    }
                }
            },
            None => {},
        }
    }
}

/// A found action is a whitelist member.
proof fn lemma_find_member(all: Seq<ActionView>, name: Seq<char>)
    requires
        spec_find_action(all, name) is Some,
    ensures
        all.contains(spec_find_action(all, name)->0),
    decreases all.len(),
{
    if all.len() > 0 {
        if all[0].name == name {
        } else {
            lemma_find_member(all.drop_first(), name);
            let a = spec_find_action(all.drop_first(), name)->0;
            let w = choose|w: int| 0 <= w < all.drop_first().len() && all.drop_first()[w] == a;
            assert(all[w + 1] == a);
        }
    }
}

/// Every element of a filtered whitelist is a whitelist member.
proof fn lemma_filter_members_actions(all: Seq<ActionView>, pred: spec_fn(ActionView) -> bool)
    ensures
        forall|i: int| 0 <= i < all.filter(pred).len()
            ==> all.contains(#[trigger] all.filter(pred)[i]),
    decreases all.len(),
{
    reveal(Seq::filter);
    if all.len() > 0 {
        let dl = all.drop_last();
        lemma_filter_members_actions(dl, pred);
        let fdl = dl.filter(pred);
        assert forall|i: int| 0 <= i < all.filter(pred).len()
            implies all.contains(#[trigger] all.filter(pred)[i]) by {
            if pred(all.last()) {
                assert(all.filter(pred) == fdl.push(all.last()));
                if i < fdl.len() {
                    assert(dl.contains(fdl[i]));
                    let w = choose|w: int| 0 <= w < dl.len() && dl[w] == fdl[i];
                    assert(all[w] == all.filter(pred)[i]);
                } else {
                    assert(all[all.len() - 1] == all.filter(pred)[i]);
                }
            } else {
                assert(all.filter(pred) == fdl);
                assert(dl.contains(fdl[i]));
                let w = choose|w: int| 0 <= w < dl.len() && dl[w] == fdl[i];
                assert(all[w] == all.filter(pred)[i]);
            }
        }
    }
}

} // verus!
