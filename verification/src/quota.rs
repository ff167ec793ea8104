//! Classification of rate-limit windows into the 5-hour and the weekly quota,
//! by exact window duration first, then by the identifiers and names the
//! server gives, never by slot position.
use vstd::prelude::*;
use crate::fixed::HUNDRED_PERCENT;
use crate::json::{
    JsonValue, json_get, json_i64, json_millionths, json_str, deref_json, opt_i64, opt_millionths,
    opt_string,
};
use crate::meter::{LimitWindow, LimitModel, opt_limit};
use crate::text::{
    chars_of, string_from_chars, copy_string, opt_chars, trimmed, trim_chars, ascii_lowered, ascii_lowercase,
    contains_seq, contains_str, str_eq,
};

verus! {

broadcast use vstd::string::group_string_axioms;

/// The windows chosen for each quota.
#[derive(Debug, Clone)]
pub struct NormalizedRateLimits {
    pub five_hour: Option<LimitWindow>,
    pub weekly: Option<LimitWindow>,
}

/// The two quotas.
#[derive(Debug, Clone, Copy, PartialEq, Eq, Structural)]
pub enum QuotaKind {
    FiveHour,
    Weekly,
}

/// Exact duration of the 5-hour window, in minutes.
pub const FIVE_HOUR_MINUTES: i64 = 300;
/// Exact duration of the weekly window, in minutes.
pub const WEEKLY_MINUTES: i64 = 10_080;

/// `a - b`, held to the `i64` range.
pub open spec fn sub_capped(a: i64, b: i64) -> i64 {
    if a - b > i64::MAX { i64::MAX } else if a - b < i64::MIN { i64::MIN } else { (a - b) as i64 }
}

/// `a - b`, held to the `i64` range.
pub fn sub_capped_of(a: i64, b: i64) -> (r: i64)
    ensures
        r == sub_capped(a, b),
{
    let d = a as i128 - b as i128;
    if d > i64::MAX as i128 { i64::MAX } else if d < i64::MIN as i128 { i64::MIN } else { d as i64 }
}

/// The first of `keys` whose member is a string, and that string.
pub open spec fn first_string_member(v: JsonValue, keys: Seq<Seq<char>>) -> Option<Seq<char>>
    decreases keys.len(),
{
    if keys.len() == 0 {
        None
    } else {
        match json_str(json_get(v, keys[0])) {
            Some(s) => Some(s),
            None => first_string_member(v, keys.drop_first()),
        }
    }
}

/// The trimmed string of the first of `keys` that holds a string, when it is not blank.
pub open spec fn semantic_value_spec(v: JsonValue, keys: Seq<Seq<char>>) -> Option<Seq<char>> {
    match first_string_member(v, keys) {
        Some(s) => if trimmed(s).len() > 0 { Some(trimmed(s)) } else { None },
        None => None,
    }
}

/// The members that identify a window.
pub open spec fn id_keys() -> Seq<Seq<char>> {
    seq!["id"@, "limitId"@, "rateLimitId"@]
}

/// The members that name a window.
pub open spec fn name_keys() -> Seq<Seq<char>> {
    seq!["name"@, "label"@]
}

fn semantic_value(value: &JsonValue, keys: &Vec<&str>) -> (r: Option<String>)
    ensures
        opt_chars(r) == semantic_value_spec(*value, keys@.map_values(|k: &str| k@)),
{
    let ghost ks = keys@.map_values(|k: &str| k@);
    let mut found: Option<&String> = None;
    let mut i: usize = 0;
    assert(ks.skip(0) =~= ks);
    while found.is_none() && i < keys.len()
        invariant
            ks == keys@.map_values(|k: &str| k@),
            i <= keys@.len(),
            found is None ==> first_string_member(*value, ks) == first_string_member(*value, ks.skip(i as int)),
            found matches Some(s) ==> first_string_member(*value, ks) == Some(s@),
        decreases keys@.len() - i,
    {
        let ghost rest = ks.skip(i as int);
        assert(rest[0] == keys@[i as int]@);
        assert(rest.drop_first() =~= ks.skip(i + 1));
        match value.get(keys[i]) {
            Some(member) => match member.as_str() {
                Some(s) => {
                    found = Some(s);
                },
                None => {},
            },
            None => {},
        }
        i = i + 1;
    }
    proof {
        if found is None {
            assert(ks.skip(i as int).len() == 0);
        }
    }
    match found {
        Some(s) => {
            let chars = chars_of(s.as_str());
            let t = trim_chars(&chars);
            if t.len() > 0 { Some(string_from_chars(&t)) } else { None }
        },
        None => None,
    }
}

/// A window read from the member `source_key` of the rate-limit object.
pub open spec fn parsed_limit(source_key: Seq<char>, value: Option<JsonValue>) -> Option<LimitModel> {
    match value {
        None => None,
        Some(JsonValue::Null) => None,
        Some(v) => {
            let used = json_millionths(json_get(v, "usedPercent"@));
            let remaining = match json_millionths(json_get(v, "remainingPercent"@)) {
                Some(r) => Some(r),
                None => match used {
                    Some(u) => Some(sub_capped(HUNDRED_PERCENT, u)),
                    None => None,
                },
            };
            let duration = json_i64(json_get(v, "windowDurationMins"@));
            let resets_at = json_i64(json_get(v, "resetsAt"@));
            let reached_type = json_str(json_get(v, "rateLimitReachedType"@));
            if used is None && remaining is None && duration is None && resets_at is None && reached_type is None {
                None
            } else {
                let semantic_id = match semantic_value_spec(v, id_keys()) {
                    Some(id) => Some(id),
                    None => if source_key == "primary"@ || source_key == "secondary"@ { None } else { Some(source_key) },
                };
                let semantic_label = semantic_value_spec(v, name_keys());
                Some(LimitModel {
                    label: match semantic_label {
                        Some(l) => l,
                        None => match semantic_id {
                            Some(id) => id,
                            None => Seq::empty(),
                        },
                    },
                    used_percent: used,
                    remaining_percent: remaining,
                    window_duration_mins: duration,
                    resets_at,
                    reset_text: None,
                    reached_type,
                    semantic_id,
                    semantic_label,
                })
            }
        },
    }
}

/// Reads one window: none for a missing or `null` member, or when it has
/// no usage, duration, reset time or reached-type field. The remaining
/// percentage falls back to 100 minus the used one; the identifier falls
/// back to the member's key unless that key is a bare slot name.
pub fn parse_limit(source_key: &str, value: Option<&JsonValue>) -> (r: Option<LimitWindow>)
    ensures
        opt_limit(r) == parsed_limit(source_key@, deref_json(value)),
{
    let value = match value {
        Some(v) => v,
        None => {
            return None;
        },
    };
    if value.is_null() {
        return None;
    }
    let used = opt_millionths(value.get("usedPercent"));
    let remaining = match opt_millionths(value.get("remainingPercent")) {
        Some(r) => Some(r),
        None => match used {
            Some(u) => Some(sub_capped_of(HUNDRED_PERCENT, u)),
            None => None,
        },
    };
    let duration = opt_i64(value.get("windowDurationMins"));
    let resets_at = opt_i64(value.get("resetsAt"));
    let reached_type = opt_string(value.get("rateLimitReachedType"));
    if used.is_none() && remaining.is_none() && duration.is_none() && resets_at.is_none() && reached_type.is_none() {
        return None;
    }
    let id_names = vec!["id", "limitId", "rateLimitId"];
    assert(id_names@.map_values(|k: &str| k@) =~= id_keys());
    let semantic_id = match semantic_value(value, &id_names) {
        Some(id) => Some(id),
        None => if str_eq(source_key, "primary") || str_eq(source_key, "secondary") {
            None
        } else {
            Some(source_key.to_string())
        },
    };
    let label_names = vec!["name", "label"];
    assert(label_names@.map_values(|k: &str| k@) =~= name_keys());
    let semantic_label = semantic_value(value, &label_names);
    let label = match &semantic_label {
        Some(l) => copy_string(l),
        None => match &semantic_id {
            Some(id) => copy_string(id),
            None => String::new(),
        },
    };
    Some(LimitWindow {
        label,
        used_percent: used,
        remaining_percent: remaining,
        window_duration_mins: duration,
        resets_at,
        reset_text: None,
        reached_type,
        semantic_id,
        semantic_label,
    })
}

/// The windows of every member of an object, in the order of its members;
/// members that are not windows are skipped. Other values give none.
pub open spec fn collected_limits(names: Seq<String>, values: Seq<JsonValue>) -> Seq<LimitModel>
    decreases names.len(),
{
    if names.len() == 0 || values.len() == 0 {
        Seq::empty()
    } else {
        let rest = collected_limits(names.drop_first(), values.drop_first());
        match parsed_limit(names[0]@, Some(values[0])) {
            Some(l) => seq![l] + rest,
            None => rest,
        }
    }
}

pub open spec fn collect_limit_windows_spec(v: JsonValue) -> Seq<LimitModel> {
    match v {
        JsonValue::Object(names, values) => collected_limits(names@, values@),
        _ => Seq::empty(),
    }
}

proof fn lemma_collected_step(names: Seq<String>, values: Seq<JsonValue>, i: int)
    requires
        0 <= i < names.len(),
        i < values.len(),
    ensures
        collected_limits(names.skip(i), values.skip(i)) == (match parsed_limit(names[i]@, Some(values[i])) {
            Some(l) => seq![l] + collected_limits(names.skip(i + 1), values.skip(i + 1)),
            None => collected_limits(names.skip(i + 1), values.skip(i + 1)),
        }),
{
    assert(names.skip(i).drop_first() =~= names.skip(i + 1));
    assert(values.skip(i).drop_first() =~= values.skip(i + 1));
    assert(names.skip(i)[0] == names[i]);
    assert(values.skip(i)[0] == values[i]);
}

/// The windows of every member of the rate-limit object (see `collected_limits`).
pub fn collect_limit_windows(value: &JsonValue) -> (r: Vec<LimitWindow>)
    ensures
        r@.map_values(|l: LimitWindow| l@) == collect_limit_windows_spec(*value),
{
    let mut out: Vec<LimitWindow> = Vec::new();
    match value {
        JsonValue::Object(names, values) => {
            let ghost all = collected_limits(names@, values@);
            assert(names@.skip(0) =~= names@);
            assert(values@.skip(0) =~= values@);
            let mut i: usize = 0;
            while i < names.len() && i < values.len()
                invariant
                    i <= names@.len(),
                    i <= values@.len(),
                    all == collected_limits(names@, values@),
                    all == out@.map_values(|l: LimitWindow| l@) + collected_limits(names@.skip(i as int), values@.skip(i as int)),
                decreases names@.len() - i,
            {
                proof {
                    lemma_collected_step(names@, values@, i as int);
                }
                let ghost before = out@.map_values(|l: LimitWindow| l@);
                match parse_limit(names[i].as_str(), Some(&values[i])) {
                    Some(l) => {
                        out.push(l);
                        assert(out@.map_values(|l: LimitWindow| l@) =~= before.push(out@.last()@));
                    },
                    None => {},
                }
                i = i + 1;
            }
            proof {
                if i == names@.len() {
                    assert(names@.skip(i as int).len() == 0);
                } else {
                    assert(values@.skip(i as int).len() == 0);
                }
                assert(all =~= out@.map_values(|l: LimitWindow| l@));
            }
        },
        _ => {
            assert(out@.map_values(|l: LimitWindow| l@) =~= Seq::<LimitModel>::empty());
        },
    }
    out
}

/// Words that speak of the 5-hour quota.
pub open spec fn five_hour_keywords() -> Seq<Seq<char>> {
    seq!["5h"@, "5-hour"@, "5 hour"@, "five hour"@, "session"@, "short"@]
}

/// Words that speak of the weekly quota.
pub open spec fn weekly_keywords() -> Seq<Seq<char>> {
    seq!["weekly"@, "week"@, "7-day"@, "7 day"@, "周"@, "long"@]
}

pub open spec fn mentions_any(s: Seq<char>, words: Seq<Seq<char>>) -> bool {
    exists|i: int| 0 <= i < words.len() && contains_seq(s, words[i])
}

/// The quota a name or identifier speaks of, compared without ASCII case: a
/// 5-hour word and no weekly word, or the other way round; none when it
/// names both or neither.
pub open spec fn classify_semantic_spec(value: Option<Seq<char>>) -> Option<QuotaKind> {
    match value {
        None => None,
        Some(v) => {
            let lower = ascii_lowered(v);
            let five_hour = mentions_any(lower, five_hour_keywords());
            let weekly = mentions_any(lower, weekly_keywords());
            if five_hour && !weekly {
                Some(QuotaKind::FiveHour)
            } else if !five_hour && weekly {
                Some(QuotaKind::Weekly)
            } else {
                None
            }
        },
    }
}

fn mentions_any_of(s: &Vec<char>, words: &Vec<&str>) -> (r: bool)
    ensures
        r == mentions_any(s@, words@.map_values(|w: &str| w@)),
{
    let ghost ws = words@.map_values(|w: &str| w@);
    let mut i: usize = 0;
    while i < words.len()
        invariant
            ws == words@.map_values(|w: &str| w@),
            i <= words@.len(),
            forall|j: int| 0 <= j < i ==> !contains_seq(s@, ws[j]),
        decreases words@.len() - i,
    {
        if contains_str(s, words[i]) {
            assert(contains_seq(s@, ws[i as int]));
            return true;
        }
        i = i + 1;
    }
    false
}

/// The quota a name or identifier speaks of (see `classify_semantic_spec`).
pub fn classify_semantic(value: Option<&String>) -> (r: Option<QuotaKind>)
    ensures
        r == classify_semantic_spec(match value { Some(s) => Some(s@), None => None }),
{
    let value = match value {
        Some(v) => v,
        None => {
            return None;
        },
    };
    let chars = chars_of(value.as_str());
    let lower = ascii_lowercase(&chars);
    let five_words = vec!["5h", "5-hour", "5 hour", "five hour", "session", "short"];
    assert(five_words@.map_values(|w: &str| w@) =~= five_hour_keywords());
    let weekly_words = vec!["weekly", "week", "7-day", "7 day", "周", "long"];
    assert(weekly_words@.map_values(|w: &str| w@) =~= weekly_keywords());
    let five_hour = mentions_any_of(&lower, &five_words);
    let weekly = mentions_any_of(&lower, &weekly_words);
    if five_hour && !weekly {
        Some(QuotaKind::FiveHour)
    } else if !five_hour && weekly {
        Some(QuotaKind::Weekly)
    } else {
        None
    }
}

/// The quota of a window and how sure that is: an exact duration (3), the
/// server's identifier (2), the server's name (1).
pub open spec fn classify_limit_spec(l: LimitModel) -> Option<(QuotaKind, u8)> {
    if l.window_duration_mins == Some(FIVE_HOUR_MINUTES) {
        Some((QuotaKind::FiveHour, 3))
    } else if l.window_duration_mins == Some(WEEKLY_MINUTES) {
        Some((QuotaKind::Weekly, 3))
    } else {
        match classify_semantic_spec(l.semantic_id) {
            Some(k) => Some((k, 2)),
            None => match classify_semantic_spec(l.semantic_label) {
                Some(k) => Some((k, 1)),
                None => None,
            },
        }
    }
}

/// The quota of a window and how sure that is (see `classify_limit_spec`).
pub fn classify_limit(limit: &LimitWindow) -> (r: Option<(QuotaKind, u8)>)
    ensures
        r == classify_limit_spec(limit@),
{
    match limit.window_duration_mins {
        Some(m) => {
            if m == FIVE_HOUR_MINUTES {
                return Some((QuotaKind::FiveHour, 3));
            }
            if m == WEEKLY_MINUTES {
                return Some((QuotaKind::Weekly, 3));
            }
        },
        None => {},
    }
    match classify_semantic(limit.semantic_id.as_ref()) {
        Some(k) => Some((k, 2)),
        None => match classify_semantic(limit.semantic_label.as_ref()) {
            Some(k) => Some((k, 1)),
            None => None,
        },
    }
}

/// The best window of one quota among `limits`: the first with the highest
/// confidence, each with its confidence.
pub open spec fn best_for(limits: Seq<LimitModel>, kind: QuotaKind) -> Option<(u8, LimitModel)>
    decreases limits.len(),
{
    if limits.len() == 0 {
        None
    } else {
        let before = best_for(limits.drop_last(), kind);
        let l = limits.last();
        match classify_limit_spec(l) {
            Some((k, c)) => if k == kind && (before matches None || c > before->Some_0.0) {
                Some((c, l))
            } else {
                before
            },
            None => before,
        }
    }
}

/// The window of a pick, without its confidence.
pub open spec fn chosen(b: Option<(u8, LimitModel)>) -> Option<LimitModel> {
    match b {
        Some((_, l)) => Some(l),
        None => None,
    }
}

/// Picks one window per quota: the most confident classification wins, and
/// among equally confident ones the first.
pub fn normalize_rate_limits(limits: &Vec<LimitWindow>) -> (r: NormalizedRateLimits)
    ensures
        opt_limit(r.five_hour) == chosen(best_for(limits@.map_values(|l: LimitWindow| l@), QuotaKind::FiveHour)),
        opt_limit(r.weekly) == chosen(best_for(limits@.map_values(|l: LimitWindow| l@), QuotaKind::Weekly)),
{
    let ghost model = limits@.map_values(|l: LimitWindow| l@);
    let mut five_hour: Option<(u8, LimitWindow)> = None;
    let mut weekly: Option<(u8, LimitWindow)> = None;
    let mut i: usize = 0;
    while i < limits.len()
        invariant
            model == limits@.map_values(|l: LimitWindow| l@),
            i <= limits@.len(),
            match five_hour {
                Some((c, l)) => best_for(model.take(i as int), QuotaKind::FiveHour) == Some((c, l@)),
                None => best_for(model.take(i as int), QuotaKind::FiveHour) is None,
            },
            match weekly {
                Some((c, l)) => best_for(model.take(i as int), QuotaKind::Weekly) == Some((c, l@)),
                None => best_for(model.take(i as int), QuotaKind::Weekly) is None,
            },
        decreases limits@.len() - i,
    {
        let limit = &limits[i];
        proof {
            let t = model.take(i + 1);
            assert(t.drop_last() =~= model.take(i as int));
            assert(t.last() == limit@);
        }
        match classify_limit(limit) {
            Some((kind, confidence)) => {
                match kind {
                    QuotaKind::FiveHour => {
                        let better = match &five_hour {
                            Some((existing, _)) => confidence > *existing,
                            None => true,
                        };
                        if better {
                            five_hour = Some((confidence, limit.duplicate()));
                        }
                    },
                    QuotaKind::Weekly => {
                        let better = match &weekly {
                            Some((existing, _)) => confidence > *existing,
                            None => true,
                        };
                        if better {
                            weekly = Some((confidence, limit.duplicate()));
                        }
                    },
                }
            },
            None => {},
        }
        i = i + 1;
    }
    assert(model.take(limits@.len() as int) =~= model);
    NormalizedRateLimits {
        five_hour: match five_hour {
            Some((_, l)) => Some(l),
            None => None,
        },
        weekly: match weekly {
            Some((_, l)) => Some(l),
            None => None,
        },
    }
}


// ---------------------------------------------------------------------------
// Laws
// ---------------------------------------------------------------------------

/// A window of exactly 300 minutes is the 5-hour quota, and one of exactly
/// 10 080 minutes the weekly quota, with the highest confidence, whatever its
/// identifier and name say.
pub proof fn lemma_exact_duration_decides(l: LimitModel)
    ensures
        l.window_duration_mins == Some(FIVE_HOUR_MINUTES) ==> classify_limit_spec(l) == Some(
            (QuotaKind::FiveHour, 3u8),
        ),
        l.window_duration_mins == Some(WEEKLY_MINUTES) ==> classify_limit_spec(l) == Some((QuotaKind::Weekly, 3u8)),
{
}

/// `l` is classified as the quota `kind`.
pub open spec fn of_kind(l: LimitModel, kind: QuotaKind) -> bool {
    classify_limit_spec(l) matches Some((k, _)) && k == kind
}

/// The window picked for a quota is one of the given windows and is
/// classified as that quota, with the confidence it was picked with; and no
/// window is picked for a quota that none of them is classified as (the
/// missing quota is never guessed).
pub proof fn lemma_picked_window_is_of_its_kind(limits: Seq<LimitModel>, kind: QuotaKind)
    ensures
        best_for(limits, kind) matches Some((c, l)) ==> limits.contains(l) && classify_limit_spec(l) == Some((kind, c)),
        best_for(limits, kind) is None <==> forall|i: int| 0 <= i < limits.len() ==> !of_kind(#[trigger] limits[i], kind),
    decreases limits.len(),
{
    if limits.len() > 0 {
        let before = limits.drop_last();
        lemma_picked_window_is_of_its_kind(before, kind);
        if let Some((c, l)) = best_for(limits, kind) {
            if best_for(before, kind) == Some((c, l)) {
                let j = choose|j: int| 0 <= j < before.len() && before[j] == l;
                assert(limits[j] == l);
            } else {
                assert(limits[limits.len() - 1] == l);
            }
        }
        if best_for(limits, kind) is None {
            assert forall|i: int| 0 <= i < limits.len() implies !of_kind(#[trigger] limits[i], kind) by {
                if i < limits.len() - 1 {
                    assert(limits[i] == before[i]);
                }
            }
        } else {
            if best_for(before, kind) is None {
                assert(of_kind(limits[limits.len() - 1], kind));
            } else {
                let (c, l) = best_for(before, kind)->Some_0;
                let j = choose|j: int| 0 <= j < before.len() && before[j] == l;
                assert(of_kind(limits[j], kind));
            }
        }
    }
}

/// A single window fills at most one of the two quotas.
pub proof fn lemma_one_window_one_kind(l: LimitModel)
    ensures
        !(best_for(seq![l], QuotaKind::FiveHour) is Some && best_for(seq![l], QuotaKind::Weekly) is Some),
{
    let one = seq![l];
    lemma_picked_window_is_of_its_kind(one, QuotaKind::FiveHour);
    lemma_picked_window_is_of_its_kind(one, QuotaKind::Weekly);
    if best_for(one, QuotaKind::FiveHour) is Some && best_for(one, QuotaKind::Weekly) is Some {
        let (c1, l1) = best_for(one, QuotaKind::FiveHour)->Some_0;
        let (c2, l2) = best_for(one, QuotaKind::Weekly)->Some_0;
        assert(l1 == l && l2 == l);
    }
}

/// A window in the `primary` or `secondary` slot takes its identifier from
/// the server's identifier fields alone, never from the slot's name.
pub proof fn lemma_slot_names_are_not_identifiers(key: Seq<char>, v: JsonValue)
    ensures
        (key == "primary"@ || key == "secondary"@) && parsed_limit(key, Some(v)) is Some ==> parsed_limit(
            key,
            Some(v),
        )->Some_0.semantic_id == semantic_value_spec(v, id_keys()),
{
}


/// A window read from a member of the rate-limit object keeps that member's
/// own fields: its used percentage, its remaining percentage (stated, else
/// 100 minus the used one), its duration, its reset time and its reached
/// type, each taken from the member of that name. A member gives a window
/// exactly when it is not `null` and states at least one of them.
pub proof fn lemma_window_fields(key: Seq<char>, v: JsonValue)
    ensures
        parsed_limit(key, Some(v)) is Some <==> (!(v is Null) && (json_millionths(json_get(v, "usedPercent"@)) is Some
            || json_millionths(json_get(v, "remainingPercent"@)) is Some || json_i64(
            json_get(v, "windowDurationMins"@),
        ) is Some || json_i64(json_get(v, "resetsAt"@)) is Some || json_str(json_get(v, "rateLimitReachedType"@))
            is Some)),
        parsed_limit(key, Some(v)) matches Some(w) ==> ({
            &&& w.used_percent == json_millionths(json_get(v, "usedPercent"@))
            &&& (json_millionths(json_get(v, "remainingPercent"@)) matches Some(r) ==> w.remaining_percent == Some(r))
            &&& (json_millionths(json_get(v, "remainingPercent"@)) is None ==> w.remaining_percent == (match w.used_percent {
                Some(u) => Some(sub_capped(HUNDRED_PERCENT, u)),
                None => None,
            }))
            &&& w.window_duration_mins == json_i64(json_get(v, "windowDurationMins"@))
            &&& w.resets_at == json_i64(json_get(v, "resetsAt"@))
            &&& w.reached_type == json_str(json_get(v, "rateLimitReachedType"@))
            &&& w.reset_text is None
        }),
        parsed_limit(key, None) is None,
{
}

} // verus!
