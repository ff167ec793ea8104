//! Quota readings: the limit windows and status shown by the meter, and the
//! parsers that build them from the Codex app-server replies and from the
//! text of the Codex Usage page.
use vstd::prelude::*;
use crate::text::{
    opt_chars, copy_string, copy_opt_string, chars_of, string_from_chars, ascii_lowered, ascii_lowercase, contains_seq, contains_chars,
};
use crate::json::{
    JsonValue, json_get, json_get_opt, json_i64, json_millionths, json_str, deref_json, get_opt, opt_i64,
    opt_millionths, opt_string,
};
use crate::fixed::HUNDRED_PERCENT;
use crate::quota::{sub_capped, sub_capped_of};

verus! {

broadcast use vstd::string::group_string_axioms;

/// One rate-limit window. Percentages are in millionths of a percent.
#[derive(Debug, Clone)]
pub struct LimitWindow {
    pub label: String,
    pub used_percent: Option<i64>,
    pub remaining_percent: Option<i64>,
    pub window_duration_mins: Option<i64>,
    pub resets_at: Option<i64>,
    pub reset_text: Option<String>,
    pub reached_type: Option<String>,
    /// Identifier given by the server (`id`, `limitId`, `rateLimitId`), or
    /// the key of a window outside the `primary` / `secondary` slots.
    pub semantic_id: Option<String>,
    /// Name given by the server (`name`, `label`).
    pub semantic_label: Option<String>,
}

/// A usage reading. Credit amounts are in millionths of a credit.
#[derive(Debug, Clone)]
pub struct CodexMeterStatus {
    pub ok: bool,
    pub message: String,
    pub source_mode: String,
    pub auth_mode: Option<String>,
    pub plan_type: Option<String>,
    pub primary: Option<LimitWindow>,
    pub secondary: Option<LimitWindow>,
    pub credit_balance: Option<i64>,
    pub credit_limit: Option<i64>,
    pub reset_credits_available: Option<i64>,
    pub updated_at_ms: u128,
}


/// The model of a limit window: its strings as character sequences.
pub struct LimitModel {
    pub label: Seq<char>,
    pub used_percent: Option<i64>,
    pub remaining_percent: Option<i64>,
    pub window_duration_mins: Option<i64>,
    pub resets_at: Option<i64>,
    pub reset_text: Option<Seq<char>>,
    pub reached_type: Option<Seq<char>>,
    pub semantic_id: Option<Seq<char>>,
    pub semantic_label: Option<Seq<char>>,
}

/// The model of a reading: its strings as character sequences.
pub struct StatusModel {
    pub ok: bool,
    pub message: Seq<char>,
    pub source_mode: Seq<char>,
    pub auth_mode: Option<Seq<char>>,
    pub plan_type: Option<Seq<char>>,
    pub primary: Option<LimitModel>,
    pub secondary: Option<LimitModel>,
    pub credit_balance: Option<i64>,
    pub credit_limit: Option<i64>,
    pub reset_credits_available: Option<i64>,
    pub updated_at_ms: u128,
}

impl View for LimitWindow {
    type V = LimitModel;

    open spec fn view(&self) -> LimitModel {
        LimitModel {
            label: self.label@,
            used_percent: self.used_percent,
            remaining_percent: self.remaining_percent,
            window_duration_mins: self.window_duration_mins,
            resets_at: self.resets_at,
            reset_text: opt_chars(self.reset_text),
            reached_type: opt_chars(self.reached_type),
            semantic_id: opt_chars(self.semantic_id),
            semantic_label: opt_chars(self.semantic_label),
        }
    }
}

/// The model of an optional window.
pub open spec fn opt_limit(l: Option<LimitWindow>) -> Option<LimitModel> {
    match l {
        Some(w) => Some(w@),
        None => None,
    }
}

impl View for CodexMeterStatus {
    type V = StatusModel;

    open spec fn view(&self) -> StatusModel {
        StatusModel {
            ok: self.ok,
            message: self.message@,
            source_mode: self.source_mode@,
            auth_mode: opt_chars(self.auth_mode),
            plan_type: opt_chars(self.plan_type),
            primary: opt_limit(self.primary),
            secondary: opt_limit(self.secondary),
            credit_balance: self.credit_balance,
            credit_limit: self.credit_limit,
            reset_credits_available: self.reset_credits_available,
            updated_at_ms: self.updated_at_ms,
        }
    }
}

impl LimitWindow {
    /// A copy of the window.
    pub fn duplicate(&self) -> (r: LimitWindow)
        ensures
            r@ == self@,
    {
        LimitWindow {
            label: copy_string(&self.label),
            used_percent: self.used_percent,
            remaining_percent: self.remaining_percent,
            window_duration_mins: self.window_duration_mins,
            resets_at: self.resets_at,
            reset_text: copy_opt_string(&self.reset_text),
            reached_type: copy_opt_string(&self.reached_type),
            semantic_id: copy_opt_string(&self.semantic_id),
            semantic_label: copy_opt_string(&self.semantic_label),
        }
    }
}

/// A copy of an optional window.
pub fn copy_opt_limit(l: &Option<LimitWindow>) -> (r: Option<LimitWindow>)
    ensures
        opt_limit(r) == opt_limit(*l),
{
    match l {
        Some(w) => Some(w.duplicate()),
        None => None,
    }
}

impl CodexMeterStatus {
    /// A copy of the status.
    pub fn duplicate(&self) -> (r: CodexMeterStatus)
        ensures
            r@ == self@,
    {
        CodexMeterStatus {
            ok: self.ok,
            message: copy_string(&self.message),
            source_mode: copy_string(&self.source_mode),
            auth_mode: copy_opt_string(&self.auth_mode),
            plan_type: copy_opt_string(&self.plan_type),
            primary: copy_opt_limit(&self.primary),
            secondary: copy_opt_limit(&self.secondary),
            credit_balance: self.credit_balance,
            credit_limit: self.credit_limit,
            reset_credits_available: self.reset_credits_available,
            updated_at_ms: self.updated_at_ms,
        }
    }
}

// ---------------------------------------------------------------------------
// Replies of the Codex app server
// ---------------------------------------------------------------------------

/// The first number found in a value, looking through objects (in member
/// order) and arrays depth first.
pub open spec fn first_number_spec(v: JsonValue) -> Option<i64>
    decreases v, 1nat,
{
    match v {
        JsonValue::Number(n) => n.millionths,
        JsonValue::Object(_, values) => first_number_in(values@),
        JsonValue::Array(items) => first_number_in(items@),
        _ => None,
    }
}

pub open spec fn first_number_in(vs: Seq<JsonValue>) -> Option<i64>
    decreases vs, 0nat,
{
    if vs.len() == 0 {
        None
    } else {
        match first_number_spec(vs[0]) {
            Some(x) => Some(x),
            None => first_number_in(vs.drop_first()),
        }
    }
}

fn first_number_of_seq(vs: &Vec<JsonValue>) -> (r: Option<i64>)
    ensures
        r == first_number_in(vs@),
    decreases vs@, 0nat,
{
    let mut i: usize = 0;
    assert(vs@.skip(0) =~= vs@);
    while i < vs.len()
        invariant
            i <= vs@.len(),
            first_number_in(vs@) == first_number_in(vs@.skip(i as int)),
        decreases vs@.len() - i,
    {
        let ghost rest = vs@.skip(i as int);
        assert(rest[0] == vs@[i as int]);
        assert(rest.drop_first() =~= vs@.skip(i + 1));
        assert(decreases_to!(vs@ => vs@[i as int]));
        match first_number(&vs[i]) {
            Some(x) => {
                return Some(x);
            },
            None => {},
        }
        i = i + 1;
    }
    None
}

/// The first number in a value (see `first_number_spec`).
pub fn first_number(value: &JsonValue) -> (r: Option<i64>)
    ensures
        r == first_number_spec(*value),
    decreases *value, 1nat,
{
    match value {
        JsonValue::Number(n) => n.millionths,
        JsonValue::Object(_, values) => first_number_of_seq(values),
        JsonValue::Array(items) => first_number_of_seq(items),
        _ => None,
    }
}

/// Every keyword occurs in the key, compared without ASCII case.
pub open spec fn key_matches(key: Seq<char>, keywords: Seq<Seq<char>>) -> bool {
    forall|i: int| 0 <= i < keywords.len() ==> contains_seq(ascii_lowered(key), ascii_lowered(#[trigger] keywords[i]))
}

/// A credit number under a member whose name holds every keyword, searched
/// depth first through objects (in member order) and arrays. A matching
/// member gives its own number, or else the first number inside it.
pub open spec fn credit_number_spec(v: JsonValue, keywords: Seq<Seq<char>>) -> Option<i64>
    decreases v, 1nat,
{
    match v {
        JsonValue::Object(names, values) => credit_in_members(names@, values@, keywords),
        JsonValue::Array(items) => credit_in_items(items@, keywords),
        _ => None,
    }
}

pub open spec fn credit_in_members(names: Seq<String>, values: Seq<JsonValue>, keywords: Seq<Seq<char>>) -> Option<i64>
    decreases values, 0nat,
{
    if names.len() == 0 || values.len() == 0 {
        None
    } else {
        let here = if key_matches(names[0]@, keywords) {
            match json_millionths(Some(values[0])) {
                Some(n) => Some(n),
                None => first_number_spec(values[0]),
            }
        } else {
            None
        };
        match here {
            Some(n) => Some(n),
            None => match credit_number_spec(values[0], keywords) {
                Some(n) => Some(n),
                None => credit_in_members(names.drop_first(), values.drop_first(), keywords),
            },
        }
    }
}

pub open spec fn credit_in_items(items: Seq<JsonValue>, keywords: Seq<Seq<char>>) -> Option<i64>
    decreases items, 0nat,
{
    if items.len() == 0 {
        None
    } else {
        match credit_number_spec(items[0], keywords) {
            Some(n) => Some(n),
            None => credit_in_items(items.drop_first(), keywords),
        }
    }
}

pub open spec fn credit_number_opt(v: Option<JsonValue>, keywords: Seq<Seq<char>>) -> Option<i64> {
    match v {
        Some(x) => credit_number_spec(x, keywords),
        None => None,
    }
}

fn key_matches_all(key: &String, keywords: &Vec<Vec<char>>) -> (r: bool)
    ensures
        r == key_matches(key@, keywords@.map_values(|k: Vec<char>| k@)),
{
    let ghost kws = keywords@.map_values(|k: Vec<char>| k@);
    let chars = chars_of(key.as_str());
    let lower = ascii_lowercase(&chars);
    let mut i: usize = 0;
    while i < keywords.len()
        invariant
            kws == keywords@.map_values(|k: Vec<char>| k@),
            lower@ == ascii_lowered(key@),
            i <= keywords@.len(),
            forall|j: int| 0 <= j < i ==> contains_seq(ascii_lowered(key@), ascii_lowered(#[trigger] kws[j])),
        decreases keywords@.len() - i,
    {
        let kw = ascii_lowercase(&keywords[i]);
        if !contains_chars(&lower, &kw) {
            assert(!contains_seq(ascii_lowered(key@), ascii_lowered(kws[i as int])));
            return false;
        }
        i = i + 1;
    }
    true
}

fn credit_in_member_list(names: &Vec<String>, values: &Vec<JsonValue>, keywords: &Vec<Vec<char>>) -> (r: Option<i64>)
    ensures
        r == credit_in_members(names@, values@, keywords@.map_values(|k: Vec<char>| k@)),
    decreases values@, 0nat,
{
    let ghost kws = keywords@.map_values(|k: Vec<char>| k@);
    let mut i: usize = 0;
    assert(names@.skip(0) =~= names@);
    assert(values@.skip(0) =~= values@);
    while i < names.len() && i < values.len()
        invariant
            kws == keywords@.map_values(|k: Vec<char>| k@),
            i <= names@.len(),
            i <= values@.len(),
            credit_in_members(names@, values@, kws) == credit_in_members(names@.skip(i as int), values@.skip(i as int), kws),
        decreases values@.len() - i,
    {
        let ghost rn = names@.skip(i as int);
        let ghost rv = values@.skip(i as int);
        assert(rn[0] == names@[i as int]);
        assert(rv[0] == values@[i as int]);
        assert(rn.drop_first() =~= names@.skip(i + 1));
        assert(rv.drop_first() =~= values@.skip(i + 1));
        assert(decreases_to!(values@ => values@[i as int]));
        let child = &values[i];
        if key_matches_all(&names[i], keywords) {
            match child.as_millionths() {
                Some(n) => {
                    return Some(n);
                },
                None => {},
            }
            match first_number(child) {
                Some(n) => {
                    return Some(n);
                },
                None => {},
            }
        }
        match find_credit_number_in(child, keywords) {
            Some(n) => {
                return Some(n);
            },
            None => {},
        }
        i = i + 1;
    }
    proof {
        if i == names@.len() {
            assert(names@.skip(i as int).len() == 0);
        } else {
            assert(values@.skip(i as int).len() == 0);
        }
    }
    None
}

fn credit_in_item_list(items: &Vec<JsonValue>, keywords: &Vec<Vec<char>>) -> (r: Option<i64>)
    ensures
        r == credit_in_items(items@, keywords@.map_values(|k: Vec<char>| k@)),
    decreases items@, 0nat,
{
    let ghost kws = keywords@.map_values(|k: Vec<char>| k@);
    let mut i: usize = 0;
    assert(items@.skip(0) =~= items@);
    while i < items.len()
        invariant
            kws == keywords@.map_values(|k: Vec<char>| k@),
            i <= items@.len(),
            credit_in_items(items@, kws) == credit_in_items(items@.skip(i as int), kws),
        decreases items@.len() - i,
    {
        let ghost rest = items@.skip(i as int);
        assert(rest[0] == items@[i as int]);
        assert(rest.drop_first() =~= items@.skip(i + 1));
        assert(decreases_to!(items@ => items@[i as int]));
        match find_credit_number_in(&items[i], keywords) {
            Some(n) => {
                return Some(n);
            },
            None => {},
        }
        i = i + 1;
    }
    None
}

fn find_credit_number_in(value: &JsonValue, keywords: &Vec<Vec<char>>) -> (r: Option<i64>)
    ensures
        r == credit_number_spec(*value, keywords@.map_values(|k: Vec<char>| k@)),
    decreases *value, 1nat,
{
    match value {
        JsonValue::Object(names, values) => credit_in_member_list(names, values, keywords),
        JsonValue::Array(items) => credit_in_item_list(items, keywords),
        _ => None,
    }
}

/// A credit number in an optional value (see `credit_number_spec`).
pub fn find_credit_number(value: Option<&JsonValue>, keywords: &Vec<&str>) -> (r: Option<i64>)
    ensures
        r == credit_number_opt(deref_json(value), keywords@.map_values(|k: &str| k@)),
{
    let mut kws: Vec<Vec<char>> = Vec::new();
    let mut i: usize = 0;
    while i < keywords.len()
        invariant
            i <= keywords@.len(),
            kws@.len() == i,
            forall|j: int| 0 <= j < i ==> kws@[j]@ == keywords@[j]@,
        decreases keywords@.len() - i,
    {
        kws.push(chars_of(keywords[i]));
        i = i + 1;
    }
    assert(kws@.map_values(|k: Vec<char>| k@) =~= keywords@.map_values(|k: &str| k@));
    match value {
        Some(v) => find_credit_number_in(v, &kws),
        None => None,
    }
}

/// The member after the first member whose name holds "codex" (without ASCII case).
pub open spec fn first_codex_member(names: Seq<String>, values: Seq<JsonValue>) -> Option<JsonValue>
    decreases names.len(),
{
    if names.len() == 0 || values.len() == 0 {
        None
    } else if contains_seq(ascii_lowered(names[0]@), "codex"@) {
        Some(values[0])
    } else {
        first_codex_member(names.drop_first(), values.drop_first())
    }
}

/// The Codex bucket of a rate-limit reply: `rateLimitsByLimitId.codex`, or
/// else the first bucket whose id mentions codex.
pub open spec fn codex_bucket(v: JsonValue) -> Option<JsonValue> {
    match json_get_opt(json_get(v, "rateLimitsByLimitId"@), "codex"@) {
        Some(x) => Some(x),
        None => match json_get(v, "rateLimitsByLimitId"@) {
            Some(JsonValue::Object(names, values)) => first_codex_member(names@, values@),
            _ => None,
        },
    }
}

/// The rate limits to show: the Codex bucket, else `rateLimits`, else the whole reply.
pub open spec fn selected_limits(v: JsonValue) -> JsonValue {
    match codex_bucket(v) {
        Some(x) => x,
        None => match json_get(v, "rateLimits"@) {
            Some(x) => x,
            None => v,
        },
    }
}

fn first_codex_member_of<'a>(names: &'a Vec<String>, values: &'a Vec<JsonValue>) -> (r: Option<&'a JsonValue>)
    ensures
        deref_json(r) == first_codex_member(names@, values@),
{
    let codex = chars_of("codex");
    let mut i: usize = 0;
    assert(names@.skip(0) =~= names@);
    assert(values@.skip(0) =~= values@);
    while i < names.len() && i < values.len()
        invariant
            codex@ == "codex"@,
            i <= names@.len(),
            i <= values@.len(),
            first_codex_member(names@, values@) == first_codex_member(names@.skip(i as int), values@.skip(i as int)),
        decreases names@.len() - i,
    {
        let ghost rn = names@.skip(i as int);
        let ghost rv = values@.skip(i as int);
        assert(rn[0] == names@[i as int]);
        assert(rv[0] == values@[i as int]);
        assert(rn.drop_first() =~= names@.skip(i + 1));
        assert(rv.drop_first() =~= values@.skip(i + 1));
        let chars = chars_of(names[i].as_str());
        let lower = ascii_lowercase(&chars);
        if contains_chars(&lower, &codex) {
            return Some(&values[i]);
        }
        i = i + 1;
    }
    proof {
        if i == names@.len() {
            assert(names@.skip(i as int).len() == 0);
        } else {
            assert(values@.skip(i as int).len() == 0);
        }
    }
    None
}

/// The rate limits to show (see `selected_limits`).
pub fn select_codex_rate_limits(limits: &JsonValue) -> (r: &JsonValue)
    ensures
        *r == selected_limits(*limits),
{
    let by_id = limits.get("rateLimitsByLimitId");
    match get_opt(by_id, "codex") {
        Some(v) => {
            return v;
        },
        None => {},
    }
    match by_id {
        Some(JsonValue::Object(names, values)) => match first_codex_member_of(names, values) {
            Some(v) => {
                return v;
            },
            None => {},
        },
        _ => {},
    }
    match limits.get("rateLimits") {
        Some(v) => v,
        None => limits,
    }
}

/// A slot window of the app-server reply, shown under `label`.
pub open spec fn slot_limit(label: Seq<char>, value: Option<JsonValue>) -> Option<LimitModel> {
    match value {
        None => None,
        Some(JsonValue::Null) => None,
        Some(v) => {
            let used = json_millionths(json_get(v, "usedPercent"@));
            Some(LimitModel {
                label,
                used_percent: used,
                remaining_percent: match used {
                    Some(u) => Some(sub_capped(HUNDRED_PERCENT, u)),
                    None => None,
                },
                window_duration_mins: json_i64(json_get(v, "windowDurationMins"@)),
                resets_at: json_i64(json_get(v, "resetsAt"@)),
                reset_text: None,
                reached_type: json_str(json_get(v, "rateLimitReachedType"@)),
                semantic_id: None,
                semantic_label: None,
            })
        },
    }
}

/// Reads a slot window: none for a missing or `null` member; the remaining
/// percentage is 100 minus the used one.
pub fn parse_limit(label: &str, value: Option<&JsonValue>) -> (r: Option<LimitWindow>)
    ensures
        opt_limit(r) == slot_limit(label@, deref_json(value)),
{
    let value = match value {
        Some(v) => v,
        None => {
            return None;
        },
    };
    if value.is_null() {
        return None;
    }
    let used = opt_millionths(value.get("usedPercent"));
    let remaining = match used {
        Some(u) => Some(sub_capped_of(HUNDRED_PERCENT, u)),
        None => None,
    };
    Some(LimitWindow {
        label: label.to_string(),
        used_percent: used,
        remaining_percent: remaining,
        window_duration_mins: opt_i64(value.get("windowDurationMins")),
        resets_at: opt_i64(value.get("resetsAt")),
        reset_text: None,
        reached_type: opt_string(value.get("rateLimitReachedType")),
        semantic_id: None,
        semantic_label: None,
    })
}

pub open spec fn or_else_i64(a: Option<i64>, b: Option<i64>) -> Option<i64> {
    match a {
        Some(x) => Some(x),
        None => b,
    }
}

pub open spec fn or_else_chars(a: Option<Seq<char>>, b: Option<Seq<char>>) -> Option<Seq<char>> {
    match a {
        Some(x) => Some(x),
        None => b,
    }
}

/// The message when the app server returned no account.
pub open spec fn no_account_message(launched_from: Seq<char>) -> Seq<char> {
    "已启动 Codex app-server（"@ + launched_from + "），但未返回账号。请确认 Codex 客户端已登录。"@
}

/// The message when the app server returned no quota.
pub open spec fn no_quota_message(launched_from: Seq<char>) -> Seq<char> {
    "已连接 Codex app-server（"@ + launched_from + "），但没有返回可显示的额度字段。"@
}

/// The account reply holds an account that is not `null`.
pub open spec fn has_account(account: JsonValue) -> bool {
    match json_get(account, "account"@) {
        Some(JsonValue::Null) => false,
        Some(_) => true,
        None => false,
    }
}

fn text_around(before: &str, middle: &str, after: &str) -> (s: String)
    ensures
        s@ == before@ + middle@ + after@,
{
    let mut v = chars_of(before);
    let mut m = chars_of(middle);
    v.append(&mut m);
    let mut a = chars_of(after);
    v.append(&mut a);
    string_from_chars(&v)
}

/// The reading when the app server returned no account: not usable, with a
/// message that asks the user to sign in to Codex. None when there is an account.
pub fn missing_account_status(account: &JsonValue, launched_from: &str, updated_at_ms: u128) -> (r: Option<CodexMeterStatus>)
    ensures
        has_account(*account) ==> r is None,
        !has_account(*account) ==> (r matches Some(st) && st@ == (StatusModel {
            ok: false,
            message: no_account_message(launched_from@),
            source_mode: "app_server"@,
            auth_mode: None,
            plan_type: None,
            primary: None,
            secondary: None,
            credit_balance: None,
            credit_limit: None,
            reset_credits_available: None,
            updated_at_ms,
        })),
{
    let present = match account.get("account") {
        Some(a) => !a.is_null(),
        None => false,
    };
    if present {
        return None;
    }
    Some(CodexMeterStatus {
        ok: false,
        message: text_around("已启动 Codex app-server（", launched_from, "），但未返回账号。请确认 Codex 客户端已登录。"),
        source_mode: "app_server".to_string(),
        auth_mode: None,
        plan_type: None,
        primary: None,
        secondary: None,
        credit_balance: None,
        credit_limit: None,
        reset_credits_available: None,
        updated_at_ms,
    })
}

pub open spec fn kw2(a: Seq<char>, b: Seq<char>) -> Seq<Seq<char>> {
    seq![a, b]
}

/// The credit balance: the first credit number named remaining, balance or
/// available in the rate limits, else a credit balance in the usage reply.
pub open spec fn credit_balance_of(limits: JsonValue, usage: Option<JsonValue>) -> Option<i64> {
    or_else_i64(credit_number_spec(limits, kw2("credit"@, "remaining"@)),
    or_else_i64(credit_number_spec(limits, kw2("credit"@, "balance"@)),
    or_else_i64(credit_number_spec(limits, kw2("credit"@, "available"@)),
    credit_number_opt(usage, kw2("credit"@, "balance"@)))))
}

/// The credit limit: a credit limit or an individual limit in the rate
/// limits, else a credit limit in the usage reply.
pub open spec fn credit_limit_of(limits: JsonValue, usage: Option<JsonValue>) -> Option<i64> {
    or_else_i64(credit_number_spec(limits, kw2("credit"@, "limit"@)),
    or_else_i64(credit_number_spec(limits, kw2("individual"@, "limit"@)),
    credit_number_opt(usage, kw2("credit"@, "limit"@))))
}

/// The number of available reset credits.
pub open spec fn reset_credits_of(limits: JsonValue) -> Option<i64> {
    let in_reply = json_get_opt(json_get(limits, "rateLimitResetCredits"@), "availableCount"@);
    let in_bucket = json_get_opt(json_get(selected_limits(limits), "rateLimitResetCredits"@), "availableCount"@);
    json_i64(match in_reply {
        Some(x) => Some(x),
        None => in_bucket,
    })
}

/// The reading built from the app server's account, rate-limit and (if it
/// came) usage replies.
pub open spec fn app_server_status(
    account: JsonValue,
    limits: JsonValue,
    usage: Option<JsonValue>,
    launched_from: Seq<char>,
    updated_at_ms: u128,
) -> StatusModel {
    let account_obj = json_get(account, "account"@);
    let selected = selected_limits(limits);
    let primary = slot_limit("主额度"@, json_get(selected, "primary"@));
    let secondary = slot_limit("副额度"@, json_get(selected, "secondary"@));
    let balance = credit_balance_of(limits, usage);
    let reset_credits = reset_credits_of(limits);
    let ok = primary is Some || secondary is Some || balance is Some || reset_credits is Some;
    StatusModel {
        ok,
        message: if ok { "OK"@ } else { no_quota_message(launched_from) },
        source_mode: "app_server"@,
        auth_mode: json_str(json_get_opt(account_obj, "type"@)),
        plan_type: or_else_chars(json_str(json_get_opt(account_obj, "planType"@)), json_str(json_get(selected, "planType"@))),
        primary,
        secondary,
        credit_balance: balance,
        credit_limit: credit_limit_of(limits, usage),
        reset_credits_available: reset_credits,
        updated_at_ms,
    }
}

fn credit_search(value: Option<&JsonValue>, a: &str, b: &str) -> (r: Option<i64>)
    ensures
        r == credit_number_opt(deref_json(value), kw2(a@, b@)),
{
    let kws = vec![a, b];
    assert(kws@.map_values(|k: &str| k@) =~= kw2(a@, b@));
    find_credit_number(value, &kws)
}

/// The reading from the app server's replies (see `app_server_status`).
pub fn status_from_replies(
    account: &JsonValue,
    limits: &JsonValue,
    usage: Option<&JsonValue>,
    launched_from: &str,
    updated_at_ms: u128,
) -> (st: CodexMeterStatus)
    ensures
        st@ == app_server_status(*account, *limits, deref_json(usage), launched_from@, updated_at_ms),
{
    let account_obj = account.get("account");
    let auth_mode = opt_string(get_opt(account_obj, "type"));
    let selected = select_codex_rate_limits(limits);
    let plan_type = match opt_string(get_opt(account_obj, "planType")) {
        Some(p) => Some(p),
        None => opt_string(selected.get("planType")),
    };
    let primary = parse_limit("主额度", selected.get("primary"));
    let secondary = parse_limit("副额度", selected.get("secondary"));
    let in_reply = get_opt(limits.get("rateLimitResetCredits"), "availableCount");
    let reset_credits_available = match in_reply {
        Some(x) => x.as_i64(),
        None => opt_i64(get_opt(selected.get("rateLimitResetCredits"), "availableCount")),
    };
    let credit_balance = match credit_search(Some(limits), "credit", "remaining") {
        Some(n) => Some(n),
        None => match credit_search(Some(limits), "credit", "balance") {
            Some(n) => Some(n),
            None => match credit_search(Some(limits), "credit", "available") {
                Some(n) => Some(n),
                None => credit_search(usage, "credit", "balance"),
            },
        },
    };
    let credit_limit = match credit_search(Some(limits), "credit", "limit") {
        Some(n) => Some(n),
        None => match credit_search(Some(limits), "individual", "limit") {
            Some(n) => Some(n),
            None => credit_search(usage, "credit", "limit"),
        },
    };
    let ok = primary.is_some() || secondary.is_some() || credit_balance.is_some() || reset_credits_available.is_some();
    let message = if ok {
        "OK".to_string()
    } else {
        text_around("已连接 Codex app-server（", launched_from, "），但没有返回可显示的额度字段。")
    };
    CodexMeterStatus {
        ok,
        message,
        source_mode: "app_server".to_string(),
        auth_mode,
        plan_type,
        primary,
        secondary,
        credit_balance,
        credit_limit,
        reset_credits_available,
        updated_at_ms,
    }
}


// ---------------------------------------------------------------------------
// Laws
// ---------------------------------------------------------------------------

/// The credit balance of an app-server reading is a credit figure named as a
/// balance, and the credit limit one named as a limit. The balance is the
/// first found of a credit figure named remaining, balance or available in
/// the rate limits, then a credit balance in the usage reply; it is absent
/// only when none of them is found. The limit is the first found of a credit
/// limit, an individual limit in the rate limits, then a credit limit in the
/// usage reply; it is absent only when none is found.
pub proof fn lemma_credit_figures(
    account: JsonValue,
    limits: JsonValue,
    usage: Option<JsonValue>,
    launched_from: Seq<char>,
    updated_at_ms: u128,
)
    ensures
        ({
            let st = app_server_status(account, limits, usage, launched_from, updated_at_ms);
            let remaining = credit_number_spec(limits, seq!["credit"@, "remaining"@]);
            let balance = credit_number_spec(limits, seq!["credit"@, "balance"@]);
            let available = credit_number_spec(limits, seq!["credit"@, "available"@]);
            let usage_balance = credit_number_opt(usage, seq!["credit"@, "balance"@]);
            let credit_limit = credit_number_spec(limits, seq!["credit"@, "limit"@]);
            let individual_limit = credit_number_spec(limits, seq!["individual"@, "limit"@]);
            let usage_limit = credit_number_opt(usage, seq!["credit"@, "limit"@]);
            &&& (remaining matches Some(v) ==> st.credit_balance == Some(v))
            &&& (remaining is None && balance is Some ==> st.credit_balance == balance)
            &&& (remaining is None && balance is None && available is Some ==> st.credit_balance == available)
            &&& (remaining is None && balance is None && available is None ==> st.credit_balance == usage_balance)
            &&& (credit_limit matches Some(v) ==> st.credit_limit == Some(v))
            &&& (credit_limit is None && individual_limit is Some ==> st.credit_limit == individual_limit)
            &&& (credit_limit is None && individual_limit is None ==> st.credit_limit == usage_limit)
        }),
{
}

/// A window read from a `primary` or `secondary` slot carries the slot's
/// label and the window's own fields: its used percentage, the remaining
/// percentage as 100 minus the used one, its duration, its reset time and
/// its reached type, each taken from the member of that name; a slot that is
/// missing or `null` gives no window.
pub proof fn lemma_slot_window_fields(label: Seq<char>, value: Option<JsonValue>)
    ensures
        (value is None || value == Some(JsonValue::Null)) <==> slot_limit(label, value) is None,
        slot_limit(label, value) matches Some(w) ==> ({
            let v = value->Some_0;
            &&& w.label == label
            &&& w.used_percent == json_millionths(json_get(v, "usedPercent"@))
            &&& (w.used_percent matches Some(u) ==> w.remaining_percent == Some(sub_capped(HUNDRED_PERCENT, u)))
            &&& (w.used_percent is None ==> w.remaining_percent is None)
            &&& w.window_duration_mins == json_i64(json_get(v, "windowDurationMins"@))
            &&& w.resets_at == json_i64(json_get(v, "resetsAt"@))
            &&& w.reached_type == json_str(json_get(v, "rateLimitReachedType"@))
            &&& w.reset_text is None
        }),
{
}

} // verus!
