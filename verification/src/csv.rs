//! CSV export of the usage log: the file's text and a safe file name. Showing
//! the save dialog and writing the file are the caller's part.
use vstd::prelude::*;
use crate::fixed::{fixed_chars, fixed_text};
use crate::text::{
    chars_of, string_from_chars, decimal, decimal_chars, str_eq, trim_chars, trimmed, ends_with,
    ends_with_chars, contains_char, opt_chars,
};

verus! {

broadcast use vstd::string::group_string_axioms;

/// One exported task, as the user interface formatted it. Percentages are in
/// millionths of a percent.
#[derive(Debug, Clone)]
pub struct UsageCsvRow {
    pub start_time: String,
    pub end_time: Option<String>,
    pub duration_seconds: u64,
    pub weekly_consumed_percent: Option<i64>,
    pub five_hour_consumed_percent: Option<i64>,
    pub end_weekly_remaining_percent: Option<i64>,
    pub end_five_hour_remaining_percent: Option<i64>,
    pub is_estimated: bool,
    pub is_complete: bool,
}

/// The model of a CSV row: its strings as character sequences.
pub struct CsvRowModel {
    pub start_time: Seq<char>,
    pub end_time: Option<Seq<char>>,
    pub duration_seconds: u64,
    pub weekly_consumed_percent: Option<i64>,
    pub five_hour_consumed_percent: Option<i64>,
    pub end_weekly_remaining_percent: Option<i64>,
    pub end_five_hour_remaining_percent: Option<i64>,
    pub is_estimated: bool,
    pub is_complete: bool,
}

impl View for UsageCsvRow {
    type V = CsvRowModel;

    open spec fn view(&self) -> CsvRowModel {
        CsvRowModel {
            start_time: self.start_time@,
            end_time: opt_chars(self.end_time),
            duration_seconds: self.duration_seconds,
            weekly_consumed_percent: self.weekly_consumed_percent,
            five_hour_consumed_percent: self.five_hour_consumed_percent,
            end_weekly_remaining_percent: self.end_weekly_remaining_percent,
            end_five_hour_remaining_percent: self.end_five_hour_remaining_percent,
            is_estimated: self.is_estimated,
            is_complete: self.is_complete,
        }
    }
}

/// Characters that force a field to be quoted.
pub open spec fn needs_quotes(s: Seq<char>) -> bool {
    s.contains(',') || s.contains('"') || s.contains('\r') || s.contains('\n')
}

/// `s` with every `"` doubled.
pub open spec fn doubled_quotes(s: Seq<char>) -> Seq<char>
    decreases s.len(),
{
    if s.len() == 0 {
        s
    } else {
        doubled_quotes(s.drop_last()) + (if s.last() == '"' { seq!['"', '"'] } else { seq![s.last()] })
    }
}

/// One CSV field: quoted, with inner quotes doubled, when it holds a comma,
/// a quote or a line break; as it is otherwise.
pub open spec fn csv_escaped(s: Seq<char>) -> Seq<char> {
    if needs_quotes(s) { seq!['"'] + doubled_quotes(s) + seq!['"'] } else { s }
}

/// Fields joined by commas.
pub open spec fn joined(fields: Seq<Seq<char>>) -> Seq<char>
    decreases fields.len(),
{
    if fields.len() == 0 {
        Seq::empty()
    } else if fields.len() == 1 {
        fields[0]
    } else {
        joined(fields.drop_last()).push(',') + fields.last()
    }
}

/// One CSV line: the escaped fields joined by commas, ended by CR LF.
pub open spec fn csv_line(fields: Seq<Seq<char>>) -> Seq<char> {
    joined(fields.map_values(|f: Seq<char>| csv_escaped(f))) + seq!['\r', '\n']
}

/// A number's text in the CSV: empty when there is none.
pub open spec fn optional_number_text(v: Option<i64>) -> Seq<char> {
    match v {
        Some(x) => fixed_text(x),
        None => Seq::empty(),
    }
}

/// `true` or `false`.
pub open spec fn bool_text(b: bool) -> Seq<char> {
    if b { "true"@ } else { "false"@ }
}

/// The column headers, in Chinese or in English.
pub open spec fn headers(zh: bool) -> Seq<Seq<char>> {
    if zh {
        seq![
            "开始时间"@,
            "结束时间"@,
            "持续秒数"@,
            "周额度消耗百分比"@,
            "5h 额度消耗百分比"@,
            "结束时周额度余额百分比"@,
            "结束时 5h 额度余额百分比"@,
            "是否估算"@,
            "是否完整"@,
        ]
    } else {
        seq![
            "Start time"@,
            "End time"@,
            "Duration seconds"@,
            "Weekly consumed percent"@,
            "5h consumed percent"@,
            "End weekly remaining percent"@,
            "End 5h remaining percent"@,
            "Is estimated"@,
            "Is complete"@,
        ]
    }
}

/// The fields of one row, before escaping.
pub open spec fn row_fields(r: CsvRowModel) -> Seq<Seq<char>> {
    seq![
        r.start_time,
        match r.end_time { Some(t) => t, None => Seq::empty() },
        decimal(r.duration_seconds as nat),
        optional_number_text(r.weekly_consumed_percent),
        optional_number_text(r.five_hour_consumed_percent),
        optional_number_text(r.end_weekly_remaining_percent),
        optional_number_text(r.end_five_hour_remaining_percent),
        bool_text(r.is_estimated),
        bool_text(r.is_complete),
    ]
}

/// The lines of the rows, in order.
pub open spec fn rows_text(rows: Seq<CsvRowModel>) -> Seq<char>
    decreases rows.len(),
{
    if rows.len() == 0 {
        Seq::empty()
    } else {
        rows_text(rows.drop_last()) + csv_line(row_fields(rows.last()))
    }
}

/// The whole CSV file: a byte-order mark, the header line in the chosen
/// language, and one line per row.
pub open spec fn csv_text(rows: Seq<CsvRowModel>, zh: bool) -> Seq<char> {
    seq!['\u{feff}'] + csv_line(headers(zh)) + rows_text(rows)
}

fn doubled_quote_chars(s: &Vec<char>) -> (r: Vec<char>)
    ensures
        r@ == doubled_quotes(s@),
{
    let mut r: Vec<char> = Vec::new();
    let mut i: usize = 0;
    while i < s.len()
        invariant
            i <= s@.len(),
            r@ == doubled_quotes(s@.take(i as int)),
        decreases s@.len() - i,
    {
        let ghost before = r@;
        if s[i] == '"' {
            r.push('"');
            r.push('"');
        } else {
            r.push(s[i]);
        }
        proof {
            let t = s@.take(i + 1);
            assert(t.drop_last() =~= s@.take(i as int));
            assert(t.last() == s@[i as int]);
            assert(r@ =~= doubled_quotes(t));
        }
        i = i + 1;
    }
    assert(s@.take(s@.len() as int) =~= s@);
    r
}

/// Escapes one CSV field (see `csv_escaped`).
pub fn csv_escape(value: &Vec<char>) -> (r: Vec<char>)
    ensures
        r@ == csv_escaped(value@),
{
    if contains_char(value, ',') || contains_char(value, '"') || contains_char(value, '\r') || contains_char(value, '\n') {
        let mut r: Vec<char> = Vec::new();
        r.push('"');
        let mut inner = doubled_quote_chars(value);
        r.append(&mut inner);
        r.push('"');
        assert(r@ =~= seq!['"'] + doubled_quotes(value@) + seq!['"']);
        r
    } else {
        let mut r: Vec<char> = Vec::new();
        r.extend_from_slice(value.as_slice());
        assert(r@ =~= value@);
        r
    }
}

/// The text of an optional number: empty when there is none.
pub fn optional_number(value: Option<i64>) -> (r: Vec<char>)
    ensures
        r@ == optional_number_text(value),
{
    match value {
        Some(v) => fixed_chars(v),
        None => Vec::new(),
    }
}

fn bool_chars(b: bool) -> (r: Vec<char>)
    ensures
        r@ == bool_text(b),
{
    if b { chars_of("true") } else { chars_of("false") }
}

/// Appends one CSV line to `out`.
fn push_line(out: &mut Vec<char>, fields: &Vec<Vec<char>>)
    ensures
        final(out)@ == old(out)@ + csv_line(fields@.map_values(|f: Vec<char>| f@)),
{
    let ghost model = fields@.map_values(|f: Vec<char>| f@);
    let ghost escaped = model.map_values(|f: Seq<char>| csv_escaped(f));
    let ghost start = out@;
    let mut i: usize = 0;
    while i < fields.len()
        invariant
            model == fields@.map_values(|f: Vec<char>| f@),
            escaped == model.map_values(|f: Seq<char>| csv_escaped(f)),
            i <= fields@.len(),
            out@ == start + joined(escaped.take(i as int)),
        decreases fields@.len() - i,
    {
        let ghost before = out@;
        if i > 0 {
            out.push(',');
        }
        let mut e = csv_escape(&fields[i]);
        out.append(&mut e);
        proof {
            let t = escaped.take(i + 1);
            assert(t.drop_last() =~= escaped.take(i as int));
            assert(t.last() == csv_escaped(fields@[i as int]@));
            if i == 0 {
                assert(t.len() == 1);
                assert(out@ =~= start + joined(t));
            } else {
                assert(out@ =~= start + joined(t));
            }
        }
        i = i + 1;
    }
    assert(escaped.take(fields@.len() as int) =~= escaped);
    out.push('\r');
    out.push('\n');
    assert(out@ =~= start + csv_line(model));
}

fn header_fields(zh: bool) -> (r: Vec<Vec<char>>)
    ensures
        r@.map_values(|f: Vec<char>| f@) == headers(zh),
{
    let names: Vec<&str> = if zh {
        vec![
            "开始时间",
            "结束时间",
            "持续秒数",
            "周额度消耗百分比",
            "5h 额度消耗百分比",
            "结束时周额度余额百分比",
            "结束时 5h 额度余额百分比",
            "是否估算",
            "是否完整",
        ]
    } else {
        vec![
            "Start time",
            "End time",
            "Duration seconds",
            "Weekly consumed percent",
            "5h consumed percent",
            "End weekly remaining percent",
            "End 5h remaining percent",
            "Is estimated",
            "Is complete",
        ]
    };
    let mut r: Vec<Vec<char>> = Vec::new();
    let mut i: usize = 0;
    while i < names.len()
        invariant
            i <= names@.len(),
            r@.len() == i,
            forall|j: int| 0 <= j < i ==> r@[j]@ == names@[j]@,
        decreases names@.len() - i,
    {
        r.push(chars_of(names[i]));
        i = i + 1;
    }
    assert(r@.map_values(|f: Vec<char>| f@) =~= headers(zh));
    r
}

fn row_field_chars(row: &UsageCsvRow) -> (r: Vec<Vec<char>>)
    ensures
        r@.map_values(|f: Vec<char>| f@) == row_fields(row@),
{
    let mut r: Vec<Vec<char>> = Vec::new();
    r.push(chars_of(row.start_time.as_str()));
    r.push(match &row.end_time {
        Some(t) => chars_of(t.as_str()),
        None => Vec::new(),
    });
    r.push(decimal_chars(row.duration_seconds as u128));
    r.push(optional_number(row.weekly_consumed_percent));
    r.push(optional_number(row.five_hour_consumed_percent));
    r.push(optional_number(row.end_weekly_remaining_percent));
    r.push(optional_number(row.end_five_hour_remaining_percent));
    r.push(bool_chars(row.is_estimated));
    r.push(bool_chars(row.is_complete));
    assert(r@.map_values(|f: Vec<char>| f@) =~= row_fields(row@));
    r
}

/// The CSV text of the rows; headers are Chinese when `language` is "zh" and
/// English otherwise.
pub fn build_csv(rows: &Vec<UsageCsvRow>, language: &str) -> (csv: String)
    ensures
        csv@ == csv_text(rows@.map_values(|r: UsageCsvRow| r@), language@ == "zh"@),
{
    let zh = str_eq(language, "zh");
    let ghost model = rows@.map_values(|r: UsageCsvRow| r@);
    let mut out: Vec<char> = Vec::new();
    out.push('\u{feff}');
    let hs = header_fields(zh);
    push_line(&mut out, &hs);
    let ghost head = out@;
    assert(head =~= seq!['\u{feff}'] + csv_line(headers(zh)));
    let mut i: usize = 0;
    while i < rows.len()
        invariant
            model == rows@.map_values(|r: UsageCsvRow| r@),
            i <= rows@.len(),
            out@ == head + rows_text(model.take(i as int)),
        decreases rows@.len() - i,
    {
        let fields = row_field_chars(&rows[i]);
        push_line(&mut out, &fields);
        proof {
            let t = model.take(i + 1);
            assert(t.drop_last() =~= model.take(i as int));
            assert(t.last() == rows@[i as int]@);
            assert(out@ =~= head + rows_text(t));
        }
        i = i + 1;
    }
    assert(model.take(rows@.len() as int) =~= model);
    string_from_chars(&out)
}

/// Characters that may not appear in a file name.
pub open spec fn is_forbidden_name_char(c: char) -> bool {
    c == '<' || c == '>' || c == ':' || c == '"' || c == '/' || c == '\\' || c == '|' || c == '?' || c == '*'
}

/// The file name offered when the given one is not usable.
pub open spec fn default_file_name(zh: bool) -> Seq<char> {
    if zh { "LXCodexMeter_消耗日志.csv"@ } else { "LXCodexMeter_usage_log.csv"@ }
}

/// The file name offered in the save dialog: the trimmed name when it is not
/// empty, ends in ".csv" and has no forbidden character; the default name in
/// the chosen language otherwise.
pub open spec fn safe_file_name(file_name: Seq<char>, zh: bool) -> Seq<char> {
    let t = trimmed(file_name);
    if t.len() > 0 && ends_with(t, ".csv"@) && !(exists|i: int| 0 <= i < t.len() && is_forbidden_name_char(t[i])) {
        t
    } else {
        default_file_name(zh)
    }
}

fn has_forbidden_char(s: &Vec<char>) -> (r: bool)
    ensures
        r == exists|i: int| 0 <= i < s@.len() && is_forbidden_name_char(s@[i]),
{
    let mut i: usize = 0;
    while i < s.len()
        invariant
            i <= s@.len(),
            forall|j: int| 0 <= j < i ==> !is_forbidden_name_char(s@[j]),
        decreases s@.len() - i,
    {
        let c = s[i];
        if c == '<' || c == '>' || c == ':' || c == '"' || c == '/' || c == '\\' || c == '|' || c == '?' || c == '*' {
            return true;
        }
        i = i + 1;
    }
    false
}

/// A safe file name for the export (see `safe_file_name`).
pub fn sanitize_file_name(file_name: &str, language: &str) -> (name: String)
    ensures
        name@ == safe_file_name(file_name@, language@ == "zh"@),
{
    let chars = chars_of(file_name);
    let t = trim_chars(&chars);
    let suffix = chars_of(".csv");
    if t.len() > 0 && ends_with_chars(&t, &suffix) && !has_forbidden_char(&t) {
        return string_from_chars(&t);
    }
    if str_eq(language, "zh") {
        "LXCodexMeter_消耗日志.csv".to_string()
    } else {
        "LXCodexMeter_usage_log.csv".to_string()
    }
}

/// The message in the user's language: `zh` for "zh", `en` otherwise.
pub fn localized_error(language: &str, zh: &str, en: &str) -> (message: String)
    ensures
        message@ == (if language@ == "zh"@ { zh@ } else { en@ }),
{
    if str_eq(language, "zh") { zh.to_string() } else { en.to_string() }
}

/// What the export needs before the save dialog opens: the CSV text and the
/// file name to offer. Nothing is exported when there are no rows.
pub fn prepare_export(rows: &Vec<UsageCsvRow>, language: &str, file_name: &str) -> (r: Result<(String, String), String>)
    ensures
        rows@.len() == 0 ==> (r matches Err(e) && e@ == (if language@ == "zh"@ { "没有可导出的日志"@ } else { "No usage logs to export"@ })),
        rows@.len() > 0 ==> (r matches Ok((csv, name)) && csv@ == csv_text(rows@.map_values(|x: UsageCsvRow| x@), language@ == "zh"@)
            && name@ == safe_file_name(file_name@, language@ == "zh"@)),
{
    if rows.len() == 0 {
        return Err(localized_error(language, "没有可导出的日志", "No usage logs to export"));
    }
    let contents = build_csv(rows, language);
    let safe = sanitize_file_name(file_name, language);
    Ok((contents, safe))
}


// ---------------------------------------------------------------------------
// Laws
// ---------------------------------------------------------------------------

/// The text of quoted field content, read as RFC 4180 reads it: each pair
/// of `"` stands for one `"`.
pub open spec fn unpaired_quotes(s: Seq<char>) -> Seq<char>
    decreases s.len(),
{
    if s.len() == 0 {
        s
    } else if s.len() >= 2 && s[0] == '"' && s[1] == '"' {
        seq!['"'] + unpaired_quotes(s.skip(2))
    } else {
        seq![s[0]] + unpaired_quotes(s.drop_first())
    }
}

/// The value of one CSV field as RFC 4180 reads it: a field in quotes is
/// its content with paired quotes made single; any other field is itself.
pub open spec fn field_value(t: Seq<char>) -> Seq<char> {
    if t.len() >= 2 && t[0] == '"' && t.last() == '"' {
        unpaired_quotes(t.subrange(1, t.len() - 1))
    } else {
        t
    }
}

/// What one character becomes when quotes are doubled.
pub open spec fn doubled_piece(c: char) -> Seq<char> {
    if c == '"' { seq!['"', '"'] } else { seq![c] }
}

proof fn lemma_doubled_front(c: char, r: Seq<char>)
    ensures
        doubled_quotes(seq![c] + r) == doubled_piece(c) + doubled_quotes(r),
    decreases r.len(),
{
    let x = seq![c] + r;
    if r.len() == 0 {
        assert(x.drop_last() =~= Seq::<char>::empty());
        assert(x.last() == c);
        assert(doubled_quotes(x) == doubled_quotes(x.drop_last()) + doubled_piece(c));
        assert(doubled_quotes(Seq::<char>::empty()) =~= Seq::<char>::empty());
        assert(doubled_piece(c) + doubled_quotes(r) =~= doubled_piece(c));
        assert(doubled_quotes(x) =~= doubled_piece(c));
    } else {
        lemma_doubled_front(c, r.drop_last());
        assert(x.drop_last() =~= seq![c] + r.drop_last());
        assert(x.last() == r.last());
        assert(doubled_quotes(x) == doubled_quotes(x.drop_last()) + doubled_piece(r.last()));
        assert(doubled_quotes(r) == doubled_quotes(r.drop_last()) + doubled_piece(r.last()));
        assert(doubled_piece(c) + doubled_quotes(r.drop_last()) + doubled_piece(r.last()) =~= doubled_piece(c)
            + doubled_quotes(r));
    }
}

proof fn lemma_unpaired_doubled(s: Seq<char>)
    ensures
        unpaired_quotes(doubled_quotes(s)) == s,
    decreases s.len(),
{
    if s.len() > 0 {
        let rest = s.drop_first();
        assert(s =~= seq![s[0]] + rest);
        lemma_doubled_front(s[0], rest);
        lemma_unpaired_doubled(rest);
        let d = doubled_quotes(s);
        let dr = doubled_quotes(rest);
        if s[0] == '"' {
            assert(d =~= seq!['"', '"'] + dr);
            assert(d.skip(2) =~= dr);
        } else {
            assert(d =~= seq![s[0]] + dr);
            assert(d.drop_first() =~= dr);
        }
    }
}

/// An escaped field reads back, as RFC 4180 reads a field, as the value it
/// was made from.
pub proof fn lemma_escaped_field_reads_back(s: Seq<char>)
    ensures
        field_value(csv_escaped(s)) == s,
{
    if needs_quotes(s) {
        let t = csv_escaped(s);
        assert(t.subrange(1, t.len() - 1) =~= doubled_quotes(s));
        lemma_unpaired_doubled(s);
    } else {
        if s.len() > 0 {
            assert(!s.contains('"'));
            assert(s[0] != '"');
        }
    }
}

/// The offered file name always ends in ".csv" and holds none of the
/// characters a file name may not hold.
pub proof fn lemma_safe_file_name(file_name: Seq<char>, zh: bool)
    ensures
        ends_with(safe_file_name(file_name, zh), ".csv"@),
        forall|i: int|
            0 <= i < safe_file_name(file_name, zh).len() ==> !is_forbidden_name_char(
                #[trigger] safe_file_name(file_name, zh)[i],
            ),
{
    reveal_strlit(".csv");
    reveal_strlit("LXCodexMeter_消耗日志.csv");
    reveal_strlit("LXCodexMeter_usage_log.csv");
    let d = default_file_name(zh);
    assert(d.skip(d.len() - 4) =~= ".csv"@);
}


/// Each data line holds, in order, the row's start time, end time (empty
/// when there is none), duration in seconds, weekly consumed, 5-hour
/// consumed, end weekly remaining and end 5-hour remaining percentages
/// (empty when absent), and whether it is estimated and complete, each field
/// escaped, separated by commas and ended by CR LF; and the header line
/// names the columns in that same order.
#[verifier::spinoff_prover]
#[verifier::rlimit(40)]
pub proof fn lemma_columns_in_header_order(r: CsvRowModel, zh: bool)
    ensures
        csv_line(row_fields(r)) == csv_escaped(r.start_time) + seq![','] + csv_escaped(
            match r.end_time {
                Some(t) => t,
                None => Seq::empty(),
            },
        ) + seq![','] + csv_escaped(decimal(r.duration_seconds as nat)) + seq![','] + csv_escaped(
            optional_number_text(r.weekly_consumed_percent),
        ) + seq![','] + csv_escaped(optional_number_text(r.five_hour_consumed_percent)) + seq![','] + csv_escaped(
            optional_number_text(r.end_weekly_remaining_percent),
        ) + seq![','] + csv_escaped(optional_number_text(r.end_five_hour_remaining_percent)) + seq![','] + csv_escaped(
            bool_text(r.is_estimated),
        ) + seq![','] + csv_escaped(bool_text(r.is_complete)) + seq!['\r', '\n'],
        headers(false) == seq![
            "Start time"@,
            "End time"@,
            "Duration seconds"@,
            "Weekly consumed percent"@,
            "5h consumed percent"@,
            "End weekly remaining percent"@,
            "End 5h remaining percent"@,
            "Is estimated"@,
            "Is complete"@,
        ],
        headers(zh).len() == row_fields(r).len(),
{
    let f = row_fields(r).map_values(|x: Seq<char>| csv_escaped(x));
    assert(f.len() == 9);
    lemma_joined_prefix(f, 9);
    assert(f[0] == csv_escaped(r.start_time));
    let p1 = joined_prefix(f, 1);
    let p2 = joined_prefix(f, 2);
    let p3 = joined_prefix(f, 3);
    let p4 = joined_prefix(f, 4);
    let p5 = joined_prefix(f, 5);
    let p6 = joined_prefix(f, 6);
    let p7 = joined_prefix(f, 7);
    let p8 = joined_prefix(f, 8);
    let p9 = joined_prefix(f, 9);
    assert(p1 == f[0]);
    assert(p2 =~= p1 + seq![','] + f[1]);
    assert(p3 =~= p2 + seq![','] + f[2]);
    assert(p4 =~= p3 + seq![','] + f[3]);
    assert(p5 =~= p4 + seq![','] + f[4]);
    assert(p6 =~= p5 + seq![','] + f[5]);
    assert(p7 =~= p6 + seq![','] + f[6]);
    assert(p8 =~= p7 + seq![','] + f[7]);
    assert(p9 =~= p8 + seq![','] + f[8]);
    assert(f.take(9) =~= f);
    assert(joined_prefix(f, 9) =~= csv_escaped(r.start_time) + seq![','] + f[1] + seq![','] + f[2] + seq![',']
        + f[3] + seq![','] + f[4] + seq![','] + f[5] + seq![','] + f[6] + seq![','] + f[7] + seq![','] + f[8]);
}

proof fn lemma_joined_prefix(f: Seq<Seq<char>>, k: int)
    requires
        1 <= k <= f.len(),
    ensures
        joined(f.take(k)) == joined_prefix(f, k),
    decreases k,
{
    if k == 1 {
        assert(f.take(1) =~= seq![f[0]]);
    } else {
        lemma_joined_prefix(f, k - 1);
        assert(f.take(k).drop_last() =~= f.take(k - 1));
        assert(f.take(k).last() == f[k - 1]);
    }
}

/// The first `k` fields joined by commas.
spec fn joined_prefix(f: Seq<Seq<char>>, k: int) -> Seq<char>
    decreases k,
{
    if k <= 1 {
        f[0]
    } else {
        joined_prefix(f, k - 1).push(',') + f[k - 1]
    }
}

} // verus!
