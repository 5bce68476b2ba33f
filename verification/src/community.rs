//! Community views: ranking avatars and the timeline of a report.

use vstd::prelude::*;
use vstd::string::StrSliceExecFns;
use crate::models::Report;
use crate::distro::{trim_ws, trim_whitespace};
use crate::forms::texts_view;
use crate::text::{
    chars_of, contains_chars, lowercase_of, seq_ascii_lower, seq_contains, str_eq, string_from_chars, to_ascii_lower,
    to_lowercase,
};

verus! {

/// The twelve avatar colors, assigned round-robin by user id.
pub open spec fn avatar_palette() -> Seq<(u8, u8, u8)> {
    seq![
        (0x3Bu8, 0x82u8, 0xF6u8),
        (0x1Du8, 0xB9u8, 0x54u8),
        (0xEFu8, 0x44u8, 0x44u8),
        (0xF5u8, 0x9Eu8, 0x0Bu8),
        (0x8Bu8, 0x5Cu8, 0xF6u8),
        (0x00u8, 0xBCu8, 0x70u8),
        (0xE0u8, 0x67u8, 0xC9u8),
        (0x00u8, 0xB7u8, 0xC3u8),
        (0xF7u8, 0x63u8, 0x00u8),
        (0x54u8, 0x6Eu8, 0x7Au8),
        (0x9Cu8, 0x27u8, 0xB0u8),
        (0x4Cu8, 0xAFu8, 0x50u8),
    ]
}

/// Palette slot of a user id: the id read as a 64-bit unsigned number, modulo 12.
pub open spec fn avatar_slot(user_id: i64) -> int {
    if user_id >= 0 {
        (user_id as int) % 12
    } else {
        (user_id + 0x1_0000_0000_0000_0000int) % 12
    }
}

/// Avatar colors repeat every 12 user ids (among ids of the same sign).
pub proof fn lemma_avatar_palette_cycles(user_id: i64)
    requires
        user_id >= 0 || user_id + 12 < 0,
        user_id + 12 <= i64::MAX,
    ensures
        avatar_slot((user_id + 12) as i64) == avatar_slot(user_id),
        0 <= avatar_slot(user_id) < 12,
{
}

/// Avatar color of a user.
pub fn avatar_color(user_id: i64) -> (r: (u8, u8, u8))
    ensures
        r == avatar_palette()[avatar_slot(user_id)],
{
    let palette: [(u8, u8, u8); 12] = [
        (0x3B, 0x82, 0xF6),
        (0x1D, 0xB9, 0x54),
        (0xEF, 0x44, 0x44),
        (0xF5, 0x9E, 0x0B),
        (0x8B, 0x5C, 0xF6),
        (0x00, 0xBC, 0x70),
        (0xE0, 0x67, 0xC9),
        (0x00, 0xB7, 0xC3),
        (0xF7, 0x63, 0x00),
        (0x54, 0x6E, 0x7A),
        (0x9C, 0x27, 0xB0),
        (0x4C, 0xAF, 0x50),
    ];
    assert(palette@ =~= avatar_palette());
    let slot: usize = if user_id >= 0 {
        (user_id % 12) as usize
    } else {
        let mag: u64 = if user_id == i64::MIN { 9_223_372_036_854_775_808u64 } else { (-user_id) as u64 };
        let m: u64 = mag % 12;
        assert((user_id + 0x1_0000_0000_0000_0000int) % 12 == (16 - m) % 12) by (nonlinear_arith)
            requires
                mag == -user_id,
                m == mag % 12,
                user_id < 0,
        ;
        ((16 - m) % 12) as usize
    };
    palette[slot]
}

/// Color of the bar beside a ranking entry: gold, silver and bronze for the
/// first three ranks; `None` for the others, which take the theme's primary color.
pub fn medal_bar_color(rank: usize) -> (r: Option<(u8, u8, u8)>)
    ensures
        r == (if rank == 1 {
            Some((0xFFu8, 0xBFu8, 0x00u8))
        } else if rank == 2 {
            Some((0xC0u8, 0xC0u8, 0xC0u8))
        } else if rank == 3 {
            Some((0xCDu8, 0x7Fu8, 0x32u8))
        } else {
            None::<(u8, u8, u8)>
        }),
{
    match rank {
        1 => Some((0xFF, 0xBF, 0x00)),
        2 => Some((0xC0, 0xC0, 0xC0)),
        3 => Some((0xCD, 0x7F, 0x32)),
        _ => None,
    }
}

/// What `char::to_uppercase` gives for `c`.
pub uninterp spec fn uppercase_of(c: char) -> Seq<char>;

/// `char::to_uppercase`, collected into a string. Its result is Unicode's
/// uppercase mapping of `c`; stated beyond the name: an ASCII lowercase letter
/// maps to its capital, any other ASCII character to itself.
#[verifier::external_body]
fn char_uppercase(c: char) -> (r: String)
    ensures
        r@ == uppercase_of(c),
        'a' <= c <= 'z' ==> r@ == seq![((c as u32) - 32) as char],
        (c as u32) < 128 && !('a' <= c <= 'z') ==> r@ == seq![c],
{
    c.to_uppercase().to_string()
}

/// Letter shown on an avatar without a picture: the first character of the
/// name in upper case, `?` for an empty name.
pub open spec fn initial_of(name: Seq<char>) -> Seq<char> {
    if name.len() == 0 {
        seq!['?']
    } else {
        uppercase_of(name[0])
    }
}

/// The letter shown on an avatar without a picture.
pub fn avatar_initial(name: &str) -> (r: String)
    ensures
        r@ == initial_of(name@),
{
    if name.unicode_len() == 0 {
        proof { reveal_strlit("?"); }
        "?".to_string()
    } else {
        char_uppercase(name.get_char(0))
    }
}

/// Label of a report's final step by its status.
pub open spec fn status_text(status: i64) -> Seq<char> {
    if status == 0 {
        "待审核"@
    } else if status == 1 {
        "已通过 · 处理完成"@
    } else if status == 2 {
        "已下架 · 处理完成"@
    } else if status == 3 {
        "已驳回"@
    } else {
        "已处理"@
    }
}

/// Label of a report's final step.
pub fn status_label(status: i64) -> (r: &'static str)
    ensures
        r@ == status_text(status),
{
    match status {
        0 => "待审核",
        1 => "已通过 · 处理完成",
        2 => "已下架 · 处理完成",
        3 => "已驳回",
        _ => "已处理",
    }
}

/// A scalar of a JSON object, as far as the timeline reads it.
pub enum JsonScalar {
    Str(String),
    /// A number that fits an `i64`.
    Int(i64),
    /// Anything else (other numbers, booleans, null, arrays, objects).
    Other,
}

/// A JSON object: its fields in order, each key once.
pub struct JsonObject {
    pub fields: Vec<(String, JsonScalar)>,
}

/// The value of field `key`, if present.
pub open spec fn field_of(fields: Seq<(String, JsonScalar)>, key: Seq<char>) -> Option<JsonScalar>
    decreases fields.len(),
{
    if fields.len() == 0 {
        None
    } else if fields[0].0@ == key {
        Some(fields[0].1)
    } else {
        field_of(fields.drop_first(), key)
    }
}

/// Field `key`, or field `alt` when `key` is absent.
pub open spec fn field_or(fields: Seq<(String, JsonScalar)>, key: Seq<char>, alt: Seq<char>) -> Option<JsonScalar> {
    match field_of(fields, key) {
        Some(v) => Some(v),
        None => field_of(fields, alt),
    }
}

/// The text of a field that is a string.
pub open spec fn as_text(v: Option<JsonScalar>) -> Option<Seq<char>> {
    match v {
        Some(JsonScalar::Str(s)) => Some(s@),
        _ => None,
    }
}

/// The number of a field that is an `i64`.
pub open spec fn as_int(v: Option<JsonScalar>) -> Option<i64> {
    match v {
        Some(JsonScalar::Int(i)) => Some(i),
        _ => None,
    }
}

/// The timeline of a report: when it was submitted, reviewed and resolved,
/// its status and the remark left when it was handled.
pub struct Timeline {
    pub submit_time: Option<String>,
    pub review_time: Option<String>,
    pub resolve_time: Option<String>,
    pub status: i64,
    pub remark: String,
}

fn find_field<'a>(fields: &'a [(String, JsonScalar)], key: &str) -> (r: Option<&'a JsonScalar>)
    ensures
        match field_of(fields@, key@) {
            Some(v) => r matches Some(x) && *x == v,
            None => r is None,
        },
{
    let mut i: usize = 0;
    assert(fields@.subrange(0, fields@.len() as int) =~= fields@);
    while i < fields.len()
        invariant
            0 <= i <= fields@.len(),
            field_of(fields@.subrange(i as int, fields@.len() as int), key@) == field_of(fields@, key@),
        decreases fields.len() - i,
    {
        let ghost rest = fields@.subrange(i as int, fields@.len() as int);
        assert(rest.drop_first() =~= fields@.subrange(i + 1, fields@.len() as int));
        assert(rest[0] == fields@[i as int]);
        if str_eq(fields[i].0.as_str(), key) {
            return Some(&fields[i].1);
        }
        i = i + 1;
    }
    None
}

fn text_of(v: Option<&JsonScalar>) -> (r: Option<String>)
    ensures
        match r {
            Some(s) => as_text(match v { Some(x) => Some(*x), None => None }) == Some(s@),
            None => as_text(match v { Some(x) => Some(*x), None => None }) is None,
        },
{
    match v {
        Some(JsonScalar::Str(s)) => Some(s.clone()),
        _ => None,
    }
}

fn field_or_exec<'a>(fields: &'a [(String, JsonScalar)], key: &str, alt: &str) -> (r: Option<&'a JsonScalar>)
    ensures
        match field_or(fields@, key@, alt@) {
            Some(v) => r matches Some(x) && *x == v,
            None => r is None,
        },
{
    match find_field(fields, key) {
        Some(v) => Some(v),
        None => find_field(fields, alt),
    }
}

/// Read the timeline of a report from its JSON object; no object reads as an
/// empty timeline with status 0.
pub fn extract_timeline(v: &Option<JsonObject>) -> (r: Timeline)
    ensures
        match v {
            Some(o) => {
                let f = o.fields@;
                &&& opt_text(r.submit_time) == as_text(field_or(f, "submitTime"@, "createTime"@))
                &&& opt_text(r.review_time) == as_text(field_of(f, "reviewTime"@))
                &&& opt_text(r.resolve_time) == as_text(field_or(f, "resolveTime"@, "handleTime"@))
                &&& r.status == match as_int(field_or(f, "status"@, "result"@)) {
                    Some(i) => i,
                    None => 0,
                }
                &&& r.remark@ == match as_text(field_of(f, "remark"@)) {
                    Some(s) => s,
                    None => seq![],
                }
            },
            None => {
                &&& r.submit_time is None
                &&& r.review_time is None
                &&& r.resolve_time is None
                &&& r.status == 0
                &&& r.remark@.len() == 0
            },
        },
{
    match v {
        None => Timeline {
            submit_time: None,
            review_time: None,
            resolve_time: None,
            status: 0,
            remark: String::new(),
        },
        Some(o) => {
            let f = o.fields.as_slice();
            let submit_time = text_of(field_or_exec(f, "submitTime", "createTime"));
            let review_time = text_of(find_field(f, "reviewTime"));
            let resolve_time = text_of(field_or_exec(f, "resolveTime", "handleTime"));
            let status: i64 = match field_or_exec(f, "status", "result") {
                Some(JsonScalar::Int(i)) => *i,
                _ => 0,
            };
            let remark = match text_of(find_field(f, "remark")) {
                Some(s) => s,
                None => String::new(),
            };
            Timeline { submit_time, review_time, resolve_time, status, remark }
        },
    }
}

/// Mathematical form of an optional text.
pub open spec fn opt_text(s: Option<String>) -> Option<Seq<char>> {
    match s {
        Some(x) => Some(x@),
        None => None,
    }
}

/// A step of the timeline as shown: title, time (a dash when unknown) and
/// whether it is reached.
pub struct TimelineNode {
    pub title: String,
    pub time: String,
    pub done: bool,
}

/// The time shown for a step.
pub open spec fn shown_time(t: Option<Seq<char>>) -> Seq<char> {
    match t {
        Some(s) => s,
        None => "—"@,
    }
}

fn time_or_dash(t: &Option<String>) -> (r: String)
    ensures
        r@ == shown_time(opt_text(*t)),
{
    match t {
        Some(s) => s.clone(),
        None => "—".to_string(),
    }
}

/// The three steps of a report: submitted (always reached), reviewed, and the
/// final step titled by the status.
pub fn timeline_nodes(t: &Timeline) -> (r: Vec<TimelineNode>)
    ensures
        r@.len() == 3,
        r@[0].title@ == "提交举报"@,
        r@[0].time@ == shown_time(opt_text(t.submit_time)),
        r@[0].done,
        r@[1].title@ == "审核处理"@,
        r@[1].time@ == shown_time(opt_text(t.review_time)),
        r@[1].done == t.review_time is Some,
        r@[2].title@ == status_text(t.status),
        r@[2].time@ == shown_time(opt_text(t.resolve_time)),
        r@[2].done == t.resolve_time is Some,
{
    let mut out: Vec<TimelineNode> = Vec::new();
    out.push(TimelineNode { title: "提交举报".to_string(), time: time_or_dash(&t.submit_time), done: true });
    out.push(TimelineNode { title: "审核处理".to_string(), time: time_or_dash(&t.review_time), done: t.review_time.is_some() });
    out.push(TimelineNode {
        title: status_label(t.status).to_string(),
        time: time_or_dash(&t.resolve_time),
        done: t.resolve_time.is_some(),
    });
    out
}

/// A decimal digit.
pub open spec fn is_dec_digit(c: char) -> bool {
    '0' <= c && c <= '9'
}

/// Value of a run of decimal digits, most significant first.
pub open spec fn dec_value(s: Seq<char>) -> nat
    decreases s.len(),
{
    if s.len() == 0 {
        0
    } else {
        dec_value(s.drop_last()) * 10 + ((s.last() as nat) - ('0' as nat)) as nat
    }
}

/// The digits of a number text after its optional sign.
pub open spec fn number_body(s: Seq<char>) -> Seq<char> {
    if s.len() > 0 && (s[0] == '-' || s[0] == '+') {
        s.drop_first()
    } else {
        s
    }
}

/// What `str::parse::<i64>` gives: an optional `+` or `-`, then one or more
/// decimal digits, whose value must fit an `i64`.
pub open spec fn parsed_i64(s: Seq<char>) -> Option<i64> {
    let body = number_body(s);
    if body.len() == 0 || !(forall|i: int| 0 <= i < body.len() ==> is_dec_digit(#[trigger] body[i])) {
        None
    } else {
        let v: int = if s[0] == '-' { -(dec_value(body) as int) } else { dec_value(body) as int };
        if i64::MIN <= v && v <= i64::MAX {
            Some(v as i64)
        } else {
            None
        }
    }
}

proof fn lemma_dec_value_grows(s: Seq<char>, k: int)
    requires
        0 <= k <= s.len(),
        forall|i: int| 0 <= i < s.len() ==> is_dec_digit(#[trigger] s[i]),
    ensures
        dec_value(s.take(k)) <= dec_value(s),
    decreases s.len() - k,
{
    if k < s.len() {
        lemma_dec_value_grows(s, k + 1);
        assert(s.take(k + 1).drop_last() =~= s.take(k));
        assert(is_dec_digit(s[k]));
    } else {
        assert(s.take(k) =~= s);
    }
}

/// Parse a decimal `i64` as `str::parse` does.
pub fn parse_i64(text: &str) -> (r: Option<i64>)
    ensures
        r == parsed_i64(text@),
{
    let cs = chars_of(text);
    let n = cs.len();
    if n == 0 {
        return None;
    }
    let neg = cs[0] == '-';
    let start: usize = if cs[0] == '-' || cs[0] == '+' { 1 } else { 0 };
    let ghost body = number_body(cs@);
    if start == n {
        return None;
    }
    let limit: u64 = if neg { 9_223_372_036_854_775_808u64 } else { 9_223_372_036_854_775_807u64 };
    let mut acc: u64 = 0;
    let mut i: usize = start;
    assert(body =~= cs@.skip(start as int));
    while i < n
        invariant
            start <= i <= n,
            n == cs@.len(),
            n > 0,
            cs@ == text@,
            neg == (cs@[0] == '-'),
            body == number_body(text@),
            body == cs@.skip(start as int),
            body.len() == n - start,
            acc as nat == dec_value(body.take(i - start)),
            acc <= limit,
            limit == (if neg { 9_223_372_036_854_775_808u64 } else { 9_223_372_036_854_775_807u64 }),
            forall|k: int| 0 <= k < i - start ==> is_dec_digit(#[trigger] body[k]),
        decreases n - i,
    {
        let c = cs[i];
        assert(body[i - start] == c);
        if !('0' <= c && c <= '9') {
            assert(!is_dec_digit(body[i - start]));
            return None;
        }
        let d: u64 = ((c as u32) - 48) as u64;
        assert(body.take(i - start + 1).drop_last() =~= body.take(i - start));
        assert(body.take(i - start + 1).last() == c);
        assert(dec_value(body.take(i - start + 1)) == acc * 10 + d);
        if acc > (limit - d) / 10 {
            proof {
                assert(acc * 10 + d > limit) by (nonlinear_arith)
                    requires acc > (limit - d) / 10, d <= 9, limit >= 9;
                if forall|k: int| 0 <= k < body.len() ==> is_dec_digit(#[trigger] body[k]) {
                    lemma_dec_value_grows(body, i - start + 1);
                    assert(dec_value(body) > limit);
                }
            }
            return None;
        }
        assert(acc * 10 + d <= limit) by (nonlinear_arith)
            requires acc <= (limit - d) / 10, d <= 9, limit >= 9;
        acc = acc * 10 + d;
        i = i + 1;
    }
    assert(body.take(n - start) =~= body);
    if neg {
        if acc == 9_223_372_036_854_775_808u64 {
            Some(i64::MIN)
        } else {
            Some(-(acc as i64))
        }
    } else {
        Some(acc as i64)
    }
}

/// Status of a report as a number: its status text parsed, 0 when it is not a number.
pub open spec fn report_status_of(r: Report) -> i64 {
    match parsed_i64(r.status@) {
        Some(v) => v,
        None => 0,
    }
}

/// The numeric status of a report.
pub fn report_status(report: &Report) -> (r: i64)
    ensures
        r == report_status_of(*report),
{
    match parse_i64(report.status.as_str()) {
        Some(v) => v,
        None => 0,
    }
}

/// The reports whose status is `filter` (all of them when there is no filter), in order.
pub open spec fn reports_with_status(rs: Seq<Report>, filter: Option<i64>) -> Seq<Report> {
    rs.filter(|r: Report| match filter {
        Some(v) => report_status_of(r) == v,
        None => true,
    })
}

/// Keep the reports with the chosen status.
pub fn filter_reports(reports: Vec<Report>, filter: Option<i64>) -> (r: Vec<Report>)
    ensures
        r@ == reports_with_status(reports@, filter),
{
    let ghost all = reports@;
    let ghost pred = |r: Report| match filter {
        Some(v) => report_status_of(r) == v,
        None => true,
    };
    let mut pending = reports;
    let mut out: Vec<Report> = Vec::new();
    let ghost mut done: int = 0;
    while pending.len() > 0
        invariant
            0 <= done <= all.len(),
            pending@ == all.subrange(done, all.len() as int),
            pred == (|r: Report| match filter {
                Some(v) => report_status_of(r) == v,
                None => true,
            }),
            out@ == all.take(done).filter(pred),
        decreases pending.len(),
    {
        let r = pending.remove(0);
        proof {
            reveal(Seq::filter);
            assert(all.take(done + 1).drop_last() =~= all.take(done));
            assert(all.take(done + 1).last() == r);
        }
        let keep = match filter {
            Some(v) => report_status(&r) == v,
            None => true,
        };
        if keep {
            out.push(r);
        }
        proof {
            done = done + 1;
            assert(pending@ =~= all.subrange(done, all.len() as int));
        }
    }
    assert(all.take(done) =~= all);
    out
}

/// Badge of a report in the list by its status.
pub fn report_badge(status: i64) -> (r: &'static str)
    ensures
        r@ == (if status == 0 {
            "待审核"@
        } else if status == 1 {
            "已通过"@
        } else if status == 2 {
            "已下架"@
        } else if status == 3 {
            "已驳回"@
        } else {
            "未知"@
        }),
{
    match status {
        0 => "待审核",
        1 => "已通过",
        2 => "已下架",
        3 => "已驳回",
        _ => "未知",
    }
}

/// What the contribute form shows under a field with completion.
pub enum Completion {
    /// Nothing typed.
    Nothing,
    /// The text names an existing entry (ASCII case ignored).
    Existing,
    /// Up to six existing entries containing the text (case ignored), and the
    /// trimmed text, which would be created as a new entry.
    Suggest { candidates: Vec<String>, new_name: String },
}

/// Most candidates offered.
pub const MAX_CANDIDATES: usize = 6;

/// Some option equals `t` with ASCII case ignored (and `t` is not empty).
pub open spec fn names_existing(options: Seq<Seq<char>>, t: Seq<char>) -> bool {
    t.len() > 0 && exists|k: int| 0 <= k < options.len() && seq_ascii_lower(#[trigger] options[k]) == seq_ascii_lower(t)
}

/// The options whose lower-cased text contains `q`, in order.
pub open spec fn options_containing(options: Seq<Seq<char>>, q: Seq<char>) -> Seq<Seq<char>> {
    options.filter(|o: Seq<char>| seq_contains(lowercase_of(o), q))
}

/// The first `MAX_CANDIDATES` of `s` (all of them when there are fewer).
pub open spec fn first_candidates(s: Seq<Seq<char>>) -> Seq<Seq<char>> {
    if s.len() <= MAX_CANDIDATES {
        s
    } else {
        s.take(MAX_CANDIDATES as int)
    }
}

fn eq_ignore_ascii_case(a: &str, b: &[char]) -> (r: bool)
    ensures
        r == (seq_ascii_lower(a@) == seq_ascii_lower(b@)),
{
    let la = to_ascii_lower(chars_of(a).as_slice());
    let lb = to_ascii_lower(b);
    if la.len() != lb.len() {
        assert(la@ != lb@);
        return false;
    }
    let mut i: usize = 0;
    while i < la.len()
        invariant
            0 <= i <= la@.len(),
            la@.len() == lb@.len(),
            la@ == seq_ascii_lower(a@),
            lb@ == seq_ascii_lower(b@),
            forall|k: int| 0 <= k < i ==> la@[k] == lb@[k],
        decreases la.len() - i,
    {
        if la[i] != lb[i] {
            assert(la@[i as int] != lb@[i as int]);
            return false;
        }
        i = i + 1;
    }
    assert(la@ =~= lb@);
    true
}

fn any_equal_ignoring_case(options: &[String], t: &[char]) -> (r: bool)
    ensures
        r == (exists|k: int| 0 <= k < options@.len() && seq_ascii_lower(#[trigger] texts_view(options@)[k]) == seq_ascii_lower(t@)),
{
    let ghost opts = texts_view(options@);
    let mut k: usize = 0;
    while k < options.len()
        invariant
            0 <= k <= options@.len(),
            opts == texts_view(options@),
            forall|j: int| 0 <= j < k ==> seq_ascii_lower(#[trigger] opts[j]) != seq_ascii_lower(t@),
        decreases options.len() - k,
    {
        if eq_ignore_ascii_case(options[k].as_str(), t) {
            assert(seq_ascii_lower(opts[k as int]) == seq_ascii_lower(t@));
            return true;
        }
        k = k + 1;
    }
    false
}

/// Completion of a contribute field holding `value` against the known entries.
pub fn complete_field(value: &str, options: &[String]) -> (r: Completion)
    ensures
        ({
            let t = trim_ws(value@);
            let q = lowercase_of(t);
            let opts = texts_view(options@);
            if q.len() > 0 && !names_existing(opts, t) {
                r matches Completion::Suggest { candidates, new_name } && new_name@ == t
                    && texts_view(candidates@) == first_candidates(options_containing(opts, q))
            } else if names_existing(opts, t) {
                r is Existing
            } else {
                r is Nothing
            }
        }),
{
    let ghost opts = texts_view(options@);
    let tc = trim_whitespace(chars_of(value).as_slice());
    let trimmed = string_from_chars(tc.as_slice());
    let lower = to_lowercase(trimmed.as_str());
    let q = chars_of(lower.as_str());
    let exact = tc.len() > 0 && any_equal_ignoring_case(options, tc.as_slice());
    assert(exact == names_existing(opts, tc@));
    if q.len() > 0 && !exact {
        let ghost all = options_containing(opts, q@);
        let mut candidates: Vec<String> = Vec::new();
        let mut i: usize = 0;
        while i < options.len() && candidates.len() < MAX_CANDIDATES
            invariant
                0 <= i <= options@.len(),
                opts == texts_view(options@),
                all == options_containing(opts, q@),
                texts_view(candidates@) == options_containing(opts.take(i as int), q@),
                candidates@.len() <= MAX_CANDIDATES,
            decreases options.len() - i,
        {
            proof {
                reveal(Seq::filter);
                assert(opts.take(i + 1).drop_last() =~= opts.take(i as int));
                assert(opts.take(i + 1).last() == options@[i as int]@);
            }
            let o = chars_of(to_lowercase(options[i].as_str()).as_str());
            if contains_chars(o.as_slice(), q.as_slice()) {
                let ghost before = candidates@;
                candidates.push(options[i].clone());
                assert(texts_view(candidates@) =~= texts_view(before).push(options@[i as int]@));
            }
            proof {
                assert(texts_view(candidates@) == options_containing(opts.take(i + 1), q@));
            }
            i = i + 1;
        }
        proof {
            lemma_filter_prefix(opts, q@, i as int);
        }
        return Completion::Suggest { candidates, new_name: trimmed };
    }
    if exact {
        Completion::Existing
    } else {
        Completion::Nothing
    }
}

/// Scanning a prefix of the options: once it holds six matches they are the
/// first six of all matches; when it is all of them, all matches.
proof fn lemma_filter_prefix(opts: Seq<Seq<char>>, q: Seq<char>, i: int)
    requires
        0 <= i <= opts.len(),
        i == opts.len() || options_containing(opts.take(i), q).len() >= MAX_CANDIDATES,
        options_containing(opts.take(i), q).len() <= MAX_CANDIDATES,
    ensures
        options_containing(opts.take(i), q) == first_candidates(options_containing(opts, q)),
{
    assert(opts.take(opts.len() as int) =~= opts);
    if i < opts.len() {
        lemma_filter_grows(opts, q, i, opts.len() as int);
    }
}

/// The matches among the first `i` options start the matches among the first `j`.
proof fn lemma_filter_grows(opts: Seq<Seq<char>>, q: Seq<char>, i: int, j: int)
    requires
        0 <= i <= j <= opts.len(),
    ensures
        options_containing(opts.take(i), q).len() <= options_containing(opts.take(j), q).len(),
        options_containing(opts.take(j), q).take(options_containing(opts.take(i), q).len() as int)
            == options_containing(opts.take(i), q),
    decreases j - i,
{
    reveal(Seq::filter);
    let a = options_containing(opts.take(i), q);
    if j > i {
        lemma_filter_grows(opts, q, i, j - 1);
        assert(opts.take(j).drop_last() =~= opts.take(j - 1));
        let c = options_containing(opts.take(j - 1), q);
        let b = options_containing(opts.take(j), q);
        assert(b.take(c.len() as int) =~= c);
        assert(b.take(a.len() as int) =~= c.take(a.len() as int));
    } else {
        assert(a.take(a.len() as int) =~= a);
    }
}


/// The value of the decimal digits of `n` is `n`.
proof fn lemma_dec_value_of_digits(n: nat)
    ensures
        dec_value(crate::cache::nat_digits(n)) == n,
    decreases n,
{
    let d = crate::cache::nat_digits(n);
    assert(('0' as nat) == 48);
    if n < 10 {
        assert(crate::cache::digit_char(n) as u32 == 48 + n);
        assert(d.drop_last() =~= Seq::<char>::empty());
        assert(d.last() == crate::cache::digit_char(n));
        assert((d.last() as nat) == 48 + n);
        assert(dec_value(d.drop_last()) == 0);
        assert(dec_value(d) == dec_value(d.drop_last()) * 10 + ((d.last() as nat) - ('0' as nat)) as nat);
    } else {
        lemma_dec_value_of_digits(n / 10);
        assert(d.drop_last() =~= crate::cache::nat_digits(n / 10));
        assert(d.last() == crate::cache::digit_char(n % 10));
        assert(crate::cache::digit_char(n % 10) as u32 == 48 + n % 10);
        assert((d.last() as nat) == 48 + n % 10);
        assert(dec_value(d) == dec_value(d.drop_last()) * 10 + ((d.last() as nat) - ('0' as nat)) as nat);
        vstd::arithmetic::div_mod::lemma_fundamental_div_mod(n as int, 10);
        assert(dec_value(d) == (n / 10) * 10 + n % 10);
    }
}

/// Reading back the decimal text of a number gives the number: parsing
/// undoes `Display` for every `i64`.
pub proof fn lemma_parse_decimal_round_trip(n: i64)
    ensures
        parsed_i64(crate::cache::int_decimal(n as int)) == Some(n),
{
    if n < 0 {
        let m = (-(n as int)) as nat;
        crate::cache::lemma_nat_digits_are_digits(m);
        lemma_dec_value_of_digits(m);
        let s = crate::cache::int_decimal(n as int);
        assert(s[0] == '-');
        assert(number_body(s) =~= crate::cache::nat_digits(m));
    } else {
        let m = n as nat;
        crate::cache::lemma_nat_digits_are_digits(m);
        lemma_dec_value_of_digits(m);
        let s = crate::cache::int_decimal(n as int);
        assert(s[0] != '-' && s[0] != '+');
        assert(number_body(s) == s);
    }
}

/// A report whose status is written as a number has that status.
pub proof fn lemma_report_status_written(r: Report, v: i64)
    requires
        r.status@ == crate::cache::int_decimal(v as int),
    ensures
        report_status_of(r) == v,
{
    lemma_parse_decimal_round_trip(v);
}

/// Filtering by a status keeps every report with that status and only those,
/// in their order; without a filter every report is kept.
pub proof fn lemma_report_filter(rs: Seq<Report>, v: i64)
    ensures
        forall|i: int| 0 <= i < reports_with_status(rs, Some(v)).len()
            ==> report_status_of(#[trigger] reports_with_status(rs, Some(v))[i]) == v,
        forall|i: int| 0 <= i < rs.len() && report_status_of(rs[i]) == v
            ==> #[trigger] reports_with_status(rs, Some(v)).contains(rs[i]),
        reports_with_status(rs, Some(v)).len() <= rs.len(),
        reports_with_status(rs, None) == rs,
    decreases rs.len(),
{
    broadcast use vstd::seq_lib::group_filter_ensures;
    if rs.len() > 0 {
        lemma_report_filter(rs.drop_last(), v);
        reveal(Seq::filter);
        assert(reports_with_status(rs, None) =~= reports_with_status(rs.drop_last(), None).push(rs.last()));
        assert(rs.drop_last().push(rs.last()) =~= rs);
    } else {
        reveal(Seq::filter);
        assert(reports_with_status(rs, None) =~= rs);
    }
}


/// Completion offers at most `MAX_CANDIDATES` entries, each an existing
/// entry whose lower-cased text contains the typed text; when no more than
/// that many entries contain it, every one of them is offered. An entry equal
/// to the typed text (ASCII case ignored) makes the text an existing name.
pub proof fn lemma_completion_rules(opts: Seq<Seq<char>>, q: Seq<char>, t: Seq<char>)
    ensures
        ({
            let fc = first_candidates(options_containing(opts, q));
            &&& fc.len() <= MAX_CANDIDATES
            &&& forall|i: int| 0 <= i < fc.len() ==> seq_contains(lowercase_of(#[trigger] fc[i]), q) && opts.contains(fc[i])
            &&& options_containing(opts, q).len() <= MAX_CANDIDATES ==> (forall|i: int| 0 <= i < opts.len()
                && seq_contains(lowercase_of(opts[i]), q) ==> #[trigger] fc.contains(opts[i]))
        }),
        (t.len() > 0 && opts.contains(t)) ==> names_existing(opts, t),
        t.len() == 0 ==> !names_existing(opts, t),
{
    broadcast use vstd::seq_lib::group_filter_ensures;
    let all = options_containing(opts, q);
    let fc = first_candidates(all);
    assert forall|i: int| 0 <= i < fc.len() implies seq_contains(lowercase_of(#[trigger] fc[i]), q) && opts.contains(fc[i]) by {
        assert(fc[i] == all[i]);
        assert(all.contains(all[i]));
        opts.lemma_filter_contains_rev(|o: Seq<char>| seq_contains(lowercase_of(o), q), all[i]);
    }
    if t.len() > 0 && opts.contains(t) {
        let k = choose|k: int| 0 <= k < opts.len() && opts[k] == t;
        assert(seq_ascii_lower(opts[k]) == seq_ascii_lower(t));
    }
}

} // verus!
