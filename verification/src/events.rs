//! The event list: pulling (id, invite time, heading) rows out of the API's
//! reply, and choosing the event whose invitation opens closest to now.
use vstd::prelude::*;
use crate::text::{occurs_in, str_contains};
use crate::clock::is_reading;
use crate::time::{chrono_span_between, div_toward_zero, instant_nanos, parse_event_time, representable, rfc3339_parse, Span, Timestamp};
use crate::json::{
    field_str, json_document, opt_object_view, opt_string_view, parse_json, FieldsView,
    JsonDocView, JsonDocument, JsonObject, items_view,
};

verus! {

/// One event as the bot keeps it: its id, when its invitation opens (if it
/// says), and its heading.
#[derive(Clone, Debug, PartialEq, Eq)]
pub struct EventRow {
    pub id: String,
    pub invite_time: Option<String>,
    pub heading: String,
}

pub type RowView = (Seq<char>, Option<Seq<char>>, Seq<char>);

impl View for EventRow {
    type V = RowView;

    open spec fn view(&self) -> RowView {
        (self.id@, opt_string_view(self.invite_time), self.heading@)
    }
}

pub open spec fn rows_view(rows: Seq<EventRow>) -> Seq<RowView> {
    rows.map_values(|r: EventRow| r@)
}

/// The row kept for one element of the reply: an object with a string `id`
/// and a string `heading`, its `inviteTime` kept when that is a string.
pub open spec fn row_of(item: Option<FieldsView>) -> Option<RowView> {
    match item {
        None => None,
        Some(fields) => match (field_str(fields, "id"@), field_str(fields, "heading"@)) {
            (Some(id), Some(heading)) => Some((id, field_str(fields, "inviteTime"@), heading)),
            _ => None,
        },
    }
}

/// The rows kept for the elements of the reply, in order.
pub open spec fn rows_of(items: Seq<Option<FieldsView>>) -> Seq<RowView>
    decreases items.len(),
{
    if items.len() == 0 {
        Seq::empty()
    } else {
        let before = rows_of(items.drop_last());
        match row_of(items.last()) {
            Some(r) => before.push(r),
            None => before,
        }
    }
}

/// An element of the reply gives a row: it is an object with a string `id`
/// and a string `heading`.
pub open spec fn gives_row(item: Option<FieldsView>) -> bool {
    match item {
        Some(fields) => field_str(fields, "id"@) is Some && field_str(fields, "heading"@) is Some,
        None => false,
    }
}

/// The row of an element that gives one: its `id`, its `inviteTime` when that
/// is a string, and its `heading`.
pub open spec fn element_row(item: Option<FieldsView>) -> RowView {
    let fields = match item {
        Some(f) => f,
        None => Seq::empty(),
    };
    (field_str(fields, "id"@).unwrap(), field_str(fields, "inviteTime"@), field_str(fields, "heading"@).unwrap())
}

/// The elements of a reply that are kept, in order.
pub open spec fn kept_elements(items: Seq<Option<FieldsView>>) -> Seq<Option<FieldsView>> {
    items.filter(|it: Option<FieldsView>| gives_row(it))
}

/// The rows of the elements kept from a reply, in order.
pub open spec fn rows_of_kept(items: Seq<Option<FieldsView>>) -> Seq<RowView> {
    kept_elements(items).map_values(|it: Option<FieldsView>| element_row(it))
}

/// The rows kept from a reply's elements are exactly those of the elements
/// that are objects with a string `id` and a string `heading`: one row per
/// such element, in their order, each made of that element's `id`,
/// `inviteTime` and `heading`; no row is dropped, merged or added.
pub proof fn law_rows_are_the_qualifying_elements(items: Seq<Option<FieldsView>>)
    ensures
        rows_of(items) == rows_of_kept(items),
        rows_of(items).len() == kept_elements(items).len(),
        forall|k: int| 0 <= k < rows_of(items).len() ==> gives_row(#[trigger] kept_elements(items)[k])
            && rows_of(items)[k] == element_row(kept_elements(items)[k]),
    decreases items.len(),
{
    let q = |it: Option<FieldsView>| gives_row(it);
    let f = |it: Option<FieldsView>| element_row(it);
    if items.len() > 0 {
        let rest = items.drop_last();
        law_rows_are_the_qualifying_elements(rest);
        let last = items.last();
        reveal(Seq::filter);
        assert(items.filter(q) == if q(last) { rest.filter(q).push(last) } else { rest.filter(q) });
        assert(kept_elements(items) == items.filter(q));
        assert(kept_elements(rest) == rest.filter(q));
        if gives_row(last) {
            assert(row_of(last) == Some(element_row(last)));
            assert(rest.filter(q).push(last).map_values(f) =~= rest.filter(q).map_values(f).push(f(last)));
        } else {
            assert(row_of(last) is None);
        }
    } else {
        reveal(Seq::filter);
        assert(items.filter(q) =~= Seq::<Option<FieldsView>>::empty());
        assert(items.filter(q).map_values(f) =~= Seq::<RowView>::empty());
    }
    assert(kept_elements(items) == items.filter(q));
    items.filter_lemma(q);
}

/// The rows of a reply: those of its elements when it is an array, none
/// when it is another JSON value, the parse error when it is no JSON.
pub open spec fn rows_from_reply(text: Seq<char>) -> Result<Seq<RowView>, Seq<char>> {
    match json_document(text) {
        Err(e) => Err(e),
        Ok(JsonDocView::Array(items)) => Ok(rows_of(items)),
        Ok(_) => Ok(Seq::empty()),
    }
}

fn row_from(item: &Option<JsonObject>) -> (r: Option<EventRow>)
    ensures
        match r {
            Some(row) => row_of(opt_object_view(*item)) == Some(row@),
            None => row_of(opt_object_view(*item)) is None,
        },
{
    match item {
        None => None,
        Some(obj) => {
            let id = obj.get_str("id");
            let invite = obj.get_str("inviteTime");
            let heading = obj.get_str("heading");
            match (id, heading) {
                (Some(id), Some(heading)) => Some(EventRow { id, invite_time: invite, heading }),
                _ => None,
            }
        },
    }
}

/// Keeps, from the elements of a reply, those that are objects with a string
/// `id` and a string `heading`.
pub fn rows_from_items(items: &Vec<Option<JsonObject>>) -> (r: Vec<EventRow>)
    ensures
        rows_view(r@) == rows_of(items_view(items@)),
        rows_view(r@) == rows_of_kept(items_view(items@)),
{
    let mut rows: Vec<EventRow> = Vec::new();
    let n = items.len();
    let mut i: usize = 0;
    while i < n
        invariant
            n == items.len(),
            i <= n,
            rows_view(rows@) == rows_of(items_view(items@).take(i as int)),
        decreases n - i,
    {
        let ghost before = rows@;
        let row = row_from(&items[i]);
        proof {
            let iv = items_view(items@);
            assert(iv.take(i + 1).drop_last() =~= iv.take(i as int));
            assert(iv.take(i + 1).last() == opt_object_view(items@[i as int]));
        }
        match row {
            Some(row) => {
                rows.push(row);
                assert(rows_view(rows@) =~= rows_view(before).push(rows@.last()@));
            },
            None => {},
        }
        i = i + 1;
    }
    assert(items_view(items@).take(n as int) =~= items_view(items@));
    proof {
        law_rows_are_the_qualifying_elements(items_view(items@));
    }
    rows
}

pub open spec fn kept_rows_result(items: Seq<Option<FieldsView>>) -> Result<Seq<RowView>, Seq<char>> {
    Ok(rows_of_kept(items))
}

pub open spec fn rows_result_view(r: Result<Vec<EventRow>, String>) -> Result<Seq<RowView>, Seq<char>> {
    match r {
        Ok(rows) => Ok(rows_view(rows@)),
        Err(e) => Err(e@),
    }
}

/// What `serde_json::to_string_pretty` writes for a list of rows, each row an
/// object with the fields `id`, `inviteTime` (null when absent) and `heading`.
pub uninterp spec fn json_event_list(rows: Seq<RowView>) -> Seq<char>;

/// Turns each row into a `serde_json::Value` object with the fields `id`,
/// `inviteTime` and `heading` (`Value::from` of each, so a missing invitation
/// time is `null`) and calls `serde_json::to_string_pretty` on the list. The
/// contract claims that the text is the one named by `json_event_list`.
#[verifier::external_body]
fn pretty_event_rows(rows: &Vec<EventRow>) -> (r: String)
    ensures
        r@ == json_event_list(rows_view(rows@)),
{
    let list: Vec<serde_json::Value> = rows.iter().map(|row| serde_json::Value::Object(serde_json::Map::from_iter([
        ("id".to_string(), serde_json::Value::from(row.id.clone())),
        ("inviteTime".to_string(), serde_json::Value::from(row.invite_time.clone())),
        ("heading".to_string(), serde_json::Value::from(row.heading.clone())),
    ]))).collect();
    serde_json::to_string_pretty(&list).unwrap_or_default()
}

/// The text stored for the extracted events: the rows as a pretty-printed
/// JSON array.
pub fn events_file_content(rows: &Vec<EventRow>) -> (r: String)
    ensures
        r@ == json_event_list(rows_view(rows@)),
{
    pretty_event_rows(rows)
}

/// Reads the events of the API's reply: the rows of its elements when it is
/// an array, none when it is another JSON value, the parse error otherwise.
pub fn read_ids_and_invite_times(text: &str) -> (r: Result<Vec<EventRow>, String>)
    ensures
        rows_result_view(r) == rows_from_reply(text@),
        json_document(text@) matches Ok(JsonDocView::Array(items))
            ==> rows_result_view(r) == kept_rows_result(items),
{
    match parse_json(text) {
        Err(e) => Err(e),
        Ok(JsonDocument::Array(items)) => Ok(rows_from_items(&items)),
        Ok(_) => {
            let none: Vec<EventRow> = Vec::new();
            assert(rows_view(none@) =~= Seq::<RowView>::empty());
            Ok(none)
        },
    }
}


/// Why no next event could be chosen.
#[derive(Debug, PartialEq, Eq)]
pub enum NextEventError {
    /// The event list could not be read; the reason.
    Unreadable(String),
    /// The event list is not JSON; the parser's message.
    Json(String),
    /// The event list is JSON but not an array.
    NotArray,
    /// An invitation time is not RFC 3339; the parser's message.
    InviteTime(String),
    /// An instant lies outside what chrono can represent.
    OutOfRange,
}

/// The plain view of a `NextEventError`.
pub enum NextEventFailure {
    Unreadable(Seq<char>),
    Json(Seq<char>),
    NotArray,
    InviteTime(Seq<char>),
    OutOfRange,
}

impl View for NextEventError {
    type V = NextEventFailure;

    open spec fn view(&self) -> NextEventFailure {
        match self {
            NextEventError::Unreadable(m) => NextEventFailure::Unreadable(m@),
            NextEventError::Json(m) => NextEventFailure::Json(m@),
            NextEventError::NotArray => NextEventFailure::NotArray,
            NextEventError::InviteTime(m) => NextEventFailure::InviteTime(m@),
            NextEventError::OutOfRange => NextEventFailure::OutOfRange,
        }
    }
}

/// The message shown for a failure.
pub open spec fn failure_message(f: NextEventFailure) -> Seq<char> {
    match f {
        NextEventFailure::Unreadable(m) => m,
        NextEventFailure::Json(m) => m,
        NextEventFailure::NotArray => "Invalid JSON format"@,
        NextEventFailure::InviteTime(m) => m,
        NextEventFailure::OutOfRange => "timestamp out of range"@,
    }
}

impl NextEventError {
    /// The message shown for this failure.
    pub fn message(&self) -> (r: String)
        ensures
            r@ == failure_message(self@),
    {
        match self {
            NextEventError::Unreadable(m) => m.clone(),
            NextEventError::Json(m) => m.clone(),
            NextEventError::NotArray => "Invalid JSON format".to_owned(),
            NextEventError::InviteTime(m) => m.clone(),
            NextEventError::OutOfRange => "timestamp out of range".to_owned(),
        }
    }
}

/// The best event so far and its distance, in whole seconds, from now.
pub type Best = Option<(RowView, int)>;

/// `|x|`.
pub open spec fn abs_int(x: int) -> int {
    if x < 0 { -x } else { x }
}

/// A distance beats the best so far: there is none yet, or it is strictly smaller.
pub open spec fn closer(best: Best, d: int) -> bool {
    match best {
        None => true,
        Some(b) => d < b.1,
    }
}

/// An element's heading marks a course, which the bot leaves alone.
pub open spec fn is_course(fields: FieldsView) -> bool {
    match field_str(fields, "heading"@) {
        Some(h) => occurs_in(h, "kurs"@),
        None => false,
    }
}

/// A text, or "none" when there is none.
pub open spec fn or_none(v: Option<Seq<char>>) -> Seq<char> {
    match v {
        Some(s) => s,
        None => "none"@,
    }
}

/// Looks at one element of the event list: a course or an element without an
/// invitation time leaves the best event as it is; otherwise the element's
/// distance from now is the whole seconds of the span between them, and it
/// becomes the best event when it is strictly closer than the best so far.
pub open spec fn consider(best: Best, item: Option<FieldsView>, now: Timestamp) -> Result<Best, NextEventFailure> {
    let fields = match item {
        Some(f) => f,
        None => Seq::empty(),
    };
    if is_course(fields) {
        Ok(best)
    } else {
        match field_str(fields, "inviteTime"@) {
            None => Ok(best),
            Some(t) => match rfc3339_parse(t) {
                Err(e) => Err(NextEventFailure::InviteTime(e)),
                Ok(at) => match chrono_span_between(at.0, at.1, now.secs, now.nanos) {
                    None => Err(NextEventFailure::OutOfRange),
                    Some(span) => {
                        let d = abs_int(span.0 as int);
                        if closer(best, d) {
                            Ok(Some(((or_none(field_str(fields, "id"@)), Some(t), or_none(field_str(fields, "heading"@))), d)))
                        } else {
                            Ok(best)
                        }
                    },
                },
            },
        }
    }
}

/// The outcome of looking at the first `n` elements in order; the first
/// failure ends the search.
pub open spec fn select_upto(items: Seq<Option<FieldsView>>, now: Timestamp, n: nat) -> Result<Best, NextEventFailure>
    decreases n,
{
    if n == 0 {
        Ok(None)
    } else {
        match select_upto(items, now, (n - 1) as nat) {
            Err(e) => Err(e),
            Ok(best) => consider(best, items[n - 1], now),
        }
    }
}

/// Once the search has failed, looking at more elements keeps the failure.
proof fn lemma_failure_persists(items: Seq<Option<FieldsView>>, now: Timestamp, k: nat, n: nat)
    requires
        k <= n,
        select_upto(items, now, k) is Err,
    ensures
        select_upto(items, now, n) == select_upto(items, now, k),
    decreases n - k,
{
    if k < n {
        lemma_failure_persists(items, now, k, (n - 1) as nat);
    }
}

/// The event chosen from all the elements, without its distance.
pub open spec fn select_next(items: Seq<Option<FieldsView>>, now: Timestamp) -> Result<Option<RowView>, NextEventFailure> {
    match select_upto(items, now, items.len()) {
        Err(e) => Err(e),
        Ok(None) => Ok(None),
        Ok(Some(b)) => Ok(Some(b.0)),
    }
}

pub open spec fn next_result_view(r: Result<Option<EventRow>, NextEventError>) -> Result<Option<RowView>, NextEventFailure> {
    match r {
        Ok(Some(row)) => Ok(Some(row@)),
        Ok(None) => Ok(None),
        Err(e) => Err(e@),
    }
}

fn text_or_none(v: Option<String>) -> (r: String)
    ensures
        r@ == or_none(opt_string_view(v)),
{
    match v {
        Some(s) => s,
        None => "none".to_owned(),
    }
}

/// The positions of the courses looked at before the search ended: every
/// course among the first `n` elements that the search reached without a
/// failure.
pub open spec fn courses_seen(items: Seq<Option<FieldsView>>, now: Timestamp, n: nat) -> Seq<usize>
    decreases n,
{
    if n == 0 {
        Seq::empty()
    } else {
        let prev = courses_seen(items, now, (n - 1) as nat);
        if select_upto(items, now, (n - 1) as nat) is Ok && is_course(item_fields(items[n - 1])) {
            prev.push((n - 1) as usize)
        } else {
            prev
        }
    }
}

/// After a failure, no more courses are looked at.
proof fn lemma_courses_after_failure(items: Seq<Option<FieldsView>>, now: Timestamp, k: nat, n: nat)
    requires
        k <= n,
        select_upto(items, now, k) is Err,
    ensures
        courses_seen(items, now, n) == courses_seen(items, now, k),
    decreases n - k,
{
    if k < n {
        lemma_courses_after_failure(items, now, k, (n - 1) as nat);
        lemma_failure_persists(items, now, k, (n - 1) as nat);
    }
}

/// Chooses, among the elements of the event list, the event whose invitation
/// opens closest to `now` (the first of equally close ones), leaving out
/// courses and elements without an invitation time; appends to `skipped` the
/// positions of the courses it passed over. At a moment chrono can represent,
/// no instant is ever out of range.
pub fn select_next_event(items: &Vec<Option<JsonObject>>, now: Timestamp, skipped: &mut Vec<usize>) -> (r: Result<Option<EventRow>, NextEventError>)
    ensures
        next_result_view(r) == select_next(items_view(items@), now),
        final(skipped)@ == old(skipped)@ + courses_seen(items_view(items@), now, items@.len()),
        representable(now.secs, now.nanos) ==> !(r matches Err(NextEventError::OutOfRange)),
        next_result_view(r) is Ok ==> forall|k: int| 0 <= k < items@.len() && is_candidate(#[trigger] items_view(items@)[k])
            ==> measured_plainly(items_view(items@)[k], now),
{
    let ghost iv = items_view(items@);
    let ghost start = skipped@;
    let n = items.len();
    let mut best: Option<EventRow> = None;
    let mut best_dist: i128 = 0;
    let mut i: usize = 0;
    while i < n
        invariant
            n == items.len(),
            iv == items_view(items@),
            iv.len() == n,
            i <= n,
            0 <= best_dist <= i64::MAX as i128 + 1,
            select_upto(iv, now, i as nat) == Ok::<Best, NextEventFailure>(match best {
                Some(row) => Some((row@, best_dist as int)),
                None => None,
            }),
            skipped@ == start + courses_seen(iv, now, i as nat),
            start == old(skipped)@,
            forall|k: int| 0 <= k < i && is_candidate(#[trigger] iv[k]) ==> measured_plainly(iv[k], now),
        decreases n - i,
    {
        assert(iv[i as int] == opt_object_view(items@[i as int]));
        match &items[i] {
            None => {},
            Some(obj) => {
                let heading = obj.get_str("heading");
                let course = match &heading {
                    Some(h) => str_contains(h.as_str(), "kurs"),
                    None => false,
                };
                assert(item_fields(iv[i as int]) == obj@);
                assert(course == is_course(item_fields(iv[i as int])));
                if course {
                    skipped.push(i);
                    assert(skipped@ =~= start + courses_seen(iv, now, (i + 1) as nat));
                } else {
                    assert(courses_seen(iv, now, (i + 1) as nat) == courses_seen(iv, now, i as nat));
                    match obj.get_str("inviteTime") {
                        None => {},
                        Some(t) => {
                            let at = match parse_event_time(t.as_str()) {
                                Ok(at) => at,
                                Err(e) => {
                                    let r = Err(NextEventError::InviteTime(e));
                                    proof {
                                        lemma_failure_persists(iv, now, (i + 1) as nat, n as nat);
                                        lemma_courses_after_failure(iv, now, (i + 1) as nat, n as nat);
                                    }
                                    return r;
                                },
                            };
                            let span = match crate::time::span_of(at, now) {
                                Some(s) => s,
                                None => {
                                    proof {
                                        lemma_failure_persists(iv, now, (i + 1) as nat, n as nat);
                                        lemma_courses_after_failure(iv, now, (i + 1) as nat, n as nat);
                                    }
                                    return Err(NextEventError::OutOfRange);
                                },
                            };
                            proof {
                                assert(t@ == field_str(item_fields(iv[i as int]), "inviteTime"@).unwrap());
                                assert(invite_instant(iv[i as int]) == (at.secs, at.nanos));
                                assert(measured_plainly(iv[i as int], now));
                            }
                            let s = span.secs as i128;
                            let d: i128 = if s < 0 { -s } else { s };
                            if best.is_none() || d < best_dist {
                                best = Some(EventRow {
                                    id: text_or_none(obj.get_str("id")),
                                    invite_time: Some(t),
                                    heading: text_or_none(heading),
                                });
                                best_dist = d;
                            }
                        },
                    }
                }
            },
        }
        i = i + 1;
    }
    match best {
        Some(row) => Ok(Some(row)),
        None => Ok(None),
    }
}

/// The outcome for an event-list text at the moment `now`.
pub open spec fn next_event_at(text: Seq<char>, now: Timestamp) -> Result<Option<RowView>, NextEventFailure> {
    match json_document(text) {
        Err(e) => Err(NextEventFailure::Json(e)),
        Ok(JsonDocView::Array(items)) => select_next(items, now),
        Ok(_) => Err(NextEventFailure::NotArray),
    }
}

/// The courses passed over for an event-list text at the moment `now`.
pub open spec fn courses_in(text: Seq<char>, now: Timestamp) -> Seq<usize> {
    match json_document(text) {
        Ok(JsonDocView::Array(items)) => courses_seen(items, now, items.len()),
        _ => Seq::empty(),
    }
}

/// The event list is an array in which no element is a candidate: there is
/// no event to choose.
pub open spec fn has_no_candidate(text: Seq<char>) -> bool {
    match json_document(text) {
        Ok(JsonDocView::Array(items)) => forall|k: int| 0 <= k < items.len() ==> !is_candidate(#[trigger] items[k]),
        _ => false,
    }
}

pub open spec fn chosen_view(r: Result<EventRow, NextEventError>) -> Result<Option<RowView>, NextEventFailure> {
    match r {
        Ok(row) => Ok(Some(row@)),
        Err(e) => Err(e@),
    }
}

/// Reads the event list and chooses the event whose invitation opens closest
/// to the current time, appending to `skipped` the positions of the courses
/// it passed over. A list without any candidate event is left out: there the
/// bot has nothing to wait for.
pub fn get_next_event(text: &str, skipped: &mut Vec<usize>) -> (r: Result<EventRow, NextEventError>)
    requires
        !has_no_candidate(text@),
    ensures
        exists|now: Timestamp| {
            &&& now.nanos < 1_000_000_000
            &&& representable(now.secs, now.nanos)
            &&& (json_document(text@) is Ok && json_document(text@)->Ok_0 is Array ==> is_reading(now))
            &&& chosen_view(r) == #[trigger] next_event_at(text@, now)
            &&& (chosen_view(r) is Ok ==> all_measured_plainly(text@, now))
            &&& final(skipped)@ == old(skipped)@ + courses_in(text@, now)
        },
        !(r matches Err(NextEventError::OutOfRange)),
{
    let ghost zero = Timestamp { secs: 0, nanos: 0 };
    let doc = match parse_json(text) {
        Err(e) => {
            let r = Err(NextEventError::Json(e));
            assert(chosen_view(r) == next_event_at(text@, zero));
            assert(skipped@ =~= old(skipped)@ + courses_in(text@, zero));
            return r;
        },
        Ok(doc) => doc,
    };
    match doc {
        JsonDocument::Array(items) => {
            let now = crate::time::current_instant();
            let found = select_next_event(&items, now, skipped);
            proof {
                law_next_event_is_closest(items_view(items@), now);
            }
            match found {
                Ok(Some(row)) => {
                    let r = Ok(row);
                    assert(chosen_view(r) == next_event_at(text@, now));
                    r
                },
                Ok(None) => {
                    assert(has_no_candidate(text@));
                    Err(NextEventError::NotArray)
                },
                Err(e) => {
                    let r = Err(e);
                    assert(chosen_view(r) == next_event_at(text@, now));
                    r
                },
            }
        },
        _ => {
            let r = Err(NextEventError::NotArray);
            assert(chosen_view(r) == next_event_at(text@, zero));
            assert(skipped@ =~= old(skipped)@ + courses_in(text@, zero));
            r
        },
    }
}

/// The positions of the courses among the first `n` elements.
pub open spec fn course_positions(items: Seq<Option<FieldsView>>, n: nat) -> Seq<usize>
    decreases n,
{
    if n == 0 {
        Seq::empty()
    } else if is_course(item_fields(items[n - 1])) {
        course_positions(items, (n - 1) as nat).push((n - 1) as usize)
    } else {
        course_positions(items, (n - 1) as nat)
    }
}

/// An element is a candidate when it is not a course and has an invitation time.
fn candidate_check(item: &Option<JsonObject>) -> (r: (bool, bool))
    ensures
        r.0 == is_course(item_fields(opt_object_view(*item))),
        r.1 == is_candidate(opt_object_view(*item)),
{
    match item {
        None => {
            assert(field_str(Seq::empty(), "heading"@) is None);
            assert(field_str(Seq::empty(), "inviteTime"@) is None);
            (false, false)
        },
        Some(obj) => {
            let course = match obj.get_str("heading") {
                Some(h) => str_contains(h.as_str(), "kurs"),
                None => false,
            };
            let timed = obj.get_str("inviteTime").is_some();
            (course, !course && timed)
        },
    }
}

/// Reads the event list and chooses the next event, like `get_next_event`,
/// but also for a list without any candidate: then there is no event, and
/// `skipped` gets the positions of all its courses.
pub fn next_event_or_none(text: &str, skipped: &mut Vec<usize>) -> (r: Result<Option<EventRow>, NextEventError>)
    ensures
        r matches Ok(None) ==> has_no_candidate(text@) && (json_document(text@) matches Ok(JsonDocView::Array(items))
            && final(skipped)@ == old(skipped)@ + course_positions(items, items.len())),
        !(r matches Ok(None)) ==> exists|now: Timestamp| {
            &&& now.nanos < 1_000_000_000
            &&& representable(now.secs, now.nanos)
            &&& (json_document(text@) is Ok && json_document(text@)->Ok_0 is Array ==> is_reading(now))
            &&& next_result_view(r) == #[trigger] next_event_at(text@, now)
            &&& (next_result_view(r) is Ok ==> all_measured_plainly(text@, now))
            &&& final(skipped)@ == old(skipped)@ + courses_in(text@, now)
        },
        !(r matches Err(NextEventError::OutOfRange)),
{
    let mut any_candidate = true;
    let mut courses: Vec<usize> = Vec::new();
    match parse_json(text) {
        Ok(JsonDocument::Array(items)) => {
            let ghost iv = items_view(items@);
            let n = items.len();
            let mut i: usize = 0;
            any_candidate = false;
            while i < n
                invariant
                    n == items.len(),
                    iv == items_view(items@),
                    iv.len() == n,
                    i <= n,
                    json_document(text@) == Ok::<JsonDocView, Seq<char>>(JsonDocView::Array(iv)),
                    !any_candidate ==> forall|k: int| 0 <= k < i ==> !is_candidate(#[trigger] iv[k]),
                    any_candidate ==> !has_no_candidate(text@),
                    courses@ == course_positions(iv, i as nat),
                decreases n - i,
            {
                assert(iv[i as int] == opt_object_view(items@[i as int]));
                let (course, candidate) = candidate_check(&items[i]);
                if candidate {
                    any_candidate = true;
                }
                if course {
                    courses.push(i);
                }
                assert(courses@ =~= course_positions(iv, (i + 1) as nat));
                i = i + 1;
            }
        },
        _ => {},
    }
    if any_candidate {
        match get_next_event(text, skipped) {
            Ok(row) => Ok(Some(row)),
            Err(e) => Err(e),
        }
    } else {
        let n = courses.len();
        let mut j: usize = 0;
        let ghost start = skipped@;
        while j < n
            invariant
                n == courses.len(),
                j <= n,
                skipped@ == start + courses@.take(j as int),
            decreases n - j,
        {
            skipped.push(courses[j]);
            assert(skipped@ =~= start + courses@.take(j + 1));
            j = j + 1;
        }
        assert(courses@.take(n as int) =~= courses@);
        Ok(None)
    }
}

/// The fields of an element (none when it is not an object).
pub open spec fn item_fields(item: Option<FieldsView>) -> FieldsView {
    match item {
        Some(f) => f,
        None => Seq::empty(),
    }
}

/// An element is a candidate: no course, and it has an invitation time.
pub open spec fn is_candidate(item: Option<FieldsView>) -> bool {
    !is_course(item_fields(item)) && field_str(item_fields(item), "inviteTime"@) is Some
}

/// A candidate's distance from `now`: the whole seconds, without sign, of the
/// span from now to its invitation time.
pub open spec fn distance(item: Option<FieldsView>, now: Timestamp) -> int {
    let t = field_str(item_fields(item), "inviteTime"@).unwrap();
    let at = match rfc3339_parse(t) {
        Ok(at) => at,
        Err(_) => (0, 0),
    };
    abs_int(chrono_span_between(at.0, at.1, now.secs, now.nanos).unwrap().0 as int)
}

/// The instant a candidate's invitation opens, as parsed.
pub open spec fn invite_instant(item: Option<FieldsView>) -> (i64, u32) {
    match rfc3339_parse(field_str(item_fields(item), "inviteTime"@).unwrap()) {
        Ok(at) => at,
        Err(_) => (0, 0),
    }
}

/// A candidate's distance from `now` in plain terms: the whole seconds,
/// without sign, between its opening instant and `now`.
pub open spec fn plain_distance(item: Option<FieldsView>, now: Timestamp) -> int {
    let at = invite_instant(item);
    abs_int(div_toward_zero(instant_nanos(at.0, at.1) - instant_nanos(now.secs, now.nanos), 1_000_000_000))
}

/// The distance used for a candidate is the plain one whenever neither its
/// opening time nor `now` falls in a leap second.
pub open spec fn measured_plainly(item: Option<FieldsView>, now: Timestamp) -> bool {
    invite_instant(item).1 < 1_000_000_000 && now.nanos < 1_000_000_000
        ==> distance(item, now) == plain_distance(item, now)
}

/// Every candidate of an event-list text is measured plainly from `now`.
pub open spec fn all_measured_plainly(text: Seq<char>, now: Timestamp) -> bool {
    match json_document(text) {
        Ok(JsonDocView::Array(items)) => forall|k: int| 0 <= k < items.len() && is_candidate(#[trigger] items[k])
            ==> measured_plainly(items[k], now),
        _ => true,
    }
}

/// The row reported for a candidate.
pub open spec fn candidate_row(item: Option<FieldsView>) -> RowView {
    let fields = item_fields(item);
    (or_none(field_str(fields, "id"@)), field_str(fields, "inviteTime"@), or_none(field_str(fields, "heading"@)))
}

/// `best` is what the first `n` elements give: nothing when none of them is a
/// candidate; otherwise a candidate at the least distance, the first such one.
pub open spec fn is_best_of(items: Seq<Option<FieldsView>>, now: Timestamp, n: nat, best: Best) -> bool {
    match best {
        None => forall|k: int| 0 <= k < n ==> !is_candidate(#[trigger] items[k]),
        Some(b) => exists|j: int| {
            &&& 0 <= j < n
            &&& is_candidate(items[j])
            &&& b == (candidate_row(items[j]), distance(items[j], now))
            &&& forall|k: int| 0 <= k < n && is_candidate(#[trigger] items[k]) ==> distance(items[k], now) >= b.1
            &&& forall|k: int| 0 <= k < j && is_candidate(#[trigger] items[k]) ==> distance(items[k], now) > b.1
        },
    }
}

/// When the search succeeds, what it has found is the best of the elements seen.
proof fn lemma_select_upto_is_best(items: Seq<Option<FieldsView>>, now: Timestamp, n: nat)
    requires
        n <= items.len(),
    ensures
        select_upto(items, now, n) matches Ok(best) ==> is_best_of(items, now, n, best),
    decreases n,
{
    if n > 0 {
        let m = (n - 1) as nat;
        lemma_select_upto_is_best(items, now, m);
        match select_upto(items, now, m) {
            Err(_) => {},
            Ok(prev) => {
                let item = items[m as int];
                assert(item_fields(item) == match item { Some(f) => f, None => Seq::<(Seq<char>, Option<Seq<char>>)>::empty() });
                if !is_candidate(item) {
                    assert(consider(prev, item, now) == Ok::<Best, NextEventFailure>(prev));
                    match prev {
                        None => {
                            assert forall|k: int| 0 <= k < n implies !is_candidate(#[trigger] items[k]) by {
                                if k < m {
                                    assert(!is_candidate(items[k]));
                                }
                            }
                        },
                        Some(b) => {
                            let j = choose|j: int| {
                                &&& 0 <= j < m
                                &&& is_candidate(items[j])
                                &&& b == (candidate_row(items[j]), distance(items[j], now))
                                &&& forall|k: int| 0 <= k < m && is_candidate(#[trigger] items[k]) ==> distance(items[k], now) >= b.1
                                &&& forall|k: int| 0 <= k < j && is_candidate(#[trigger] items[k]) ==> distance(items[k], now) > b.1
                            };
                            assert(is_best_of(items, now, n, prev));
                        },
                    }
                } else if consider(prev, item, now) is Ok {
                    let d = distance(item, now);
                    match prev {
                        None => {
                            assert(consider(prev, item, now) == Ok::<Best, NextEventFailure>(Some((candidate_row(item), d))));
                            assert(is_best_of(items, now, n, Some((candidate_row(item), d))));
                        },
                        Some(b) => {
                            let j = choose|j: int| {
                                &&& 0 <= j < m
                                &&& is_candidate(items[j])
                                &&& b == (candidate_row(items[j]), distance(items[j], now))
                                &&& forall|k: int| 0 <= k < m && is_candidate(#[trigger] items[k]) ==> distance(items[k], now) >= b.1
                                &&& forall|k: int| 0 <= k < j && is_candidate(#[trigger] items[k]) ==> distance(items[k], now) > b.1
                            };
                            if d < b.1 {
                                assert(consider(prev, item, now) == Ok::<Best, NextEventFailure>(Some((candidate_row(item), d))));
                                assert(is_best_of(items, now, n, Some((candidate_row(item), d))));
                            } else {
                                assert(consider(prev, item, now) == Ok::<Best, NextEventFailure>(prev));
                                assert(is_best_of(items, now, n, prev));
                            }
                        },
                    }
                }
            },
        }
    }
}

/// The event chosen as next is a candidate (not a course, and with an
/// invitation time) at the least distance from now among all candidates, and
/// the first of the candidates at that distance; no event is chosen only when
/// there is no candidate.
pub proof fn law_next_event_is_closest(items: Seq<Option<FieldsView>>, now: Timestamp)
    ensures
        select_next(items, now) matches Ok(None) ==> forall|k: int| 0 <= k < items.len() ==> !is_candidate(#[trigger] items[k]),
        select_next(items, now) matches Ok(Some(row)) ==> exists|j: int| {
            &&& 0 <= j < items.len()
            &&& is_candidate(items[j])
            &&& row == candidate_row(items[j])
            &&& forall|k: int| 0 <= k < items.len() && is_candidate(#[trigger] items[k]) ==> distance(items[k], now) >= distance(items[j], now)
            &&& forall|k: int| 0 <= k < j && is_candidate(#[trigger] items[k]) ==> distance(items[k], now) > distance(items[j], now)
        },
{
    lemma_select_upto_is_best(items, now, items.len());
}


/// Measured from a clock reading in plain time, the event chosen as next is a
/// candidate whose opening lies fewest whole seconds away from the reading,
/// and the first such candidate: for every candidate `k` (whose opening time,
/// like the chosen one's, is not in a leap second), `k` is at least as far
/// from the reading, and strictly farther when it comes earlier in the list.
pub proof fn law_next_event_closest_to_reading(items: Seq<Option<FieldsView>>, now: Timestamp)
    requires
        now.nanos < 1_000_000_000,
        select_next(items, now) is Ok,
        forall|k: int| 0 <= k < items.len() && is_candidate(#[trigger] items[k]) ==> measured_plainly(items[k], now),
    ensures
        select_next(items, now) matches Ok(Some(row)) ==> exists|j: int| {
            &&& 0 <= j < items.len()
            &&& is_candidate(items[j])
            &&& row == candidate_row(items[j])
            &&& forall|k: int| 0 <= k < items.len() && is_candidate(#[trigger] items[k])
                && invite_instant(items[k]).1 < 1_000_000_000 && invite_instant(items[j]).1 < 1_000_000_000
                ==> plain_distance(items[k], now) >= plain_distance(items[j], now)
            &&& forall|k: int| 0 <= k < j && is_candidate(#[trigger] items[k])
                && invite_instant(items[k]).1 < 1_000_000_000 && invite_instant(items[j]).1 < 1_000_000_000
                ==> plain_distance(items[k], now) > plain_distance(items[j], now)
        },
{
    law_next_event_is_closest(items, now);
    if select_next(items, now) is Ok && select_next(items, now)->Ok_0 is Some {
        let row = select_next(items, now)->Ok_0->Some_0;
        let j = choose|j: int| {
            &&& 0 <= j < items.len()
            &&& is_candidate(items[j])
            &&& row == candidate_row(items[j])
            &&& forall|k: int| 0 <= k < items.len() && is_candidate(#[trigger] items[k]) ==> distance(items[k], now) >= distance(items[j], now)
            &&& forall|k: int| 0 <= k < j && is_candidate(#[trigger] items[k]) ==> distance(items[k], now) > distance(items[j], now)
        };
        assert(measured_plainly(items[j], now));
    }
}

} // verus!
