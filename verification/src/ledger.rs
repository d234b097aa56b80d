//! The ledger: the append-only record of completed services, and the revenue
//! reports drawn from it.

use crate::error::Error;
use crate::laws::law_revenue_is_sum_of_selected;
use crate::lines::{append_lines, has_room_for, LineOwner, lines_attached_to, lines_of, Owner};
use crate::models::{
    DailySummary, DailySummaryView, LedgerEntry, LedgerEntryView, LedgerQuery, LedgerQueryView,
    LedgerSummary, LedgerSummaryView, option_view, SelectedService, SelectedServiceView,
    ServiceCount, ServiceCountView, ServiceInput, ServiceInputView, ServiceSession,
    ServiceSessionView, StaffRevenue, StaffRevenueView, view_all,
};
use crate::schema::{Database, DatabaseView, LedgerRow, LedgerRowView};
use crate::sorting::{rank, sort_ranked, sorted_by};
use crate::table::{first_match, lemma_first_match, position_of, with_id};
use crate::tally::{
    all_fit, fits, grouped, lemma_groups_fit, Sale, SaleView, tallies, Tally, tally, TallyView,
    total_amount, total_of, with_key,
};
use crate::text::{text_at_most, text_le};
use crate::time::{Date, Day, Timestamp};
use crate::wellformed::lemma_with_ledger_entry_wf;
use vstd::prelude::*;

verus! {

/// The sum of the total prices of ledger rows.
pub open spec fn row_revenue(rows: Seq<LedgerRowView>) -> int
    decreases rows.len(),
{
    if rows.len() == 0 {
        0
    } else {
        row_revenue(rows.drop_last()) + rows.last().total_price
    }
}

/// The ledger entry that `row` and its line items among `services` make up.
pub open spec fn ledger_entry_of(row: LedgerRowView, services: Seq<SelectedServiceView>) -> LedgerEntryView {
    LedgerEntryView {
        id: row.id,
        reservation_id: row.reservation_id,
        member_id: row.member_id,
        member_name: row.member_name,
        seat_id: row.seat_id,
        staff_id: row.staff_id,
        staff_name: row.staff_name,
        services: lines_of(services, Owner::Ledger(row.id)),
        total_price: row.total_price,
        completed_at: row.completed_at,
        created_at: row.created_at,
    }
}

/// Joins a ledger row with its line items among `services`.
pub open spec fn ledger_joined_with(services: Seq<SelectedServiceView>) -> spec_fn(
    LedgerRowView,
) -> LedgerEntryView {
    |row: LedgerRowView| ledger_entry_of(row, services)
}

/// The ledger row that records, under the identity `id`, that `session`
/// was completed at `now`.
pub open spec fn new_ledger_row(id: Seq<char>, now: Timestamp, session: ServiceSessionView) -> LedgerRowView {
    LedgerRowView {
        id,
        reservation_id: session.reservation_id,
        member_id: session.member_id,
        member_name: session.member_name,
        seat_id: session.seat_id,
        staff_id: session.staff_id,
        staff_name: session.staff_name,
        total_price: session.total_price,
        completed_at: now,
        created_at: now,
    }
}

/// What `lines` name, as a request would: name, length and price of each.
pub open spec fn line_inputs(lines: Seq<SelectedServiceView>) -> Seq<ServiceInputView> {
    Seq::new(
        lines.len(),
        |i: int| ServiceInputView { name: lines[i].name, length: lines[i].length, price: lines[i].price },
    )
}

impl LedgerQueryView {
    /// The day of `at` passes the query: it is the day asked for; or, with
    /// no day asked for and both ends of a range given, it lies in the
    /// range, days compared as `YYYY-MM-DD` texts. A timestamp without a
    /// date passes only when neither a day nor a range is asked for.
    pub open spec fn selects_day(self, at: Timestamp) -> bool {
        match self.date {
            Some(day) => at.date_text() == Some(day),
            None => match (self.start_date, self.end_date) {
                (Some(first), Some(last)) => at.date_text() matches Some(day) && text_le(
                    first,
                    day,
                ) && text_le(day, last),
                _ => true,
            },
        }
    }

    /// The row passes the query's conditions on the day and on the staff.
    pub open spec fn selects(self, row: LedgerRowView) -> bool {
        &&& self.selects_day(row.completed_at)
        &&& match self.staff_id {
            Some(staff) => row.staff_id == staff,
            None => true,
        }
    }
}

/// Ledger rows that pass `query`.
pub open spec fn selected_by(query: LedgerQueryView) -> spec_fn(LedgerRowView) -> bool {
    |row: LedgerRowView| query.selects(row)
}

impl DatabaseView {
    /// Some row of the ledger has the identity `id`.
    pub open spec fn has_ledger_id(self, id: Seq<char>) -> bool {
        exists|i: int| 0 <= i < self.ledger.len() && #[trigger] self.ledger[i].id == id
    }

    /// Why `session` cannot be recorded under the identity `id`, if it
    /// cannot: the identity is taken, or the numbers for its line items
    /// have run out.
    pub open spec fn ledger_refusal(self, id: Seq<char>, session: ServiceSessionView) -> Option<Error> {
        if self.has_ledger_id(id) || !self.has_room_for(session.services.len()) {
            Some(Error::Storage)
        } else {
            None
        }
    }

    /// The store after `session` was recorded under the identity `id` at
    /// `now`, its line items copied as line items of the new entry.
    pub open spec fn with_ledger_entry(self, id: Seq<char>, now: Timestamp, session: ServiceSessionView) -> DatabaseView {
        DatabaseView { ledger: self.ledger.push(new_ledger_row(id, now, session)), ..self }.with_lines(
            Owner::Ledger(id),
            line_inputs(session.services),
        )
    }

    /// The ledger entry with the identity `id`, with its line items.
    pub open spec fn ledger_entry(self, id: Seq<char>) -> Option<LedgerEntryView> {
        match first_match(self.ledger, with_id::<LedgerRow>(id)) {
            Some(i) => Some(ledger_entry_of(self.ledger[i], self.services)),
            None => None,
        }
    }

    /// The ledger entries that pass `query`, the latest completion first;
    /// entries completed at the same time in table order.
    pub open spec fn ledger_entries(self, query: LedgerQueryView) -> Seq<LedgerEntryView> {
        sorted_by(
            self.ledger.filter(selected_by(query)).map_values(ledger_joined_with(self.services)),
            rank::<LedgerEntry>(),
        )
    }
}

/// An entry as a sale of its staff member.
pub open spec fn staff_sale(entry: LedgerEntryView) -> SaleView {
    SaleView { key: entry.staff_id, label: entry.staff_name, amount: entry.total_price }
}

/// The entries as sales by staff, in order.
pub open spec fn staff_sales(entries: Seq<LedgerEntryView>) -> Seq<SaleView> {
    Seq::new(entries.len(), |i: int| staff_sale(entries[i]))
}

/// The line items of the entries, entry after entry.
pub open spec fn sold_lines(entries: Seq<LedgerEntryView>) -> Seq<SelectedServiceView>
    decreases entries.len(),
{
    if entries.len() == 0 {
        Seq::empty()
    } else {
        sold_lines(entries.drop_last()) + entries.last().services
    }
}

/// A line item as a sale of the service it names.
pub open spec fn line_sale(line: SelectedServiceView) -> SaleView {
    SaleView { key: line.name, label: line.name, amount: line.price }
}

/// The line items as sales by service name, in order.
pub open spec fn line_sales(lines: Seq<SelectedServiceView>) -> Seq<SaleView> {
    Seq::new(lines.len(), |i: int| line_sale(lines[i]))
}

/// A line of the report by staff as a group of sales.
pub open spec fn staff_group(line: StaffRevenueView) -> TallyView {
    TallyView {
        key: line.staff_id,
        label: line.staff_name,
        amount: line.revenue as int,
        count: line.count as int,
    }
}

/// The report by staff as groups of sales.
pub open spec fn staff_groups(lines: Seq<StaffRevenueView>) -> Seq<TallyView> {
    Seq::new(lines.len(), |i: int| staff_group(lines[i]))
}

/// A line of the report by service as a group of sales.
pub open spec fn service_group(line: ServiceCountView) -> TallyView {
    TallyView {
        key: line.service_name,
        label: line.service_name,
        amount: line.revenue as int,
        count: line.count as int,
    }
}

/// The report by service as groups of sales.
pub open spec fn service_groups(lines: Seq<ServiceCountView>) -> Seq<TallyView> {
    Seq::new(lines.len(), |i: int| service_group(lines[i]))
}

/// The sum of the total prices of `entries`.
pub open spec fn total_revenue(entries: Seq<LedgerEntryView>) -> int {
    total_amount(staff_sales(entries))
}

/// Every figure of the summary of `entries` can be held in 32 bits: the
/// total revenue, the number of entries, and the revenue and number under
/// each staff member and each service name.
pub open spec fn summary_fits(entries: Seq<LedgerEntryView>) -> bool {
    &&& fits(total_revenue(entries))
    &&& entries.len() <= i32::MAX
    &&& all_fit(staff_sales(entries))
    &&& all_fit(line_sales(sold_lines(entries)))
}

/// `summary` is the summary of `entries`: their total revenue and number;
/// for each staff member that occurs, in order of first occurrence, the
/// revenue and number of that member's entries under the name the first of
/// them shows; and for each service name that occurs among the line items,
/// in order of first occurrence, how often it was sold and for how much.
pub open spec fn summarizes(summary: LedgerSummaryView, entries: Seq<LedgerEntryView>) -> bool {
    &&& summary.total_revenue == total_revenue(entries)
    &&& summary.total_count == entries.len()
    &&& grouped(staff_groups(summary.by_staff), staff_sales(entries))
    &&& grouped(service_groups(summary.by_service), line_sales(sold_lines(entries)))
}

impl LedgerRowView {
    /// The entry was completed on the given day of the calendar, as a
    /// clock `offset` minutes ahead of UTC shows the day.
    pub open spec fn completed_on(self, offset: int, year: i32, month: u32, day: u32) -> bool {
        &&& 0 <= year <= 9999
        &&& 1 <= month <= 12
        &&& 1 <= day <= 31
        &&& self.completed_at.local_day(offset) == Some(
            Day { year: year as int, month: month as int, day: day as int },
        )
    }
}

/// The sum of the total prices of the rows completed on the given day, as
/// a clock `offset` minutes ahead of UTC shows the day.
pub open spec fn day_revenue(rows: Seq<LedgerRowView>, offset: int, year: i32, month: u32, day: u32) -> int
    decreases rows.len(),
{
    if rows.len() == 0 {
        0
    } else {
        day_revenue(rows.drop_last(), offset, year, month, day) + if rows.last().completed_on(offset, year,
            month,
            day,
        ) {
            rows.last().total_price as int
        } else {
            0
        }
    }
}

/// The number of rows completed on the given day.
pub open spec fn day_count(rows: Seq<LedgerRowView>, offset: int, year: i32, month: u32, day: u32) -> int
    decreases rows.len(),
{
    if rows.len() == 0 {
        0
    } else {
        day_count(rows.drop_last(), offset, year, month, day) + if rows.last().completed_on(offset, year,
            month,
            day,
        ) {
            1int
        } else {
            0
        }
    }
}

/// Midnight at the start of the given day.
pub open spec fn start_of_day(year: i32, month: u32, day: u32) -> Timestamp {
    Timestamp { year, month, day, hour: 0, minute: 0, second: 0, nanosecond: 0 }
}

/// The line of the daily summary for the given day.
pub open spec fn day_line(rows: Seq<LedgerRowView>, offset: int, year: i32, month: u32, day: u32) -> DailySummaryView {
    DailySummaryView {
        date: start_of_day(year, month, day).date_text().unwrap(),
        revenue: day_revenue(rows, offset, year, month, day) as i32,
        count: day_count(rows, offset, year, month, day) as i32,
    }
}

/// The figures of the given day can be held in 32 bits.
pub open spec fn day_fits(rows: Seq<LedgerRowView>, offset: int, year: i32, month: u32, day: u32) -> bool {
    fits(day_revenue(rows, offset, year, month, day)) && day_count(rows, offset, year, month, day) <= i32::MAX
}

/// The lines of the daily summary of a month for its days up to `last`:
/// one for each day on which an entry was completed, in calendar order.
pub open spec fn day_lines(rows: Seq<LedgerRowView>, offset: int, year: i32, month: u32, last: u32) -> Seq<
    DailySummaryView,
>
    decreases last,
{
    if last == 0 {
        Seq::empty()
    } else {
        let earlier = day_lines(rows, offset, year, month, (last - 1) as u32);
        if day_count(rows, offset, year, month, last) > 0 {
            earlier.push(day_line(rows, offset, year, month, last))
        } else {
            earlier
        }
    }
}

/// The figures of every day of the month can be held in 32 bits.
pub open spec fn month_fits(rows: Seq<LedgerRowView>, offset: int, year: i32, month: u32) -> bool {
    forall|day: u32| 1 <= day <= 31 ==> #[trigger] day_fits(rows, offset, year, month, day)
}

/// Counts and sums of a day stay within what the number of rows allows.
pub proof fn lemma_day_bounds(rows: Seq<LedgerRowView>, offset: int, year: i32, month: u32, day: u32)
    ensures
        -(rows.len() * 0x8000_0000) <= day_revenue(rows, offset, year, month, day) <= rows.len()
            * 0x8000_0000,
        0 <= day_count(rows, offset, year, month, day) <= rows.len(),
    decreases rows.len(),
{
    if rows.len() > 0 {
        lemma_day_bounds(rows.drop_last(), offset, year, month, day);
    }
}

/// A day on which a row was completed is a day with a date.
pub proof fn lemma_day_has_date(rows: Seq<LedgerRowView>, offset: int, year: i32, month: u32, day: u32)
    requires
        day_count(rows, offset, year, month, day) > 0,
    ensures
        start_of_day(year, month, day).has_date(),
    decreases rows.len(),
{
    if rows.len() > 0 && !rows.last().completed_on(offset, year, month, day) {
        lemma_day_has_date(rows.drop_last(), offset, year, month, day);
    }
}

/// Whether a ledger row has the identity `id`.
pub fn ledger_id_taken(db: &Database, id: &String) -> (b: bool)
    ensures
        b == db@.has_ledger_id(id@),
{
    let mut i: usize = 0;
    while i < db.ledger.len()
        invariant
            i <= db.ledger.len(),
            forall|j: int| 0 <= j < i ==> #[trigger] db@.ledger[j].id != id@,
        decreases db.ledger.len() - i,
    {
        if db.ledger[i].id == *id {
            assert(db@.ledger[i as int].id == id@);
            return true;
        }
        i = i + 1;
    }
    false
}

fn joined_ledger_entry(db: &Database, row: &LedgerRow) -> (r: LedgerEntry)
    ensures
        r@ == ledger_entry_of(row@, db@.services),
{
    LedgerEntry {
        id: row.id.clone(),
        reservation_id: row.reservation_id.clone(),
        member_id: row.member_id.clone(),
        member_name: row.member_name.clone(),
        seat_id: row.seat_id,
        staff_id: row.staff_id.clone(),
        staff_name: row.staff_name.clone(),
        services: lines_attached_to(db, &LineOwner::Ledger(row.id.clone())),
        total_price: row.total_price,
        completed_at: row.completed_at,
        created_at: row.created_at,
    }
}

/// The ledger entry with the identity `id`, with its line items.
pub fn get_ledger_entry_by_id(db: &Database, id: &str) -> (r: Option<LedgerEntry>)
    ensures
        option_view(r) == db@.ledger_entry(id@),
{
    let key = id.to_owned();
    match position_of(&db.ledger, &key) {
        Some(i) => Some(joined_ledger_entry(db, &db.ledger[i])),
        None => None,
    }
}

fn inputs_of(lines: &Vec<SelectedService>) -> (r: Vec<ServiceInput>)
    ensures
        view_all(r@) == line_inputs(view_all(lines@)),
{
    let mut out: Vec<ServiceInput> = Vec::new();
    let mut i: usize = 0;
    while i < lines.len()
        invariant
            i <= lines.len(),
            out.len() == i,
            forall|j: int| 0 <= j < i ==> out[j]@ == line_inputs(view_all(lines@))[j],
        decreases lines.len() - i,
    {
        out.push(
            ServiceInput {
                name: lines[i].name.clone(),
                length: lines[i].length.clone(),
                price: lines[i].price,
            },
        );
        i = i + 1;
    }
    assert(view_all(out@) =~= line_inputs(view_all(lines@)));
    out
}

/// Records, under the identity `id`, that `session` was completed at
/// `now`: a new ledger row with the session's fields, and a copy of each of
/// its line items attached to the new entry.
///
/// `Storage` comes back, and the store is left as it was, when the identity
/// is taken or the line items cannot be numbered.
pub fn create_ledger_entry(db: &mut Database, id: &str, now: Timestamp, session: &ServiceSession) -> (r:
    Result<LedgerEntry, Error>)
    ensures
        match r {
            Ok(entry) => {
                &&& old(db)@.ledger_refusal(id@, session@) is None
                &&& final(db)@ == old(db)@.with_ledger_entry(id@, now, session@)
                &&& entry@ == ledger_entry_of(
                    new_ledger_row(id@, now, session@),
                    final(db)@.services,
                )
            },
            Err(e) => {
                &&& old(db)@.ledger_refusal(id@, session@) == Some(e)
                &&& final(db)@ == old(db)@
            },
        },
        old(db)@.wf() ==> final(db)@.wf(),
{
    proof {
        if db@.wf() && db@.ledger_refusal(id@, session@) is None {
            lemma_with_ledger_entry_wf(db@, id@, now, session@);
        }
    }
    let key = id.to_owned();
    if ledger_id_taken(db, &key) || !has_room_for(db, session.services.len()) {
        return Err(Error::Storage);
    }
    let row = LedgerRow {
        id: key.clone(),
        reservation_id: session.reservation_id.clone(),
        member_id: session.member_id.clone(),
        member_name: session.member_name.clone(),
        seat_id: session.seat_id,
        staff_id: session.staff_id.clone(),
        staff_name: session.staff_name.clone(),
        total_price: session.total_price,
        completed_at: now,
        created_at: now,
    };
    let ghost before = view_all(db.ledger@);
    db.ledger.push(row.clone());
    assert(view_all(db.ledger@) =~= before.push(row@));
    let inputs = inputs_of(&session.services);
    assert(view_all(inputs@).len() == inputs@.len());
    assert(view_all(session.services@).len() == session.services@.len());
    append_lines(db, &LineOwner::Ledger(key), inputs.as_slice());
    Ok(joined_ledger_entry(db, &row))
}

fn on_day(at: &Timestamp, day: &String) -> (b: bool)
    ensures
        b == (at.date_text() == Some(day@)),
{
    match at.date_string() {
        Some(text) => text == *day,
        None => false,
    }
}

fn within_days(at: &Timestamp, first: &String, last: &String) -> (b: bool)
    ensures
        b == (at.date_text() matches Some(day) && text_le(first@, day) && text_le(day, last@)),
{
    match at.date_string() {
        Some(text) => text_at_most(first.as_str(), text.as_str()) && text_at_most(
            text.as_str(),
            last.as_str(),
        ),
        None => false,
    }
}

/// Whether `row` passes the conditions of `query`.
pub fn ledger_query_selects(query: &LedgerQuery, row: &LedgerRow) -> (b: bool)
    ensures
        b == query@.selects(row@),
{
    let day_ok = match &query.date {
        Some(day) => on_day(&row.completed_at, day),
        None => match (&query.start_date, &query.end_date) {
            (Some(first), Some(last)) => within_days(&row.completed_at, first, last),
            _ => true,
        },
    };
    let staff_ok = match &query.staff_id {
        Some(staff) => row.staff_id == *staff,
        None => true,
    };
    day_ok && staff_ok
}

/// The ledger entries that pass `query`, each with its line items, the
/// latest completion first.
pub fn get_ledger_entries(db: &Database, query: &LedgerQuery) -> (r: Vec<LedgerEntry>)
    ensures
        view_all(r@) == db@.ledger_entries(query@),
{
    let mut out: Vec<LedgerEntry> = Vec::new();
    let mut i: usize = 0;
    let ghost table = db@.ledger;
    let ghost pick = selected_by(query@);
    let ghost join = ledger_joined_with(db@.services);
    assert(table.take(0).filter(pick).map_values(join) =~= Seq::empty()) by {
        reveal(Seq::filter);
    }
    while i < db.ledger.len()
        invariant
            i <= db.ledger.len(),
            table == db@.ledger,
            pick == selected_by(query@),
            join == ledger_joined_with(db@.services),
            view_all(out@) == table.take(i as int).filter(pick).map_values(join),
        decreases db.ledger.len() - i,
    {
        let ghost before = view_all(out@);
        proof {
            assert(table.take(i + 1) =~= table.take(i as int).push(table[i as int]));
            broadcast use Seq::lemma_filter_push;
        }
        if ledger_query_selects(query, &db.ledger[i]) {
            out.push(joined_ledger_entry(db, &db.ledger[i]));
            assert(view_all(out@) =~= before.push(join(table[i as int])));
            assert(table.take(i + 1).filter(pick).map_values(join) =~= before.push(
                join(table[i as int]),
            ));
        }
        i = i + 1;
    }
    assert(table.take(i as int) =~= table);
    sort_ranked(out)
}

fn staff_sales_of(entries: &Vec<LedgerEntry>) -> (r: Vec<Sale>)
    ensures
        view_all(r@) == staff_sales(view_all(entries@)),
{
    let mut out: Vec<Sale> = Vec::new();
    let mut i: usize = 0;
    while i < entries.len()
        invariant
            i <= entries.len(),
            out.len() == i,
            forall|j: int| 0 <= j < i ==> out[j]@ == staff_sale(entries[j]@),
        decreases entries.len() - i,
    {
        out.push(
            Sale {
                key: entries[i].staff_id.clone(),
                label: entries[i].staff_name.clone(),
                amount: entries[i].total_price,
            },
        );
        i = i + 1;
    }
    assert(view_all(out@) =~= staff_sales(view_all(entries@)));
    out
}

fn line_sales_of(entries: &Vec<LedgerEntry>) -> (r: Vec<Sale>)
    ensures
        view_all(r@) == line_sales(sold_lines(view_all(entries@))),
{
    let ghost all = view_all(entries@);
    let mut out: Vec<Sale> = Vec::new();
    let mut i: usize = 0;
    assert(view_all(out@) =~= line_sales(sold_lines(all.take(0))));
    while i < entries.len()
        invariant
            i <= entries.len(),
            all == view_all(entries@),
            view_all(out@) == line_sales(sold_lines(all.take(i as int))),
        decreases entries.len() - i,
    {
        let lines = &entries[i].services;
        let ghost done = sold_lines(all.take(i as int));
        let ghost these = view_all(lines@);
        assert(all.take(i + 1).drop_last() =~= all.take(i as int));
        assert(all.take(i + 1).last().services == these);
        let mut j: usize = 0;
        assert(done + these.take(0) =~= done);
        while j < lines.len()
            invariant
                j <= lines.len(),
                these == view_all(lines@),
                view_all(out@) == line_sales(done + these.take(j as int)),
            decreases lines.len() - j,
        {
            let ghost before = view_all(out@);
            out.push(
                Sale { key: lines[j].name.clone(), label: lines[j].name.clone(), amount: lines[j].price },
            );
            assert(view_all(out@) =~= before.push(line_sale(these[j as int])));
            assert(done + these.take(j + 1) =~= (done + these.take(j as int)).push(these[j as int]));
            assert(line_sales(done + these.take(j + 1)) =~= before.push(line_sale(these[j as int])));
            j = j + 1;
        }
        assert(these.take(j as int) =~= these);
        i = i + 1;
    }
    assert(all.take(i as int) =~= all);
    out
}

fn staff_report(groups: &Vec<Tally>) -> (r: Option<Vec<StaffRevenue>>)
    ensures
        match r {
            Some(lines) => staff_groups(view_all(lines@)) == view_all(groups@),
            None => exists|a: int|
                0 <= a < groups.len() && !(fits((#[trigger] view_all(groups@)[a]).amount)
                    && view_all(groups@)[a].count <= i32::MAX),
        },
{
    let mut out: Vec<StaffRevenue> = Vec::new();
    let mut i: usize = 0;
    while i < groups.len()
        invariant
            i <= groups.len(),
            out.len() == i,
            forall|j: int| 0 <= j < i ==> staff_group(out[j]@) == groups[j]@,
        decreases groups.len() - i,
    {
        let g = &groups[i];
        if g.amount < -2147483648 || g.amount > 2147483647 || g.count > 2147483647 {
            assert(view_all(groups@)[i as int] == g@);
            return None;
        }
        out.push(
            StaffRevenue {
                staff_id: g.key.clone(),
                staff_name: g.label.clone(),
                revenue: g.amount as i32,
                count: g.count as i32,
            },
        );
        i = i + 1;
    }
    assert(staff_groups(view_all(out@)) =~= view_all(groups@));
    Some(out)
}

fn service_report(groups: &Vec<Tally>) -> (r: Option<Vec<ServiceCount>>)
    requires
        forall|a: int| 0 <= a < groups.len() ==> (#[trigger] groups[a]@).label == groups[a]@.key,
    ensures
        match r {
            Some(lines) => service_groups(view_all(lines@)) == view_all(groups@),
            None => exists|a: int|
                0 <= a < groups.len() && !(fits((#[trigger] view_all(groups@)[a]).amount)
                    && view_all(groups@)[a].count <= i32::MAX),
        },
{
    let mut out: Vec<ServiceCount> = Vec::new();
    let mut i: usize = 0;
    while i < groups.len()
        invariant
            i <= groups.len(),
            out.len() == i,
            forall|a: int| 0 <= a < groups.len() ==> (#[trigger] groups[a]@).label == groups[a]@.key,
            forall|j: int| 0 <= j < i ==> service_group(out[j]@) == groups[j]@,
        decreases groups.len() - i,
    {
        let g = &groups[i];
        if g.amount < -2147483648 || g.amount > 2147483647 || g.count > 2147483647 {
            assert(view_all(groups@)[i as int] == g@);
            return None;
        }
        out.push(
            ServiceCount { service_name: g.key.clone(), count: g.count as i32, revenue: g.amount as i32 },
        );
        i = i + 1;
    }
    assert(service_groups(view_all(out@)) =~= view_all(groups@));
    Some(out)
}

/// The summary of the ledger entries that pass `query`: total revenue and
/// number of entries, and the breakdowns by staff member and by service
/// name, each in order of first occurrence among the entries as
/// [`get_ledger_entries`] lists them. The total revenue is the sum of the
/// total prices of exactly the ledger rows that pass the query.
///
/// Every figure is computed exactly. `Storage` comes back when one of them
/// cannot be held in 32 bits.
pub fn get_ledger_summary(db: &Database, query: &LedgerQuery) -> (r: Result<LedgerSummary, Error>)
    ensures
        match r {
            Ok(summary) => {
                &&& summary_fits(db@.ledger_entries(query@))
                &&& summarizes(summary@, db@.ledger_entries(query@))
                &&& summary.total_revenue == row_revenue(db@.ledger.filter(selected_by(query@)))
                &&& summary.total_count == db@.ledger.filter(selected_by(query@)).len()
            },
            Err(e) => e == Error::Storage && !summary_fits(db@.ledger_entries(query@)),
        },
{
    proof {
        law_revenue_is_sum_of_selected(db@, query@);
    }
    let entries = get_ledger_entries(db, query);
    summary_of(&entries)
}

/// The summary of `entries`; see [`get_ledger_summary`].
pub fn summary_of(entries: &Vec<LedgerEntry>) -> (r: Result<LedgerSummary, Error>)
    ensures
        match r {
            Ok(summary) => {
                &&& summary_fits(view_all(entries@))
                &&& summarizes(summary@, view_all(entries@))
            },
            Err(e) => e == Error::Storage && !summary_fits(view_all(entries@)),
        },
{
    let ghost all = view_all(entries@);
    let by_staff_sales = staff_sales_of(entries);
    let total = total_of(&by_staff_sales);
    if total < -2147483648 || total > 2147483647 || entries.len() > 2147483647 {
        return Err(Error::Storage);
    }
    let staff_tally = tally(&by_staff_sales);
    proof {
        lemma_groups_fit(view_all(staff_tally@), staff_sales(all));
    }
    let by_staff = match staff_report(&staff_tally) {
        Some(lines) => lines,
        None => {
            return Err(Error::Storage);
        },
    };
    let by_line_sales = line_sales_of(entries);
    let line_tally = tally(&by_line_sales);
    proof {
        let sales = line_sales(sold_lines(all));
        let groups = view_all(line_tally@);
        lemma_groups_fit(groups, sales);
        assert forall|a: int| 0 <= a < line_tally.len() implies (#[trigger] line_tally[a]@).label
            == line_tally[a]@.key by {
            assert(tallies(groups[a], sales));
            lemma_first_match(sales, with_key(groups[a].key));
        }
    }
    let by_service = match service_report(&line_tally) {
        Some(lines) => lines,
        None => {
            return Err(Error::Storage);
        },
    };
    Ok(
        LedgerSummary {
            total_revenue: total as i32,
            total_count: entries.len() as i32,
            by_staff,
            by_service,
        },
    )
}

fn local_dates(db: &Database, offset_minutes: i32) -> (r: Vec<Option<Date>>)
    ensures
        r.len() == db.ledger.len(),
        forall|i: int|
            0 <= i < r.len() ==> option_view(#[trigger] r[i]) == db@.ledger[i].completed_at.local_day(
                offset_minutes as int,
            ),
{
    let mut out: Vec<Option<Date>> = Vec::new();
    let mut i: usize = 0;
    while i < db.ledger.len()
        invariant
            i <= db.ledger.len(),
            out.len() == i,
            forall|j: int|
                0 <= j < i ==> option_view(#[trigger] out[j]) == db@.ledger[j].completed_at.local_day(
                    offset_minutes as int,
                ),
        decreases db.ledger.len() - i,
    {
        out.push(db.ledger[i].completed_at.local_date(offset_minutes));
        i = i + 1;
    }
    out
}

fn day_figures(
    db: &Database,
    dates: &Vec<Option<Date>>,
    Ghost(offset): Ghost<int>,
    year: i32,
    month: u32,
    day: u32,
) -> (r: (i128, usize))
    requires
        dates.len() == db.ledger.len(),
        forall|i: int|
            0 <= i < dates.len() ==> option_view(#[trigger] dates[i])
                == db@.ledger[i].completed_at.local_day(offset),
    ensures
        r.0 == day_revenue(db@.ledger, offset, year, month, day),
        r.1 == day_count(db@.ledger, offset, year, month, day),
{
    let ghost rows = db@.ledger;
    let asked = 0 <= year && year <= 9999 && 1 <= month && month <= 12 && 1 <= day && day <= 31;
    let mut revenue: i128 = 0;
    let mut count: usize = 0;
    let mut i: usize = 0;
    while i < db.ledger.len()
        invariant
            i <= db.ledger.len(),
            rows == db@.ledger,
            dates.len() == db.ledger.len(),
            asked == (0 <= year <= 9999 && 1 <= month <= 12 && 1 <= day <= 31),
            forall|j: int|
                0 <= j < dates.len() ==> option_view(#[trigger] dates[j])
                    == db@.ledger[j].completed_at.local_day(offset),
            revenue == day_revenue(rows.take(i as int), offset, year, month, day),
            count == day_count(rows.take(i as int), offset, year, month, day),
        decreases db.ledger.len() - i,
    {
        proof {
            lemma_day_bounds(rows.take(i as int), offset, year, month, day);
            assert(rows.take(i + 1).drop_last() =~= rows.take(i as int));
            assert(rows.take(i + 1).last() == db.ledger[i as int]@);
            assert(option_view(dates[i as int]) == rows[i as int].completed_at.local_day(offset));
        }
        let on_day = match dates[i] {
            Some(date) => asked && date.year == year && date.month == month && date.day == day,
            None => false,
        };
        if on_day {
            revenue = revenue + db.ledger[i].total_price as i128;
            count = count + 1;
        }
        i = i + 1;
    }
    assert(rows.take(i as int) =~= rows);
    (revenue, count)
}

/// Revenue and number of completed services for each day of the given
/// month on which a service was completed, in calendar order. The day of a
/// completion is the day that a clock `offset_minutes` ahead of UTC shows
/// at that time; with an offset of zero, the UTC day.
///
/// Every figure is computed exactly. `Storage` comes back when one of them
/// cannot be held in 32 bits.
pub fn get_daily_summary(db: &Database, year: i32, month: u32, offset_minutes: i32) -> (r: Result<
    Vec<DailySummary>,
    Error,
>)
    ensures
        match r {
            Ok(lines) => {
                &&& month_fits(db@.ledger, offset_minutes as int, year, month)
                &&& view_all(lines@) == day_lines(db@.ledger, offset_minutes as int, year, month, 31)
            },
            Err(e) => e == Error::Storage && !month_fits(
                db@.ledger,
                offset_minutes as int,
                year,
                month,
            ),
        },
{
    let ghost rows = db@.ledger;
    let ghost offset = offset_minutes as int;
    let dates = local_dates(db, offset_minutes);
    let mut out: Vec<DailySummary> = Vec::new();
    let mut day: u32 = 1;
    assert(view_all(out@) =~= day_lines(rows, offset, year, month, 0));
    while day <= 31
        invariant
            1 <= day <= 32,
            rows == db@.ledger,
            offset == offset_minutes as int,
            dates.len() == db.ledger.len(),
            forall|i: int|
                0 <= i < dates.len() ==> option_view(#[trigger] dates[i])
                    == db@.ledger[i].completed_at.local_day(offset),
            view_all(out@) == day_lines(rows, offset, year, month, (day - 1) as u32),
            forall|d: u32| 1 <= d < day ==> #[trigger] day_fits(rows, offset, year, month, d),
        decreases 32 - day,
    {
        let (revenue, count) = day_figures(db, &dates, Ghost(offset), year, month, day);
        if revenue < -2147483648 || revenue > 2147483647 || count > 2147483647 {
            assert(!day_fits(rows, offset, year, month, day));
            return Err(Error::Storage);
        }
        if count > 0 {
            let ghost before = view_all(out@);
            let at = Timestamp { year, month, day, hour: 0, minute: 0, second: 0, nanosecond: 0 };
            proof {
                lemma_day_has_date(rows, offset, year, month, day);
            }
            let date = at.date_string().unwrap();
            out.push(DailySummary { date, revenue: revenue as i32, count: count as i32 });
            assert(view_all(out@) =~= before.push(day_line(rows, offset, year, month, day)));
        }
        day = day + 1;
    }
    Ok(out)
}

} // verus!
