//! Line items: the services attached to a session, a reservation or a ledger
//! entry.

use crate::models::{SelectedService, SelectedServiceView, ServiceInput, ServiceInputView, view_all};
use crate::schema::{Database, DatabaseView};
use crate::wellformed::{lemma_with_lines_wf, lemma_without_lines_wf};
use vstd::prelude::*;

verus! {

/// What a line item is attached to.
pub enum Owner {
    Session(Seq<char>),
    Reservation(Seq<char>),
    Ledger(Seq<char>),
}

impl SelectedServiceView {
    /// The line item is attached to one thing and no other: of a session,
    /// a reservation and a ledger entry it names exactly one.
    pub open spec fn has_one_owner(self) -> bool {
        ||| self.service_session_id is Some && self.reservation_id is None
            && self.ledger_entry_id is None
        ||| self.service_session_id is None && self.reservation_id is Some
            && self.ledger_entry_id is None
        ||| self.service_session_id is None && self.reservation_id is None
            && self.ledger_entry_id is Some
    }

    /// The line item is attached to `owner`.
    pub open spec fn belongs_to(self, owner: Owner) -> bool {
        match owner {
            Owner::Session(id) => self.service_session_id == Some(id),
            Owner::Reservation(id) => self.reservation_id == Some(id),
            Owner::Ledger(id) => self.ledger_entry_id == Some(id),
        }
    }
}

/// Line items attached to `owner`.
pub open spec fn attached_to(owner: Owner) -> spec_fn(SelectedServiceView) -> bool {
    |s: SelectedServiceView| s.belongs_to(owner)
}

/// Line items attached to something other than `owner`.
pub open spec fn not_attached_to(owner: Owner) -> spec_fn(SelectedServiceView) -> bool {
    |s: SelectedServiceView| !s.belongs_to(owner)
}

/// The line items among `services` that are attached to `owner`, in table
/// order.
pub open spec fn lines_of(services: Seq<SelectedServiceView>, owner: Owner) -> Seq<
    SelectedServiceView,
> {
    services.filter(attached_to(owner))
}

/// The line item number `number` made from `input` for `owner`.
pub open spec fn new_line(number: int, owner: Owner, input: ServiceInputView) -> SelectedServiceView {
    SelectedServiceView {
        id: number as i32,
        service_session_id: match owner {
            Owner::Session(id) => Some(id),
            _ => None,
        },
        reservation_id: match owner {
            Owner::Reservation(id) => Some(id),
            _ => None,
        },
        ledger_entry_id: match owner {
            Owner::Ledger(id) => Some(id),
            _ => None,
        },
        name: input.name,
        length: input.length,
        price: input.price,
    }
}

/// The line items made from `inputs` for `owner`, numbered upwards from
/// `last + 1`.
pub open spec fn new_lines(last: int, owner: Owner, inputs: Seq<ServiceInputView>) -> Seq<
    SelectedServiceView,
> {
    Seq::new(inputs.len(), |i: int| new_line(last + 1 + i, owner, inputs[i]))
}

impl DatabaseView {
    /// The store has numbers left for `count` more line items.
    pub open spec fn has_room_for(self, count: nat) -> bool {
        self.last_service_id + count <= i32::MAX
    }

    /// The store after `inputs` were attached to `owner` as new line items.
    pub open spec fn with_lines(self, owner: Owner, inputs: Seq<ServiceInputView>) -> DatabaseView {
        DatabaseView {
            services: self.services + new_lines(self.last_service_id, owner, inputs),
            last_service_id: self.last_service_id + inputs.len(),
            ..self
        }
    }

    /// The store without the line items attached to `owner`.
    pub open spec fn without_lines(self, owner: Owner) -> DatabaseView {
        DatabaseView {
            services: self.services.filter(not_attached_to(owner)),
            ..self
        }
    }
}

/// What a line item is attached to, as the operations take it.
#[derive(Debug)]
pub enum LineOwner {
    Session(String),
    Reservation(String),
    Ledger(String),
}

impl View for LineOwner {
    type V = Owner;

    open spec fn view(&self) -> Owner {
        match self {
            LineOwner::Session(id) => Owner::Session(id@),
            LineOwner::Reservation(id) => Owner::Reservation(id@),
            LineOwner::Ledger(id) => Owner::Ledger(id@),
        }
    }
}

fn has_text(field: &Option<String>, text: &String) -> (b: bool)
    ensures
        b == (field.deep_view() == Some(text@)),
{
    match field {
        Some(x) => *x == *text,
        None => false,
    }
}

pub(crate) fn belongs_to(line: &SelectedService, owner: &LineOwner) -> (b: bool)
    ensures
        b == line@.belongs_to(owner@),
{
    match owner {
        LineOwner::Session(id) => has_text(&line.service_session_id, id),
        LineOwner::Reservation(id) => has_text(&line.reservation_id, id),
        LineOwner::Ledger(id) => has_text(&line.ledger_entry_id, id),
    }
}

/// The line items attached to `owner`, in table order. Where every line
/// item of the store has one owner, those that come back have `owner` and
/// no other.
pub fn lines_attached_to(db: &Database, owner: &LineOwner) -> (r: Vec<SelectedService>)
    ensures
        view_all(r@) == lines_of(db@.services, owner@),
        forall|i: int| 0 <= i < r.len() ==> (#[trigger] r[i]@).belongs_to(owner@),
        db@.lines_singly_owned() ==> forall|i: int|
            0 <= i < r.len() ==> (#[trigger] r[i]@).has_one_owner(),
{
    let mut out: Vec<SelectedService> = Vec::new();
    let mut i: usize = 0;
    let ghost table = view_all(db.services@);
    assert(table.take(0) =~= Seq::empty());
    assert(lines_of(table.take(0), owner@) =~= Seq::empty()) by {
        reveal(Seq::filter);
    }
    while i < db.services.len()
        invariant
            i <= db.services.len(),
            table == view_all(db.services@),
            view_all(out@) == lines_of(table.take(i as int), owner@),
            forall|j: int| 0 <= j < out.len() ==> (#[trigger] out[j]@).belongs_to(owner@),
            db@.lines_singly_owned() ==> forall|j: int|
                0 <= j < out.len() ==> (#[trigger] out[j]@).has_one_owner(),
        decreases db.services.len() - i,
    {
        let ghost before = view_all(out@);
        proof {
            assert(table.take(i + 1) =~= table.take(i as int).push(table[i as int]));
            broadcast use Seq::lemma_filter_push;
        }
        if belongs_to(&db.services[i], owner) {
            let line = db.services[i].clone();
            assert(line@ == db@.services[i as int]);
            out.push(line);
            assert(view_all(out@) =~= before.push(table[i as int]));
        }
        i = i + 1;
    }
    assert(table.take(i as int) =~= table);
    out
}

/// The line items of the session `session_id`: every row that names the
/// session, each once, in table order. In a well-formed store they name
/// nothing else.
pub fn get_services_by_session_id(db: &Database, session_id: &str) -> (r: Vec<SelectedService>)
    ensures
        view_all(r@) == lines_of(db@.services, Owner::Session(session_id@)),
        forall|i: int|
            0 <= i < r.len() ==> (#[trigger] r[i]@).service_session_id == Some(session_id@),
        db@.lines_singly_owned() ==> forall|i: int|
            0 <= i < r.len() ==> (#[trigger] r[i]@).reservation_id is None
                && r[i]@.ledger_entry_id is None,
{
    lines_attached_to(db, &LineOwner::Session(session_id.to_owned()))
}

/// The line items of the reservation `reservation_id`: every row that
/// names the reservation, each once, in table order. In a well-formed store
/// they name nothing else.
pub fn get_services_by_reservation_id(db: &Database, reservation_id: &str) -> (r: Vec<
    SelectedService,
>)
    ensures
        view_all(r@) == lines_of(db@.services, Owner::Reservation(reservation_id@)),
        forall|i: int|
            0 <= i < r.len() ==> (#[trigger] r[i]@).reservation_id == Some(reservation_id@),
        db@.lines_singly_owned() ==> forall|i: int|
            0 <= i < r.len() ==> (#[trigger] r[i]@).service_session_id is None
                && r[i]@.ledger_entry_id is None,
{
    lines_attached_to(db, &LineOwner::Reservation(reservation_id.to_owned()))
}

/// The line items of the ledger entry `ledger_id`: every row that names
/// the entry, each once, in table order. In a well-formed store they name
/// nothing else.
pub fn get_services_by_ledger_id(db: &Database, ledger_id: &str) -> (r: Vec<SelectedService>)
    ensures
        view_all(r@) == lines_of(db@.services, Owner::Ledger(ledger_id@)),
        forall|i: int| 0 <= i < r.len() ==> (#[trigger] r[i]@).ledger_entry_id == Some(ledger_id@),
        db@.lines_singly_owned() ==> forall|i: int|
            0 <= i < r.len() ==> (#[trigger] r[i]@).service_session_id is None
                && r[i]@.reservation_id is None,
{
    lines_attached_to(db, &LineOwner::Ledger(ledger_id.to_owned()))
}

/// Removes the line items attached to `owner`.
pub fn remove_lines(db: &mut Database, owner: &LineOwner)
    ensures
        final(db)@ == old(db)@.without_lines(owner@),
        old(db)@.wf() ==> final(db)@.wf(),
{
    proof {
        if db@.wf() {
            lemma_without_lines_wf(db@, owner@);
        }
    }
    let mut rows: Vec<SelectedService> = Vec::new();
    core::mem::swap(&mut rows, &mut db.services);
    let ghost table = view_all(rows@);
    assert(view_all(db.services@) =~= Seq::empty());
    assert(table.take(0).filter(not_attached_to(owner@)) =~= Seq::empty()) by {
        reveal(Seq::filter);
    }
    for row in it: rows
        invariant
            table == view_all(it.seq()),
            view_all(db.services@) == table.take(it.index() as int).filter(not_attached_to(owner@)),
            db.users == old(db).users,
            db.members == old(db).members,
            db.staff == old(db).staff,
            db.seats == old(db).seats,
            db.sessions == old(db).sessions,
            db.reservations == old(db).reservations,
            db.ledger == old(db).ledger,
            db.last_service_id == old(db).last_service_id,
    {
        let ghost before = view_all(db.services@);
        let ghost i = it.index() as int;
        proof {
            assert(table.take(i + 1) =~= table.take(i).push(table[i]));
            broadcast use Seq::lemma_filter_push;
        }
        if !belongs_to(&row, owner) {
            db.services.push(row);
            assert(view_all(db.services@) =~= before.push(table[i]));
        }
    }
    assert(table.take(table.len() as int) =~= table);
}

/// Attaches `inputs` to `owner` as new line items, numbered upwards from
/// the last number given.
pub fn append_lines(db: &mut Database, owner: &LineOwner, inputs: &[ServiceInput])
    requires
        old(db)@.has_room_for(inputs@.len()),
    ensures
        final(db)@ == old(db)@.with_lines(owner@, view_all(inputs@)),
        old(db)@.wf() && old(db)@.has_owner(owner@) ==> final(db)@.wf(),
{
    proof {
        if db@.wf() && db@.has_owner(owner@) {
            lemma_with_lines_wf(db@, owner@, view_all(inputs@));
        }
    }
    let ghost lines = new_lines(old(db)@.last_service_id, owner@, view_all(inputs@));
    let mut i: usize = 0;
    while i < inputs.len()
        invariant
            i <= inputs.len(),
            old(db)@.has_room_for(inputs@.len()),
            lines == new_lines(old(db)@.last_service_id, owner@, view_all(inputs@)),
            view_all(db.services@) == old(db)@.services + lines.take(i as int),
            db.last_service_id == old(db).last_service_id + i,
            db.users == old(db).users,
            db.members == old(db).members,
            db.staff == old(db).staff,
            db.seats == old(db).seats,
            db.sessions == old(db).sessions,
            db.reservations == old(db).reservations,
            db.ledger == old(db).ledger,
        decreases inputs.len() - i,
    {
        let ghost before = view_all(db.services@);
        let number: i32 = db.last_service_id + 1;
        let input = &inputs[i];
        let line = match owner {
            LineOwner::Session(id) => SelectedService {
                id: number,
                service_session_id: Some(id.clone()),
                reservation_id: None,
                ledger_entry_id: None,
                name: input.name.clone(),
                length: input.length.clone(),
                price: input.price,
            },
            LineOwner::Reservation(id) => SelectedService {
                id: number,
                service_session_id: None,
                reservation_id: Some(id.clone()),
                ledger_entry_id: None,
                name: input.name.clone(),
                length: input.length.clone(),
                price: input.price,
            },
            LineOwner::Ledger(id) => SelectedService {
                id: number,
                service_session_id: None,
                reservation_id: None,
                ledger_entry_id: Some(id.clone()),
                name: input.name.clone(),
                length: input.length.clone(),
                price: input.price,
            },
        };
        assert(line@ == lines[i as int]);
        db.services.push(line);
        db.last_service_id = number;
        i = i + 1;
        assert(view_all(db.services@) =~= before.push(lines[i - 1]));
        assert(lines.take(i as int) =~= lines.take(i - 1).push(lines[i - 1]));
        assert(view_all(db.services@) =~= old(db)@.services + lines.take(i as int));
    }
    assert(lines.take(i as int) =~= lines);
}

/// Whether the store has numbers left for `count` more line items.
pub fn has_room_for(db: &Database, count: usize) -> (b: bool)
    ensures
        b == db@.has_room_for(count as nat),
{
    db.last_service_id as i128 + count as i128 <= 2147483647
}

} // verus!
