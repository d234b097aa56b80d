//! Members: customers with a phone number and a loyalty stamp counter.

use crate::error::Error;
use crate::models::{Member, MemberView, option_view, view_all};
use crate::schema::{Database, DatabaseView, MemberRow, MemberRowView};
use crate::sorting::{rank, sort_ranked, sorted_by};
use crate::table::{
    first_match, lemma_first_match, lemma_first_match_is, lemma_first_match_none,
    lemma_push_is_found, lemma_update_keeps_position, live_position_of, live_with_id,
    position_of, unique_ids, with_id,
};
use crate::text::{chars_of, containing, like, like_match, pattern_containing};
use crate::time::Timestamp;
use crate::wellformed::{lemma_with_member_as_wf, lemma_with_member_wf, lemma_without_member_wf};
use vstd::prelude::*;

verus! {

/// Live member rows with the phone number `phone`.
pub open spec fn live_with_phone(phone: Seq<char>) -> spec_fn(MemberRowView) -> bool {
    |row: MemberRowView| row.member.phone == phone && row.deleted_at is None
}

impl MemberRowView {
    /// The row is live and, where a search text is given, its name or its
    /// phone number holds the text as [`like`] finds it.
    pub open spec fn found_by(self, search: Option<Seq<char>>) -> bool {
        &&& self.deleted_at is None
        &&& match search {
            Some(text) => like(containing(text), self.member.name) || like(
                containing(text),
                self.member.phone,
            ),
            None => true,
        }
    }

    /// The row is live, has the phone number `phone`, and is not the row
    /// of the member `except`.
    pub open spec fn holds_phone(self, phone: Seq<char>, except: Option<Seq<char>>) -> bool {
        &&& self.deleted_at is None
        &&& self.member.phone == phone
        &&& match except {
            Some(id) => self.member.id != id,
            None => true,
        }
    }
}

/// Member rows that `search` finds.
pub open spec fn found_by(search: Option<Seq<char>>) -> spec_fn(MemberRowView) -> bool {
    |row: MemberRowView| row.found_by(search)
}

/// The member that a row holds.
pub open spec fn member_in_row() -> spec_fn(MemberRowView) -> MemberView {
    |row: MemberRowView| row.member
}

/// The row of a member created at `now` with no stamps.
pub open spec fn new_member_row(id: Seq<char>, now: Timestamp, name: Seq<char>, phone: Seq<char>) -> MemberRowView {
    MemberRowView {
        member: MemberView { id, name, phone, stamps: 0, created_at: now, updated_at: now },
        deleted_at: None,
    }
}

impl DatabaseView {
    /// The live member with the identity `id`.
    pub open spec fn member(self, id: Seq<char>) -> Option<MemberView> {
        match first_match(self.members, live_with_id::<MemberRow>(id)) {
            Some(i) => Some(self.members[i].member),
            None => None,
        }
    }

    /// The live member with the phone number `phone`.
    pub open spec fn member_by_phone(self, phone: Seq<char>) -> Option<MemberView> {
        match first_match(self.members, live_with_phone(phone)) {
            Some(i) => Some(self.members[i].member),
            None => None,
        }
    }

    /// The live members that `search` finds, the one created last first;
    /// members created at the same time in table order.
    pub open spec fn members_listed(self, search: Option<Seq<char>>) -> Seq<MemberView> {
        sorted_by(
            self.members.filter(found_by(search)).map_values(member_in_row()),
            rank::<Member>(),
        )
    }

    /// No two live members have the same phone number.
    pub open spec fn phones_unique(self) -> bool {
        forall|i: int, j: int|
            0 <= i < j < self.members.len() && (#[trigger] self.members[i]).deleted_at is None && (
            #[trigger] self.members[j]).deleted_at is None ==> self.members[i].member.phone
                != self.members[j].member.phone
    }

    /// A live member other than `except` has the phone number `phone`.
    pub open spec fn phone_taken(self, phone: Seq<char>, except: Option<Seq<char>>) -> bool {
        exists|i: int|
            0 <= i < self.members.len() && (#[trigger] self.members[i]).holds_phone(phone, except)
    }

    /// Some member row, deleted or not, has the identity `id`.
    pub open spec fn has_member_id(self, id: Seq<char>) -> bool {
        first_match(self.members, with_id::<MemberRow>(id)) is Some
    }

    /// The store after `row` was added to the members.
    pub open spec fn with_member(self, row: MemberRowView) -> DatabaseView {
        DatabaseView { members: self.members.push(row), ..self }
    }

    /// The store after the live member `id` was replaced by `member`; the
    /// same store if there is no such member.
    pub open spec fn with_member_as(self, id: Seq<char>, member: MemberView) -> DatabaseView {
        match first_match(self.members, live_with_id::<MemberRow>(id)) {
            Some(i) => DatabaseView {
                members: self.members.update(
                    i,
                    MemberRowView { member: member, ..self.members[i] },
                ),
                ..self
            },
            None => self,
        }
    }

    /// The store after the live member `id` was given one more stamp at
    /// `now`; the same store if there is no such member or the counter is
    /// at its highest value.
    pub open spec fn with_stamp(self, id: Seq<char>, now: Timestamp) -> DatabaseView {
        match self.member(id) {
            Some(was) => if was.stamps < i32::MAX {
                self.with_member_as(
                    id,
                    MemberView { stamps: (was.stamps + 1) as i32, updated_at: now, ..was },
                )
            } else {
                self
            },
            None => self,
        }
    }

    /// The store after the member row with the identity `id`, deleted
    /// before or not, was marked as deleted at `now`.
    pub open spec fn without_member(self, id: Seq<char>, now: Timestamp) -> DatabaseView {
        match first_match(self.members, with_id::<MemberRow>(id)) {
            Some(i) => DatabaseView {
                members: self.members.update(
                    i,
                    MemberRowView { deleted_at: Some(now), ..self.members[i] },
                ),
                ..self
            },
            None => self,
        }
    }
}

/// The live member with the identity `id`.
pub fn get_member_by_id(db: &Database, id: &str) -> (r: Option<Member>)
    ensures
        option_view(r) == db@.member(id@),
{
    let key = id.to_owned();
    match live_position_of(&db.members, &key) {
        Some(i) => Some(db.members[i].member.clone()),
        None => None,
    }
}

/// The live member with the phone number `phone`.
pub fn get_member_by_phone(db: &Database, phone: &str) -> (r: Option<Member>)
    ensures
        option_view(r) == db@.member_by_phone(phone@),
{
    let key = phone.to_owned();
    let mut i: usize = 0;
    while i < db.members.len()
        invariant
            i <= db.members.len(),
            key@ == phone@,
            forall|j: int| 0 <= j < i ==> !live_with_phone(phone@)(#[trigger] db@.members[j]),
        decreases db.members.len() - i,
    {
        if db.members[i].member.phone == key && db.members[i].deleted_at.is_none() {
            proof {
                lemma_first_match_is(db@.members, live_with_phone(phone@), i as int);
            }
            return Some(db.members[i].member.clone());
        }
        i = i + 1;
    }
    proof {
        lemma_first_match_none(db@.members, live_with_phone(phone@));
    }
    None
}

fn search_finds(row: &MemberRow, pattern: &Option<Vec<char>>, Ghost(search): Ghost<Option<Seq<char>>>) -> (b:
    bool)
    requires
        match pattern {
            Some(p) => search is Some && p@ == containing(search.unwrap()),
            None => search is None,
        },
    ensures
        b == row@.found_by(search),
{
    if row.deleted_at.is_some() {
        return false;
    }
    match pattern {
        Some(p) => {
            let name = chars_of(row.member.name.as_str());
            if like_match(p, &name) {
                true
            } else {
                let phone = chars_of(row.member.phone.as_str());
                like_match(p, &phone)
            }
        },
        None => true,
    }
}

/// The live members, the one created last first. With a search text, only
/// those whose name or phone number holds the text: letters `a` to `z`
/// match in either case, and in the text `%` stands for any run of
/// characters and `_` for any one character.
pub fn get_members(db: &Database, search: Option<&str>) -> (r: Vec<Member>)
    ensures
        view_all(r@) == db@.members_listed(search.deep_view()),
{
    let pattern = match search {
        Some(text) => Some(pattern_containing(text)),
        None => None,
    };
    let ghost wanted = search.deep_view();
    let mut out: Vec<Member> = Vec::new();
    let mut i: usize = 0;
    let ghost table = db@.members;
    let ghost pick = found_by(wanted);
    let ghost join = member_in_row();
    assert(table.take(0).filter(pick).map_values(join) =~= Seq::empty()) by {
        reveal(Seq::filter);
    }
    while i < db.members.len()
        invariant
            i <= db.members.len(),
            table == db@.members,
            pick == found_by(wanted),
            join == member_in_row(),
            match pattern {
                Some(p) => wanted is Some && p@ == containing(wanted.unwrap()),
                None => wanted is None,
            },
            view_all(out@) == table.take(i as int).filter(pick).map_values(join),
        decreases db.members.len() - i,
    {
        let ghost before = view_all(out@);
        proof {
            assert(table.take(i + 1) =~= table.take(i as int).push(table[i as int]));
            broadcast use Seq::lemma_filter_push;
        }
        if search_finds(&db.members[i], &pattern, Ghost(wanted)) {
            out.push(db.members[i].member.clone());
            assert(view_all(out@) =~= before.push(join(table[i as int])));
            assert(table.take(i + 1).filter(pick).map_values(join) =~= before.push(
                join(table[i as int]),
            ));
        }
        i = i + 1;
    }
    assert(table.take(i as int) =~= table);
    sort_ranked(out)
}

/// Adds a member with no stamps under the identity `id` at `now`.
///
/// `Storage` comes back, and the store is left as it was, when the identity
/// is taken. Whether the phone number is free is for the caller to ask
/// first, with [`phone_exists`].
pub fn create_member(db: &mut Database, id: &str, now: Timestamp, name: &str, phone: &str) -> (r: Result<
    Member,
    Error,
>)
    ensures
        match r {
            Ok(member) => {
                &&& !old(db)@.has_member_id(id@)
                &&& final(db)@ == old(db)@.with_member(new_member_row(id@, now, name@, phone@))
                &&& member@ == new_member_row(id@, now, name@, phone@).member
                &&& final(db)@.member(id@) == Some(member@)
            },
            Err(e) => {
                &&& e == Error::Storage
                &&& old(db)@.has_member_id(id@)
                &&& final(db)@ == old(db)@
            },
        },
        old(db)@.wf() ==> final(db)@.wf(),
{
    proof {
        if db@.wf() && !db@.has_member_id(id@) {
            lemma_with_member_wf(db@, new_member_row(id@, now, name@, phone@));
        }
    }
    let key = id.to_owned();
    if position_of(&db.members, &key).is_some() {
        return Err(Error::Storage);
    }
    let member = Member {
        id: key,
        name: name.to_owned(),
        phone: phone.to_owned(),
        stamps: 0,
        created_at: now,
        updated_at: now,
    };
    let row = MemberRow { member: member.clone(), deleted_at: None };
    let ghost before = db@.members;
    proof {
        lemma_push_is_found::<MemberRow>(before, row@);
    }
    db.members.push(row);
    assert(db@.members =~= before.push(new_member_row(id@, now, name@, phone@)));
    Ok(member)
}

fn replace_member(db: &mut Database, i: usize, member: Member)
    requires
        i < old(db).members.len(),
    ensures
        final(db)@ == (DatabaseView {
            members: old(db)@.members.update(
                i as int,
                MemberRowView { member: member@, ..old(db)@.members[i as int] },
            ),
            ..old(db)@
        }),
{
    let ghost before = db@.members;
    let ghost view = member@;
    let row = MemberRow { member, deleted_at: db.members[i].deleted_at };
    db.members.set(i, row);
    assert(db@.members =~= before.update(
        i as int,
        MemberRowView { member: view, ..before[i as int] },
    ));
}

/// Gives the live member `id` the name `name` and the phone number `phone`
/// at `now`.
///
/// `NotFound` comes back, and the store is left as it was, when no live
/// member has the identity.
pub fn update_member(db: &mut Database, now: Timestamp, id: &str, name: &str, phone: &str) -> (r: Result<
    Member,
    Error,
>)
    ensures
        match r {
            Ok(member) => {
                &&& old(db)@.member(id@) matches Some(was)
                &&& member@ == (MemberView { name: name@, phone: phone@, updated_at: now, ..was })
                &&& final(db)@ == old(db)@.with_member_as(id@, member@)
                &&& final(db)@.member(id@) == Some(member@)
            },
            Err(e) => {
                &&& e == Error::NotFound
                &&& old(db)@.member(id@) is None
                &&& final(db)@ == old(db)@
            },
        },
        old(db)@.wf() ==> final(db)@.wf(),
{
    proof {
        if db@.wf() && db@.member(id@) is Some {
            let was = db@.member(id@).unwrap();
            lemma_with_member_as_wf(
                db@,
                id@,
                MemberView { name: name@, phone: phone@, updated_at: now, ..was },
            );
        }
    }
    let key = id.to_owned();
    let i = match live_position_of(&db.members, &key) {
        Some(i) => i,
        None => {
            return Err(Error::NotFound);
        },
    };
    let was = &db.members[i].member;
    let member = Member {
        id: was.id.clone(),
        name: name.to_owned(),
        phone: phone.to_owned(),
        stamps: was.stamps,
        created_at: was.created_at,
        updated_at: now,
    };
    proof {
        lemma_update_keeps_position::<MemberRow>(
            db@.members,
            id@,
            i as int,
            MemberRowView { member: member@, ..db@.members[i as int] },
        );
    }
    replace_member(db, i, member.clone());
    Ok(member)
}

/// Marks the member `id` as deleted at `now`.
pub fn delete_member(db: &mut Database, now: Timestamp, id: &str)
    ensures
        final(db)@ == old(db)@.without_member(id@, now),
        old(db)@.wf() ==> final(db)@.wf(),
{
    proof {
        if db@.wf() {
            lemma_without_member_wf(db@, id@, now);
        }
    }
    let key = id.to_owned();
    match position_of(&db.members, &key) {
        Some(i) => {
            let ghost before = db@.members;
            let row = MemberRow { member: db.members[i].member.clone(), deleted_at: Some(now) };
            db.members.set(i, row);
            assert(db@.members =~= before.update(
                i as int,
                MemberRowView { deleted_at: Some(now), ..before[i as int] },
            ));
        },
        None => {},
    }
}

/// Adds one stamp to the live member `id` at `now`.
///
/// `NotFound` comes back when no live member has the identity, `Storage`
/// when the counter is at its highest value; either way the store is left
/// as it was.
pub fn add_stamp(db: &mut Database, now: Timestamp, id: &str) -> (r: Result<Member, Error>)
    ensures
        match r {
            Ok(member) => {
                &&& old(db)@.member(id@) matches Some(was)
                &&& was.stamps < i32::MAX
                &&& member@ == (MemberView {
                    stamps: (was.stamps + 1) as i32,
                    updated_at: now,
                    ..was
                })
                &&& final(db)@ == old(db)@.with_member_as(id@, member@)
                &&& final(db)@.member(id@) == Some(member@)
            },
            Err(e) => {
                &&& final(db)@ == old(db)@
                &&& match old(db)@.member(id@) {
                    Some(was) => e == Error::Storage && was.stamps == i32::MAX,
                    None => e == Error::NotFound,
                }
            },
        },
        old(db)@.wf() ==> final(db)@.wf(),
{
    proof {
        if db@.wf() && db@.member(id@) is Some {
            let was = db@.member(id@).unwrap();
            lemma_with_member_as_wf(
                db@,
                id@,
                MemberView { stamps: (was.stamps + 1) as i32, updated_at: now, ..was },
            );
        }
    }
    let key = id.to_owned();
    let i = match live_position_of(&db.members, &key) {
        Some(i) => i,
        None => {
            return Err(Error::NotFound);
        },
    };
    let was = &db.members[i].member;
    if was.stamps == i32::MAX {
        return Err(Error::Storage);
    }
    let member = Member {
        id: was.id.clone(),
        name: was.name.clone(),
        phone: was.phone.clone(),
        stamps: was.stamps + 1,
        created_at: was.created_at,
        updated_at: now,
    };
    proof {
        lemma_update_keeps_position::<MemberRow>(
            db@.members,
            id@,
            i as int,
            MemberRowView { member: member@, ..db@.members[i as int] },
        );
    }
    replace_member(db, i, member.clone());
    Ok(member)
}

/// Sets the stamp counter of the live member `id` to zero at `now`.
///
/// `NotFound` comes back, and the store is left as it was, when no live
/// member has the identity.
pub fn reset_stamps(db: &mut Database, now: Timestamp, id: &str) -> (r: Result<Member, Error>)
    ensures
        match r {
            Ok(member) => {
                &&& old(db)@.member(id@) matches Some(was)
                &&& member@ == (MemberView { stamps: 0, updated_at: now, ..was })
                &&& final(db)@ == old(db)@.with_member_as(id@, member@)
                &&& final(db)@.member(id@) == Some(member@)
            },
            Err(e) => {
                &&& e == Error::NotFound
                &&& old(db)@.member(id@) is None
                &&& final(db)@ == old(db)@
            },
        },
        old(db)@.wf() ==> final(db)@.wf(),
{
    proof {
        if db@.wf() && db@.member(id@) is Some {
            let was = db@.member(id@).unwrap();
            lemma_with_member_as_wf(
                db@,
                id@,
                MemberView { stamps: 0, updated_at: now, ..was },
            );
        }
    }
    let key = id.to_owned();
    let i = match live_position_of(&db.members, &key) {
        Some(i) => i,
        None => {
            return Err(Error::NotFound);
        },
    };
    let was = &db.members[i].member;
    let member = Member {
        id: was.id.clone(),
        name: was.name.clone(),
        phone: was.phone.clone(),
        stamps: 0,
        created_at: was.created_at,
        updated_at: now,
    };
    proof {
        lemma_update_keeps_position::<MemberRow>(
            db@.members,
            id@,
            i as int,
            MemberRowView { member: member@, ..db@.members[i as int] },
        );
    }
    replace_member(db, i, member.clone());
    Ok(member)
}

/// Whether a live member has the phone number `phone`; with `exclude_id`,
/// whether a live member other than that one has it.
pub fn phone_exists(db: &Database, phone: &str, exclude_id: Option<&str>) -> (b: bool)
    ensures
        b == db@.phone_taken(phone@, exclude_id.deep_view()),
{
    let wanted = phone.to_owned();
    let except = match exclude_id {
        Some(id) => Some(id.to_owned()),
        None => None,
    };
    let ghost skip = exclude_id.deep_view();
    let mut i: usize = 0;
    while i < db.members.len()
        invariant
            i <= db.members.len(),
            wanted@ == phone@,
            except.deep_view() == skip,
            skip == exclude_id.deep_view(),
            forall|j: int| 0 <= j < i ==> !(#[trigger] db@.members[j]).holds_phone(phone@, skip),
        decreases db.members.len() - i,
    {
        let row = &db.members[i];
        let other = match &except {
            Some(id) => row.member.id != *id,
            None => true,
        };
        if row.deleted_at.is_none() && row.member.phone == wanted && other {
            assert(db@.members[i as int].holds_phone(phone@, skip));
            return true;
        }
        i = i + 1;
    }
    false
}

/// Adding a member whose phone number no live member has keeps the phone
/// numbers of live members unique.
pub proof fn lemma_new_phone_keeps_unique(db: DatabaseView, row: MemberRowView)
    requires
        db.phones_unique(),
        !db.phone_taken(row.member.phone, None),
    ensures
        db.with_member(row).phones_unique(),
{
    let after = db.with_member(row);
    assert forall|i: int, j: int|
        0 <= i < j < after.members.len() && (#[trigger] after.members[i]).deleted_at is None && (
        #[trigger] after.members[j]).deleted_at is None implies after.members[i].member.phone
        != after.members[j].member.phone by {
        assert(after.members[i] == db.members[i]);
        if j < db.members.len() {
            assert(after.members[j] == db.members[j]);
        } else {
            assert(!db.members[i].holds_phone(row.member.phone, None));
        }
    }
}

/// Giving a member a phone number that no other live member has keeps the
/// phone numbers of live members unique, where identities are unique.
pub proof fn lemma_changed_phone_keeps_unique(db: DatabaseView, id: Seq<char>, member: MemberView)
    requires
        db.phones_unique(),
        unique_ids::<MemberRow>(db.members),
        !db.phone_taken(member.phone, Some(id)),
    ensures
        db.with_member_as(id, member).phones_unique(),
{
    let after = db.with_member_as(id, member);
    lemma_first_match(db.members, live_with_id::<MemberRow>(id));
    match first_match(db.members, live_with_id::<MemberRow>(id)) {
        Some(at) => {
            assert forall|i: int, j: int|
                0 <= i < j < after.members.len() && (#[trigger] after.members[i]).deleted_at is None
                    && (#[trigger] after.members[j]).deleted_at is None implies after.members[i].member.phone
                != after.members[j].member.phone by {
                if i != at && j != at {
                    assert(after.members[i] == db.members[i]);
                    assert(after.members[j] == db.members[j]);
                } else if i == at {
                    assert(after.members[j] == db.members[j]);
                    assert(db.members[at].member.id != db.members[j].member.id);
                    assert(!db.members[j].holds_phone(member.phone, Some(id)));
                } else {
                    assert(after.members[i] == db.members[i]);
                    assert(db.members[i].member.id != db.members[at].member.id);
                    assert(!db.members[i].holds_phone(member.phone, Some(id)));
                }
            }
        },
        None => {},
    }
}

} // verus!
