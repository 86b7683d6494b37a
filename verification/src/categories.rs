//! The category records and their collection store.

use vstd::prelude::*;

use crate::NotFound;
use crate::ids::{lemma_small_id_free, random_uuid};

verus! {

/// One category record. The identifier is assigned by the store at creation
/// and never changes afterwards.
#[derive(Debug)]
pub struct Category {
    pub uuid: u128,
    pub name: String,
    pub color: u8,
}

/// The mathematical value of a [`Category`].
#[verifier::ext_equal]
pub struct CategoryView {
    pub uuid: u128,
    pub name: Seq<char>,
    pub color: u8,
}

impl View for Category {
    type V = CategoryView;

    open spec fn view(&self) -> CategoryView {
        CategoryView { uuid: self.uuid, name: self.name@, color: self.color }
    }
}

impl Clone for Category {
    fn clone(&self) -> (r: Category)
        ensures
            r@ == self@,
    {
        Category { uuid: self.uuid, name: self.name.clone(), color: self.color }
    }
}

/// The payload for creating a category: every field except the identifier,
/// which the store assigns.
#[derive(Debug)]
pub struct CreateCategory {
    pub name: String,
    pub color: u8,
}

/// The mathematical value of a [`CreateCategory`].
#[verifier::ext_equal]
pub struct CreateCategoryView {
    pub name: Seq<char>,
    pub color: u8,
}

impl View for CreateCategory {
    type V = CreateCategoryView;

    open spec fn view(&self) -> CreateCategoryView {
        CreateCategoryView { name: self.name@, color: self.color }
    }
}

/// A partial-update payload: only the fields that are present are applied;
/// absent fields keep their prior value.
#[derive(Debug)]
pub struct UpdateCategory {
    pub name: Option<String>,
    pub color: Option<u8>,
}

/// The mathematical value of an [`UpdateCategory`].
#[verifier::ext_equal]
pub struct UpdateCategoryView {
    pub name: Option<Seq<char>>,
    pub color: Option<u8>,
}

impl View for UpdateCategory {
    type V = UpdateCategoryView;

    open spec fn view(&self) -> UpdateCategoryView {
        UpdateCategoryView {
            name: match self.name {
                Option::Some(n) => Option::Some(n@),
                Option::None => Option::None,
            },
            color: self.color,
        }
    }
}

/// The record after a partial update: a field that is present in the payload
/// overwrites the stored one, an absent field keeps its prior value, and the
/// identifier never changes.
pub open spec fn apply_update(e: CategoryView, u: UpdateCategoryView) -> CategoryView {
    CategoryView {
        uuid: e.uuid,
        name: if u.name is Some {
            u.name->0
        } else {
            e.name
        },
        color: if u.color is Some {
            u.color->0
        } else {
            e.color
        },
    }
}

/// Whether some record in `s` carries the identifier `id`.
pub open spec fn has_id(s: Seq<CategoryView>, id: u128) -> bool {
    exists|i: int| 0 <= i < s.len() && s[i].uuid == id
}

/// `i` is the index of the first record in `s` with identifier `id`.
pub open spec fn first_match(s: Seq<CategoryView>, id: u128, i: int) -> bool {
    &&& 0 <= i < s.len()
    &&& s[i].uuid == id
    &&& forall|j: int| 0 <= j < i ==> s[j].uuid != id
}

/// No two records in `s` share an identifier.
pub open spec fn ids_distinct(s: Seq<CategoryView>) -> bool {
    forall|i: int, j: int| 0 <= i < j < s.len() ==> s[i].uuid != s[j].uuid
}

/// The identifiers of the records of `s`, in storage order.
pub open spec fn ids_of(s: Seq<CategoryView>) -> Seq<u128> {
    s.map_values(|e: CategoryView| e.uuid)
}

/// The collection of categories: an ordered in-memory sequence of records,
/// at most one per identifier.
pub struct CategoryStore {
    items: Vec<Category>,
}

impl View for CategoryStore {
    type V = Seq<CategoryView>;

    closed spec fn view(&self) -> Seq<CategoryView> {
        self.items@.map_values(|c: Category| c@)
    }
}

impl CategoryStore {
    /// The collection invariant: at most one record per identifier.
    pub open spec fn wf(&self) -> bool {
        ids_distinct(self@)
    }

    /// An empty collection.
    pub fn new() -> (s: CategoryStore)
        ensures
            s@ =~= Seq::<CategoryView>::empty(),
            s.wf(),
    {
        CategoryStore { items: Vec::new() }
    }

    /// The number of records currently in the collection.
    pub fn len(&self) -> (n: usize)
        ensures
            n == self@.len(),
    {
        self.items.len()
    }

    /// The index of the first record with identifier `uuid`, if any.
    fn find(&self, uuid: u128) -> (r: Option<usize>)
        ensures
            match r {
                Option::Some(i) => first_match(self@, uuid, i as int),
                Option::None => !has_id(self@, uuid),
            },
    {
        let n: usize = self.items.len();
        let mut i: usize = 0;
        while i < n
            invariant
                n == self.items.len(),
                i <= n,
                forall|j: int| 0 <= j < i ==> self@[j].uuid != uuid,
            decreases n - i,
        {
            if self.items[i].uuid == uuid {
                return Option::Some(i);
            }
            i = i + 1;
        }
        Option::None
    }

    /// A snapshot copy of all current records, in storage order.
    pub fn list(&self) -> (r: Vec<Category>)
        ensures
            r@.len() == self@.len(),
            forall|i: int| 0 <= i < r@.len() ==> #[trigger] r@[i]@ == self@[i],
    {
        let mut out: Vec<Category> = Vec::new();
        let n: usize = self.items.len();
        let mut i: usize = 0;
        while i < n
            invariant
                n == self.items.len(),
                i <= n,
                out@.len() == i,
                forall|j: int| 0 <= j < i ==> #[trigger] out@[j]@ == self@[j],
            decreases n - i,
        {
            out.push(self.items[i].clone());
            i = i + 1;
        }
        out
    }

    /// A copy of the record with identifier `uuid`, or `NotFound` if no
    /// record carries it.
    pub fn get(&self, uuid: u128) -> (r: Result<Category, NotFound>)
        ensures
            r is Ok <==> has_id(self@, uuid),
            r matches Ok(c) ==> exists|i: int| #[trigger] first_match(self@, uuid, i) && c@
                == self@[i],
    {
        match self.find(uuid) {
            Option::Some(i) => Result::Ok(self.items[i].clone()),
            Option::None => Result::Err(NotFound),
        }
    }

    /// An identifier no current record carries. Drawn at random; on the
    /// astronomically unlikely collision the store falls back to scanning
    /// the identifiers `0 ..= n`, one of which must be free by counting.
    fn fresh_uuid(&self) -> (id: u128)
        ensures
            !has_id(self@, id),
    {
        let r: u128 = random_uuid();
        match self.find(r) {
            Option::None => {
                return r;
            },
            Option::Some(_) => {},
        }
        let n: usize = self.items.len();
        let mut c: u128 = 0;
        while c <= n as u128
            invariant
                n == self@.len(),
                c <= n as u128 + 1,
                forall|k: u128| k < c ==> #[trigger] has_id(self@, k),
            decreases (n as u128 + 1) - c,
        {
            match self.find(c) {
                Option::None => {
                    return c;
                },
                Option::Some(_) => {},
            }
            c = c + 1;
        }
        proof {
            assert forall|k: int| 0 <= k <= ids_of(self@).len() implies #[trigger] ids_of(
                self@,
            ).contains(k as u128) by {
                assert(has_id(self@, k as u128));
                let i: int = choose|i: int|
                    0 <= i < self@.len() && self@[i].uuid == k as u128;
                assert(ids_of(self@)[i] == k as u128);
            };
            lemma_small_id_free(ids_of(self@));
        }
        // Unreachable: the loop above found every identifier in 0 ..= n
        // taken, which the counting argument rules out.
        vstd::pervasive::unreached()
    }

    /// Creates a record from the payload, assigns it a fresh identifier not
    /// carried by any existing record, appends it to the collection, and
    /// returns a copy of the created record.
    pub fn create(&mut self, payload: CreateCategory) -> (c: Category)
        requires
            old(self).wf(),
        ensures
            final(self).wf(),
            !has_id(old(self)@, c@.uuid),
            c@.name == payload@.name,
            c@.color == payload@.color,
            final(self)@ =~= old(self)@.push(c@),
    {
        let id: u128 = self.fresh_uuid();
        let c = Category { uuid: id, name: payload.name, color: payload.color };
        let r = c.clone();
        self.items.push(c);
        proof {
            assert(final(self)@ =~= old(self)@.push(r@));
            lemma_create_ids_distinct(old(self)@, r@);
        }
        r
    }

    /// Applies a partial update to the record with identifier `uuid` and
    /// returns a copy of the updated record; on an absent identifier it
    /// returns `NotFound` and leaves the collection unchanged.
    pub fn update(&mut self, uuid: u128, payload: UpdateCategory) -> (r: Result<
        Category,
        NotFound,
    >)
        requires
            old(self).wf(),
        ensures
            final(self).wf(),
            r is Ok <==> has_id(old(self)@, uuid),
            r is Err ==> final(self)@ == old(self)@,
            r matches Ok(c) ==> exists|i: int|
                #[trigger] first_match(old(self)@, uuid, i) && c@ == apply_update(
                    old(self)@[i],
                    payload@,
                ) && final(self)@ =~= old(self)@.update(i, c@),
    {
        match self.find(uuid) {
            Option::None => Result::Err(NotFound),
            Option::Some(i) => {
                let mut c = self.items[i].clone();
                match payload.name {
                    Option::Some(name) => {
                        c.name = name;
                    },
                    Option::None => {},
                }
                match payload.color {
                    Option::Some(color) => {
                        c.color = color;
                    },
                    Option::None => {},
                }
                let r = c.clone();
                self.items[i] = c;
                proof {
                    assert(final(self)@ =~= old(self)@.update(i as int, r@));
                    assert(ids_distinct(final(self)@));
                }
                Result::Ok(r)
            },
        }
    }

    /// Removes the record with identifier `uuid`, shifting later records
    /// forward to fill the gap; on an absent identifier it returns
    /// `NotFound` and leaves the collection unchanged.
    pub fn delete(&mut self, uuid: u128) -> (r: Result<(), NotFound>)
        requires
            old(self).wf(),
        ensures
            final(self).wf(),
            r is Ok <==> has_id(old(self)@, uuid),
            r is Err ==> final(self)@ == old(self)@,
            r is Ok ==> exists|i: int| #[trigger] first_match(old(self)@, uuid, i)
                && final(self)@ =~= old(self)@.remove(i),
    {
        match self.find(uuid) {
            Option::None => Result::Err(NotFound),
            Option::Some(i) => {
                self.items.remove(i);
                proof {
                    assert(final(self)@ =~= old(self)@.remove(i as int));
                    assert(ids_distinct(final(self)@));
                }
                Result::Ok(())
            },
        }
    }
}

/// Created identifiers are unique: a record appended with an identifier
/// absent from the collection differs in identifier from every record
/// already there, and the collection still holds no duplicate identifiers.
/// Since create only ever appends records with absent identifiers, no two
/// records returned by a sequence of creates share an identifier.
pub proof fn lemma_create_ids_distinct(s: Seq<CategoryView>, c: CategoryView)
    requires
        ids_distinct(s),
        !has_id(s, c.uuid),
    ensures
        ids_distinct(s.push(c)),
        forall|i: int| 0 <= i < s.len() ==> s[i].uuid != c.uuid,
{
    assert forall|i: int, j: int| 0 <= i < j < s.push(c).len() implies s.push(c)[i].uuid
        != s.push(c)[j].uuid by {
        if j < s.len() {
            assert(s[i].uuid != s[j].uuid);
        } else {
            assert(s.push(c)[i] == s[i]);
        }
    };
}

/// Round trip: after appending a record whose identifier was absent, that
/// identifier is present and its first (and only) match is the appended
/// record itself, so a get with the returned identifier yields a value
/// equal in all fields to the one returned by create.
pub proof fn lemma_create_then_get(s: Seq<CategoryView>, c: CategoryView)
    requires
        !has_id(s, c.uuid),
    ensures
        has_id(s.push(c), c.uuid),
        first_match(s.push(c), c.uuid, s.len() as int),
        forall|i: int| first_match(s.push(c), c.uuid, i) ==> i == s.len() && s.push(c)[i]
            == c,
{
    assert(s.push(c)[s.len() as int] == c);
    assert forall|i: int| first_match(s.push(c), c.uuid, i) implies i == s.len()
        && s.push(c)[i] == c by {
        if i < s.len() {
            assert(s[i].uuid == c.uuid);
            assert(has_id(s, c.uuid));
        }
    };
}

/// A partial update with an empty payload (no field present) leaves every
/// field of the record unchanged.
pub proof fn lemma_update_empty_identity(e: CategoryView, u: UpdateCategoryView)
    requires
        u.name is None,
        u.color is None,
    ensures
        apply_update(e, u) == e,
{
}

/// A partial update overwrites exactly the fields present in the payload,
/// keeps the absent ones, and is idempotent: applying the same payload
/// twice gives the same record as applying it once.
pub proof fn lemma_update_overwrite(e: CategoryView, u: UpdateCategoryView)
    ensures
        apply_update(e, u).uuid == e.uuid,
        u.name is Some ==> apply_update(e, u).name == u.name->0,
        u.name is None ==> apply_update(e, u).name == e.name,
        u.color is Some ==> apply_update(e, u).color == u.color->0,
        u.color is None ==> apply_update(e, u).color == e.color,
        apply_update(apply_update(e, u), u) == apply_update(e, u),
{
}

/// Deleting the first match of an identifier from a duplicate-free
/// collection removes exactly one record: the size shrinks by one, the
/// identifier is gone, and every other record is kept, in order.
pub proof fn lemma_delete_removes_one(s: Seq<CategoryView>, id: u128, i: int)
    requires
        ids_distinct(s),
        first_match(s, id, i),
    ensures
        s.remove(i).len() == s.len() - 1,
        !has_id(s.remove(i), id),
        forall|j: int| 0 <= j < i ==> s.remove(i)[j] == s[j],
        forall|j: int| i <= j < s.len() - 1 ==> s.remove(i)[j] == s[j + 1],
        ids_distinct(s.remove(i)),
{
    assert forall|j: int| 0 <= j < s.remove(i).len() implies s.remove(i)[j].uuid != id by {
        if j < i {
            assert(s[j].uuid != id);
        } else {
            assert(s.remove(i)[j] == s[j + 1]);
            assert(s[i].uuid == id);
        }
    };
}

} // verus!
