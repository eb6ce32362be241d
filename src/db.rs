//! The relational store and the data-access contracts over it: serial
//! identities, foreign keys between batches, strains, growers and terpene
//! profiles, and the closed filter criteria of each entity.

use vstd::prelude::*;
use crate::models::{
    float4_eq, Batch, BatchResponse, Date, Float4, Grower, NewBatch, NewGrower, NewStrain, NewTerpenes,
    Species, Strain, Terpenes,
};
use crate::text::{ilike, name_matches};

verus! {

/// Why one round trip to the store failed.
#[derive(Clone, Copy, Debug, PartialEq, Eq, Structural)]
pub enum DbError {
    /// No row carries the identity asked for.
    NotFound,
    /// A referenced row is missing, or a row to delete is still referenced.
    ForeignKeyViolation,
    /// The table's serial sequence has passed the largest `int4`.
    SequenceExhausted,
}

/// The largest identity a serial `int4` column hands out.
pub const MAX_ID: i64 = 2147483647;

/// The state of the store: each table's rows in insertion order, and the
/// value each table's serial sequence hands out next.
pub struct DbView {
    pub growers: Seq<Grower>,
    pub strains: Seq<Strain>,
    pub batches: Seq<Batch>,
    pub terpenes: Seq<Terpenes>,
    pub next_grower: int,
    pub next_strain: int,
    pub next_batch: int,
    pub next_terpenes: int,
}

pub open spec fn grower_ids(rows: Seq<Grower>) -> Seq<int> {
    rows.map_values(|g: Grower| g.id as int)
}

pub open spec fn strain_ids(rows: Seq<Strain>) -> Seq<int> {
    rows.map_values(|s: Strain| s.id as int)
}

pub open spec fn batch_ids(rows: Seq<Batch>) -> Seq<int> {
    rows.map_values(|b: Batch| b.id as int)
}

pub open spec fn terpenes_ids(rows: Seq<Terpenes>) -> Seq<int> {
    rows.map_values(|t: Terpenes| t.id as int)
}

/// A table's identities are distinct, each drawn from its sequence before
/// `next`, and the sequence has not run past one beyond the largest `int4`.
pub open spec fn serial_ok(ids: Seq<int>, next: int) -> bool {
    &&& 1 <= next <= MAX_ID + 1
    &&& forall|i: int| 0 <= i < ids.len() ==> 1 <= #[trigger] ids[i] < next
    &&& forall|i: int, j: int| 0 <= i < j < ids.len() ==> #[trigger] ids[i] != #[trigger] ids[j]
}

/// The position of the row carrying identity `id`.
pub open spec fn id_pos(ids: Seq<int>, id: int) -> int {
    choose|i: int| 0 <= i < ids.len() && ids[i] == id
}

impl DbView {
    pub open spec fn wf(self) -> bool {
        &&& serial_ok(grower_ids(self.growers), self.next_grower)
        &&& serial_ok(strain_ids(self.strains), self.next_strain)
        &&& serial_ok(batch_ids(self.batches), self.next_batch)
        &&& serial_ok(terpenes_ids(self.terpenes), self.next_terpenes)
        &&& forall|i: int|
            0 <= i < self.batches.len() ==> {
                &&& strain_ids(self.strains).contains((#[trigger] self.batches[i]).strain_id as int)
                &&& grower_ids(self.growers).contains(self.batches[i].grower_id as int)
            }
        &&& forall|i: int|
            0 <= i < self.terpenes.len() ==> batch_ids(self.batches).contains(
                #[trigger] self.terpenes[i].batch_id as int,
            )
    }

    /// The stored strain with identity `id`.
    pub open spec fn strain_of(self, id: int) -> Strain {
        self.strains[id_pos(strain_ids(self.strains), id)]
    }

    /// The stored grower with identity `id`.
    pub open spec fn grower_of(self, id: int) -> Grower {
        self.growers[id_pos(grower_ids(self.growers), id)]
    }
}

/// The relational store; it stands for a connection to it.
pub struct Db {
    growers: Vec<Grower>,
    strains: Vec<Strain>,
    batches: Vec<Batch>,
    terpenes: Vec<Terpenes>,
    next_grower: i64,
    next_strain: i64,
    next_batch: i64,
    next_terpenes: i64,
}

impl View for Db {
    type V = DbView;

    closed spec fn view(&self) -> DbView {
        DbView {
            growers: self.growers@,
            strains: self.strains@,
            batches: self.batches@,
            terpenes: self.terpenes@,
            next_grower: self.next_grower as int,
            next_strain: self.next_strain as int,
            next_batch: self.next_batch as int,
            next_terpenes: self.next_terpenes as int,
        }
    }
}

impl Db {
    pub open spec fn wf(&self) -> bool {
        self@.wf()
    }

    /// An empty store whose sequences all start at 1.
    pub fn new() -> (r: Db)
        ensures
            r.wf(),
            r@.growers.len() == 0,
            r@.strains.len() == 0,
            r@.batches.len() == 0,
            r@.terpenes.len() == 0,
            r@.next_grower == 1,
            r@.next_strain == 1,
            r@.next_batch == 1,
            r@.next_terpenes == 1,
    {
        Db {
            growers: Vec::new(),
            strains: Vec::new(),
            batches: Vec::new(),
            terpenes: Vec::new(),
            next_grower: 1,
            next_strain: 1,
            next_batch: 1,
            next_terpenes: 1,
        }
    }
}

/// A `serial_ok` table stays so when a row with the sequence's next value is
/// appended and the sequence advances.
pub proof fn lemma_serial_push(ids: Seq<int>, next: int)
    requires
        serial_ok(ids, next),
        next <= MAX_ID,
    ensures
        serial_ok(ids.push(next), next + 1),
{
    let ids2 = ids.push(next);
    assert forall|i: int| 0 <= i < ids2.len() implies 1 <= #[trigger] ids2[i] < next + 1 by {
        if i < ids.len() {
            assert(ids2[i] == ids[i]);
        }
    }
    assert forall|i: int, j: int| 0 <= i < j < ids2.len() implies #[trigger] ids2[i]
        != #[trigger] ids2[j] by {
        if j < ids.len() {
            assert(ids2[i] == ids[i] && ids2[j] == ids[j]);
        } else {
            assert(ids2[i] == ids[i]);
        }
    }
}

/// Appending keeps every identity a table already held.
pub proof fn lemma_push_keeps(ids: Seq<int>, n: int)
    ensures
        forall|x: int| ids.contains(x) ==> #[trigger] ids.push(n).contains(x),
        ids.push(n).contains(n),
{
    assert(ids.push(n)[ids.len() as int] == n);
    assert forall|x: int| ids.contains(x) implies #[trigger] ids.push(n).contains(x) by {
        let i = choose|i: int| 0 <= i < ids.len() && ids[i] == x;
        assert(ids.push(n)[i] == x);
    }
}

/// Inserting a draft: the store assigns the identity from the table's
/// sequence and hands back the stored row.
pub trait Creatable: Sized {
    type Output;

    /// Whether the store takes this draft in its state `db`.
    spec fn admitted(&self, db: DbView) -> bool;

    /// The error the store answers with when it does not take the draft.
    spec fn refusal(&self, db: DbView) -> DbError;

    /// The row stored for this draft.
    spec fn inserted(&self, db: DbView) -> Self::Output;

    /// The store after the insertion.
    spec fn after_insert(&self, db: DbView) -> DbView;

    fn create(&self, conn: &mut Db) -> (r: Result<Self::Output, DbError>)
        requires
            old(conn).wf(),
        ensures
            final(conn).wf(),
            match r {
                Ok(out) => {
                    &&& self.admitted(old(conn)@)
                    &&& out == self.inserted(old(conn)@)
                    &&& final(conn)@ == self.after_insert(old(conn)@)
                },
                Err(e) => {
                    &&& !self.admitted(old(conn)@)
                    &&& e == self.refusal(old(conn)@)
                    &&& final(conn)@ == old(conn)@
                },
            },
    ;
}

impl Creatable for NewGrower {
    type Output = Grower;

    open spec fn admitted(&self, db: DbView) -> bool {
        db.next_grower <= MAX_ID
    }

    open spec fn refusal(&self, db: DbView) -> DbError {
        DbError::SequenceExhausted
    }

    open spec fn inserted(&self, db: DbView) -> Grower {
        Grower { id: db.next_grower as i32, name: self.name }
    }

    open spec fn after_insert(&self, db: DbView) -> DbView {
        DbView {
            growers: db.growers.push(self.inserted(db)),
            next_grower: db.next_grower + 1,
            ..db
        }
    }

    fn create(&self, conn: &mut Db) -> (r: Result<Grower, DbError>) {
        if conn.next_grower > MAX_ID {
            return Err(DbError::SequenceExhausted);
        }
        let row = Grower { id: conn.next_grower as i32, name: self.name.clone() };
        proof {
            let ids = grower_ids(conn.growers@);
            assert(grower_ids(conn.growers@.push(row)) =~= ids.push(row.id as int));
            lemma_serial_push(ids, conn.next_grower as int);
            lemma_push_keeps(ids, row.id as int);
        }
        conn.growers.push(row.clone());
        conn.next_grower = conn.next_grower + 1;
        Ok(row)
    }
}

impl Creatable for NewStrain {
    type Output = Strain;

    open spec fn admitted(&self, db: DbView) -> bool {
        db.next_strain <= MAX_ID
    }

    open spec fn refusal(&self, db: DbView) -> DbError {
        DbError::SequenceExhausted
    }

    open spec fn inserted(&self, db: DbView) -> Strain {
        Strain { id: db.next_strain as i32, name: self.name, species: self.species }
    }

    open spec fn after_insert(&self, db: DbView) -> DbView {
        DbView {
            strains: db.strains.push(self.inserted(db)),
            next_strain: db.next_strain + 1,
            ..db
        }
    }

    fn create(&self, conn: &mut Db) -> (r: Result<Strain, DbError>) {
        if conn.next_strain > MAX_ID {
            return Err(DbError::SequenceExhausted);
        }
        let row = Strain {
            id: conn.next_strain as i32,
            name: self.name.clone(),
            species: self.species,
        };
        proof {
            let ids = strain_ids(conn.strains@);
            assert(strain_ids(conn.strains@.push(row)) =~= ids.push(row.id as int));
            lemma_serial_push(ids, conn.next_strain as int);
            lemma_push_keeps(ids, row.id as int);
        }
        conn.strains.push(row.clone());
        conn.next_strain = conn.next_strain + 1;
        Ok(row)
    }
}

/// The position of the grower with identity `id`, if one is stored.
fn find_grower(rows: &Vec<Grower>, id: i32) -> (r: Option<usize>)
    ensures
        match r {
            Some(i) => i < rows@.len() && rows@[i as int].id == id,
            None => !grower_ids(rows@).contains(id as int),
        },
{
    let mut i: usize = 0;
    while i < rows.len()
        invariant
            i <= rows@.len(),
            forall|k: int| 0 <= k < i ==> rows@[k].id != id,
        decreases rows@.len() - i,
    {
        if rows[i].id == id {
            return Some(i);
        }
        i = i + 1;
    }
    proof {
        assert forall|k: int| 0 <= k < rows@.len() implies grower_ids(rows@)[k] != id as int by {
            assert(rows@[k].id != id);
        }
    }
    None
}

/// The position of the strain with identity `id`, if one is stored.
fn find_strain(rows: &Vec<Strain>, id: i32) -> (r: Option<usize>)
    ensures
        match r {
            Some(i) => i < rows@.len() && rows@[i as int].id == id,
            None => !strain_ids(rows@).contains(id as int),
        },
{
    let mut i: usize = 0;
    while i < rows.len()
        invariant
            i <= rows@.len(),
            forall|k: int| 0 <= k < i ==> rows@[k].id != id,
        decreases rows@.len() - i,
    {
        if rows[i].id == id {
            return Some(i);
        }
        i = i + 1;
    }
    proof {
        assert forall|k: int| 0 <= k < rows@.len() implies strain_ids(rows@)[k] != id as int by {
            assert(rows@[k].id != id);
        }
    }
    None
}

/// The position of the batch with identity `id`, if one is stored.
fn find_batch(rows: &Vec<Batch>, id: i32) -> (r: Option<usize>)
    ensures
        match r {
            Some(i) => i < rows@.len() && rows@[i as int].id == id,
            None => !batch_ids(rows@).contains(id as int),
        },
{
    let mut i: usize = 0;
    while i < rows.len()
        invariant
            i <= rows@.len(),
            forall|k: int| 0 <= k < i ==> rows@[k].id != id,
        decreases rows@.len() - i,
    {
        if rows[i].id == id {
            return Some(i);
        }
        i = i + 1;
    }
    proof {
        assert forall|k: int| 0 <= k < rows@.len() implies batch_ids(rows@)[k] != id as int by {
            assert(rows@[k].id != id);
        }
    }
    None
}

impl Creatable for NewBatch {
    type Output = Batch;

    open spec fn admitted(&self, db: DbView) -> bool {
        &&& db.next_batch <= MAX_ID
        &&& strain_ids(db.strains).contains(self.strain_id as int)
        &&& grower_ids(db.growers).contains(self.grower_id as int)
    }

    open spec fn refusal(&self, db: DbView) -> DbError {
        if db.next_batch > MAX_ID {
            DbError::SequenceExhausted
        } else {
            DbError::ForeignKeyViolation
        }
    }

    open spec fn inserted(&self, db: DbView) -> Batch {
        Batch {
            id: db.next_batch as i32,
            strain_id: self.strain_id,
            harvest_date: self.harvest_date,
            final_test_date: self.final_test_date,
            package_date: self.package_date,
            grower_id: self.grower_id,
            thc_content: self.thc_content,
            cbd_content: self.cbd_content,
        }
    }

    open spec fn after_insert(&self, db: DbView) -> DbView {
        DbView { batches: db.batches.push(self.inserted(db)), next_batch: db.next_batch + 1, ..db }
    }

    fn create(&self, conn: &mut Db) -> (r: Result<Batch, DbError>) {
        if conn.next_batch > MAX_ID {
            return Err(DbError::SequenceExhausted);
        }
        match (find_strain(&conn.strains, self.strain_id), find_grower(&conn.growers, self.grower_id)) {
            (Some(si), Some(gi)) => {
                proof {
                    assert(strain_ids(conn.strains@)[si as int] == self.strain_id as int);
                    assert(grower_ids(conn.growers@)[gi as int] == self.grower_id as int);
                }
            },
            _ => {
                return Err(DbError::ForeignKeyViolation);
            },
        }
        let row = Batch {
            id: conn.next_batch as i32,
            strain_id: self.strain_id,
            harvest_date: self.harvest_date,
            final_test_date: self.final_test_date,
            package_date: self.package_date,
            grower_id: self.grower_id,
            thc_content: self.thc_content,
            cbd_content: self.cbd_content,
        };
        proof {
            let ids = batch_ids(conn.batches@);
            assert(batch_ids(conn.batches@.push(row)) =~= ids.push(row.id as int));
            lemma_serial_push(ids, conn.next_batch as int);
            lemma_push_keeps(ids, row.id as int);
        }
        let ghost before = conn@;
        conn.batches.push(row.clone());
        conn.next_batch = conn.next_batch + 1;
        proof {
            let v = conn@;
            assert forall|i: int| 0 <= i < v.batches.len() implies {
                &&& strain_ids(v.strains).contains(#[trigger] v.batches[i].strain_id as int)
                &&& grower_ids(v.growers).contains(v.batches[i].grower_id as int)
            } by {
                if i < before.batches.len() {
                    assert(v.batches[i] == before.batches[i]);
                    assert(strain_ids(before.strains).contains(before.batches[i].strain_id as int));
                } else {
                    let si = choose|k: int| 0 <= k < v.strains.len() && v.strains[k].id == self.strain_id;
                    let gi = choose|k: int| 0 <= k < v.growers.len() && v.growers[k].id == self.grower_id;
                    assert(strain_ids(v.strains)[si] == self.strain_id as int);
                    assert(grower_ids(v.growers)[gi] == self.grower_id as int);
                }
            }
        }
        Ok(row)
    }
}

impl Creatable for NewTerpenes {
    type Output = Terpenes;

    open spec fn admitted(&self, db: DbView) -> bool {
        &&& db.next_terpenes <= MAX_ID
        &&& batch_ids(db.batches).contains(self.batch_id as int)
    }

    open spec fn refusal(&self, db: DbView) -> DbError {
        if db.next_terpenes > MAX_ID {
            DbError::SequenceExhausted
        } else {
            DbError::ForeignKeyViolation
        }
    }

    open spec fn inserted(&self, db: DbView) -> Terpenes {
        Terpenes {
            id: db.next_terpenes as i32,
            batch_id: self.batch_id,
            caryophyllene: self.caryophyllene,
            humulene: self.humulene,
            limonene: self.limonene,
            linalool: self.linalool,
            myrcene: self.myrcene,
            pinene: self.pinene,
        }
    }

    open spec fn after_insert(&self, db: DbView) -> DbView {
        DbView {
            terpenes: db.terpenes.push(self.inserted(db)),
            next_terpenes: db.next_terpenes + 1,
            ..db
        }
    }

    fn create(&self, conn: &mut Db) -> (r: Result<Terpenes, DbError>) {
        if conn.next_terpenes > MAX_ID {
            return Err(DbError::SequenceExhausted);
        }
        match find_batch(&conn.batches, self.batch_id) {
            Some(bi) => {
                proof {
                    assert(batch_ids(conn.batches@)[bi as int] == self.batch_id as int);
                }
            },
            None => {
                return Err(DbError::ForeignKeyViolation);
            },
        }
        let row = Terpenes {
            id: conn.next_terpenes as i32,
            batch_id: self.batch_id,
            caryophyllene: self.caryophyllene,
            humulene: self.humulene,
            limonene: self.limonene,
            linalool: self.linalool,
            myrcene: self.myrcene,
            pinene: self.pinene,
        };
        proof {
            let ids = terpenes_ids(conn.terpenes@);
            assert(terpenes_ids(conn.terpenes@.push(row)) =~= ids.push(row.id as int));
            lemma_serial_push(ids, conn.next_terpenes as int);
        }
        conn.terpenes.push(row);
        conn.next_terpenes = conn.next_terpenes + 1;
        proof {
            let v = conn@;
            assert forall|i: int| 0 <= i < v.terpenes.len() implies batch_ids(v.batches).contains(
                #[trigger] v.terpenes[i].batch_id as int,
            ) by {
                if i == v.terpenes.len() - 1 {
                    let bi = choose|k: int| 0 <= k < v.batches.len() && v.batches[k].id == self.batch_id;
                    assert(batch_ids(v.batches)[bi] == self.batch_id as int);
                }
            }
        }
        Ok(row)
    }
}

/// Removing a row keeps a table `serial_ok`.
pub proof fn lemma_serial_remove(ids: Seq<int>, next: int, pos: int)
    requires
        serial_ok(ids, next),
        0 <= pos < ids.len(),
    ensures
        serial_ok(ids.remove(pos), next),
        forall|x: int| ids.contains(x) && x != ids[pos] ==> #[trigger] ids.remove(pos).contains(x),
        !ids.remove(pos).contains(ids[pos]),
{
    let r = ids.remove(pos);
    assert forall|i: int| 0 <= i < r.len() implies r[i] == ids[if i < pos { i } else { i + 1 }] by {}
    assert forall|i: int| 0 <= i < r.len() implies 1 <= #[trigger] r[i] < next by {
        assert(r[i] == ids[if i < pos { i } else { i + 1 }]);
    }
    assert forall|i: int, j: int| 0 <= i < j < r.len() implies #[trigger] r[i] != #[trigger] r[j] by {
        assert(r[i] == ids[if i < pos { i } else { i + 1 }]);
        assert(r[j] == ids[if j < pos { j } else { j + 1 }]);
    }
    assert forall|x: int| ids.contains(x) && x != ids[pos] implies #[trigger] r.contains(x) by {
        let k = choose|k: int| 0 <= k < ids.len() && ids[k] == x;
        if k < pos {
            assert(r[k] == x);
        } else {
            assert(r[k - 1] == x);
        }
    }
    if r.contains(ids[pos]) {
        let k = choose|k: int| 0 <= k < r.len() && r[k] == ids[pos];
        assert(r[k] == ids[if k < pos { k } else { k + 1 }]);
    }
}

/// Under distinct identities, the row found at `i` is the one `id_pos` names.
pub proof fn lemma_id_pos(ids: Seq<int>, next: int, i: int)
    requires
        serial_ok(ids, next),
        0 <= i < ids.len(),
    ensures
        id_pos(ids, ids[i]) == i,
        ids.contains(ids[i]),
{
    let j = id_pos(ids, ids[i]);
    assert(0 <= j < ids.len() && ids[j] == ids[i]);
    if j < i {
        assert(ids[j] != ids[i]);
    } else if i < j {
        assert(ids[i] != ids[j]);
    }
}

/// Removing a stored row by its identity; the store refuses while another
/// row still references it.
pub trait Deletable: Sized {
    type Output;

    /// Whether the store removes this row in its state `db`.
    spec fn removable(&self, db: DbView) -> bool;

    /// The error the store answers with when it does not remove the row.
    spec fn refusal(&self, db: DbView) -> DbError;

    /// The stored row that goes.
    spec fn removed(&self, db: DbView) -> Self::Output;

    /// The store after the removal.
    spec fn after_delete(&self, db: DbView) -> DbView;

    fn delete(&self, conn: &mut Db) -> (r: Result<Self::Output, DbError>)
        requires
            old(conn).wf(),
        ensures
            final(conn).wf(),
            match r {
                Ok(out) => {
                    &&& self.removable(old(conn)@)
                    &&& out == self.removed(old(conn)@)
                    &&& final(conn)@ == self.after_delete(old(conn)@)
                },
                Err(e) => {
                    &&& !self.removable(old(conn)@)
                    &&& e == self.refusal(old(conn)@)
                    &&& final(conn)@ == old(conn)@
                },
            },
    ;
}

/// Whether some batch names grower `id`.
pub open spec fn grower_in_use(db: DbView, id: int) -> bool {
    exists|i: int| 0 <= i < db.batches.len() && #[trigger] db.batches[i].grower_id == id
}

/// Whether some batch names strain `id`.
pub open spec fn strain_in_use(db: DbView, id: int) -> bool {
    exists|i: int| 0 <= i < db.batches.len() && #[trigger] db.batches[i].strain_id == id
}

/// Whether some terpene profile names batch `id`.
pub open spec fn batch_in_use(db: DbView, id: int) -> bool {
    exists|i: int| 0 <= i < db.terpenes.len() && #[trigger] db.terpenes[i].batch_id == id
}

fn any_batch_of_grower(rows: &Vec<Batch>, id: i32) -> (r: bool)
    ensures
        r == exists|i: int| 0 <= i < rows@.len() && #[trigger] rows@[i].grower_id == id,
{
    let mut i: usize = 0;
    while i < rows.len()
        invariant
            i <= rows@.len(),
            forall|k: int| 0 <= k < i ==> rows@[k].grower_id != id,
        decreases rows@.len() - i,
    {
        if rows[i].grower_id == id {
            return true;
        }
        i = i + 1;
    }
    false
}

fn any_batch_of_strain(rows: &Vec<Batch>, id: i32) -> (r: bool)
    ensures
        r == exists|i: int| 0 <= i < rows@.len() && #[trigger] rows@[i].strain_id == id,
{
    let mut i: usize = 0;
    while i < rows.len()
        invariant
            i <= rows@.len(),
            forall|k: int| 0 <= k < i ==> rows@[k].strain_id != id,
        decreases rows@.len() - i,
    {
        if rows[i].strain_id == id {
            return true;
        }
        i = i + 1;
    }
    false
}

fn any_terpenes_of_batch(rows: &Vec<Terpenes>, id: i32) -> (r: bool)
    ensures
        r == exists|i: int| 0 <= i < rows@.len() && #[trigger] rows@[i].batch_id == id,
{
    let mut i: usize = 0;
    while i < rows.len()
        invariant
            i <= rows@.len(),
            forall|k: int| 0 <= k < i ==> rows@[k].batch_id != id,
        decreases rows@.len() - i,
    {
        if rows[i].batch_id == id {
            return true;
        }
        i = i + 1;
    }
    false
}

impl Deletable for Grower {
    type Output = Grower;

    open spec fn removable(&self, db: DbView) -> bool {
        grower_ids(db.growers).contains(self.id as int) && !grower_in_use(db, self.id as int)
    }

    open spec fn refusal(&self, db: DbView) -> DbError {
        if !grower_ids(db.growers).contains(self.id as int) {
            DbError::NotFound
        } else {
            DbError::ForeignKeyViolation
        }
    }

    open spec fn removed(&self, db: DbView) -> Grower {
        db.grower_of(self.id as int)
    }

    open spec fn after_delete(&self, db: DbView) -> DbView {
        DbView {
            growers: db.growers.remove(id_pos(grower_ids(db.growers), self.id as int)),
            ..db
        }
    }

    fn delete(&self, conn: &mut Db) -> (r: Result<Grower, DbError>) {
        let i = match find_grower(&conn.growers, self.id) {
            Some(i) => i,
            None => {
                return Err(DbError::NotFound);
            },
        };
        if any_batch_of_grower(&conn.batches, self.id) {
            return Err(DbError::ForeignKeyViolation);
        }
        let ghost before = conn@;
        proof {
            let ids = grower_ids(before.growers);
            lemma_id_pos(ids, before.next_grower, i as int);
            lemma_serial_remove(ids, before.next_grower, i as int);
            assert(grower_ids(before.growers.remove(i as int)) =~= ids.remove(i as int));
            assert forall|k: int| 0 <= k < before.batches.len() implies grower_ids(
                before.growers.remove(i as int),
            ).contains(#[trigger] before.batches[k].grower_id as int) by {
                assert(strain_ids(before.strains).contains(before.batches[k].strain_id as int));
                assert(before.batches[k].grower_id != self.id);
            }
        }
        let row = conn.growers.remove(i);
        Ok(row)
    }
}

impl Deletable for Strain {
    type Output = Strain;

    open spec fn removable(&self, db: DbView) -> bool {
        strain_ids(db.strains).contains(self.id as int) && !strain_in_use(db, self.id as int)
    }

    open spec fn refusal(&self, db: DbView) -> DbError {
        if !strain_ids(db.strains).contains(self.id as int) {
            DbError::NotFound
        } else {
            DbError::ForeignKeyViolation
        }
    }

    open spec fn removed(&self, db: DbView) -> Strain {
        db.strain_of(self.id as int)
    }

    open spec fn after_delete(&self, db: DbView) -> DbView {
        DbView {
            strains: db.strains.remove(id_pos(strain_ids(db.strains), self.id as int)),
            ..db
        }
    }

    fn delete(&self, conn: &mut Db) -> (r: Result<Strain, DbError>) {
        let i = match find_strain(&conn.strains, self.id) {
            Some(i) => i,
            None => {
                return Err(DbError::NotFound);
            },
        };
        if any_batch_of_strain(&conn.batches, self.id) {
            return Err(DbError::ForeignKeyViolation);
        }
        let ghost before = conn@;
        proof {
            let ids = strain_ids(before.strains);
            lemma_id_pos(ids, before.next_strain, i as int);
            lemma_serial_remove(ids, before.next_strain, i as int);
            assert(strain_ids(before.strains.remove(i as int)) =~= ids.remove(i as int));
            assert forall|k: int| 0 <= k < before.batches.len() implies strain_ids(
                before.strains.remove(i as int),
            ).contains(#[trigger] before.batches[k].strain_id as int) by {
                assert(before.batches[k].strain_id != self.id);
            }
        }
        let row = conn.strains.remove(i);
        Ok(row)
    }
}

impl Deletable for Batch {
    type Output = Batch;

    open spec fn removable(&self, db: DbView) -> bool {
        batch_ids(db.batches).contains(self.id as int) && !batch_in_use(db, self.id as int)
    }

    open spec fn refusal(&self, db: DbView) -> DbError {
        if !batch_ids(db.batches).contains(self.id as int) {
            DbError::NotFound
        } else {
            DbError::ForeignKeyViolation
        }
    }

    open spec fn removed(&self, db: DbView) -> Batch {
        db.batches[id_pos(batch_ids(db.batches), self.id as int)]
    }

    open spec fn after_delete(&self, db: DbView) -> DbView {
        DbView {
            batches: db.batches.remove(id_pos(batch_ids(db.batches), self.id as int)),
            ..db
        }
    }

    fn delete(&self, conn: &mut Db) -> (r: Result<Batch, DbError>) {
        let i = match find_batch(&conn.batches, self.id) {
            Some(i) => i,
            None => {
                return Err(DbError::NotFound);
            },
        };
        if any_terpenes_of_batch(&conn.terpenes, self.id) {
            return Err(DbError::ForeignKeyViolation);
        }
        let ghost before = conn@;
        proof {
            let ids = batch_ids(before.batches);
            lemma_id_pos(ids, before.next_batch, i as int);
            lemma_serial_remove(ids, before.next_batch, i as int);
            let rest = before.batches.remove(i as int);
            assert(batch_ids(rest) =~= ids.remove(i as int));
            assert forall|k: int| 0 <= k < rest.len() implies {
                &&& strain_ids(before.strains).contains(#[trigger] rest[k].strain_id as int)
                &&& grower_ids(before.growers).contains(rest[k].grower_id as int)
            } by {
                let j = if k < i { k } else { k + 1 };
                assert(rest[k] == before.batches[j]);
                assert(strain_ids(before.strains).contains(before.batches[j].strain_id as int));
            }
            assert forall|k: int| 0 <= k < before.terpenes.len() implies batch_ids(rest).contains(
                #[trigger] before.terpenes[k].batch_id as int,
            ) by {
                assert(before.terpenes[k].batch_id != self.id);
            }
        }
        let row = conn.batches.remove(i);
        Ok(row)
    }
}

/// A criterion for selecting growers.
#[derive(Debug, Clone, Copy)]
pub enum GrowerField<'g> {
    /// Exact identity.
    Id(i32),
    /// Case-insensitive substring of the name.
    Name(&'g str),
}

/// A criterion for selecting strains.
#[derive(Debug, Clone, Copy)]
pub enum StrainField<'s> {
    /// Exact identity.
    Id(i32),
    /// Case-insensitive substring of the name.
    Name(&'s str),
    /// Exact species.
    Species(Species),
}

/// A criterion for selecting batches, in their joined form.
#[derive(Debug, Clone, Copy)]
pub enum BatchField<'b> {
    /// Exact identity.
    Id(i32),
    /// Case-insensitive substring of the strain's name.
    Strain(&'b str),
    /// Exact strain identity.
    StrainID(i32),
    /// Exact harvest date; a batch without one never matches.
    HarvestDate(Date),
    /// Exact final test date; a batch without one never matches.
    FinalTestDate(Date),
    /// Exact package date; a batch without one never matches.
    PackageDate(Date),
    /// Exact grower identity.
    GrowerID(i32),
    /// Case-insensitive substring of the grower's name.
    Grower(&'b str),
    /// THC content equal as a number.
    THCContent(Float4),
    /// CBD content equal as a number.
    CBDContent(Float4),
}

pub open spec fn grower_matches(g: Grower, f: GrowerField) -> bool {
    match f {
        GrowerField::Id(i) => g.id == i,
        GrowerField::Name(n) => ilike(g.name@, n@),
    }
}

pub open spec fn strain_matches(s: Strain, f: StrainField) -> bool {
    match f {
        StrainField::Id(i) => s.id == i,
        StrainField::Name(n) => ilike(s.name@, n@),
        StrainField::Species(sp) => s.species == sp,
    }
}

/// The selection predicate of a grower criterion.
pub open spec fn grower_test(f: GrowerField) -> spec_fn(Grower) -> bool {
    |g: Grower| grower_matches(g, f)
}

/// The selection predicate of a strain criterion.
pub open spec fn strain_test(f: StrainField) -> spec_fn(Strain) -> bool {
    |s: Strain| strain_matches(s, f)
}

/// A batch with its foreign keys resolved to the names stored in `db`.
pub open spec fn batch_row(db: DbView, b: Batch) -> BatchResponse {
    BatchResponse {
        strain: db.strain_of(b.strain_id as int).name,
        harvest_date: b.harvest_date,
        final_test_date: b.final_test_date,
        package_date: b.package_date,
        grower: db.grower_of(b.grower_id as int).name,
        thc_content: b.thc_content,
        cbd_content: b.cbd_content,
    }
}

pub open spec fn batch_matches(db: DbView, b: Batch, f: BatchField) -> bool {
    match f {
        BatchField::Id(i) => b.id == i,
        BatchField::Strain(n) => ilike(batch_row(db, b).strain@, n@),
        BatchField::StrainID(i) => b.strain_id == i,
        BatchField::HarvestDate(d) => b.harvest_date == Some(d),
        BatchField::FinalTestDate(d) => b.final_test_date == Some(d),
        BatchField::PackageDate(d) => b.package_date == Some(d),
        BatchField::GrowerID(i) => b.grower_id == i,
        BatchField::Grower(n) => ilike(batch_row(db, b).grower@, n@),
        BatchField::THCContent(x) => float4_eq(b.thc_content.bits, x.bits),
        BatchField::CBDContent(x) => float4_eq(b.cbd_content.bits, x.bits),
    }
}

/// The joined view of every batch, in table order: the inner join of
/// batches with strains and growers.
pub open spec fn joined(db: DbView) -> Seq<BatchResponse> {
    db.batches.map_values(row_of(db))
}

/// The joined view of the batches that `f` selects, in table order.
pub open spec fn joined_where(db: DbView, f: BatchField) -> Seq<BatchResponse> {
    db.batches.filter(batch_test(db, f)).map_values(row_of(db))
}

/// The join of one batch, as a function.
pub open spec fn row_of(db: DbView) -> spec_fn(Batch) -> BatchResponse {
    |b: Batch| batch_row(db, b)
}

/// The selection predicate of a batch criterion.
pub open spec fn batch_test(db: DbView, f: BatchField) -> spec_fn(Batch) -> bool {
    |b: Batch| batch_matches(db, b, f)
}

/// One more row of a scan: the filtered prefix grows by that row exactly
/// when it satisfies the predicate.
pub proof fn lemma_filter_take<A>(s: Seq<A>, i: int, p: spec_fn(A) -> bool)
    requires
        0 <= i < s.len(),
    ensures
        s.take(i + 1).filter(p) == if p(s[i]) {
            s.take(i).filter(p).push(s[i])
        } else {
            s.take(i).filter(p)
        },
{
    reveal(Seq::filter);
    assert(s.take(i + 1).drop_last() =~= s.take(i));
    assert(s.take(i + 1).last() == s[i]);
}

/// Reading rows: every row of a table, or those that a criterion selects,
/// in table order. Reading never fails.
pub trait Retrievable<'a>: Sized {
    type Row;

    type Field;

    /// Every row, as the store holds it in state `db`.
    spec fn table(db: DbView) -> Seq<Self::Row>;

    /// The rows that `field` selects in state `db`.
    spec fn selected(db: DbView, field: Self::Field) -> Seq<Self::Row>;

    fn all(conn: &Db) -> (r: Result<Vec<Self::Row>, DbError>)
        requires
            conn.wf(),
        ensures
            r is Ok,
            r is Ok ==> r->Ok_0@ == Self::table(conn@),
    ;

    fn filter(conn: &Db, field: Self::Field) -> (r: Result<Vec<Self::Row>, DbError>)
        requires
            conn.wf(),
        ensures
            r is Ok,
            r is Ok ==> r->Ok_0@ == Self::selected(conn@, field),
    ;
}

impl<'a> Retrievable<'a> for Grower {
    type Row = Grower;

    type Field = GrowerField<'a>;

    open spec fn table(db: DbView) -> Seq<Grower> {
        db.growers
    }

    open spec fn selected(db: DbView, field: GrowerField<'a>) -> Seq<Grower> {
        db.growers.filter(grower_test(field))
    }

    fn all(conn: &Db) -> (r: Result<Vec<Grower>, DbError>) {
        let mut out: Vec<Grower> = Vec::new();
        let mut i: usize = 0;
        while i < conn.growers.len()
            invariant
                i <= conn.growers@.len(),
                out@ == conn.growers@.take(i as int),
            decreases conn.growers@.len() - i,
        {
            out.push(conn.growers[i].clone());
            proof {
                assert(conn.growers@.take(i + 1) =~= conn.growers@.take(i as int).push(
                    conn.growers@[i as int],
                ));
            }
            i = i + 1;
        }
        proof {
            assert(conn.growers@.take(i as int) =~= conn.growers@);
        }
        Ok(out)
    }

    fn filter(conn: &Db, field: GrowerField<'a>) -> (r: Result<Vec<Grower>, DbError>) {
        let mut out: Vec<Grower> = Vec::new();
        let mut i: usize = 0;
        while i < conn.growers.len()
            invariant
                i <= conn.growers@.len(),
                out@ == conn.growers@.take(i as int).filter(grower_test(field)),
            decreases conn.growers@.len() - i,
        {
            let g = &conn.growers[i];
            let keep = match field {
                GrowerField::Id(x) => g.id == x,
                GrowerField::Name(n) => name_matches(g.name.as_str(), n),
            };

            proof {
                assert(g == conn.growers@[i as int]);
                assert(grower_test(field)(conn.growers@[i as int]) == keep);
                lemma_filter_take(conn.growers@, i as int, grower_test(field));
            }
            if keep {
                out.push(g.clone());
            }
            i = i + 1;
        }
        proof {
            assert(conn.growers@.take(i as int) =~= conn.growers@);
        }
        Ok(out)
    }
}

impl<'a> Retrievable<'a> for Strain {
    type Row = Strain;

    type Field = StrainField<'a>;

    open spec fn table(db: DbView) -> Seq<Strain> {
        db.strains
    }

    open spec fn selected(db: DbView, field: StrainField<'a>) -> Seq<Strain> {
        db.strains.filter(strain_test(field))
    }

    fn all(conn: &Db) -> (r: Result<Vec<Strain>, DbError>) {
        let mut out: Vec<Strain> = Vec::new();
        let mut i: usize = 0;
        while i < conn.strains.len()
            invariant
                i <= conn.strains@.len(),
                out@ == conn.strains@.take(i as int),
            decreases conn.strains@.len() - i,
        {
            out.push(conn.strains[i].clone());
            proof {
                assert(conn.strains@.take(i + 1) =~= conn.strains@.take(i as int).push(
                    conn.strains@[i as int],
                ));
            }
            i = i + 1;
        }
        proof {
            assert(conn.strains@.take(i as int) =~= conn.strains@);
        }
        Ok(out)
    }

    fn filter(conn: &Db, field: StrainField<'a>) -> (r: Result<Vec<Strain>, DbError>) {
        let mut out: Vec<Strain> = Vec::new();
        let mut i: usize = 0;
        while i < conn.strains.len()
            invariant
                i <= conn.strains@.len(),
                out@ == conn.strains@.take(i as int).filter(strain_test(field)),
            decreases conn.strains@.len() - i,
        {
            let s = &conn.strains[i];
            let keep = match field {
                StrainField::Id(x) => s.id == x,
                StrainField::Name(n) => name_matches(s.name.as_str(), n),
                StrainField::Species(sp) => s.species == sp,
            };
            proof {
                assert(s == conn.strains@[i as int]);
                assert(strain_test(field)(conn.strains@[i as int]) == keep);
                lemma_filter_take(conn.strains@, i as int, strain_test(field));
            }
            if keep {
                out.push(s.clone());
            }
            i = i + 1;
        }
        proof {
            assert(conn.strains@.take(i as int) =~= conn.strains@);
        }
        Ok(out)
    }
}

/// The position of the strain with identity `id`, which is stored.
fn strain_pos(rows: &Vec<Strain>, id: i32) -> (r: usize)
    requires
        strain_ids(rows@).contains(id as int),
    ensures
        r < rows@.len(),
        rows@[r as int].id == id,
{
    let ghost w = choose|k: int| 0 <= k < rows@.len() && strain_ids(rows@)[k] == id as int;
    let n = rows.len();
    let mut i: usize = 0;
    loop
        invariant
            n == rows@.len(),
            i <= w < rows@.len(),
            rows@[w].id == id,
        decreases w - i,
    {
        if rows[i].id == id {
            return i;
        }
        i = i + 1;
    }
}

/// The position of the grower with identity `id`, which is stored.
fn grower_pos(rows: &Vec<Grower>, id: i32) -> (r: usize)
    requires
        grower_ids(rows@).contains(id as int),
    ensures
        r < rows@.len(),
        rows@[r as int].id == id,
{
    let ghost w = choose|k: int| 0 <= k < rows@.len() && grower_ids(rows@)[k] == id as int;
    let n = rows.len();
    let mut i: usize = 0;
    loop
        invariant
            n == rows@.len(),
            i <= w < rows@.len(),
            rows@[w].id == id,
        decreases w - i,
    {
        if rows[i].id == id {
            return i;
        }
        i = i + 1;
    }
}

/// The joined view of one stored batch.
fn join_row(conn: &Db, b: &Batch) -> (r: BatchResponse)
    requires
        conn.wf(),
        strain_ids(conn@.strains).contains(b.strain_id as int),
        grower_ids(conn@.growers).contains(b.grower_id as int),
    ensures
        r == batch_row(conn@, *b),
{
    let si = strain_pos(&conn.strains, b.strain_id);
    let gi = grower_pos(&conn.growers, b.grower_id);
    proof {
        lemma_id_pos(strain_ids(conn@.strains), conn@.next_strain, si as int);
        lemma_id_pos(grower_ids(conn@.growers), conn@.next_grower, gi as int);
    }
    BatchResponse {
        strain: conn.strains[si].name.clone(),
        harvest_date: b.harvest_date,
        final_test_date: b.final_test_date,
        package_date: b.package_date,
        grower: conn.growers[gi].name.clone(),
        thc_content: b.thc_content,
        cbd_content: b.cbd_content,
    }
}

/// Whether an optional date is present and equal to `d`.
fn date_is(x: Option<Date>, d: Date) -> (r: bool)
    ensures
        r == (x == Some(d)),
{
    match x {
        Some(v) => v.days_from_ce == d.days_from_ce,
        None => false,
    }
}

/// Whether a stored batch, joined into `row`, satisfies `field`.
fn batch_keeps(b: &Batch, row: &BatchResponse, field: BatchField) -> (r: bool)
    ensures
        forall|db: DbView|
            batch_row(db, *b) == *row ==> r == #[trigger] batch_matches(db, *b, field),
{
    match field {
        BatchField::Id(x) => b.id == x,
        BatchField::Strain(n) => name_matches(row.strain.as_str(), n),
        BatchField::StrainID(x) => b.strain_id == x,
        BatchField::HarvestDate(d) => date_is(b.harvest_date, d),
        BatchField::FinalTestDate(d) => date_is(b.final_test_date, d),
        BatchField::PackageDate(d) => date_is(b.package_date, d),
        BatchField::GrowerID(x) => b.grower_id == x,
        BatchField::Grower(n) => name_matches(row.grower.as_str(), n),
        BatchField::THCContent(x) => b.thc_content.same_value(&x),
        BatchField::CBDContent(x) => b.cbd_content.same_value(&x),
    }
}

impl<'a> Retrievable<'a> for Batch {
    type Row = BatchResponse;

    type Field = BatchField<'a>;

    open spec fn table(db: DbView) -> Seq<BatchResponse> {
        joined(db)
    }

    open spec fn selected(db: DbView, field: BatchField<'a>) -> Seq<BatchResponse> {
        joined_where(db, field)
    }

    fn all(conn: &Db) -> (r: Result<Vec<BatchResponse>, DbError>) {
        let mut out: Vec<BatchResponse> = Vec::new();
        let mut i: usize = 0;
        while i < conn.batches.len()
            invariant
                conn.wf(),
                i <= conn.batches@.len(),
                out@ == conn.batches@.take(i as int).map_values(row_of(conn@)),
            decreases conn.batches@.len() - i,
        {
            let row = join_row(conn, &conn.batches[i]);
            proof {
                assert(conn.batches@.take(i + 1) =~= conn.batches@.take(i as int).push(
                    conn.batches@[i as int],
                ));
                assert(conn.batches@.take(i + 1).map_values(row_of(conn@)) =~= conn.batches@.take(
                    i as int,
                ).map_values(row_of(conn@)).push(row));
            }
            out.push(row);
            i = i + 1;
        }
        proof {
            assert(conn.batches@.take(i as int) =~= conn.batches@);
        }
        Ok(out)
    }

    fn filter(conn: &Db, field: BatchField<'a>) -> (r: Result<Vec<BatchResponse>, DbError>) {
        let mut out: Vec<BatchResponse> = Vec::new();
        let mut i: usize = 0;
        while i < conn.batches.len()
            invariant
                conn.wf(),
                i <= conn.batches@.len(),
                out@ == conn.batches@.take(i as int).filter(batch_test(conn@, field)).map_values(
                    row_of(conn@),
                ),
            decreases conn.batches@.len() - i,
        {
            let b = &conn.batches[i];
            let row = join_row(conn, b);
            let keep = batch_keeps(b, &row, field);
            proof {
                let p = batch_test(conn@, field);
                let prefix = conn.batches@.take(i as int).filter(p);
                assert(p(conn.batches@[i as int]) == keep);
                lemma_filter_take(conn.batches@, i as int, p);
                assert(prefix.push(*b).map_values(row_of(conn@)) =~= prefix.map_values(
                    row_of(conn@),
                ).push(row));
            }
            if keep {
                out.push(row);
            }
            i = i + 1;
        }
        proof {
            assert(conn.batches@.take(i as int) =~= conn.batches@);
        }
        Ok(out)
    }
}

} // verus!
