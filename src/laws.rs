//! What holds of the data-access operations together: reading back what was
//! created, reading after a delete, and what a filter returns.

use vstd::prelude::*;
use crate::db::{
    batch_ids, batch_in_use, batch_matches, batch_row, batch_test, grower_ids, grower_in_use,
    grower_matches, grower_test, lemma_id_pos, lemma_serial_remove, row_of, strain_ids,
    strain_in_use, strain_matches, strain_test, BatchField, Creatable, DbError, DbView,
    Deletable, GrowerField, Retrievable, StrainField,
};
use crate::models::{Batch, BatchResponse, Grower, NewBatch, NewGrower, NewStrain, Strain};
use crate::text::lower_of;

verus! {

/// Filtering a sequence in which no element satisfies the predicate gives
/// the empty sequence.
pub proof fn lemma_filter_none<A>(s: Seq<A>, p: spec_fn(A) -> bool)
    requires
        forall|i: int| 0 <= i < s.len() ==> !p(#[trigger] s[i]),
    ensures
        s.filter(p) == Seq::<A>::empty(),
    decreases s.len(),
{
    reveal(Seq::filter);
    if s.len() > 0 {
        assert forall|i: int| 0 <= i < s.drop_last().len() implies !p(#[trigger] s.drop_last()[i]) by {
            assert(s.drop_last()[i] == s[i]);
        }
        lemma_filter_none(s.drop_last(), p);
        assert(!p(s[s.len() - 1]));
    }
    assert(s.filter(p) =~= Seq::<A>::empty());
}

/// Filtering after one appended element that alone satisfies the predicate
/// gives exactly that element.
pub proof fn lemma_filter_only_last<A>(s: Seq<A>, x: A, p: spec_fn(A) -> bool)
    requires
        forall|i: int| 0 <= i < s.len() ==> !p(#[trigger] s[i]),
        p(x),
    ensures
        s.push(x).filter(p) == seq![x],
{
    reveal(Seq::filter);
    lemma_filter_none(s, p);
    assert(s.push(x).drop_last() =~= s);
    assert(s.push(x).filter(p) =~= seq![x]);
}

/// What a filter keeps: an element is in the result exactly when it is in
/// the sequence and satisfies the predicate.
pub proof fn lemma_filter_members<A>(s: Seq<A>, p: spec_fn(A) -> bool)
    ensures
        forall|x: A| #[trigger] s.filter(p).contains(x) <==> (s.contains(x) && p(x)),
    decreases s.len(),
{
    reveal(Seq::filter);
    if s.len() > 0 {
        let init = s.drop_last();
        lemma_filter_members(init, p);
        assert(s =~= init.push(s.last()));
        assert forall|x: A| #[trigger] s.filter(p).contains(x) <==> (s.contains(x) && p(x)) by {
            if s.contains(x) && p(x) {
                let k = choose|k: int| 0 <= k < s.len() && s[k] == x;
                if k < init.len() {
                    assert(init[k] == x);
                    assert(init.filter(p).contains(x));
                    let j = choose|j: int| 0 <= j < init.filter(p).len() && init.filter(p)[j] == x;
                    if p(s.last()) {
                        assert(s.filter(p)[j] == x);
                    }
                } else {
                    assert(s.filter(p)[s.filter(p).len() - 1] == x);
                }
            }
            if s.filter(p).contains(x) {
                let j = choose|j: int| 0 <= j < s.filter(p).len() && s.filter(p)[j] == x;
                if j < init.filter(p).len() {
                    assert(init.filter(p)[j] == x);
                    assert(init.filter(p).contains(x));
                    let k = choose|k: int| 0 <= k < init.len() && init[k] == x;
                    assert(s[k] == x);
                } else {
                    assert(x == s.last());
                    assert(s[s.len() - 1] == x);
                }
            }
        }
    }
}

/// Creating a grower and then selecting by the identity it was given yields
/// exactly the created grower, which carries the draft's name.
pub proof fn lemma_grower_round_trip(db: DbView, d: NewGrower)
    requires
        db.wf(),
        d.admitted(db),
    ensures
        d.inserted(db).name == d.name,
        <Grower as Retrievable<'static>>::selected(
            d.after_insert(db),
            GrowerField::Id(d.inserted(db).id),
        ) == seq![d.inserted(db)],
{
    let r = d.inserted(db);
    let p = grower_test(GrowerField::Id(r.id));
    assert forall|i: int| 0 <= i < db.growers.len() implies !p(#[trigger] db.growers[i]) by {
        assert(grower_ids(db.growers)[i] == db.growers[i].id as int);
    }
    lemma_filter_only_last(db.growers, r, p);
}

/// Creating a strain and then selecting by the identity it was given yields
/// exactly the created strain, which carries the draft's name and species.
pub proof fn lemma_strain_round_trip(db: DbView, d: NewStrain)
    requires
        db.wf(),
        d.admitted(db),
    ensures
        d.inserted(db).name == d.name,
        d.inserted(db).species == d.species,
        <Strain as Retrievable<'static>>::selected(
            d.after_insert(db),
            StrainField::Id(d.inserted(db).id),
        ) == seq![d.inserted(db)],
{
    let r = d.inserted(db);
    let p = strain_test(StrainField::Id(r.id));
    assert forall|i: int| 0 <= i < db.strains.len() implies !p(#[trigger] db.strains[i]) by {
        assert(strain_ids(db.strains)[i] == db.strains[i].id as int);
    }
    lemma_filter_only_last(db.strains, r, p);
}

/// Creating a batch and then selecting by the identity it was given yields
/// exactly one joined row: the draft's dates and contents, with the names of
/// the strain and grower it references.
pub proof fn lemma_batch_round_trip(db: DbView, d: NewBatch)
    requires
        db.wf(),
        d.admitted(db),
    ensures
        ({
            let after = d.after_insert(db);
            let row = batch_row(after, d.inserted(db));
            &&& <Batch as Retrievable<'static>>::selected(
                after,
                BatchField::Id(d.inserted(db).id),
            ) == seq![row]
            &&& row.strain == db.strain_of(d.strain_id as int).name
            &&& row.grower == db.grower_of(d.grower_id as int).name
            &&& row.harvest_date == d.harvest_date
            &&& row.final_test_date == d.final_test_date
            &&& row.package_date == d.package_date
            &&& row.thc_content == d.thc_content
            &&& row.cbd_content == d.cbd_content
        }),
{
    let r = d.inserted(db);
    let after = d.after_insert(db);
    let p = batch_test(after, BatchField::Id(r.id));
    assert forall|i: int| 0 <= i < db.batches.len() implies !p(#[trigger] db.batches[i]) by {
        assert(batch_ids(db.batches)[i] == db.batches[i].id as int);
    }
    lemma_filter_only_last(db.batches, r, p);
    assert(seq![r].map_values(row_of(after)) =~= seq![batch_row(after, r)]);
}

/// Deleting a stored grower that no batch references succeeds and hands back
/// that grower; afterwards no grower carries its identity, and a second
/// delete finds nothing.
pub proof fn lemma_grower_delete_then_lookup(db: DbView, r: Grower)
    requires
        db.wf(),
        db.growers.contains(r),
        !grower_in_use(db, r.id as int),
    ensures
        r.removable(db),
        r.removed(db) == r,
        <Grower as Retrievable<'static>>::selected(r.after_delete(db), GrowerField::Id(r.id))
            == Seq::<Grower>::empty(),
        !r.removable(r.after_delete(db)),
        r.refusal(r.after_delete(db)) == DbError::NotFound,
{
    let ids = grower_ids(db.growers);
    let k = choose|k: int| 0 <= k < db.growers.len() && db.growers[k] == r;
    assert(ids[k] == r.id as int);
    lemma_id_pos(ids, db.next_grower, k);
    lemma_serial_remove(ids, db.next_grower, k);
    let rest = db.growers.remove(k);
    assert(grower_ids(rest) =~= ids.remove(k));
    let p = grower_test(GrowerField::Id(r.id));
    assert forall|i: int| 0 <= i < rest.len() implies !p(#[trigger] rest[i]) by {
        assert(grower_ids(rest)[i] == rest[i].id as int);
    }
    lemma_filter_none(rest, p);
}

/// Deleting a stored strain that no batch references succeeds and hands back
/// that strain; afterwards no strain carries its identity, and a second
/// delete finds nothing.
pub proof fn lemma_strain_delete_then_lookup(db: DbView, r: Strain)
    requires
        db.wf(),
        db.strains.contains(r),
        !strain_in_use(db, r.id as int),
    ensures
        r.removable(db),
        r.removed(db) == r,
        <Strain as Retrievable<'static>>::selected(r.after_delete(db), StrainField::Id(r.id))
            == Seq::<Strain>::empty(),
        !r.removable(r.after_delete(db)),
        r.refusal(r.after_delete(db)) == DbError::NotFound,
{
    let ids = strain_ids(db.strains);
    let k = choose|k: int| 0 <= k < db.strains.len() && db.strains[k] == r;
    assert(ids[k] == r.id as int);
    lemma_id_pos(ids, db.next_strain, k);
    lemma_serial_remove(ids, db.next_strain, k);
    let rest = db.strains.remove(k);
    assert(strain_ids(rest) =~= ids.remove(k));
    let p = strain_test(StrainField::Id(r.id));
    assert forall|i: int| 0 <= i < rest.len() implies !p(#[trigger] rest[i]) by {
        assert(strain_ids(rest)[i] == rest[i].id as int);
    }
    lemma_filter_none(rest, p);
}

/// Deleting a stored batch that no terpene profile references succeeds and
/// hands back that batch; afterwards no batch carries its identity, and a
/// second delete finds nothing.
pub proof fn lemma_batch_delete_then_lookup(db: DbView, r: Batch)
    requires
        db.wf(),
        db.batches.contains(r),
        !batch_in_use(db, r.id as int),
    ensures
        r.removable(db),
        r.removed(db) == r,
        <Batch as Retrievable<'static>>::selected(r.after_delete(db), BatchField::Id(r.id))
            == Seq::<BatchResponse>::empty(),
        !r.removable(r.after_delete(db)),
        r.refusal(r.after_delete(db)) == DbError::NotFound,
{
    let ids = batch_ids(db.batches);
    let k = choose|k: int| 0 <= k < db.batches.len() && db.batches[k] == r;
    assert(ids[k] == r.id as int);
    lemma_id_pos(ids, db.next_batch, k);
    lemma_serial_remove(ids, db.next_batch, k);
    let after = r.after_delete(db);
    let rest = after.batches;
    assert(rest == db.batches.remove(k));
    assert(batch_ids(rest) =~= ids.remove(k));
    let p = batch_test(after, BatchField::Id(r.id));
    assert forall|i: int| 0 <= i < rest.len() implies !p(#[trigger] rest[i]) by {
        assert(batch_ids(rest)[i] == rest[i].id as int);
    }
    lemma_filter_none(rest, p);
    assert(Seq::<Batch>::empty().map_values(row_of(after)) =~= Seq::<BatchResponse>::empty());
}

/// A grower filter returns exactly the stored growers that the criterion
/// matches: by identity, equal identity; by name, the name contains the
/// query with case ignored.
pub proof fn lemma_grower_selection<'a>(db: DbView, f: GrowerField<'a>)
    ensures
        forall|g: Grower| #[trigger]
            <Grower as Retrievable<'a>>::selected(db, f).contains(g) <==> (db.growers.contains(g)
                && grower_matches(g, f)),
{
    lemma_filter_members(db.growers, grower_test(f));
}

/// A strain filter returns exactly the stored strains that the criterion
/// matches: by identity or species, equality; by name, the name contains the
/// query with case ignored.
pub proof fn lemma_strain_selection<'a>(db: DbView, f: StrainField<'a>)
    ensures
        forall|s: Strain| #[trigger]
            <Strain as Retrievable<'a>>::selected(db, f).contains(s) <==> (db.strains.contains(s)
                && strain_matches(s, f)),
{
    lemma_filter_members(db.strains, strain_test(f));
}

/// A batch filter returns the joined row of every stored batch that the
/// criterion matches, and nothing else.
pub proof fn lemma_batch_selection<'a>(db: DbView, f: BatchField<'a>)
    ensures
        forall|i: int|
            0 <= i < db.batches.len() && batch_matches(db, #[trigger] db.batches[i], f)
                ==> <Batch as Retrievable<'a>>::selected(db, f).contains(
                batch_row(db, db.batches[i]),
            ),
        forall|j: int|
            0 <= j < <Batch as Retrievable<'a>>::selected(db, f).len() ==> exists|i: int|
                0 <= i < db.batches.len() && batch_matches(db, db.batches[i], f)
                    && #[trigger] <Batch as Retrievable<'a>>::selected(db, f)[j] == batch_row(
                    db,
                    #[trigger] db.batches[i],
                ),
{
    let kept = db.batches.filter(batch_test(db, f));
    let out = <Batch as Retrievable<'a>>::selected(db, f);
    lemma_filter_members(db.batches, batch_test(db, f));
    assert forall|i: int|
        0 <= i < db.batches.len() && batch_matches(db, #[trigger] db.batches[i], f) implies out.contains(
        batch_row(db, db.batches[i]),
    ) by {
        assert(db.batches.contains(db.batches[i]));
        assert(kept.contains(db.batches[i]));
        let j = choose|j: int| 0 <= j < kept.len() && kept[j] == db.batches[i];
        assert(out[j] == batch_row(db, db.batches[i]));
    }
    assert forall|j: int| 0 <= j < out.len() implies exists|i: int|
        0 <= i < db.batches.len() && batch_matches(db, db.batches[i], f)
            && #[trigger] out[j] == batch_row(db, #[trigger] db.batches[i]) by {
        assert(kept.contains(kept[j]));
        let i = choose|i: int| 0 <= i < db.batches.len() && db.batches[i] == kept[j];
        assert(out[j] == batch_row(db, db.batches[i]));
    }
}

/// Name filters on growers ignore case: two queries with the same lowercase
/// form select the same growers.
pub proof fn lemma_grower_name_case<'a>(db: DbView, q1: &'a str, q2: &'a str)
    requires
        lower_of(q1@) == lower_of(q2@),
    ensures
        <Grower as Retrievable<'a>>::selected(db, GrowerField::Name(q1)) == <Grower as Retrievable<
            'a,
        >>::selected(db, GrowerField::Name(q2)),
{
    assert(grower_test(GrowerField::Name(q1)) =~= grower_test(GrowerField::Name(q2)));
}

/// Name filters on strains ignore case: two queries with the same lowercase
/// form select the same strains.
pub proof fn lemma_strain_name_case<'a>(db: DbView, q1: &'a str, q2: &'a str)
    requires
        lower_of(q1@) == lower_of(q2@),
    ensures
        <Strain as Retrievable<'a>>::selected(db, StrainField::Name(q1)) == <Strain as Retrievable<
            'a,
        >>::selected(db, StrainField::Name(q2)),
{
    assert(strain_test(StrainField::Name(q1)) =~= strain_test(StrainField::Name(q2)));
}

/// Strain-name and grower-name filters on batches ignore case: two queries
/// with the same lowercase form select the same rows.
pub proof fn lemma_batch_name_case<'a>(db: DbView, q1: &'a str, q2: &'a str)
    requires
        lower_of(q1@) == lower_of(q2@),
    ensures
        <Batch as Retrievable<'a>>::selected(db, BatchField::Strain(q1)) == <Batch as Retrievable<
            'a,
        >>::selected(db, BatchField::Strain(q2)),
        <Batch as Retrievable<'a>>::selected(db, BatchField::Grower(q1)) == <Batch as Retrievable<
            'a,
        >>::selected(db, BatchField::Grower(q2)),
{
    assert(batch_test(db, BatchField::Strain(q1)) =~= batch_test(db, BatchField::Strain(q2)));
    assert(batch_test(db, BatchField::Grower(q1)) =~= batch_test(db, BatchField::Grower(q2)));
}

/// A grower filter that matches no stored grower returns the empty sequence.
pub proof fn lemma_grower_no_match<'a>(db: DbView, f: GrowerField<'a>)
    requires
        forall|i: int| 0 <= i < db.growers.len() ==> !grower_matches(#[trigger] db.growers[i], f),
    ensures
        <Grower as Retrievable<'a>>::selected(db, f) == Seq::<Grower>::empty(),
{
    lemma_filter_none(db.growers, grower_test(f));
}

/// A strain filter that matches no stored strain returns the empty sequence.
pub proof fn lemma_strain_no_match<'a>(db: DbView, f: StrainField<'a>)
    requires
        forall|i: int| 0 <= i < db.strains.len() ==> !strain_matches(#[trigger] db.strains[i], f),
    ensures
        <Strain as Retrievable<'a>>::selected(db, f) == Seq::<Strain>::empty(),
{
    lemma_filter_none(db.strains, strain_test(f));
}

/// A batch filter that matches no stored batch returns the empty sequence.
pub proof fn lemma_batch_no_match<'a>(db: DbView, f: BatchField<'a>)
    requires
        forall|i: int|
            0 <= i < db.batches.len() ==> !batch_matches(db, #[trigger] db.batches[i], f),
    ensures
        <Batch as Retrievable<'a>>::selected(db, f) == Seq::<BatchResponse>::empty(),
{
    lemma_filter_none(db.batches, batch_test(db, f));
    assert(Seq::<Batch>::empty().map_values(row_of(db)) =~= Seq::<BatchResponse>::empty());
}

} // verus!
