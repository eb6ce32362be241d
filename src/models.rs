//! The entities of the registry: drafts for insertion, the records that the
//! store hands back, and the joined batch view.

use vstd::prelude::*;

verus! {

/// The closed classification of a strain.
#[derive(Clone, Copy, Debug, PartialEq, Eq, Structural)]
pub enum Species {
    Indica,
    Sativa,
    Hybrid,
}

/// The lowercase display name of a species.
pub open spec fn species_name(s: Species) -> Seq<char> {
    match s {
        Species::Indica => "indica"@,
        Species::Sativa => "sativa"@,
        Species::Hybrid => "hybrid"@,
    }
}

impl Species {
    /// The lowercase display name: `indica`, `sativa` or `hybrid`.
    pub fn as_str(&self) -> (r: &'static str)
        ensures
            r@ == species_name(*self),
    {
        match self {
            Species::Indica => "indica",
            Species::Sativa => "sativa",
            Species::Hybrid => "hybrid",
        }
    }

    /// The lowercase display name as an owned string.
    pub fn to_string(&self) -> (r: String)
        ensures
            r@ == species_name(*self),
    {
        self.as_str().to_owned()
    }
}

/// A calendar date, held as its day number in the proleptic Gregorian
/// calendar, counting 0001-01-01 as day 1.
#[derive(Clone, Copy, Debug, PartialEq, Eq, Structural)]
pub struct Date {
    pub days_from_ce: i32,
}

/// A `float4` column value, held by its IEEE-754 single-precision bit pattern.
#[derive(Clone, Copy, Debug, PartialEq, Eq, Structural)]
pub struct Float4 {
    pub bits: u32,
}

/// Whether a bit pattern encodes a NaN: all exponent bits set, some mantissa bit set.
pub open spec fn is_nan_bits(b: u32) -> bool {
    (b & 0x7f80_0000u32) == 0x7f80_0000u32 && (b & 0x007f_ffffu32) != 0
}

/// Whether a bit pattern encodes positive or negative zero.
pub open spec fn is_zero_bits(b: u32) -> bool {
    (b & 0x7fff_ffffu32) == 0
}

/// IEEE-754 equality of two single-precision values given by their bits:
/// no NaN equals anything, the two zeros are equal, and otherwise the
/// encodings must agree.
pub open spec fn float4_eq(a: u32, b: u32) -> bool {
    !is_nan_bits(a) && !is_nan_bits(b) && (a == b || (is_zero_bits(a) && is_zero_bits(b)))
}

impl Float4 {
    pub fn from_bits(bits: u32) -> (r: Float4)
        ensures
            r.bits == bits,
    {
        Float4 { bits }
    }

    /// Numeric equality of two values, as `==` on `f32` decides it.
    pub fn same_value(&self, other: &Float4) -> (r: bool)
        ensures
            r == float4_eq(self.bits, other.bits),
    {
        let a = self.bits;
        let b = other.bits;
        let a_nan = (a & 0x7f80_0000u32) == 0x7f80_0000u32 && (a & 0x007f_ffffu32) != 0;
        let b_nan = (b & 0x7f80_0000u32) == 0x7f80_0000u32 && (b & 0x007f_ffffu32) != 0;
        let zeros = (a & 0x7fff_ffffu32) == 0 && (b & 0x7fff_ffffu32) == 0;
        !a_nan && !b_nan && (a == b || zeros)
    }
}

/// A draft strain, without identity.
#[derive(Debug, PartialEq)]
pub struct NewStrain {
    pub name: String,
    pub species: Species,
}

/// A draft batch, without identity.
#[derive(Debug, PartialEq)]
pub struct NewBatch {
    pub strain_id: i32,
    pub harvest_date: Option<Date>,
    pub final_test_date: Option<Date>,
    pub package_date: Option<Date>,
    pub grower_id: i32,
    pub thc_content: Float4,
    pub cbd_content: Float4,
}

/// A draft grower, without identity.
#[derive(Debug, PartialEq)]
pub struct NewGrower {
    pub name: String,
}

/// A draft terpene profile, without identity; each concentration may be absent.
#[derive(Debug, Clone, Copy, PartialEq)]
pub struct NewTerpenes {
    pub batch_id: i32,
    pub caryophyllene: Option<Float4>,
    pub humulene: Option<Float4>,
    pub limonene: Option<Float4>,
    pub linalool: Option<Float4>,
    pub myrcene: Option<Float4>,
    pub pinene: Option<Float4>,
}

/// A batch with its strain and grower resolved to their names.
#[derive(Debug, PartialEq)]
pub struct BatchResponse {
    pub strain: String,
    pub harvest_date: Option<Date>,
    pub final_test_date: Option<Date>,
    pub package_date: Option<Date>,
    pub grower: String,
    pub thc_content: Float4,
    pub cbd_content: Float4,
}

/// A stored grower.
#[derive(Debug, PartialEq)]
pub struct Grower {
    pub id: i32,
    pub name: String,
}

/// A stored batch.
#[derive(Debug, PartialEq)]
pub struct Batch {
    pub id: i32,
    pub strain_id: i32,
    pub harvest_date: Option<Date>,
    pub final_test_date: Option<Date>,
    pub package_date: Option<Date>,
    pub grower_id: i32,
    pub thc_content: Float4,
    pub cbd_content: Float4,
}

/// A stored strain.
#[derive(Debug, PartialEq)]
pub struct Strain {
    pub id: i32,
    pub name: String,
    pub species: Species,
}

/// A stored terpene profile.
#[derive(Debug, Clone, Copy, PartialEq)]
pub struct Terpenes {
    pub id: i32,
    pub batch_id: i32,
    pub caryophyllene: Option<Float4>,
    pub humulene: Option<Float4>,
    pub limonene: Option<Float4>,
    pub linalool: Option<Float4>,
    pub myrcene: Option<Float4>,
    pub pinene: Option<Float4>,
}

impl Clone for NewStrain {
    fn clone(&self) -> (r: Self)
        ensures
            r == *self,
    {
        NewStrain { name: self.name.clone(), species: self.species }
    }
}

impl Clone for NewGrower {
    fn clone(&self) -> (r: Self)
        ensures
            r == *self,
    {
        NewGrower { name: self.name.clone() }
    }
}

impl Clone for Grower {
    fn clone(&self) -> (r: Self)
        ensures
            r == *self,
    {
        Grower { id: self.id, name: self.name.clone() }
    }
}

impl Clone for Strain {
    fn clone(&self) -> (r: Self)
        ensures
            r == *self,
    {
        Strain { id: self.id, name: self.name.clone(), species: self.species }
    }
}

impl Clone for Batch {
    fn clone(&self) -> (r: Self)
        ensures
            r == *self,
    {
        Batch { ..*self }
    }
}

impl Clone for BatchResponse {
    fn clone(&self) -> (r: Self)
        ensures
            r == *self,
    {
        BatchResponse {
            strain: self.strain.clone(),
            harvest_date: self.harvest_date,
            final_test_date: self.final_test_date,
            package_date: self.package_date,
            grower: self.grower.clone(),
            thc_content: self.thc_content,
            cbd_content: self.cbd_content,
        }
    }
}

/// Assembles a terpene-profile draft one field at a time.
#[derive(Debug, Clone, Copy)]
pub struct NewTerpenesBuilder(NewTerpenes);

/// Assembles a batch draft one field at a time.
#[derive(Debug)]
pub struct NewBatchBuilder(NewBatch);

impl View for NewTerpenesBuilder {
    type V = NewTerpenes;

    closed spec fn view(&self) -> NewTerpenes {
        self.0
    }
}

impl View for NewBatchBuilder {
    type V = NewBatch;

    closed spec fn view(&self) -> NewBatch {
        self.0
    }
}

impl NewTerpenesBuilder {
    pub fn batch_id(self, id: i32) -> (r: Self)
        ensures
            r@ == (NewTerpenes { batch_id: id, ..self@ }),
    {
        NewTerpenesBuilder(NewTerpenes { batch_id: id, ..self.0 })
    }

    pub fn caryophyllene(self, amt: Option<Float4>) -> (r: Self)
        ensures
            r@ == (NewTerpenes { caryophyllene: amt, ..self@ }),
    {
        NewTerpenesBuilder(NewTerpenes { caryophyllene: amt, ..self.0 })
    }

    pub fn humulene(self, amt: Option<Float4>) -> (r: Self)
        ensures
            r@ == (NewTerpenes { humulene: amt, ..self@ }),
    {
        NewTerpenesBuilder(NewTerpenes { humulene: amt, ..self.0 })
    }

    pub fn limonene(self, amt: Option<Float4>) -> (r: Self)
        ensures
            r@ == (NewTerpenes { limonene: amt, ..self@ }),
    {
        NewTerpenesBuilder(NewTerpenes { limonene: amt, ..self.0 })
    }

    /// Sets the linalool concentration.
    pub fn hinalool(self, amt: Option<Float4>) -> (r: Self)
        ensures
            r@ == (NewTerpenes { linalool: amt, ..self@ }),
    {
        NewTerpenesBuilder(NewTerpenes { linalool: amt, ..self.0 })
    }

    pub fn myrcene(self, amt: Option<Float4>) -> (r: Self)
        ensures
            r@ == (NewTerpenes { myrcene: amt, ..self@ }),
    {
        NewTerpenesBuilder(NewTerpenes { myrcene: amt, ..self.0 })
    }

    pub fn pinene(self, amt: Option<Float4>) -> (r: Self)
        ensures
            r@ == (NewTerpenes { pinene: amt, ..self@ }),
    {
        NewTerpenesBuilder(NewTerpenes { pinene: amt, ..self.0 })
    }

    pub fn build(self) -> (r: NewTerpenes)
        ensures
            r == self@,
    {
        NewTerpenes {
            batch_id: self.0.batch_id,
            caryophyllene: self.0.caryophyllene,
            humulene: self.0.humulene,
            limonene: self.0.limonene,
            linalool: self.0.linalool,
            myrcene: self.0.myrcene,
            pinene: self.0.pinene,
        }
    }
}

impl NewBatchBuilder {
    pub fn strain_id(self, id: i32) -> (r: Self)
        ensures
            r@ == (NewBatch { strain_id: id, ..self@ }),
    {
        NewBatchBuilder(NewBatch { strain_id: id, ..self.0 })
    }

    pub fn harvest_date(self, date: Option<Date>) -> (r: Self)
        ensures
            r@ == (NewBatch { harvest_date: date, ..self@ }),
    {
        NewBatchBuilder(NewBatch { harvest_date: date, ..self.0 })
    }

    pub fn final_test_date(self, date: Option<Date>) -> (r: Self)
        ensures
            r@ == (NewBatch { final_test_date: date, ..self@ }),
    {
        NewBatchBuilder(NewBatch { final_test_date: date, ..self.0 })
    }

    pub fn package_date(self, date: Option<Date>) -> (r: Self)
        ensures
            r@ == (NewBatch { package_date: date, ..self@ }),
    {
        NewBatchBuilder(NewBatch { package_date: date, ..self.0 })
    }

    pub fn grower_id(self, id: i32) -> (r: Self)
        ensures
            r@ == (NewBatch { grower_id: id, ..self@ }),
    {
        NewBatchBuilder(NewBatch { grower_id: id, ..self.0 })
    }

    pub fn thc_content(self, thc: Float4) -> (r: Self)
        ensures
            r@ == (NewBatch { thc_content: thc, ..self@ }),
    {
        NewBatchBuilder(NewBatch { thc_content: thc, ..self.0 })
    }

    pub fn cbd_content(self, cbd: Float4) -> (r: Self)
        ensures
            r@ == (NewBatch { cbd_content: cbd, ..self@ }),
    {
        NewBatchBuilder(NewBatch { cbd_content: cbd, ..self.0 })
    }

    pub fn build(self) -> (r: NewBatch)
        ensures
            r == self@,
    {
        NewBatch {
            strain_id: self.0.strain_id,
            harvest_date: self.0.harvest_date,
            final_test_date: self.0.final_test_date,
            package_date: self.0.package_date,
            grower_id: self.0.grower_id,
            thc_content: self.0.thc_content,
            cbd_content: self.0.cbd_content,
        }
    }
}

/// The draft that builders start from: no batch yet (identity -1) and no
/// concentration measured.
impl Default for NewTerpenes {
    fn default() -> (r: NewTerpenes)
        ensures
            r == (NewTerpenes {
                batch_id: -1i32,
                caryophyllene: None,
                humulene: None,
                limonene: None,
                linalool: None,
                myrcene: None,
                pinene: None,
            }),
    {
        NewTerpenes {
            batch_id: -1i32,
            caryophyllene: None,
            humulene: None,
            limonene: None,
            linalool: None,
            myrcene: None,
            pinene: None,
        }
    }
}

impl NewTerpenes {
    pub fn new() -> (r: Self)
        ensures
            r == (NewTerpenes {
                batch_id: -1i32,
                caryophyllene: None,
                humulene: None,
                limonene: None,
                linalool: None,
                myrcene: None,
                pinene: None,
            }),
    {
        NewTerpenes::default()
    }

    pub fn builder() -> (r: NewTerpenesBuilder)
        ensures
            r@ == (NewTerpenes {
                batch_id: -1i32,
                caryophyllene: None,
                humulene: None,
                limonene: None,
                linalool: None,
                myrcene: None,
                pinene: None,
            }),
    {
        NewTerpenesBuilder(Self::new())
    }
}

impl NewBatch {
    /// The draft that builders start from: no strain or grower yet (identity
    /// -1 for each), no dates, and zero contents.
    pub fn new() -> (r: Self)
        ensures
            r == (NewBatch {
                strain_id: -1i32,
                harvest_date: None,
                final_test_date: None,
                package_date: None,
                grower_id: -1i32,
                thc_content: Float4 { bits: 0 },
                cbd_content: Float4 { bits: 0 },
            }),
    {
        NewBatch {
            strain_id: -1i32,
            harvest_date: None,
            final_test_date: None,
            package_date: None,
            grower_id: -1i32,
            thc_content: Float4 { bits: 0 },
            cbd_content: Float4 { bits: 0 },
        }
    }

    pub fn builder() -> (r: NewBatchBuilder)
        ensures
            r@ == (NewBatch {
                strain_id: -1i32,
                harvest_date: None,
                final_test_date: None,
                package_date: None,
                grower_id: -1i32,
                thc_content: Float4 { bits: 0 },
                cbd_content: Float4 { bits: 0 },
            }),
    {
        NewBatchBuilder(Self::new())
    }
}

} // verus!
