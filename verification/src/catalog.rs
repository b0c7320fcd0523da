//! The service-area catalog: a read-only, by-identifier view over all known
//! service areas.
//!
//! The catalog is built once, by [`ServiceAreaCatalog::load`], from the raw
//! nested key-value structure that the external reference-dataset reader
//! supplies. Loading validates the whole dataset up front — both sections
//! present the same identifiers, every entry carries the expected finite
//! numeric fields — so that after construction a lookup can only fail on a
//! missing identifier, never on a malformed entry.

use crate::errors::CriteriaError;
use crate::numeric::{Decimal, DesignValue, PeriodRange};
use vstd::prelude::*;
use vstd::string::*;

verus! {

/// Raw empirical wave data of one service area.
#[derive(Clone, Copy, Debug, PartialEq, Eq, Structural)]
pub struct WaveStatistics {
    /// Significant wave height; strictly positive.
    pub h_s: Decimal,
    /// Zero-crossing period; strictly positive.
    pub t_z: Decimal,
    /// Standard deviation of the period; non-negative.
    pub t_sd: Decimal,
    /// Extreme wave height; strictly positive.
    pub h_x: Decimal,
}

impl WaveStatistics {
    /// The sign constraints every catalog entry satisfies.
    pub open spec fn wf(self) -> bool {
        self.h_s@ > 0 && self.t_z@ > 0 && self.t_sd@ >= 0 && self.h_x@ > 0
    }

    /// Design wave height: 1.67 times the significant wave height.
    pub fn h_dw(&self) -> (r: DesignValue)
        ensures
            r@ == self.h_s@ * 1_670_000,
    {
        DesignValue { pico: (self.h_s.micros as i128) * 1_670_000 }
    }

    /// Design period: the zero-crossing period.
    pub fn t_dw(&self) -> (r: DesignValue)
        ensures
            r@ == self.t_z@ * 1_000_000,
    {
        DesignValue { pico: (self.t_z.micros as i128) * 1_000_000 }
    }

    /// Design period standard deviation.
    pub fn t_dsd(&self) -> (r: DesignValue)
        ensures
            r@ == self.t_sd@ * 1_000_000,
    {
        DesignValue { pico: (self.t_sd.micros as i128) * 1_000_000 }
    }

    /// Plausible design period band: two standard deviations around `t_dw`.
    pub fn t_drange(&self) -> (r: PeriodRange)
        ensures
            r.lower@ == self.t_z@ * 1_000_000 - 2 * (self.t_sd@ * 1_000_000),
            r.upper@ == self.t_z@ * 1_000_000 + 2 * (self.t_sd@ * 1_000_000),
    {
        let t_dw = self.t_dw();
        let t_dsd = self.t_dsd();
        PeriodRange {
            lower: DesignValue { pico: t_dw.pico - 2 * t_dsd.pico },
            upper: DesignValue { pico: t_dw.pico + 2 * t_dsd.pico },
        }
    }

    /// Extreme-assessment wave height: the extreme wave height.
    pub fn h_xw(&self) -> (r: DesignValue)
        ensures
            r@ == self.h_x@ * 1_000_000,
    {
        DesignValue { pico: (self.h_x.micros as i128) * 1_000_000 }
    }

    /// Extreme-assessment period: `t_dw` plus one standard deviation.
    pub fn t_xw(&self) -> (r: DesignValue)
        ensures
            r@ == (self.t_z@ + self.t_sd@) * 1_000_000,
    {
        let t_dw = self.t_dw();
        let t_dsd = self.t_dsd();
        DesignValue { pico: t_dw.pico + t_dsd.pico }
    }

    /// Plausible extreme period band: 1.5 standard deviations around `t_xw`.
    pub fn t_xrange(&self) -> (r: PeriodRange)
        ensures
            r.lower@ == (self.t_z@ + self.t_sd@) * 1_000_000 - 1_500_000 * self.t_sd@,
            r.upper@ == (self.t_z@ + self.t_sd@) * 1_000_000 + 1_500_000 * self.t_sd@,
    {
        let t_xw = self.t_xw();
        let sd15: i128 = (self.t_sd.micros as i128) * 1_500_000;
        PeriodRange {
            lower: DesignValue { pico: t_xw.pico - sd15 },
            upper: DesignValue { pico: t_xw.pico + sd15 },
        }
    }
}

/// The two dimensionless coefficients of the service-factor formula.
#[derive(Clone, Copy, Debug, PartialEq, Eq, Structural)]
pub struct ServiceFactors {
    pub f_1: Decimal,
    pub f_2: Decimal,
}

impl ServiceFactors {
    /// Both coefficients are non-negative.
    pub open spec fn wf(self) -> bool {
        self.f_1@ >= 0 && self.f_2@ >= 0
    }
}

/// One service area: its wave statistics paired with its service factors.
#[derive(Clone, Copy, Debug, PartialEq, Eq, Structural)]
pub struct ServiceArea {
    pub wave_data: WaveStatistics,
    pub service_factors: ServiceFactors,
}

impl ServiceArea {
    /// Both sub-records satisfy their sign constraints.
    pub open spec fn wf(self) -> bool {
        self.wave_data.wf() && self.service_factors.wf()
    }
}

/// A scalar of the raw dataset, as the external reader hands it over.
#[derive(Clone, Copy, Debug, PartialEq, Eq, Structural)]
pub enum RawValue {
    /// A finite decimal number.
    Number(Decimal),
    /// A numeric value that is not finite (not a number, or infinite).
    NonFinite,
    /// A value of some other type (string, boolean, nested table, ...).
    WrongType,
}

/// A named scalar of a raw dataset entry.
#[derive(Clone, Debug, PartialEq, Eq)]
pub struct RawField {
    pub name: String,
    pub value: RawValue,
}

/// One entry of a raw dataset section, keyed by a service-area identifier.
#[derive(Clone, Debug, PartialEq, Eq)]
pub struct RawRecord {
    pub id: String,
    pub fields: Vec<RawField>,
}

/// The raw dataset: the wave-statistics section and the service-factors
/// section, each keyed by service-area identifier.
#[derive(Clone, Debug, PartialEq, Eq)]
pub struct RawDataset {
    pub wavedata: Vec<RawRecord>,
    pub factors: Vec<RawRecord>,
}

/// The first field of the given name, if any.
pub open spec fn spec_field(fields: Seq<RawField>, name: Seq<char>) -> Option<RawValue>
    decreases fields.len(),
{
    if fields.len() == 0 {
        None
    } else if fields[0].name@ == name {
        Some(fields[0].value)
    } else {
        spec_field(fields.drop_first(), name)
    }
}

/// The first record of the given identifier, if any.
pub open spec fn spec_record(recs: Seq<RawRecord>, id: Seq<char>) -> Option<RawRecord>
    decreases recs.len(),
{
    if recs.len() == 0 {
        None
    } else if recs[0].id@ == id {
        Some(recs[0])
    } else {
        spec_record(recs.drop_first(), id)
    }
}

/// The finite number a raw scalar holds, if it holds one.
pub open spec fn spec_num(v: Option<RawValue>) -> Option<Decimal> {
    match v {
        Some(RawValue::Number(d)) => Some(d),
        _ => None,
    }
}

/// The wave statistics a raw entry describes: all four fields present as
/// finite numbers with the required signs, or nothing.
pub open spec fn spec_wave_of(rec: RawRecord) -> Option<WaveStatistics> {
    let h_s = spec_num(spec_field(rec.fields@, "h_s"@));
    let t_z = spec_num(spec_field(rec.fields@, "t_z"@));
    let t_sd = spec_num(spec_field(rec.fields@, "t_sd"@));
    let h_x = spec_num(spec_field(rec.fields@, "h_x"@));
    if h_s is Some && t_z is Some && t_sd is Some && h_x is Some {
        let w = WaveStatistics {
            h_s: h_s->Some_0,
            t_z: t_z->Some_0,
            t_sd: t_sd->Some_0,
            h_x: h_x->Some_0,
        };
        if w.wf() {
            Some(w)
        } else {
            None
        }
    } else {
        None
    }
}

/// The service factors a raw entry describes: both coefficients present as
/// finite non-negative numbers, or nothing.
pub open spec fn spec_factors_of(rec: RawRecord) -> Option<ServiceFactors> {
    let f_1 = spec_num(spec_field(rec.fields@, "f_1"@));
    let f_2 = spec_num(spec_field(rec.fields@, "f_2"@));
    if f_1 is Some && f_2 is Some {
        let f = ServiceFactors { f_1: f_1->Some_0, f_2: f_2->Some_0 };
        if f.wf() {
            Some(f)
        } else {
            None
        }
    } else {
        None
    }
}

/// No two records of the section share an identifier.
pub open spec fn spec_ids_unique(recs: Seq<RawRecord>) -> bool {
    forall|i: int, j: int|
        0 <= i < j < recs.len() ==> recs[i].id@ != recs[j].id@
}

/// The whole dataset is well-formed: identifiers unique within each section,
/// the two sections carry the same identifiers, and every entry converts to
/// its typed record.
pub open spec fn spec_dataset_wf(raw: RawDataset) -> bool {
    &&& spec_ids_unique(raw.wavedata@)
    &&& spec_ids_unique(raw.factors@)
    &&& forall|i: int| 0 <= i < raw.wavedata@.len() ==> spec_wave_of(raw.wavedata@[i]) is Some
    &&& forall|i: int| 0 <= i < raw.factors@.len() ==> spec_factors_of(raw.factors@[i]) is Some
    &&& forall|i: int|
        0 <= i < raw.wavedata@.len() ==> spec_record(raw.factors@, raw.wavedata@[i].id@) is Some
    &&& forall|i: int|
        0 <= i < raw.factors@.len() ==> spec_record(raw.wavedata@, raw.factors@[i].id@) is Some
}

/// A resolved catalog entry.
#[derive(Clone, Debug, PartialEq, Eq)]
pub struct CatalogEntry {
    pub id: String,
    pub area: ServiceArea,
}

/// An immutable mapping from service-area identifier to its resolved data.
#[derive(Clone, Debug, PartialEq, Eq)]
pub struct ServiceAreaCatalog {
    pub entries: Vec<CatalogEntry>,
}

impl ServiceAreaCatalog {
    /// Identifiers are unique and every entry satisfies its invariant.
    pub open spec fn wf(self) -> bool {
        &&& forall|i: int, j: int|
            0 <= i < j < self.entries@.len() ==> self.entries@[i].id@ != self.entries@[j].id@
        &&& forall|i: int| 0 <= i < self.entries@.len() ==> self.entries@[i].area.wf()
    }

    /// Whether the catalog holds the identifier.
    pub open spec fn contains_id(self, id: Seq<char>) -> bool {
        exists|i: int| 0 <= i < self.entries@.len() && self.entries@[i].id@ == id
    }

    /// The service area of an identifier the catalog holds.
    pub open spec fn area_at(self, id: Seq<char>) -> ServiceArea {
        self.entries@[choose|i: int|
            0 <= i < self.entries@.len() && self.entries@[i].id@ == id].area
    }
}

proof fn lemma_spec_field_skip(fields: Seq<RawField>, name: Seq<char>, i: int)
    requires
        0 <= i <= fields.len(),
        forall|j: int| 0 <= j < i ==> fields[j].name@ != name,
    ensures
        spec_field(fields, name) == spec_field(fields.skip(i), name),
    decreases i,
{
    if i > 0 {
        lemma_spec_field_skip(fields.drop_first(), name, i - 1);
        assert(fields.drop_first().skip(i - 1) =~= fields.skip(i));
    } else {
        assert(fields.skip(0) =~= fields);
    }
}

proof fn lemma_spec_record_skip(recs: Seq<RawRecord>, id: Seq<char>, i: int)
    requires
        0 <= i <= recs.len(),
        forall|j: int| 0 <= j < i ==> recs[j].id@ != id,
    ensures
        spec_record(recs, id) == spec_record(recs.skip(i), id),
    decreases i,
{
    if i > 0 {
        lemma_spec_record_skip(recs.drop_first(), id, i - 1);
        assert(recs.drop_first().skip(i - 1) =~= recs.skip(i));
    } else {
        assert(recs.skip(0) =~= recs);
    }
}

/// Every record's own identifier is found in its section.
proof fn lemma_spec_record_contains(recs: Seq<RawRecord>, i: int)
    requires
        0 <= i < recs.len(),
    ensures
        spec_record(recs, recs[i].id@) is Some,
    decreases recs.len(),
{
    if recs[0].id@ != recs[i].id@ {
        lemma_spec_record_contains(recs.drop_first(), i - 1);
    }
}

/// A found record is a member of the section; a missing one matches no index.
proof fn lemma_spec_record_membership(recs: Seq<RawRecord>, id: Seq<char>)
    ensures
        spec_record(recs, id) matches Some(r) ==> exists|i: int|
            0 <= i < recs.len() && recs[i].id@ == id && recs[i] == r,
        spec_record(recs, id) is None ==> forall|i: int| 0 <= i < recs.len() ==> recs[i].id@ != id,
    decreases recs.len(),
{
    if recs.len() > 0 {
        lemma_spec_record_membership(recs.drop_first(), id);
        if recs[0].id@ != id && spec_record(recs, id) is Some {
            let r = spec_record(recs, id)->Some_0;
            let i = choose|i: int|
                0 <= i < recs.drop_first().len() && recs.drop_first()[i].id@ == id
                    && recs.drop_first()[i] == r;
            assert(recs[i + 1].id@ == id && recs[i + 1] == r);
        }
        if spec_record(recs, id) is None {
            assert forall|i: int| 0 <= i < recs.len() implies recs[i].id@ != id by {
                if i > 0 {
                    assert(recs.drop_first()[i - 1] == recs[i]);
                }
            }
        }
    }
}

/// With unique identifiers, a matching index pins the found record.
proof fn lemma_spec_record_at(recs: Seq<RawRecord>, id: Seq<char>, i: int)
    requires
        spec_ids_unique(recs),
        0 <= i < recs.len(),
        recs[i].id@ == id,
    ensures
        spec_record(recs, id) == Some(recs[i]),
    decreases recs.len(),
{
    if i > 0 {
        assert(forall|p: int, q: int|
            0 <= p < q < recs.drop_first().len() ==> recs.drop_first()[p].id@
                != recs.drop_first()[q].id@);
        lemma_spec_record_at(recs.drop_first(), id, i - 1);
    }
}

/// The first field of the given name, exactly per `spec_field`.
fn find_field(fields: &Vec<RawField>, name: &String) -> (r: Option<RawValue>)
    ensures
        r == spec_field(fields@, name@),
{
    let n = fields.len();
    for i in 0..n
        invariant
            n == fields@.len(),
            forall|j: int| 0 <= j < i ==> fields@[j].name@ != name@,
    {
        if fields[i].name == *name {
            proof {
                lemma_spec_field_skip(fields@, name@, i as int);
                assert(fields@.skip(i as int)[0] == fields@[i as int]);
            }
            return Some(fields[i].value);
        }
    }
    proof {
        lemma_spec_field_skip(fields@, name@, fields@.len() as int);
    }
    None
}

/// The index of the first record of the given identifier, per `spec_record`.
fn find_record_index(recs: &Vec<RawRecord>, id: &String) -> (r: Option<usize>)
    ensures
        match r {
            Some(i) => i < recs@.len() && recs@[i as int].id@ == id@ && spec_record(recs@, id@)
                == Some(recs@[i as int]),
            None => spec_record(recs@, id@) is None,
        },
{
    let n = recs.len();
    for i in 0..n
        invariant
            n == recs@.len(),
            forall|j: int| 0 <= j < i ==> recs@[j].id@ != id@,
    {
        if recs[i].id == *id {
            proof {
                lemma_spec_record_skip(recs@, id@, i as int);
                assert(recs@.skip(i as int)[0] == recs@[i as int]);
            }
            return Some(i);
        }
    }
    proof {
        lemma_spec_record_skip(recs@, id@, recs@.len() as int);
    }
    None
}

/// The wave statistics of one raw entry, exactly per `spec_wave_of`.
fn extract_wave(rec: &RawRecord) -> (r: Option<WaveStatistics>)
    ensures
        r == spec_wave_of(*rec),
{
    let h_s = match find_field(&rec.fields, &String::from_str("h_s")) {
        Some(RawValue::Number(d)) => d,
        _ => { return None },
    };
    let t_z = match find_field(&rec.fields, &String::from_str("t_z")) {
        Some(RawValue::Number(d)) => d,
        _ => { return None },
    };
    let t_sd = match find_field(&rec.fields, &String::from_str("t_sd")) {
        Some(RawValue::Number(d)) => d,
        _ => { return None },
    };
    let h_x = match find_field(&rec.fields, &String::from_str("h_x")) {
        Some(RawValue::Number(d)) => d,
        _ => { return None },
    };
    if h_s.micros > 0 && t_z.micros > 0 && t_sd.micros >= 0 && h_x.micros > 0 {
        Some(WaveStatistics { h_s, t_z, t_sd, h_x })
    } else {
        None
    }
}

/// The service factors of one raw entry, exactly per `spec_factors_of`.
fn extract_factors(rec: &RawRecord) -> (r: Option<ServiceFactors>)
    ensures
        r == spec_factors_of(*rec),
{
    let f_1 = match find_field(&rec.fields, &String::from_str("f_1")) {
        Some(RawValue::Number(d)) => d,
        _ => { return None },
    };
    let f_2 = match find_field(&rec.fields, &String::from_str("f_2")) {
        Some(RawValue::Number(d)) => d,
        _ => { return None },
    };
    if f_1.micros >= 0 && f_2.micros >= 0 {
        Some(ServiceFactors { f_1, f_2 })
    } else {
        None
    }
}

/// Whether the key names a record of either dataset section: the shape of
/// every offending key a failed load reports.
pub open spec fn spec_key_in_dataset(raw: RawDataset, key: Seq<char>) -> bool {
    spec_record(raw.wavedata@, key) is Some || spec_record(raw.factors@, key) is Some
}

/// What a successful load promises: one catalog entry per wave-statistics
/// entry, in order, each paired with the factors entry of the same
/// identifier.
pub open spec fn spec_load_ok(raw: RawDataset, cat: ServiceAreaCatalog) -> bool {
    &&& cat.entries@.len() == raw.wavedata@.len()
    &&& forall|i: int| #![trigger raw.wavedata@[i]]
        0 <= i < raw.wavedata@.len() ==> {
            let rec = raw.wavedata@[i];
            &&& cat.entries@[i].id@ == rec.id@
            &&& spec_wave_of(rec) == Some(cat.entries@[i].area.wave_data)
            &&& spec_record(raw.factors@, rec.id@) matches Some(frec) && spec_factors_of(frec)
                == Some(cat.entries@[i].area.service_factors)
        }
}

/// The key of some duplicated identifier, if the section has one.
fn check_ids_unique(recs: &Vec<RawRecord>) -> (r: Option<String>)
    ensures
        match r {
            Some(k) => !spec_ids_unique(recs@) && spec_record(recs@, k@) is Some,
            None => spec_ids_unique(recs@),
        },
{
    let n = recs.len();
    for i in 0..n
        invariant
            n == recs@.len(),
            forall|p: int, q: int| 0 <= p < q < i ==> recs@[p].id@ != recs@[q].id@,
    {
        for j in 0..i
            invariant
                n == recs@.len(),
                i < n,
                forall|p: int, q: int| 0 <= p < q < i ==> recs@[p].id@ != recs@[q].id@,
                forall|q: int| 0 <= q < j ==> recs@[q].id@ != recs@[i as int].id@,
        {
            if recs[j].id == recs[i].id {
                proof {
                    assert(recs@[j as int].id@ == recs@[i as int].id@);
                    lemma_spec_record_contains(recs@, i as int);
                }
                return Some(recs[i].id.clone());
            }
        }
    }
    None
}

impl ServiceAreaCatalog {
    /// Builds the catalog from the raw dataset the external reader supplies.
    ///
    /// The whole dataset is validated here: identifiers must be unique, the
    /// two sections must carry the same identifiers, and every entry must
    /// convert to finite numeric fields with the documented signs. Succeeds
    /// exactly on well-formed datasets; any defect is a schema error
    /// carrying the offending key.
    pub fn load(raw: &RawDataset) -> (r: Result<ServiceAreaCatalog, CriteriaError>)
        ensures
            match r {
                Ok(cat) => spec_dataset_wf(*raw) && cat.wf() && spec_load_ok(*raw, cat),
                Err(e) => !spec_dataset_wf(*raw) && (e matches CriteriaError::SchemaError {
                    key,
                } && spec_key_in_dataset(*raw, key@)),
            },
    {
        if let Some(k) = check_ids_unique(&raw.wavedata) {
            return Err(CriteriaError::SchemaError { key: k });
        }
        if let Some(k) = check_ids_unique(&raw.factors) {
            return Err(CriteriaError::SchemaError { key: k });
        }
        let mut entries: Vec<CatalogEntry> = Vec::new();
        let n = raw.wavedata.len();
        for i in 0..n
            invariant
                n == raw.wavedata@.len(),
                spec_ids_unique(raw.wavedata@),
                spec_ids_unique(raw.factors@),
                entries@.len() == i,
                forall|p: int| 0 <= p < i ==> entries@[p].id@ == raw.wavedata@[p].id@,
                forall|p: int|
                    0 <= p < i ==> spec_wave_of(raw.wavedata@[p]) == Some(
                        entries@[p].area.wave_data,
                    ),
                forall|p: int| #![trigger raw.wavedata@[p]]
                    0 <= p < i ==> (spec_record(raw.factors@, raw.wavedata@[p].id@) matches Some(
                        frec,
                    ) && spec_factors_of(frec) == Some(entries@[p].area.service_factors)),
                forall|p: int| 0 <= p < i ==> entries@[p].area.wf(),
        {
            let rec = &raw.wavedata[i];
            proof {
                lemma_spec_record_contains(raw.wavedata@, i as int);
            }
            let wave = match extract_wave(rec) {
                Some(w) => w,
                None => { return Err(CriteriaError::SchemaError { key: rec.id.clone() }) },
            };
            let fidx = match find_record_index(&raw.factors, &rec.id) {
                Some(j) => j,
                None => { return Err(CriteriaError::SchemaError { key: rec.id.clone() }) },
            };
            let facs = match extract_factors(&raw.factors[fidx]) {
                Some(f) => f,
                None => { return Err(CriteriaError::SchemaError { key: rec.id.clone() }) },
            };
            entries.push(
                CatalogEntry {
                    id: rec.id.clone(),
                    area: ServiceArea { wave_data: wave, service_factors: facs },
                },
            );
        }
        let m = raw.factors.len();
        for j in 0..m
            invariant
                m == raw.factors@.len(),
                n == raw.wavedata@.len(),
                spec_ids_unique(raw.wavedata@),
                spec_ids_unique(raw.factors@),
                entries@.len() == n,
                forall|p: int| 0 <= p < n ==> entries@[p].id@ == raw.wavedata@[p].id@,
                forall|p: int|
                    0 <= p < n ==> spec_wave_of(raw.wavedata@[p]) == Some(
                        entries@[p].area.wave_data,
                    ),
                forall|p: int| #![trigger raw.wavedata@[p]]
                    0 <= p < n ==> (spec_record(raw.factors@, raw.wavedata@[p].id@) matches Some(
                        frec,
                    ) && spec_factors_of(frec) == Some(entries@[p].area.service_factors)),
                forall|p: int| 0 <= p < n ==> entries@[p].area.wf(),
                forall|q: int|
                    0 <= q < j ==> spec_record(raw.wavedata@, raw.factors@[q].id@) is Some,
        {
            if find_record_index(&raw.wavedata, &raw.factors[j].id).is_none() {
                proof {
                    lemma_spec_record_contains(raw.factors@, j as int);
                }
                return Err(CriteriaError::SchemaError { key: raw.factors[j].id.clone() });
            }
        }
        let cat = ServiceAreaCatalog { entries };
        proof {
            assert forall|q: int|
                0 <= q < raw.factors@.len() implies spec_factors_of(raw.factors@[q]) is Some by {
                lemma_spec_record_membership(raw.wavedata@, raw.factors@[q].id@);
                let i = choose|i: int|
                    0 <= i < raw.wavedata@.len() && raw.wavedata@[i].id@ == raw.factors@[q].id@
                        && raw.wavedata@[i] == spec_record(
                        raw.wavedata@,
                        raw.factors@[q].id@,
                    )->Some_0;
                lemma_spec_record_at(raw.factors@, raw.factors@[q].id@, q);
            }
        }
        Ok(cat)
    }

    /// Exact-match lookup of a service area by its identifier.
    ///
    /// A pure lookup: succeeds exactly on the identifiers the catalog holds,
    /// with no defaulting and no fuzzy matching, and otherwise names the
    /// unknown identifier in the error.
    pub fn get(&self, id: &String) -> (r: Result<ServiceArea, CriteriaError>)
        requires
            self.wf(),
        ensures
            match r {
                Ok(a) => self.contains_id(id@) && a == self.area_at(id@) && a.wf(),
                Err(e) => !self.contains_id(id@) && (e
                    matches CriteriaError::UnknownServiceAreaError { id: missing } && missing@
                    == id@),
            },
    {
        let n = self.entries.len();
        for i in 0..n
            invariant
                self.wf(),
                n == self.entries@.len(),
                forall|j: int| 0 <= j < i ==> self.entries@[j].id@ != id@,
        {
            if self.entries[i].id == *id {
                proof {
                    assert(self.contains_id(id@));
                    let k = choose|k: int|
                        0 <= k < self.entries@.len() && self.entries@[k].id@ == id@;
                    assert(k == i as int);
                }
                return Ok(self.entries[i].area);
            }
        }
        Err(CriteriaError::UnknownServiceAreaError { id: id.clone() })
    }
}

/// Lookup round-trip: after a successful load, every identifier of the
/// source dataset is in the catalog, and resolves to exactly the values the
/// source holds for it.
pub proof fn lemma_load_get_round_trip(raw: RawDataset, cat: ServiceAreaCatalog)
    requires
        spec_dataset_wf(raw),
        cat.wf(),
        spec_load_ok(raw, cat),
    ensures
        forall|i: int| #![trigger raw.wavedata@[i]]
            0 <= i < raw.wavedata@.len() ==> {
                let rec = raw.wavedata@[i];
                &&& cat.contains_id(rec.id@)
                &&& spec_wave_of(rec) == Some(cat.area_at(rec.id@).wave_data)
                &&& spec_record(raw.factors@, rec.id@) matches Some(frec) && spec_factors_of(frec)
                    == Some(cat.area_at(rec.id@).service_factors)
            },
{
    assert forall|i: int| #![trigger raw.wavedata@[i]] 0 <= i < raw.wavedata@.len() implies {
        let rec = raw.wavedata@[i];
        &&& cat.contains_id(rec.id@)
        &&& spec_wave_of(rec) == Some(cat.area_at(rec.id@).wave_data)
        &&& spec_record(raw.factors@, rec.id@) matches Some(frec) && spec_factors_of(frec) == Some(
            cat.area_at(rec.id@).service_factors,
        )
    } by {
        let rec = raw.wavedata@[i];
        assert(cat.entries@[i].id@ == rec.id@);
        assert(cat.contains_id(rec.id@));
        let k = choose|k: int| 0 <= k < cat.entries@.len() && cat.entries@[k].id@ == rec.id@;
        assert(k == i);
    }
}

} // verus!
