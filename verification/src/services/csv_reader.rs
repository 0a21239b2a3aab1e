//! The nutrient catalog: one record per food, in the order of its rows.

use vstd::prelude::*;
use crate::error::Error;
use crate::number::{parse_decimal, parse_unsigned, thousandths_of, unsigned_of, within};
use crate::text::{
    count_text, find_text, first_index, lemma_occurs_has_first_index, occurrences, texts,
};

verus! {

/// One of the four nutrients that a catalog lists and a meal is bounded by.
#[derive(Debug, Clone, Copy, PartialEq, Eq, Structural)]
pub enum Nutrient {
    Calories,
    Protein,
    Carbs,
    Sodium,
}

/// One food of the catalog. Its place among the records is its identity.
#[derive(Debug)]
pub struct Record {
    /// Name of the food.
    pub item: String,
    /// Allergen tags, separated by commas.
    pub allergens: String,
    /// Grams in one serving.
    pub serving_size: u32,
    /// Thousandths of a kilocalorie in one serving.
    pub calories: u64,
    /// Thousandths of a gram of protein in one serving.
    pub protein: u64,
    /// Thousandths of a gram of carbohydrates in one serving.
    pub carbs: u64,
    /// Thousandths of a milligram of sodium in one serving.
    pub sodium: u64,
}

/// What a record says, as mathematics.
pub ghost struct RecordView {
    pub item: Seq<char>,
    pub allergens: Seq<char>,
    pub serving_size: u32,
    pub calories: u64,
    pub protein: u64,
    pub carbs: u64,
    pub sodium: u64,
}

impl RecordView {
    /// Thousandths of nutrient `n` in one serving.
    pub open spec fn amount(self, n: Nutrient) -> u64 {
        match n {
            Nutrient::Calories => self.calories,
            Nutrient::Protein => self.protein,
            Nutrient::Carbs => self.carbs,
            Nutrient::Sodium => self.sodium,
        }
    }
}

impl View for Record {
    type V = RecordView;

    open spec fn view(&self) -> RecordView {
        RecordView {
            item: self.item@,
            allergens: self.allergens@,
            serving_size: self.serving_size,
            calories: self.calories,
            protein: self.protein,
            carbs: self.carbs,
            sodium: self.sodium,
        }
    }
}

impl Record {
    /// Thousandths of nutrient `n` in one serving.
    pub fn amount(&self, n: Nutrient) -> (r: u64)
        ensures
            r == self@.amount(n),
    {
        match n {
            Nutrient::Calories => self.calories,
            Nutrient::Protein => self.protein,
            Nutrient::Carbs => self.carbs,
            Nutrient::Sodium => self.sodium,
        }
    }
}

/// The catalog, loaded once and read-only from then on.
#[derive(Debug)]
pub struct CsvReader {
    pub records: Vec<Record>,
}

/// The amounts of nutrient `n` down the catalog, one for each record.
pub open spec fn column(records: Seq<RecordView>, n: Nutrient) -> Seq<u64> {
    Seq::new(records.len(), |i: int| records[i].amount(n))
}

/// The serving sizes down the catalog, one for each record.
pub open spec fn serving_sizes(records: Seq<RecordView>) -> Seq<u64> {
    Seq::new(records.len(), |i: int| records[i].serving_size as u64)
}

impl View for CsvReader {
    type V = Seq<RecordView>;

    open spec fn view(&self) -> Seq<RecordView> {
        Seq::new(self.records@.len(), |i: int| self.records@[i]@)
    }
}

impl CsvReader {
    /// The amounts of nutrient `n`, record by record.
    pub fn get_amounts(&self, n: Nutrient) -> (r: Vec<u64>)
        ensures
            r@ == column(self@, n),
    {
        let mut out: Vec<u64> = Vec::new();
        let mut i: usize = 0;
        while i < self.records.len()
            invariant
                i <= self.records@.len(),
                out@ == column(self@, n).take(i as int),
            decreases self.records@.len() - i,
        {
            out.push(self.records[i].amount(n));
            i += 1;
        }
        out
    }

    /// The serving sizes, record by record.
    pub fn get_serving_sizes(&self) -> (r: Vec<u64>)
        ensures
            r@ == serving_sizes(self@),
    {
        let mut out: Vec<u64> = Vec::new();
        let mut i: usize = 0;
        while i < self.records.len()
            invariant
                i <= self.records@.len(),
                out@ == serving_sizes(self@).take(i as int),
            decreases self.records@.len() - i,
        {
            out.push(self.records[i].serving_size as u64);
            i += 1;
        }
        out
    }

    /// The calories of each record.
    pub fn get_calories(&self) -> (r: Vec<u64>)
        ensures
            r@ == column(self@, Nutrient::Calories),
    {
        self.get_amounts(Nutrient::Calories)
    }

    /// The protein of each record.
    pub fn get_protein(&self) -> (r: Vec<u64>)
        ensures
            r@ == column(self@, Nutrient::Protein),
    {
        self.get_amounts(Nutrient::Protein)
    }

    /// The carbohydrates of each record.
    pub fn get_carbs(&self) -> (r: Vec<u64>)
        ensures
            r@ == column(self@, Nutrient::Carbs),
    {
        self.get_amounts(Nutrient::Carbs)
    }

    /// The sodium of each record.
    pub fn get_sodium(&self) -> (r: Vec<u64>)
        ensures
            r@ == column(self@, Nutrient::Sodium),
    {
        self.get_amounts(Nutrient::Sodium)
    }

    /// The record at `index`, where the catalog has one.
    pub fn get_record(&self, index: usize) -> (r: Option<&Record>)
        ensures
            index < self@.len() ==> r == Some(&self.records@[index as int]),
            index >= self@.len() ==> r.is_none(),
    {
        if index < self.records.len() {
            Some(&self.records[index])
        } else {
            None
        }
    }
}

/// The most grams that a serving can have.
pub const SERVING_MAX: u64 = 0xffff_ffff;

/// The most thousandths that an amount can have.
pub const AMOUNT_MAX: u64 = 0xffff_ffff_ffff_ffff;

/// The texts of a list of rows.
pub open spec fn tables(rows: Seq<Vec<String>>) -> Seq<Seq<Seq<char>>> {
    Seq::new(rows.len(), |i: int| texts(rows[i]@))
}

/// The field of `row` in the column that `header` names `name`. A row has a field for
/// each column of the header, no more and no fewer.
pub open spec fn field(header: Seq<Seq<char>>, row: Seq<Seq<char>>, name: Seq<char>) -> Option<
    Seq<char>,
> {
    let p = first_index(header, name);
    if 0 <= p < header.len() && row.len() == header.len() {
        Some(row[p])
    } else {
        None
    }
}

/// The whole number in the column `name`: an optional plus sign and digits.
pub open spec fn whole_field(header: Seq<Seq<char>>, row: Seq<Seq<char>>, name: Seq<char>)
    -> Option<u64> {
    match field(header, row, name) {
        Some(t) => within(unsigned_of(t), SERVING_MAX),
        None => None,
    }
}

/// The amount in the column `name`, in thousandths: a decimal number that is not
/// negative, with or without an exponent.
pub open spec fn amount_field(header: Seq<Seq<char>>, row: Seq<Seq<char>>, name: Seq<char>)
    -> Option<u64> {
    match field(header, row, name) {
        Some(t) => within(thousandths_of(t), AMOUNT_MAX),
        None => None,
    }
}

/// The record that `row` writes under `header`, where it writes one: the columns
/// `item`, `allergens`, `serving_size`, `calories`, `protein`, `carbs` and `sodium`,
/// found by name.
pub open spec fn record_of(header: Seq<Seq<char>>, row: Seq<Seq<char>>) -> Option<RecordView> {
    let item = field(header, row, "item"@);
    let allergens = field(header, row, "allergens"@);
    let serving_size = whole_field(header, row, "serving_size"@);
    let calories = amount_field(header, row, "calories"@);
    let protein = amount_field(header, row, "protein"@);
    let carbs = amount_field(header, row, "carbs"@);
    let sodium = amount_field(header, row, "sodium"@);
    if item is Some && allergens is Some && serving_size is Some && calories is Some
        && protein is Some && carbs is Some && sodium is Some {
        Some(
            RecordView {
                item: item->0,
                allergens: allergens->0,
                serving_size: serving_size->0 as u32,
                calories: calories->0,
                protein: protein->0,
                carbs: carbs->0,
                sodium: sodium->0,
            },
        )
    } else {
        None
    }
}

/// Whether the header names each of the seven columns, and none of them twice.
pub open spec fn names_all(header: Seq<Seq<char>>) -> bool {
    &&& occurrences(header, "item"@) == 1
    &&& occurrences(header, "allergens"@) == 1
    &&& occurrences(header, "serving_size"@) == 1
    &&& occurrences(header, "calories"@) == 1
    &&& occurrences(header, "protein"@) == 1
    &&& occurrences(header, "carbs"@) == 1
    &&& occurrences(header, "sodium"@) == 1
}

/// Checks that a header row names each of the seven columns once.
fn names_each_once(header: &Vec<String>) -> (r: bool)
    ensures
        r == names_all(texts(header@)),
{
    count_text(header, "item") == 1 && count_text(header, "allergens") == 1 && count_text(
        header,
        "serving_size",
    ) == 1 && count_text(header, "calories") == 1 && count_text(header, "protein") == 1
        && count_text(header, "carbs") == 1 && count_text(header, "sodium") == 1
}

/// Whether the `i`-th row writes a record.
pub open spec fn row_reads(header: Seq<Seq<char>>, rows: Seq<Seq<Seq<char>>>, i: int) -> bool {
    record_of(header, rows[i]) is Some
}

/// The catalog that the rows write under `header`: one record for each row, in order.
/// There is none where the header misses a column or names one twice, or any row
/// writes no record.
pub open spec fn catalog_of(header: Seq<Seq<char>>, rows: Seq<Seq<Seq<char>>>) -> Option<
    Seq<RecordView>,
> {
    if names_all(header) && forall|i: int| 0 <= i < rows.len() ==> #[trigger] row_reads(
        header,
        rows,
        i,
    ) {
        Some(Seq::new(rows.len(), |i: int| record_of(header, rows[i])->0))
    } else {
        None
    }
}

/// Where each column of a record stands in a row.
struct Columns {
    width: usize,
    item: usize,
    allergens: usize,
    serving_size: usize,
    calories: usize,
    protein: usize,
    carbs: usize,
    sodium: usize,
}

impl Columns {
    /// Whether these are the places of the columns in `header`.
    spec fn of(&self, header: Seq<Seq<char>>) -> bool {
        &&& self.width == header.len()
        &&& self.item == first_index(header, "item"@)
        &&& self.allergens == first_index(header, "allergens"@)
        &&& self.serving_size == first_index(header, "serving_size"@)
        &&& self.calories == first_index(header, "calories"@)
        &&& self.protein == first_index(header, "protein"@)
        &&& self.carbs == first_index(header, "carbs"@)
        &&& self.sodium == first_index(header, "sodium"@)
    }

    /// Finds the columns in a header row.
    fn find(header: &Vec<String>) -> (r: Columns)
        ensures
            r.of(texts(header@)),
    {
        Columns {
            width: header.len(),
            item: find_text(header, "item"),
            allergens: find_text(header, "allergens"),
            serving_size: find_text(header, "serving_size"),
            calories: find_text(header, "calories"),
            protein: find_text(header, "protein"),
            carbs: find_text(header, "carbs"),
            sodium: find_text(header, "sodium"),
        }
    }

    /// Reads the record that `row` writes.
    fn read(&self, row: &Vec<String>, Ghost(header): Ghost<Seq<Seq<char>>>) -> (r: Option<Record>)
        requires
            self.of(header),
            names_all(header),
        ensures
            match record_of(header, texts(row@)) {
                Some(record) => r is Some && r->0@ == record,
                None => r is None,
            },
    {
        if row.len() != self.width {
            return None;
        }
        proof {
            lemma_occurs_has_first_index(header, "item"@);
            lemma_occurs_has_first_index(header, "allergens"@);
            lemma_occurs_has_first_index(header, "serving_size"@);
            lemma_occurs_has_first_index(header, "calories"@);
            lemma_occurs_has_first_index(header, "protein"@);
            lemma_occurs_has_first_index(header, "carbs"@);
            lemma_occurs_has_first_index(header, "sodium"@);
        }
        let serving_size: u64 = match parse_unsigned(row[self.serving_size].as_str(), SERVING_MAX) {
            Some(v) => v,
            None => {
                return None;
            },
        };
        let calories: u64 = match parse_decimal(row[self.calories].as_str(), AMOUNT_MAX) {
            Some(v) => v,
            None => {
                return None;
            },
        };
        let protein: u64 = match parse_decimal(row[self.protein].as_str(), AMOUNT_MAX) {
            Some(v) => v,
            None => {
                return None;
            },
        };
        let carbs: u64 = match parse_decimal(row[self.carbs].as_str(), AMOUNT_MAX) {
            Some(v) => v,
            None => {
                return None;
            },
        };
        let sodium: u64 = match parse_decimal(row[self.sodium].as_str(), AMOUNT_MAX) {
            Some(v) => v,
            None => {
                return None;
            },
        };
        Some(
            Record {
                item: row[self.item].clone(),
                allergens: row[self.allergens].clone(),
                serving_size: serving_size as u32,
                calories,
                protein,
                carbs,
                sodium,
            },
        )
    }
}

impl CsvReader {
    /// Reads a catalog from its header row and its rows of fields.
    ///
    /// Either every row becomes a record, in order, or the catalog is refused as a
    /// whole: no row is dropped.
    pub fn new(header: &Vec<String>, rows: &Vec<Vec<String>>) -> (r: Result<CsvReader, Error>)
        ensures
            match catalog_of(texts(header@), tables(rows@)) {
                Some(records) => r is Ok && r->Ok_0@ == records,
                None => r is Err && r->Err_0 == Error::FileParseError,
            },
    {
        let ghost head = texts(header@);
        let ghost lines = tables(rows@);
        if !names_each_once(header) {
            return Err(Error::FileParseError);
        }
        let columns = Columns::find(header);
        let mut records: Vec<Record> = Vec::new();
        let mut i: usize = 0;
        while i < rows.len()
            invariant
                i <= rows@.len(),
                head == texts(header@),
                lines == tables(rows@),
                columns.of(head),
                names_all(head),
                records@.len() == i,
                forall|j: int| 0 <= j < i ==> row_reads(head, lines, j),
                forall|j: int| 0 <= j < i ==> (#[trigger] records@[j])@ == record_of(head, lines[j])->0,
            decreases rows@.len() - i,
        {
            match columns.read(&rows[i], Ghost(head)) {
                Some(record) => {
                    records.push(record);
                },
                None => {
                    assert(!row_reads(head, lines, i as int));
                    return Err(Error::FileParseError);
                },
            }
            i += 1;
        }
        let reader = CsvReader { records };
        Ok(reader)
    }
}

/// How reading the catalog's source went.
#[derive(Debug)]
pub enum CatalogSource {
    /// The source could not be opened or read.
    Unavailable,
    /// The source was read, and is no table of rows of text.
    Garbled,
    /// The source is a table: its header row, and its rows in order.
    Table { header: Vec<String>, rows: Vec<Vec<String>> },
}

/// What a source comes to: a catalog, or the reason for none.
pub open spec fn loaded(source: CatalogSource) -> Result<Seq<RecordView>, Error> {
    match source {
        CatalogSource::Unavailable => Err(Error::InvalidFile),
        CatalogSource::Garbled => Err(Error::FileParseError),
        CatalogSource::Table { header, rows } => match catalog_of(texts(header@), tables(rows@)) {
            Some(records) => Ok(records),
            None => Err(Error::FileParseError),
        },
    }
}

impl CsvReader {
    /// Loads the catalog from what was read of its source.
    pub fn load(source: &CatalogSource) -> (r: Result<CsvReader, Error>)
        ensures
            match loaded(*source) {
                Ok(records) => r is Ok && r->Ok_0@ == records,
                Err(e) => r is Err && r->Err_0 == e,
            },
    {
        match source {
            CatalogSource::Unavailable => Err(Error::InvalidFile),
            CatalogSource::Garbled => Err(Error::FileParseError),
            CatalogSource::Table { header, rows } => CsvReader::new(header, rows),
        }
    }
}

} // verus!
