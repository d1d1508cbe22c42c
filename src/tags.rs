//! The label catalog: each label's name and category, in the model's output order.

use vstd::prelude::*;

use crate::text::{field_i32_value, has_prefix, parse_field_i32, starts_with, str_eq};

verus! {

/// Category of a label in the catalog.
#[derive(Debug, Clone, Copy, PartialEq, Eq, Structural)]
pub enum TagCategory {
    General,
    Artist,
    Copyright,
    Character,
    Meta,
    Rating,
}

/// The category that a catalog's numeric code names.
pub open spec fn category_of_code(code: Seq<char>) -> Option<TagCategory> {
    if code == "0"@ {
        Some(TagCategory::General)
    } else if code == "1"@ {
        Some(TagCategory::Artist)
    } else if code == "3"@ {
        Some(TagCategory::Copyright)
    } else if code == "4"@ {
        Some(TagCategory::Character)
    } else if code == "5"@ {
        Some(TagCategory::Meta)
    } else if code == "9"@ {
        Some(TagCategory::Rating)
    } else {
        None
    }
}

impl TagCategory {
    /// The category that a numeric code names: 0 general, 1 artist, 3 copyright,
    /// 4 character, 5 meta, 9 rating.
    pub fn from_code(code: &str) -> (r: Option<TagCategory>)
        ensures
            r == category_of_code(code@),
    {
        if str_eq(code, "0") {
            Some(TagCategory::General)
        } else if str_eq(code, "1") {
            Some(TagCategory::Artist)
        } else if str_eq(code, "3") {
            Some(TagCategory::Copyright)
        } else if str_eq(code, "4") {
            Some(TagCategory::Character)
        } else if str_eq(code, "5") {
            Some(TagCategory::Meta)
        } else if str_eq(code, "9") {
            Some(TagCategory::Rating)
        } else {
            None
        }
    }
}

/// One record of the label catalog.
#[derive(Debug, Clone)]
pub struct Tag {
    tag_id: i32,
    name: String,
    category: TagCategory,
    count: i32,
}

impl Tag {
    pub closed spec fn spec_tag_id(&self) -> i32 {
        self.tag_id
    }

    pub closed spec fn spec_name(&self) -> Seq<char> {
        self.name@
    }

    pub closed spec fn spec_category(&self) -> TagCategory {
        self.category
    }

    pub closed spec fn spec_count(&self) -> i32 {
        self.count
    }

    /// A record with the given fields.
    pub fn new(tag_id: i32, name: String, category: TagCategory, count: i32) -> (r: Tag)
        ensures
            r.spec_tag_id() == tag_id,
            r.spec_name() == name@,
            r.spec_category() == category,
            r.spec_count() == count,
    {
        Tag { tag_id, name, category, count }
    }

    pub fn category(&self) -> (r: TagCategory)
        ensures
            r == self.spec_category(),
    {
        self.category
    }

    pub fn name(&self) -> (r: String)
        ensures
            r@ == self.spec_name(),
    {
        self.name.clone()
    }

    pub fn tag_id(&self) -> (r: i32)
        ensures
            r == self.spec_tag_id(),
    {
        self.tag_id
    }

    pub fn count(&self) -> (r: i32)
        ensures
            r == self.spec_count(),
    {
        self.count
    }
}

/// The label catalog, in the order of the model's output, and the feature width of
/// the embedding matrix that projects raw output onto the labels, when there is one.
#[derive(Debug, Clone)]
pub struct LabelTags {
    tags: Vec<Tag>,
    embedding_dim: Option<usize>,
}

impl LabelTags {
    pub closed spec fn spec_tags(&self) -> Seq<Tag> {
        self.tags@
    }

    pub closed spec fn spec_embedding_dim(&self) -> Option<usize> {
        self.embedding_dim
    }

    /// A catalog of the given labels; `embedding_dim` is the column count of the
    /// embedding matrix, if raw output is to be projected through one.
    pub fn new(tags: Vec<Tag>, embedding_dim: Option<usize>) -> (r: LabelTags)
        ensures
            r.spec_tags() == tags@,
            r.spec_embedding_dim() == embedding_dim,
    {
        LabelTags { tags, embedding_dim }
    }

    /// The labels, by index.
    pub fn idx2tag(&self) -> (r: &Vec<Tag>)
        ensures
            r@ == self.spec_tags(),
    {
        &self.tags
    }

    /// Number of labels.
    pub fn len(&self) -> (r: usize)
        ensures
            r == self.spec_tags().len(),
    {
        self.tags.len()
    }

    /// Column count of the embedding matrix, if the catalog has one.
    pub fn embedding_dim(&self) -> (r: Option<usize>)
        ensures
            r == self.spec_embedding_dim(),
    {
        self.embedding_dim
    }
}

/// Why a label table could not be read.
#[derive(Debug, Clone, Copy, PartialEq, Eq, Structural)]
pub enum TagTableError {
    /// A record has another number of fields than the header. Bytes read by
    /// `read_table` never give one: the reader refuses them as `Unreadable`.
    RaggedRecord { row: usize },
    /// The header lacks one of `tag_id`, `name`, `category`, `count`.
    MissingColumn,
    /// A record's id, category or count does not parse.
    BadRecord { row: usize },
    /// The bytes are not a well-formed CSV table.
    Unreadable,
}

#[verifier::external_type_specification]
#[verifier::external_body]
pub struct ExCsvError(csv::Error);

/// The header and the records of a CSV table, or `None` where the bytes are not one.
pub uninterp spec fn csv_table(bytes: Seq<u8>) -> Option<(Seq<Seq<char>>, Seq<Seq<Seq<char>>>)>;

pub open spec fn field_views(fields: Seq<String>) -> Seq<Seq<char>> {
    fields.map_values(|s: String| s@)
}

pub open spec fn record_views(records: Seq<Vec<String>>) -> Seq<Seq<Seq<char>>> {
    records.map_values(|r: Vec<String>| field_views(r@))
}

/// Relies on `csv::Reader` (reading from a byte slice, first row as header): the
/// header and the records, or an error; which of the two, and what they hold, is a
/// function of the bytes alone.
#[verifier::external_body]
fn parse_csv(bytes: &Vec<u8>) -> (r: Result<(Vec<String>, Vec<Vec<String>>), csv::Error>)
    ensures
        r is Ok <==> csv_table(bytes@) is Some,
        r matches Ok((headers, records)) ==> csv_table(bytes@) == Some(
            (field_views(headers@), record_views(records@)),
        ),
{
    let mut reader = csv::Reader::from_reader(bytes.as_slice());
    let headers = reader.headers()?.iter().map(String::from).collect();
    let records = reader
        .records()
        .map(|r| r.map(|rec| rec.iter().map(String::from).collect()))
        .collect::<Result<Vec<Vec<String>>, csv::Error>>()?;
    Ok((headers, records))
}

/// Splits CSV bytes into the header and the records of a label table.
pub fn read_table(bytes: &Vec<u8>) -> (r: Result<(Vec<String>, Vec<Vec<String>>), TagTableError>)
    ensures
        r is Ok <==> csv_table(bytes@) is Some,
        r matches Ok((headers, records)) ==> csv_table(bytes@) == Some(
            (field_views(headers@), record_views(records@)),
        ),
        r is Err ==> r == Err::<(Vec<String>, Vec<Vec<String>>), TagTableError>(
            TagTableError::Unreadable,
        ),
{
    match parse_csv(bytes) {
        Ok(table) => Ok(table),
        Err(_) => Err(TagTableError::Unreadable),
    }
}

/// Index of the first header equal to `name`, or -1.
pub open spec fn first_match(headers: Seq<String>, name: Seq<char>) -> int
    decreases headers.len(),
{
    if headers.len() == 0 {
        -1
    } else {
        let r = first_match(headers.drop_last(), name);
        if r >= 0 {
            r
        } else if headers.last()@ == name {
            headers.len() - 1
        } else {
            -1
        }
    }
}

/// Index of the first record whose width is not `width`, or -1.
pub open spec fn first_ragged(records: Seq<Vec<String>>, width: nat) -> int
    decreases records.len(),
{
    if records.len() == 0 {
        -1
    } else {
        let r = first_ragged(records.drop_last(), width);
        if r >= 0 {
            r
        } else if records.last()@.len() != width {
            records.len() - 1
        } else {
            -1
        }
    }
}

/// The fields of a record, read through the columns of id, name, category and count.
pub open spec fn record_tag(rec: Seq<String>, cols: (int, int, int, int)) -> Option<
    (i32, Seq<char>, TagCategory, i32),
> {
    match (
        field_i32_value(rec[cols.0]@),
        category_of_code(rec[cols.2]@),
        field_i32_value(rec[cols.3]@),
    ) {
        (Some(id), Some(category), Some(count)) => Some((id, rec[cols.1]@, category, count)),
        _ => None,
    }
}

/// Index of the first record that does not read as a tag, or -1.
pub open spec fn first_bad(records: Seq<Vec<String>>, cols: (int, int, int, int)) -> int
    decreases records.len(),
{
    if records.len() == 0 {
        -1
    } else {
        let r = first_bad(records.drop_last(), cols);
        if r >= 0 {
            r
        } else if record_tag(records.last()@, cols) is None {
            records.len() - 1
        } else {
            -1
        }
    }
}

/// Number of headers that name an embedding column.
pub open spec fn embedding_columns(headers: Seq<String>) -> nat
    decreases headers.len(),
{
    if headers.len() == 0 {
        0
    } else {
        embedding_columns(headers.drop_last()) + if has_prefix(
            headers.last()@,
            "embedding__"@,
        ) {
            1nat
        } else {
            0
        }
    }
}

/// The columns of id, name, category and count in a header.
pub open spec fn tag_columns(headers: Seq<String>) -> (int, int, int, int) {
    (
        first_match(headers, "tag_id"@),
        first_match(headers, "name"@),
        first_match(headers, "category"@),
        first_match(headers, "count"@),
    )
}

/// What reading a label table gives: an error for the first ragged record, then for a
/// missing column (once there is a record to read), then for the first record that
/// does not read; otherwise one tag per record, and an embedding width when there are
/// embedding columns and records.
pub open spec fn table_result_ok(
    headers: Seq<String>,
    records: Seq<Vec<String>>,
    r: LabelTags,
) -> bool {
    let cols = tag_columns(headers);
    &&& r.spec_tags().len() == records.len()
    &&& forall|i: int|
        0 <= i < records.len() ==> record_tag(records[i]@, cols) == Some(
            (
                #[trigger] r.spec_tags()[i].spec_tag_id(),
                r.spec_tags()[i].spec_name(),
                r.spec_tags()[i].spec_category(),
                r.spec_tags()[i].spec_count(),
            ),
        )
    &&& r.spec_embedding_dim() == if embedding_columns(headers) > 0 && records.len() > 0 {
        Some(embedding_columns(headers) as usize)
    } else {
        None
    }
}

proof fn lemma_first_match_step(headers: Seq<String>, name: Seq<char>, i: int)
    requires
        0 <= i < headers.len(),
        first_match(headers.take(i), name) < 0,
    ensures
        first_match(headers.take(i + 1), name) == if headers[i]@ == name {
            i
        } else {
            -1
        },
{
    assert(headers.take(i + 1).drop_last() == headers.take(i));
}

/// Index of the first header equal to `name`.
fn find_column(headers: &Vec<String>, name: &str) -> (r: Option<usize>)
    ensures
        r matches Some(i) ==> i < headers@.len() && i as int == first_match(headers@, name@),
        r is None ==> first_match(headers@, name@) == -1,
{
    let mut i: usize = 0;
    assert(headers@.take(0) == Seq::<String>::empty());
    while i < headers.len()
        invariant
            i <= headers@.len(),
            first_match(headers@.take(i as int), name@) == -1,
        decreases headers@.len() - i,
    {
        proof {
            lemma_first_match_step(headers@, name@, i as int);
        }
        if str_eq(headers[i].as_str(), name) {
            proof {
                lemma_first_match_prefix(headers@, name@, i + 1);
            }
            return Some(i);
        }
        i = i + 1;
    }
    assert(headers@.take(headers@.len() as int) == headers@);
    None
}

proof fn lemma_first_match_prefix(headers: Seq<String>, name: Seq<char>, k: int)
    requires
        0 <= k <= headers.len(),
        first_match(headers.take(k), name) >= 0,
    ensures
        first_match(headers, name) == first_match(headers.take(k), name),
    decreases headers.len() - k,
{
    if k < headers.len() {
        assert(headers.take(k + 1).drop_last() == headers.take(k));
        lemma_first_match_prefix(headers, name, k + 1);
    } else {
        assert(headers.take(k) == headers);
    }
}

impl LabelTags {
    /// Reads a label table: `headers` names the columns, each record holds one label's
    /// fields in that order. Columns other than `tag_id`, `name`, `category` and `count`
    /// are ignored, but those whose header starts with `embedding__` give the width
    /// of the embedding matrix, whose values the caller reads.
    pub fn from_table(headers: &Vec<String>, records: &Vec<Vec<String>>) -> (r: Result<
        LabelTags,
        TagTableError,
    >)
        ensures
            first_ragged(records@, headers@.len()) >= 0 ==> r == Err::<LabelTags, TagTableError>(
                TagTableError::RaggedRecord {
                    row: first_ragged(records@, headers@.len()) as usize,
                },
            ),
            first_ragged(records@, headers@.len()) < 0 && records@.len() > 0 && ({
                let c = tag_columns(headers@);
                c.0 < 0 || c.1 < 0 || c.2 < 0 || c.3 < 0
            }) ==> r == Err::<LabelTags, TagTableError>(TagTableError::MissingColumn),
            first_ragged(records@, headers@.len()) < 0 && ({
                let c = tag_columns(headers@);
                c.0 >= 0 && c.1 >= 0 && c.2 >= 0 && c.3 >= 0
            }) && first_bad(records@, tag_columns(headers@)) >= 0 ==> r == Err::<
                LabelTags,
                TagTableError,
            >(TagTableError::BadRecord { row: first_bad(records@, tag_columns(headers@)) as usize }),
            r matches Ok(lt) ==> table_result_ok(headers@, records@, lt),
            first_ragged(records@, headers@.len()) < 0 && (records@.len() == 0 || {
                let c = tag_columns(headers@);
                c.0 >= 0 && c.1 >= 0 && c.2 >= 0 && c.3 >= 0 && first_bad(records@, c) < 0
            }) ==> r is Ok,
    {
        let width = headers.len();
        let n = records.len();
        let mut i: usize = 0;
        assert(records@.take(0) == Seq::<Vec<String>>::empty());
        while i < n
            invariant
                n == records@.len(),
                width == headers@.len(),
                i <= n,
                first_ragged(records@.take(i as int), width as nat) == -1,
            decreases n - i,
        {
            assert(records@.take(i + 1).drop_last() == records@.take(i as int));
            if records[i].len() != width {
                proof {
                    lemma_first_ragged_prefix(records@, width as nat, i + 1);
                }
                return Err(TagTableError::RaggedRecord { row: i });
            }
            i = i + 1;
        }
        assert(records@.take(n as int) == records@);
        let mut dim: usize = 0;
        let mut h: usize = 0;
        assert(headers@.take(0) == Seq::<String>::empty());
        while h < width
            invariant
                width == headers@.len(),
                h <= width,
                dim as nat == embedding_columns(headers@.take(h as int)),
                dim <= h,
            decreases width - h,
        {
            assert(headers@.take(h + 1).drop_last() == headers@.take(h as int));
            if starts_with(headers[h].as_str(), "embedding__") {
                dim = dim + 1;
            }
            h = h + 1;
        }
        assert(headers@.take(width as int) == headers@);
        let mut tags: Vec<Tag> = Vec::new();
        if n == 0 {
            let embedding_dim = None;
            return Ok(LabelTags { tags, embedding_dim });
        }
        let cols = (
            find_column(headers, "tag_id"),
            find_column(headers, "name"),
            find_column(headers, "category"),
            find_column(headers, "count"),
        );
        let (c_id, c_name, c_cat, c_count) = match cols {
            (Some(a), Some(b), Some(c), Some(d)) => (a, b, c, d),
            _ => return Err(TagTableError::MissingColumn),
        };
        let ghost spec_cols = tag_columns(headers@);
        let mut i: usize = 0;
        assert(records@.take(0) == Seq::<Vec<String>>::empty());
        while i < n
            invariant
                n == records@.len(),
                width == headers@.len(),
                i <= n,
                first_ragged(records@, width as nat) == -1,
                spec_cols == (c_id as int, c_name as int, c_cat as int, c_count as int),
                spec_cols == tag_columns(headers@),
                c_id < width && c_name < width && c_cat < width && c_count < width,
                first_bad(records@.take(i as int), spec_cols) == -1,
                tags@.len() == i,
                forall|k: int|
                    0 <= k < i ==> record_tag(records@[k]@, spec_cols) == Some(
                        (
                            #[trigger] tags@[k].spec_tag_id(),
                            tags@[k].spec_name(),
                            tags@[k].spec_category(),
                            tags@[k].spec_count(),
                        ),
                    ),
            decreases n - i,
        {
            assert(records@.take(i + 1).drop_last() == records@.take(i as int));
            proof {
                lemma_not_ragged(records@, width as nat, i as int);
            }
            let rec = &records[i];
            let parsed = (
                parse_field_i32(rec[c_id].as_str()),
                TagCategory::from_code(rec[c_cat].as_str()),
                parse_field_i32(rec[c_count].as_str()),
            );
            match parsed {
                (Some(id), Some(category), Some(count)) => {
                    let name = rec[c_name].clone();
                    tags.push(Tag { tag_id: id, name, category, count });
                },
                _ => {
                    proof {
                        lemma_first_bad_prefix(records@, spec_cols, i + 1);
                    }
                    return Err(TagTableError::BadRecord { row: i });
                },
            }
            i = i + 1;
        }
        assert(records@.take(n as int) == records@);
        let embedding_dim = if dim > 0 {
            Some(dim)
        } else {
            None
        };
        Ok(LabelTags { tags, embedding_dim })
    }
}

proof fn lemma_not_ragged(records: Seq<Vec<String>>, width: nat, i: int)
    requires
        0 <= i < records.len(),
        first_ragged(records, width) == -1,
    ensures
        records[i]@.len() == width,
    decreases records.len(),
{
    if i < records.len() - 1 {
        lemma_not_ragged(records.drop_last(), width, i);
    }
}

proof fn lemma_first_ragged_prefix(records: Seq<Vec<String>>, width: nat, k: int)
    requires
        0 <= k <= records.len(),
        first_ragged(records.take(k), width) >= 0,
    ensures
        first_ragged(records, width) == first_ragged(records.take(k), width),
    decreases records.len() - k,
{
    if k < records.len() {
        assert(records.take(k + 1).drop_last() == records.take(k));
        lemma_first_ragged_prefix(records, width, k + 1);
    } else {
        assert(records.take(k) == records);
    }
}

proof fn lemma_first_bad_prefix(records: Seq<Vec<String>>, cols: (int, int, int, int), k: int)
    requires
        0 <= k <= records.len(),
        first_bad(records.take(k), cols) >= 0,
    ensures
        first_bad(records, cols) == first_bad(records.take(k), cols),
    decreases records.len() - k,
{
    if k < records.len() {
        assert(records.take(k + 1).drop_last() == records.take(k));
        lemma_first_bad_prefix(records, cols, k + 1);
    } else {
        assert(records.take(k) == records);
    }
}

} // verus!
