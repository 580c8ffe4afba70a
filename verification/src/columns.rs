//! Columns, batches of columns, and the values that columns are made from.
//!
//! A [`Column`] holds an arrow array and a [`Batch`] holds an arrow record batch. Verus sees
//! neither's inside: what the library relies on is named here ([`column_shape`],
//! [`batch_columns`] and the like), and each function of arrow or DataFusion that makes or reads
//! such a value is called in one place.
use crate::error::AggregateError;
use arrow::array::{Array, ArrayRef};
use arrow::datatypes::{DataType, Schema};
use arrow::error::ArrowError;
use arrow::record_batch::RecordBatch;
use datafusion_common::{DataFusionError, ScalarValue};
use datafusion_expr::ColumnarValue;
use std::sync::Arc;
use vstd::prelude::*;
use vstd::utf8::encode_utf8;

verus! {

/// Declares `arrow::datatypes::DataType`, which Verus compares without looking inside.
#[verifier::external_type_specification]
#[verifier::external_body]
pub struct ExDataType(DataType);

/// Declares `arrow::datatypes::Schema`, of which Verus sees what [`schema_fields`] names.
#[verifier::external_type_specification]
#[verifier::external_body]
pub struct ExSchema(Schema);

/// Declares `datafusion_common::ScalarValue`, which Verus carries without looking inside.
#[verifier::external_type_specification]
#[verifier::external_body]
pub struct ExScalarValue(ScalarValue);

/// Declares `datafusion_expr::ColumnarValue`, which Verus carries without looking inside.
#[verifier::external_type_specification]
#[verifier::external_body]
pub struct ExColumnarValue(ColumnarValue);

/// One column: an arrow array. Verus cannot be told of `dyn Array`, so the array stands in a
/// field that Verus does not look at.
#[verifier::external_body]
#[derive(Debug)]
pub struct Column {
    /// The array that holds the column's values.
    pub array: ArrayRef,
}

/// A batch of columns under one schema: an arrow record batch. Verus cannot be told of
/// `RecordBatch`, whose items are `dyn Array`, so it stands in a field that Verus does not look
/// at.
#[verifier::external_body]
#[derive(Debug)]
pub struct Batch {
    /// The record batch itself.
    pub inner: RecordBatch,
}

/// What a field of a schema asks of its column.
pub struct FieldShape {
    /// The type of the column's values.
    pub data_type: DataType,
    /// Whether the column may hold nulls.
    pub nullable: bool,
}

/// What a schema asks of a column.
pub struct ColumnShape {
    /// The type of the values.
    pub data_type: DataType,
    /// The number of values.
    pub rows: nat,
    /// The number of nulls among them.
    pub nulls: nat,
}

/// Kinds of scalars that are told apart.
pub enum ScalarKind {
    /// A truth value, or null.
    Boolean,
    /// A text or a string of bytes of any length, with its bytes, or null.
    Bytes(Option<Seq<u8>>),
    /// A list, a struct or a map, with the number of rows of the array that holds it.
    Nested(nat),
    /// Any other scalar.
    Other,
}

/// A kind of scalar, with what the scalar holds.
enum ScalarForm<'a> {
    Boolean,
    Text(&'a Option<String>),
    Bytes(&'a Option<Vec<u8>>),
    Nested(usize),
    Other,
}

impl<'a> ScalarForm<'a> {
    /// The kind, with what the scalar holds.
    spec fn kind(self) -> ScalarKind {
        match self {
            ScalarForm::Boolean => ScalarKind::Boolean,
            ScalarForm::Text(Some(text)) => ScalarKind::Bytes(Some(encode_utf8(text@))),
            ScalarForm::Bytes(Some(bytes)) => ScalarKind::Bytes(Some(bytes@)),
            ScalarForm::Text(None) | ScalarForm::Bytes(None) => ScalarKind::Bytes(None),
            ScalarForm::Nested(rows) => ScalarKind::Nested(rows as nat),
            ScalarForm::Other => ScalarKind::Other,
        }
    }
}

/// The fields of a schema, in order.
pub uninterp spec fn schema_fields(schema: Schema) -> Seq<FieldShape>;

/// The type, the length and the null count of a column.
pub uninterp spec fn column_shape(column: Column) -> ColumnShape;

/// The schema of a batch.
pub uninterp spec fn batch_schema(batch: Batch) -> Schema;

/// The columns of a batch, in order.
pub uninterp spec fn batch_columns(batch: Batch) -> Seq<Column>;

/// The number of rows of a batch.
pub uninterp spec fn batch_rows(batch: Batch) -> nat;

/// What a scalar comes to as a column of one row: the column, or an error.
pub uninterp spec fn scalar_array(scalar: ScalarValue) -> Result<Column, DataFusionError>;

/// Whether a scalar can be repeated in `rows` rows: it has the form that its variant's
/// documentation asks for (one row inside a nested value, integer keys, the declared width), and
/// that many of it can be held.
pub uninterp spec fn scalar_fits(scalar: ScalarValue, rows: nat) -> bool;

/// Whether a scalar is a number, a date, a time or a span of time.
pub uninterp spec fn scalar_is_primitive(scalar: ScalarValue) -> bool;

/// What kind of scalar a scalar is, as far as it matters for repeating it.
pub uninterp spec fn scalar_kind(scalar: ScalarValue) -> ScalarKind;

/// The column that a columnar value holds, where it holds one rather than a scalar.
pub uninterp spec fn value_array(value: ColumnarValue) -> Option<Column>;

/// The scalar that a columnar value holds, where it holds one rather than a column.
pub uninterp spec fn value_scalar(value: ColumnarValue) -> Option<ScalarValue>;

/// What a columnar value comes to as a column for `rows` rows: the column, or an error.
pub uninterp spec fn value_column(value: ColumnarValue, rows: nat) -> Result<
    Column,
    DataFusionError,
>;

/// Whether a columnar value can be turned into a column for `rows` rows: it holds a column, or a
/// scalar that can be repeated that often.
pub open spec fn value_fits(value: ColumnarValue, rows: nat) -> bool {
    value_scalar(value) matches Some(scalar) ==> scalar_fits(scalar, rows)
}

/// The largest number of rows in which [`scalar_is_plain`] speaks of a scalar.
pub const MOST_ROWS: usize = usize::MAX / 128;

/// The largest number of bytes of a text, all rows together, of which [`scalar_is_plain`] speaks.
pub const MOST_BYTES: usize = 0x1fff_ffff;

/// Whether a scalar of this kind can be repeated in `rows` rows for certain: a truth value, a null,
/// a text that is not too long for that, or a nested value of one row that is not repeated.
pub open spec fn kind_is_plain(kind: ScalarKind, rows: nat) -> bool {
    match kind {
        ScalarKind::Boolean => true,
        ScalarKind::Bytes(Some(bytes)) => bytes.len() * rows <= MOST_BYTES,
        ScalarKind::Bytes(None) => true,
        ScalarKind::Nested(held) => held == 1 && rows == 1,
        ScalarKind::Other => false,
    }
}

/// Whether a scalar is one that can be repeated in `rows` rows for certain: a number, a date, a
/// time, a span of time, or of a kind that is plain.
pub open spec fn scalar_is_plain(scalar: ScalarValue, rows: nat) -> bool {
    &&& rows <= MOST_ROWS
    &&& scalar_is_primitive(scalar) || kind_is_plain(scalar_kind(scalar), rows)
}

/// Whether a columnar value holds a column, or a scalar that is plain for `rows` rows.
pub open spec fn value_is_plain(value: ColumnarValue, rows: nat) -> bool {
    value_scalar(value) matches Some(scalar) ==> scalar_is_plain(scalar, rows)
}

/// Whether the columns make a batch of a schema with these fields: there is at least one, each
/// has the type of its field, all are equally long, and none holds a null that its field forbids.
pub open spec fn makes_batch(fields: Seq<FieldShape>, columns: Seq<Column>) -> bool {
    &&& columns.len() == fields.len()
    &&& columns.len() > 0
    &&& forall|i: int|
        0 <= i < columns.len() ==> {
            &&& (#[trigger] column_shape(columns[i])).data_type == fields[i].data_type
            &&& column_shape(columns[i]).rows == column_shape(columns[0]).rows
            &&& fields[i].nullable || column_shape(columns[i]).nulls == 0
        }
}

impl Clone for Batch {
    /// Calls `RecordBatch::clone`, which shares the schema and the arrays: the same batch again.
    #[verifier::external_body]
    fn clone(&self) -> (copy: Self)
        ensures
            copy == *self,
    {
        Batch { inner: self.inner.clone() }
    }
}

/// Calls `RecordBatch::try_new`: it makes the batch of exactly these columns under exactly this
/// schema where they fit, and fails where they do not. What the error says is left open.
#[verifier::external_body]
fn try_new(schema: &Arc<Schema>, columns: Vec<Column>) -> (made: Result<Batch, ArrowError>)
    ensures
        made is Ok <==> makes_batch(schema_fields(**schema), columns@),
        made matches Ok(batch) ==> {
            &&& batch_schema(batch) == **schema
            &&& batch_columns(batch) == columns@
            &&& batch_rows(batch) == column_shape(columns@[0]).rows
        },
{
    let arrays = columns.into_iter().map(|column| column.array).collect();
    RecordBatch::try_new(Arc::clone(schema), arrays).map(|inner| Batch { inner })
}

/// Calls `RecordBatch::num_rows`: the number of rows of the batch.
#[verifier::external_body]
fn num_rows(batch: &Batch) -> (rows: usize)
    ensures
        rows == batch_rows(*batch),
{
    batch.inner.num_rows()
}

impl Batch {
    /// The number of rows.
    pub fn rows(&self) -> (rows: usize)
        ensures
            rows == batch_rows(*self),
    {
        num_rows(self)
    }
}

/// Calls `ScalarValue::to_array`: what [`scalar_array`] names, and where that is a column, it has
/// one row. A scalar that does not fit is left out, since on some of them the call panics and on
/// others the array has not one row.
#[verifier::external_body]
fn to_array(scalar: &ScalarValue) -> (column: Result<Column, DataFusionError>)
    requires
        scalar_fits(*scalar, 1),
    ensures
        column == scalar_array(*scalar),
        column matches Ok(c) ==> column_shape(c).rows == 1,
{
    scalar.to_array().map(|array| Column { array })
}

/// Calls `ScalarValue::data_type` and `DataType::is_primitive`: whether the scalar is a number, a
/// date, a time or a span of time. Such a scalar takes at most 32 bytes a row, so it can be
/// repeated unless the rows are too many for the address space.
#[verifier::external_body]
fn is_primitive(scalar: &ScalarValue) -> (primitive: bool)
    ensures
        primitive == scalar_is_primitive(*scalar),
        primitive ==> forall|rows: nat|
            rows <= MOST_ROWS ==> #[trigger] scalar_fits(*scalar, rows),
{
    scalar.data_type().is_primitive()
}

/// Tells variants of `ScalarValue` apart, and for a nested one calls the `len` of its array. A truth
/// value, a null and a text take at most 16 bytes a row besides the bytes of the text, whose offsets
/// may be of 32 bits, so they can be repeated within the limits of [`kind_is_plain`]. A nested value
/// in one row is the array that holds it. Nothing is claimed of other scalars: a dictionary, for
/// one, is made with arrays that a lock guards.
#[verifier::external_body]
fn form_of(scalar: &ScalarValue) -> (form: ScalarForm<'_>)
    ensures
        form.kind() == scalar_kind(*scalar),
        forall|rows: nat|
            rows <= MOST_ROWS && kind_is_plain(form.kind(), rows)
                ==> #[trigger] scalar_fits(*scalar, rows),
{
    match scalar {
        ScalarValue::Boolean(_) => ScalarForm::Boolean,
        ScalarValue::Utf8(text) => ScalarForm::Text(text),
        ScalarValue::Utf8View(text) => ScalarForm::Text(text),
        ScalarValue::LargeUtf8(text) => ScalarForm::Text(text),
        ScalarValue::Binary(bytes) => ScalarForm::Bytes(bytes),
        ScalarValue::BinaryView(bytes) => ScalarForm::Bytes(bytes),
        ScalarValue::LargeBinary(bytes) => ScalarForm::Bytes(bytes),
        ScalarValue::List(array) => ScalarForm::Nested(array.len()),
        ScalarValue::LargeList(array) => ScalarForm::Nested(array.len()),
        ScalarValue::FixedSizeList(array) => ScalarForm::Nested(array.len()),
        ScalarValue::Struct(array) => ScalarForm::Nested(array.len()),
        ScalarValue::Map(array) => ScalarForm::Nested(array.len()),
        _ => ScalarForm::Other,
    }
}

/// Calls `ColumnarValue::into_array`: what [`value_column`] names. A column that the value holds
/// is handed on, whatever its length; a scalar's column has as many rows as asked for.
#[verifier::external_body]
pub(crate) fn into_array(value: ColumnarValue, rows: usize) -> (column: Result<
    Column,
    DataFusionError,
>)
    requires
        value_fits(value, rows as nat),
    ensures
        column == value_column(value, rows as nat),
        value_array(value) is Some ==> column is Ok && Some(column->Ok_0) == value_array(value),
        value_array(value) is None && column is Ok ==> column_shape(column->Ok_0).rows == rows,
{
    value.into_array(rows).map(|array| Column { array })
}

/// Tells the variants of `ColumnarValue` apart: the scalar that it holds, where it holds one
/// rather than a column.
#[verifier::external_body]
fn as_scalar(value: &ColumnarValue) -> (scalar: Option<&ScalarValue>)
    ensures
        match scalar {
            Some(s) => value_scalar(*value) == Some(*s) && value_array(*value) is None,
            None => value_scalar(*value) is None && value_array(*value) is Some,
        },
{
    match value {
        ColumnarValue::Array(_) => None,
        ColumnarValue::Scalar(scalar) => Some(scalar),
    }
}

/// Whether so many bytes in each of `rows` rows are not too many.
fn bytes_fit(length: usize, rows: usize) -> (fit: bool)
    ensures
        fit == (length * rows <= MOST_BYTES),
{
    match length.checked_mul(rows) {
        Some(bytes) => bytes <= MOST_BYTES,
        None => false,
    }
}

/// Whether a scalar is plain for `rows` rows; then it can be repeated that often.
pub fn is_plain(scalar: &ScalarValue, rows: usize) -> (plain: bool)
    ensures
        plain == scalar_is_plain(*scalar, rows as nat),
        plain ==> scalar_fits(*scalar, rows as nat),
{
    if rows > MOST_ROWS {
        false
    } else if is_primitive(scalar) {
        true
    } else {
        match form_of(scalar) {
            ScalarForm::Boolean => true,
            ScalarForm::Text(Some(text)) => bytes_fit(text.as_str().as_bytes().len(), rows),
            ScalarForm::Bytes(Some(bytes)) => bytes_fit(bytes.len(), rows),
            ScalarForm::Text(None) | ScalarForm::Bytes(None) => true,
            ScalarForm::Nested(held) => held == 1 && rows == 1,
            ScalarForm::Other => false,
        }
    }
}

/// Whether a columnar value holds a column, or a scalar that is plain for `rows` rows; then it can
/// be turned into a column for that many.
pub fn is_plain_value(value: &ColumnarValue, rows: usize) -> (plain: bool)
    ensures
        plain == value_is_plain(*value, rows as nat),
        plain ==> value_fits(*value, rows as nat),
{
    match as_scalar(value) {
        Some(scalar) => is_plain(scalar, rows),
        None => true,
    }
}

/// The columns of one row that the scalars come to, in order, or the first error.
pub open spec fn scalar_columns(scalars: Seq<ScalarValue>) -> Result<Seq<Column>, DataFusionError>
    decreases scalars.len(),
{
    if scalars.len() == 0 {
        Ok(Seq::empty())
    } else {
        match scalar_columns(scalars.drop_last()) {
            Ok(columns) => match scalar_array(scalars.last()) {
                Ok(column) => Ok(columns.push(column)),
                Err(e) => Err(e),
            },
            Err(e) => Err(e),
        }
    }
}

/// Whether every scalar can be turned into a column of one row.
pub open spec fn all_fit(scalars: Seq<ScalarValue>) -> bool {
    forall|i: int| 0 <= i < scalars.len() ==> scalar_fits(#[trigger] scalars[i], 1)
}

/// Whether every scalar is plain for one row.
pub open spec fn all_plain(scalars: Seq<ScalarValue>) -> bool {
    forall|i: int| 0 <= i < scalars.len() ==> scalar_is_plain(#[trigger] scalars[i], 1)
}

/// Whether every column has exactly one row.
pub open spec fn all_single_row(columns: Seq<Column>) -> bool {
    forall|i: int| 0 <= i < columns.len() ==> (#[trigger] column_shape(columns[i])).rows == 1
}

/// Whether `made` is what comes of columns under a schema: their batch where they make one, an
/// error of arrow where they do not.
pub open spec fn is_batch_of(
    schema: Schema,
    columns: Seq<Column>,
    made: Result<Batch, AggregateError>,
) -> bool {
    match made {
        Ok(batch) => {
            &&& makes_batch(schema_fields(schema), columns)
            &&& batch_schema(batch) == schema
            &&& batch_columns(batch) == columns
            &&& batch_rows(batch) == column_shape(columns[0]).rows
        },
        Err(e) => {
            &&& !makes_batch(schema_fields(schema), columns)
            &&& e is Arrow
        },
    }
}

/// Makes the batch of `columns` under `schema`.
pub fn make_batch(schema: &Arc<Schema>, columns: Vec<Column>) -> (made: Result<
    Batch,
    AggregateError,
>)
    ensures
        is_batch_of(**schema, columns@, made),
{
    match try_new(schema, columns) {
        Ok(batch) => Ok(batch),
        Err(e) => Err(AggregateError::Arrow(e)),
    }
}

/// Turns each scalar into a column of one row, and stops at the first that cannot be turned.
pub fn scalars_to_columns(scalars: &Vec<ScalarValue>) -> (converted: Result<
    Vec<Column>,
    DataFusionError,
>)
    requires
        all_fit(scalars@),
    ensures
        match converted {
            Ok(columns) => {
                &&& scalar_columns(scalars@) == Ok::<_, DataFusionError>(columns@)
                &&& all_single_row(columns@)
            },
            Err(e) => scalar_columns(scalars@) == Err::<Seq<Column>, _>(e),
        },
{
    let mut columns: Vec<Column> = Vec::new();
    assert(scalars@.take(0) =~= Seq::empty());
    for i in 0..scalars.len()
        invariant
            all_fit(scalars@),
            all_single_row(columns@),
            scalar_columns(scalars@.take(i as int)) == Ok::<_, DataFusionError>(columns@),
    {
        assert(scalar_fits(scalars@[i as int], 1));
        assert(scalars@.take(i + 1).drop_last() =~= scalars@.take(i as int));
        match to_array(&scalars[i]) {
            Ok(column) => columns.push(column),
            Err(e) => {
                proof {
                    lemma_first_error_stays(scalars@, i + 1);
                }
                return Err(e);
            },
        }
    }
    assert(scalars@.take(scalars@.len() as int) =~= scalars@);
    Ok(columns)
}

/// An error among the first `n` scalars is the error of all of them.
proof fn lemma_first_error_stays(scalars: Seq<ScalarValue>, n: int)
    requires
        0 <= n <= scalars.len(),
        scalar_columns(scalars.take(n)) is Err,
    ensures
        scalar_columns(scalars) == scalar_columns(scalars.take(n)),
    decreases scalars.len(),
{
    if n == scalars.len() {
        assert(scalars.take(n) =~= scalars);
    } else {
        assert(scalars.drop_last().take(n) =~= scalars.take(n));
        lemma_first_error_stays(scalars.drop_last(), n);
    }
}

/// Whether every scalar is plain for one row; then each can be turned into a column of one row.
pub fn are_plain(scalars: &Vec<ScalarValue>) -> (plain: bool)
    ensures
        plain == all_plain(scalars@),
        plain ==> all_fit(scalars@),
{
    for i in 0..scalars.len()
        invariant
            forall|j: int| 0 <= j < i ==> scalar_is_plain(#[trigger] scalars@[j], 1),
            forall|j: int| 0 <= j < i ==> scalar_fits(#[trigger] scalars@[j], 1),
    {
        if !is_plain(&scalars[i], 1) {
            return false;
        }
    }
    true
}

} // verus!
