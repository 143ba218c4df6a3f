//! Result decoder: turns schema-described positional row arrays into named
//! objects, recursively decoding record and array typed fields.
//!
//! A type descriptor is either primitive (values pass through unchanged),
//! a record with named sub-fields (a positional array is zipped into a
//! named object), or an array with one element type (elements are decoded
//! element-wise). `null` always passes through untouched, whatever the
//! descriptor says.
use vstd::prelude::*;
use vstd::string::StrSliceExecFns;

use crate::json::JsonModel;
use crate::json::JsonValue;
use crate::json::json_view;
use crate::json::json_view_members;
use crate::json::json_view_seq;
use crate::json::lemma_json_view_members;
use crate::json::lemma_json_view_seq;
use crate::preprocess::drop_leading;
use crate::preprocess::is_space;

verus! {

/// A field's type descriptor, parsed from its serialized form.
#[derive(Debug, PartialEq)]
pub enum TypeDesc {
    /// Any descriptor without a record or array structural tag.
    Primitive,
    /// A record type: named sub-fields, decoded positionally.
    Record(Vec<SchemaField>),
    /// An array type with one element type.
    Array(Box<TypeDesc>),
}

/// One schema field: a name and the type of its values.
#[derive(Debug, PartialEq)]
pub struct SchemaField {
    pub name: String,
    pub tpe: TypeDesc,
}

/// The mathematical view of a type descriptor. An array type's element
/// type is carried as a one-element sequence (the indirection a ghost
/// recursive type needs).
pub enum TypeModel {
    Primitive,
    Record(Seq<(Seq<char>, TypeModel)>),
    Array(Seq<TypeModel>),
}

pub open spec fn type_view(t: TypeDesc) -> TypeModel
    decreases t, 0int,
{
    match t {
        TypeDesc::Primitive => TypeModel::Primitive,
        TypeDesc::Record(fs) => TypeModel::Record(fields_view(fs@)),
        TypeDesc::Array(et) => TypeModel::Array(seq![type_view(*et)]),
    }
}

pub open spec fn fields_view(fs: Seq<SchemaField>) -> Seq<(Seq<char>, TypeModel)>
    decreases fs, 1int,
{
    if fs.len() == 0 {
        Seq::empty()
    } else {
        fields_view(fs.drop_last()).push((fs.last().name@, type_view(fs.last().tpe)))
    }
}

impl View for TypeDesc {
    type V = TypeModel;

    open spec fn view(&self) -> TypeModel {
        type_view(*self)
    }
}

impl View for SchemaField {
    type V = (Seq<char>, TypeModel);

    open spec fn view(&self) -> (Seq<char>, TypeModel) {
        (self.name@, type_view(self.tpe))
    }
}

pub broadcast proof fn lemma_fields_view(fs: Seq<SchemaField>)
    ensures
        #[trigger] fields_view(fs).len() == fs.len(),
        forall|i: int|
            0 <= i < fs.len() ==> fields_view(fs)[i] == (fs[i].name@, type_view(fs[i].tpe)),
    decreases fs.len(),
{
    if fs.len() > 0 {
        lemma_fields_view(fs.drop_last());
        assert forall|i: int|
            0 <= i < fs.len() implies fields_view(fs)[i] == (
            fs[i].name@,
            type_view(fs[i].tpe),
        ) by {
            if i < fs.len() - 1 {
                assert(fs.drop_last()[i] == fs[i]);
            }
        }
    }
}

/// What decoding one value against one type descriptor yields. `null`
/// passes through; a primitive descriptor passes the value through; a
/// record descriptor zips a positional array into a named object; an array
/// descriptor decodes element-wise. A value without the shape its
/// descriptor asks for passes through unchanged.
pub open spec fn decode_value(t: TypeModel, v: JsonModel) -> JsonModel
    decreases t, v, 0int,
{
    if v is Null {
        JsonModel::Null
    } else {
        match t {
            TypeModel::Primitive => v,
            TypeModel::Record(fs) => match v {
                JsonModel::Array(es) => JsonModel::Object(decode_fields(fs, es)),
                _ => v,
            },
            TypeModel::Array(ets) => if ets.len() != 1 {
                v
            } else {
                match v {
                    JsonModel::Array(es) => JsonModel::Array(decode_elems(ets[0], es)),
                    _ => v,
                }
            },
        }
    }
}

/// Positional zip of field descriptors and array elements, decoding each
/// element against its field's type; stops at the shorter of the two.
pub open spec fn decode_fields(fs: Seq<(Seq<char>, TypeModel)>, es: Seq<JsonModel>) -> Seq<
    (Seq<char>, JsonModel),
>
    decreases fs, es, 1int,
{
    if fs.len() == 0 || es.len() == 0 {
        Seq::empty()
    } else {
        seq![(fs[0].0, decode_value(fs[0].1, es[0]))] + decode_fields(
            fs.drop_first(),
            es.drop_first(),
        )
    }
}

pub open spec fn decode_elems(t: TypeModel, es: Seq<JsonModel>) -> Seq<JsonModel>
    decreases t, es, 1int,
{
    if es.len() == 0 {
        Seq::empty()
    } else {
        seq![decode_value(t, es[0])] + decode_elems(t, es.drop_first())
    }
}

/// Decodes `value` against the descriptor `field_type`, returning a fresh
/// value whose view is exactly what the decoding rule yields.
#[verifier::loop_isolation(false)]
pub fn convert_field_value(field_type: &TypeDesc, value: &JsonValue) -> (r: JsonValue)
    ensures
        r@ == decode_value(field_type@, value@),
    decreases *field_type, *value, 0int,
{
    broadcast use lemma_json_view_seq, lemma_json_view_members, lemma_fields_view;

    if let JsonValue::Null = value {
        return JsonValue::Null;
    }
    match field_type {
        TypeDesc::Primitive => value.deep_copy(),
        TypeDesc::Record(fs) => {
            match value {
                JsonValue::Array(es) => {
                    proof {
                        assert(decreases_to!(*field_type => field_type->Record_0));
                        assert(decreases_to!(*value => value->Array_0));
                    }
                    let members = decode_record_fields(fs, es);
                    JsonValue::Object(members)
                },
                _ => value.deep_copy(),
            }
        },
        TypeDesc::Array(et) => {
            match value {
                JsonValue::Array(es) => {
                    proof {
                        assert(decreases_to!(*field_type => field_type->Array_0));
                        assert(decreases_to!(*value => value->Array_0));
                    }
                    let elems = decode_array_elems(et, es);
                    JsonValue::Array(elems)
                },
                _ => value.deep_copy(),
            }
        },
    }
}

#[verifier::loop_isolation(false)]
fn decode_record_fields(fs: &Vec<SchemaField>, es: &Vec<JsonValue>) -> (out: Vec<
    (String, JsonValue),
>)
    ensures
        json_view_members(out@) == decode_fields(fields_view(fs@), json_view_seq(es@)),
    decreases fs@, es@, 1int,
{
    broadcast use lemma_json_view_seq, lemma_json_view_members, lemma_fields_view;

    let ghost fsv = fields_view(fs@);
    let ghost esv = json_view_seq(es@);
    let n = if fs.len() <= es.len() {
        fs.len()
    } else {
        es.len()
    };
    let mut out: Vec<(String, JsonValue)> = Vec::new();
    proof {
        assert(fsv.skip(0) =~= fsv);
        assert(esv.skip(0) =~= esv);
        assert(json_view_members(out@) =~= Seq::<(Seq<char>, JsonModel)>::empty());
        assert(Seq::<(Seq<char>, JsonModel)>::empty() + decode_fields(fsv, esv) =~= decode_fields(
            fsv,
            esv,
        ));
    }
    let mut i: usize = 0;
    while i < n
        invariant
            i <= n,
            decode_fields(fsv, esv) == json_view_members(out@) + decode_fields(
                fsv.skip(i as int),
                esv.skip(i as int),
            ),
        decreases n - i,
    {
        proof {
            assert(decreases_to!(fs@ => fs@[i as int]));
            assert(decreases_to!(fs@[i as int] => fs@[i as int].tpe));
            assert(decreases_to!(es@ => es@[i as int]));
        }
        let name = fs[i].name.clone();
        let converted = convert_field_value(&fs[i].tpe, &es[i]);
        let ghost prev = out@;
        out.push((name, converted));
        proof {
            let fsr = fsv.skip(i as int);
            let esr = esv.skip(i as int);
            assert(fsr[0] == (fs@[i as int].name@, type_view(fs@[i as int].tpe)));
            assert(esr[0] == json_view(es@[i as int]));
            assert(fsr.drop_first() =~= fsv.skip(i + 1));
            assert(esr.drop_first() =~= esv.skip(i + 1));
            assert(out@.drop_last() =~= prev);
            assert(json_view_members(out@) =~= json_view_members(prev).push(
                (fs@[i as int].name@, decode_value(fs@[i as int].tpe@, es@[i as int]@)),
            ));
            assert(json_view_members(prev) + decode_fields(fsr, esr) =~= json_view_members(out@)
                + decode_fields(fsv.skip(i + 1), esv.skip(i + 1)));
        }
        i += 1;
    }
    proof {
        assert(decode_fields(fsv.skip(n as int), esv.skip(n as int)) =~= Seq::<
            (Seq<char>, JsonModel),
        >::empty());
        assert(json_view_members(out@) + Seq::<(Seq<char>, JsonModel)>::empty()
            =~= json_view_members(out@));
    }
    out
}

#[verifier::loop_isolation(false)]
fn decode_array_elems(et: &TypeDesc, es: &Vec<JsonValue>) -> (out: Vec<JsonValue>)
    ensures
        json_view_seq(out@) == decode_elems(et@, json_view_seq(es@)),
    decreases *et, es@, 1int,
{
    broadcast use lemma_json_view_seq, lemma_json_view_members;

    let ghost esv = json_view_seq(es@);
    let mut out: Vec<JsonValue> = Vec::new();
    proof {
        assert(esv.skip(0) =~= esv);
        assert(json_view_seq(out@) =~= Seq::<JsonModel>::empty());
        assert(Seq::<JsonModel>::empty() + decode_elems(et@, esv) =~= decode_elems(et@, esv));
    }
    let mut i: usize = 0;
    while i < es.len()
        invariant
            i <= es@.len(),
            decode_elems(et@, esv) == json_view_seq(out@) + decode_elems(
                et@,
                esv.skip(i as int),
            ),
        decreases es@.len() - i,
    {
        proof {
            assert(decreases_to!(es@ => es@[i as int]));
        }
        let converted = convert_field_value(et, &es[i]);
        let ghost prev = out@;
        out.push(converted);
        proof {
            let esr = esv.skip(i as int);
            assert(esr[0] == json_view(es@[i as int]));
            assert(esr.drop_first() =~= esv.skip(i + 1));
            assert(out@.drop_last() =~= prev);
            assert(json_view_seq(out@) =~= json_view_seq(prev).push(
                decode_value(et@, es@[i as int]@),
            ));
            assert(json_view_seq(prev) + decode_elems(et@, esr) =~= json_view_seq(out@)
                + decode_elems(et@, esv.skip(i + 1)));
        }
        i += 1;
    }
    proof {
        assert(esv.skip(es@.len() as int) =~= Seq::<JsonModel>::empty());
        assert(json_view_seq(out@) + Seq::<JsonModel>::empty() =~= json_view_seq(out@));
    }
    out
}

/// Decodes `value` against `field_type` and renders it in the normalized
/// textual form, in which every key/value separator carries one trailing
/// space.
pub fn format_complex_value(field_type: &TypeDesc, value: &JsonValue) -> (r: String)
    ensures
        r@ == crate::json::json_of(decode_value(field_type@, value@), true),
{
    let decoded = convert_field_value(field_type, value);
    crate::json::to_json_string(&decoded, true)
}

/// Whether a serialized type descriptor bears the structural tag of a
/// record or array type: after leading whitespace it starts with `{` or
/// `[`. Anything else is treated as primitive.
pub open spec fn is_complex_spec(s: Seq<char>) -> bool {
    drop_leading(s).len() > 0 && (drop_leading(s)[0] == '{' || drop_leading(s)[0] == '[')
}

/// The structural-tag check on a serialized type descriptor.
pub fn is_complex_type(field_type: &str) -> (r: bool)
    ensures
        r == is_complex_spec(field_type@),
{
    let n = field_type.unicode_len();
    let mut i: usize = 0;
    while i < n && crate::preprocess::is_space_exec(field_type.get_char(i))
        invariant
            i <= n,
            n == field_type@.len(),
            forall|j: int| 0 <= j < i ==> is_space(field_type@[j]),
        decreases n - i,
    {
        i += 1;
    }
    proof {
        crate::preprocess::lemma_drop_leading(field_type@, i as int);
    }
    if i == n {
        proof {
            assert(field_type@.skip(n as int) =~= Seq::<char>::empty());
        }
        return false;
    }
    let c = field_type.get_char(i);
    proof {
        assert(field_type@.skip(i as int)[0] == field_type@[i as int]);
    }
    c == '{' || c == '['
}

/// Why a table payload failed to decode.
#[derive(Debug, Clone, Copy, PartialEq, Eq, Structural)]
pub enum DecodeError {
    /// The payload's data is not an array of rows.
    DataNotArray,
    /// A row is not an array.
    RowNotArray,
    /// A row's length differs from the schema's field count.
    RowLengthMismatch { row_len: usize, schema_len: usize },
}

/// What decoding a whole list of rows yields: one named object per row,
/// or the error of the first row that is not an array of the schema's
/// length. No object is produced for a failing list.
pub open spec fn decode_rows(
    schema: Seq<(Seq<char>, TypeModel)>,
    rows: Seq<JsonModel>,
) -> Result<Seq<JsonModel>, DecodeError>
    decreases rows.len(),
{
    if rows.len() == 0 {
        Ok(Seq::empty())
    } else {
        match rows[0] {
            JsonModel::Array(es) => {
                if es.len() != schema.len() {
                    Err(DecodeError::RowLengthMismatch {
                        row_len: es.len() as usize,
                        schema_len: schema.len() as usize,
                    })
                } else {
                    match decode_rows(schema, rows.drop_first()) {
                        Ok(rest) => Ok(
                            seq![JsonModel::Object(decode_fields(schema, es))] + rest,
                        ),
                        Err(e) => Err(e),
                    }
                }
            },
            _ => Err(DecodeError::RowNotArray),
        }
    }
}

/// Decoding a table payload: the data must be an array of rows.
pub open spec fn decode_table(
    schema: Seq<(Seq<char>, TypeModel)>,
    data: JsonModel,
) -> Result<Seq<JsonModel>, DecodeError> {
    match data {
        JsonModel::Array(rows) => decode_rows(schema, rows),
        _ => Err(DecodeError::DataNotArray),
    }
}

/// Builds the named object for one row. Callers have already checked that
/// the row's length equals the schema's field count.
pub fn build_row_object(schema: &Vec<SchemaField>, row_array: &Vec<JsonValue>) -> (obj: Vec<
    (String, JsonValue),
>)
    requires
        row_array@.len() == schema@.len(),
    ensures
        json_view_members(obj@) == decode_fields(fields_view(schema@), json_view_seq(row_array@)),
{
    decode_record_fields(schema, row_array)
}

/// Decodes a table's rows into named objects, or reports the first row
/// that is not an array of the schema's length; on an error no objects
/// are handed out at all.
#[verifier::loop_isolation(false)]
pub fn format_table_result(schema: &Vec<SchemaField>, data: &JsonValue) -> (r: Result<
    Vec<JsonValue>,
    DecodeError,
>)
    ensures
        (match r {
            Ok(out) => decode_table(fields_view(schema@), data@) == Ok::<
                Seq<JsonModel>,
                DecodeError,
            >(json_view_seq(out@)),
            Err(e) => decode_table(fields_view(schema@), data@) == Err::<
                Seq<JsonModel>,
                DecodeError,
            >(e),
        }),
{
    broadcast use lemma_json_view_seq, lemma_json_view_members, lemma_fields_view;

    match data {
        JsonValue::Array(rows) => {
            let ghost sv = fields_view(schema@);
            let ghost rowsv = json_view_seq(rows@);
            let mut out: Vec<JsonValue> = Vec::new();
            proof {
                assert(rowsv.skip(0) =~= rowsv);
                assert(json_view_seq(out@) =~= Seq::<JsonModel>::empty());
                if decode_rows(sv, rowsv) is Ok {
                    assert(Seq::<JsonModel>::empty() + decode_rows(sv, rowsv)->Ok_0
                        =~= decode_rows(sv, rowsv)->Ok_0);
                }
            }
            let mut i: usize = 0;
            while i < rows.len()
                invariant
                    i <= rows@.len(),
                    decode_rows(sv, rowsv) == (match decode_rows(sv, rowsv.skip(i as int)) {
                        Ok(rest) => Ok::<Seq<JsonModel>, DecodeError>(json_view_seq(out@) + rest),
                        Err(e) => Err::<Seq<JsonModel>, DecodeError>(e),
                    }),
                decreases rows@.len() - i,
            {
                let ghost rr = rowsv.skip(i as int);
                proof {
                    assert(rr[0] == json_view(rows@[i as int]));
                    assert(rr.drop_first() =~= rowsv.skip(i + 1));
                }
                match &rows[i] {
                    JsonValue::Array(es) => {
                        if es.len() != schema.len() {
                            proof {
                                assert(rr[0] == JsonModel::Array(json_view_seq(es@)));
                                assert(json_view_seq(es@).len() == es@.len());
                                assert(fields_view(schema@).len() == schema@.len());
                                assert(decode_rows(sv, rr) == Err::<Seq<JsonModel>, DecodeError>(
                                    DecodeError::RowLengthMismatch {
                                        row_len: es@.len() as usize,
                                        schema_len: schema@.len() as usize,
                                    },
                                ));
                            }
                            return Err(DecodeError::RowLengthMismatch {
                                row_len: es.len(),
                                schema_len: schema.len(),
                            });
                        }
                        let obj = decode_record_fields(schema, es);
                        let ghost prev = out@;
                        out.push(JsonValue::Object(obj));
                        proof {
                            let rowm = JsonModel::Object(decode_fields(sv, json_view_seq(es@)));
                            assert(out@.drop_last() =~= prev);
                            assert(json_view_seq(out@) =~= json_view_seq(prev).push(rowm));
                            if decode_rows(sv, rowsv.skip(i + 1)) is Ok {
                                let rest = decode_rows(sv, rowsv.skip(i + 1))->Ok_0;
                                assert(json_view_seq(prev) + (seq![rowm] + rest) =~= json_view_seq(
                                    out@,
                                ) + rest);
                            }
                        }
                    },
                    _ => {
                        return Err(DecodeError::RowNotArray);
                    },
                }
                i += 1;
            }
            proof {
                assert(rowsv.skip(rows@.len() as int) =~= Seq::<JsonModel>::empty());
                assert(json_view_seq(out@) + Seq::<JsonModel>::empty() =~= json_view_seq(out@));
            }
            Ok(out)
        },
        _ => Err(DecodeError::DataNotArray),
    }
}

/// Full characterization of the positional zip: one entry per position up
/// to the shorter input, carrying the field's name and its decoded value.
pub proof fn lemma_decode_fields_shape(fs: Seq<(Seq<char>, TypeModel)>, es: Seq<JsonModel>)
    ensures
        decode_fields(fs, es).len() == if fs.len() <= es.len() {
            fs.len()
        } else {
            es.len()
        },
        forall|j: int|
            0 <= j < decode_fields(fs, es).len() ==> #[trigger] decode_fields(fs, es)[j] == (
                fs[j].0,
                decode_value(fs[j].1, es[j]),
            ),
    decreases fs.len(),
{
    if fs.len() > 0 && es.len() > 0 {
        lemma_decode_fields_shape(fs.drop_first(), es.drop_first());
        assert forall|j: int|
            0 <= j < decode_fields(fs, es).len() implies #[trigger] decode_fields(fs, es)[j] == (
            fs[j].0,
            decode_value(fs[j].1, es[j]),
        ) by {
            if j > 0 {
                assert(fs.drop_first()[j - 1] == fs[j]);
                assert(es.drop_first()[j - 1] == es[j]);
                assert(decode_fields(fs, es)[j] == decode_fields(
                    fs.drop_first(),
                    es.drop_first(),
                )[j - 1]);
            }
        }
    }
}

/// Law: with an all-primitive schema and a row of matching length, the
/// decoded object is exactly the positional zip of field names and raw
/// values; the complex-type machinery plays no part.
pub proof fn lemma_flat_schema_zip(fs: Seq<(Seq<char>, TypeModel)>, es: Seq<JsonModel>)
    requires
        fs.len() == es.len(),
        forall|j: int| 0 <= j < fs.len() ==> (#[trigger] fs[j].1) is Primitive,
    ensures
        decode_fields(fs, es) == Seq::new(fs.len(), |j: int| (fs[j].0, es[j])),
{
    lemma_decode_fields_shape(fs, es);
    assert forall|j: int|
        0 <= j < fs.len() implies #[trigger] decode_fields(fs, es)[j] == (fs[j].0, es[j]) by {
        assert(decode_value(fs[j].1, es[j]) == es[j]);
    }
    assert(decode_fields(fs, es) =~= Seq::new(fs.len(), |j: int| (fs[j].0, es[j])));
}

/// Law: decoding a list of rows succeeds exactly when every row is an
/// array of the schema's length; any mismatched row fails the whole list,
/// so nothing is ever silently dropped or padded.
pub proof fn lemma_decode_rows_ok_iff(schema: Seq<(Seq<char>, TypeModel)>, rows: Seq<JsonModel>)
    ensures
        decode_rows(schema, rows) is Ok <==> (forall|i: int|
            0 <= i < rows.len() ==> (#[trigger] rows[i]) is Array && rows[i]->Array_0.len()
                == schema.len()),
    decreases rows.len(),
{
    if rows.len() > 0 {
        lemma_decode_rows_ok_iff(schema, rows.drop_first());
        assert forall|i: int| 0 <= i < rows.drop_first().len() implies rows.drop_first()[i]
            == rows[i + 1] by {}
        if decode_rows(schema, rows) is Ok {
            assert forall|i: int|
                0 <= i < rows.len() implies (#[trigger] rows[i]) is Array
                && rows[i]->Array_0.len() == schema.len() by {
                if i > 0 {
                    assert(rows.drop_first()[i - 1] == rows[i]);
                }
            }
        } else {
            if rows[0] is Array && rows[0]->Array_0.len() == schema.len() {
                assert(decode_rows(schema, rows.drop_first()) is Err);
            }
        }
    }
}

/// Law: a successfully decoded table has one object per row, and each
/// object has exactly the schema's field count of keys, in schema order.
pub proof fn lemma_decoded_objects_shape(
    schema: Seq<(Seq<char>, TypeModel)>,
    rows: Seq<JsonModel>,
    out: Seq<JsonModel>,
)
    requires
        decode_rows(schema, rows) == Ok::<Seq<JsonModel>, DecodeError>(out),
    ensures
        out.len() == rows.len(),
        forall|i: int| 0 <= i < out.len() ==> (#[trigger] out[i]) is Object,
        forall|i: int|
            0 <= i < out.len() ==> (#[trigger] out[i])->Object_0.len() == schema.len(),
        forall|i: int, j: int|
            0 <= i < out.len() && 0 <= j < schema.len() ==> (#[trigger] out[i]->Object_0[j]).0
                == schema[j].0,
    decreases rows.len(),
{
    if rows.len() > 0 {
        let es = rows[0]->Array_0;
        let rest = decode_rows(schema, rows.drop_first())->Ok_0;
        lemma_decoded_objects_shape(schema, rows.drop_first(), rest);
        lemma_decode_fields_shape(schema, es);
        assert(out == seq![JsonModel::Object(decode_fields(schema, es))] + rest);
        assert forall|i: int| 0 <= i < out.len() implies (#[trigger] out[i]) is Object
            && out[i]->Object_0.len() == schema.len() by {
            if i > 0 {
                assert(out[i] == rest[i - 1]);
            }
        }
        assert forall|i: int, j: int|
            0 <= i < out.len() && 0 <= j < schema.len() implies (
        #[trigger] out[i]->Object_0[j]).0 == schema[j].0 by {
            if i > 0 {
                assert(out[i] == rest[i - 1]);
            }
        }
    }
}

} // verus!
