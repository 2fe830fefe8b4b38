//! Column descriptions, column defines, LOB values and decoded row values.

use vstd::prelude::*;
use std::sync::Arc;
use vstd::string::StringSliceAdditionalSpecFns;
use crate::constants::{
    CS_FORM_IMPLICIT, ORA_TYPE_NUM_BFILE, ORA_TYPE_NUM_BINARY_INTEGER, ORA_TYPE_NUM_BLOB,
    ORA_TYPE_NUM_CHAR, ORA_TYPE_NUM_CLOB, ORA_TYPE_NUM_DATE, ORA_TYPE_NUM_JSON, ORA_TYPE_NUM_LONG,
    ORA_TYPE_NUM_NUMBER, ORA_TYPE_NUM_ROWID, ORA_TYPE_NUM_UROWID, ORA_TYPE_NUM_VARCHAR,
    ORA_TYPE_NUM_VECTOR, TNS_BIND_USE_INDICATORS, TNS_CHARSET_UTF8, TNS_JSON_MAX_LENGTH,
    TNS_LOB_PREFETCH_FLAG, TNS_MAX_UROWID_LENGTH, TNS_VECTOR_MAX_LENGTH,
};
use crate::date::OracleDate;
use crate::error::Error;
use crate::text::{
    int_text, nat_text, padded_text, push_int_text, push_nat_text, push_padded, utf16_lossy,
    utf16_lossy_of, utf8_lossy, utf8_lossy_of,
};

verus! {

// ---------------------------------------------------------------------------
// Oracle types
// ---------------------------------------------------------------------------

/// A column's data type with what the type carries.
#[derive(Debug, Clone, Copy, PartialEq, Eq, Structural)]
pub enum OracleType {
    Varchar2 { max_size: u32 },
    Number { precision: i8, scale: i8 },
    BinaryInteger,
    Long,
    Char { max_size: u32 },
    Date,
    Clob,
    Nclob,
    Blob,
}

/// The type a raw type number names, or `None` for types this client does not decode.
pub open spec fn spec_type_from_raw(t: u8, precision: i8, scale: i8, max_size: u32) -> Option<
    OracleType,
> {
    if t == ORA_TYPE_NUM_VARCHAR {
        Some(OracleType::Varchar2 { max_size })
    } else if t == ORA_TYPE_NUM_NUMBER {
        Some(OracleType::Number { precision, scale })
    } else if t == ORA_TYPE_NUM_BINARY_INTEGER {
        Some(OracleType::BinaryInteger)
    } else if t == ORA_TYPE_NUM_LONG {
        Some(OracleType::Long)
    } else if t == ORA_TYPE_NUM_CHAR {
        Some(OracleType::Char { max_size })
    } else if t == ORA_TYPE_NUM_DATE {
        Some(OracleType::Date)
    } else if t == ORA_TYPE_NUM_CLOB {
        Some(OracleType::Clob)
    } else if t == ORA_TYPE_NUM_BLOB {
        Some(OracleType::Blob)
    } else {
        None
    }
}

impl OracleType {
    /// The type for a raw type number and its attributes.
    pub fn from_raw(oracle_type: u8, precision: i8, scale: i8, max_size: u32) -> (r: Result<
        OracleType,
        Error,
    >)
        ensures
            match spec_type_from_raw(oracle_type, precision, scale, max_size) {
                Some(t) => r == Ok::<OracleType, Error>(t),
                None => r == Err::<OracleType, Error>(
                    Error::UnsupportedType { type_num: oracle_type },
                ),
            },
    {
        let t = oracle_type as u16;
        if t == ORA_TYPE_NUM_VARCHAR {
            Ok(OracleType::Varchar2 { max_size })
        } else if t == ORA_TYPE_NUM_NUMBER {
            Ok(OracleType::Number { precision, scale })
        } else if t == ORA_TYPE_NUM_BINARY_INTEGER {
            Ok(OracleType::BinaryInteger)
        } else if t == ORA_TYPE_NUM_LONG {
            Ok(OracleType::Long)
        } else if t == ORA_TYPE_NUM_CHAR {
            Ok(OracleType::Char { max_size })
        } else if t == ORA_TYPE_NUM_DATE {
            Ok(OracleType::Date)
        } else if t == ORA_TYPE_NUM_CLOB {
            Ok(OracleType::Clob)
        } else if t == ORA_TYPE_NUM_BLOB {
            Ok(OracleType::Blob)
        } else {
            Err(Error::UnsupportedType { type_num: oracle_type })
        }
    }

    /// The raw type number; NCLOB shares CLOB's.
    pub fn type_num(&self) -> (r: u8)
        ensures
            r == match *self {
                OracleType::Varchar2 { .. } => ORA_TYPE_NUM_VARCHAR as u8,
                OracleType::Number { .. } => ORA_TYPE_NUM_NUMBER as u8,
                OracleType::BinaryInteger => ORA_TYPE_NUM_BINARY_INTEGER as u8,
                OracleType::Long => ORA_TYPE_NUM_LONG as u8,
                OracleType::Char { .. } => ORA_TYPE_NUM_CHAR as u8,
                OracleType::Date => ORA_TYPE_NUM_DATE as u8,
                OracleType::Clob | OracleType::Nclob => ORA_TYPE_NUM_CLOB as u8,
                OracleType::Blob => ORA_TYPE_NUM_BLOB as u8,
            },
    {
        match self {
            OracleType::Varchar2 { .. } => ORA_TYPE_NUM_VARCHAR as u8,
            OracleType::Number { .. } => ORA_TYPE_NUM_NUMBER as u8,
            OracleType::BinaryInteger => ORA_TYPE_NUM_BINARY_INTEGER as u8,
            OracleType::Long => ORA_TYPE_NUM_LONG as u8,
            OracleType::Char { .. } => ORA_TYPE_NUM_CHAR as u8,
            OracleType::Date => ORA_TYPE_NUM_DATE as u8,
            OracleType::Clob | OracleType::Nclob => ORA_TYPE_NUM_CLOB as u8,
            OracleType::Blob => ORA_TYPE_NUM_BLOB as u8,
        }
    }

    /// The precision of a NUMBER, else 0.
    pub fn precision(&self) -> (r: i8)
        ensures
            r == match *self {
                OracleType::Number { precision, .. } => precision,
                _ => 0,
            },
    {
        match self {
            OracleType::Number { precision, .. } => *precision,
            _ => 0,
        }
    }

    /// The scale of a NUMBER, else 0.
    pub fn scale(&self) -> (r: i8)
        ensures
            r == match *self {
                OracleType::Number { scale, .. } => scale,
                _ => 0,
            },
    {
        match self {
            OracleType::Number { scale, .. } => *scale,
            _ => 0,
        }
    }

    /// The declared size of VARCHAR2 and CHAR, else 0.
    pub fn max_size(&self) -> (r: u32)
        ensures
            r == match *self {
                OracleType::Varchar2 { max_size } => max_size,
                OracleType::Char { max_size } => max_size,
                _ => 0,
            },
    {
        match self {
            OracleType::Varchar2 { max_size } => *max_size,
            OracleType::Char { max_size } => *max_size,
            _ => 0,
        }
    }

    /// The SQL spelling of the type, such as `VARCHAR2(50)` or `NUMBER(10,2)`.
    pub fn to_string(&self) -> (r: String)
        ensures
            r@ == utf8_lossy_of(spec_type_text(*self)),
    {
        let mut out: Vec<u8> = Vec::new();
        match self {
            OracleType::Varchar2 { max_size } => {
                crate::codec::write_bytes(&mut out, "VARCHAR2(".as_bytes());
                push_int_text(&mut out, *max_size as i64);
                out.push(41);
            },
            OracleType::Number { precision, scale } => {
                crate::codec::write_bytes(&mut out, "NUMBER".as_bytes());
                if *precision == 0 && *scale == 0 {
                } else if *scale == 0 {
                    out.push(40);
                    push_int_text(&mut out, *precision as i64);
                    out.push(41);
                } else {
                    out.push(40);
                    push_int_text(&mut out, *precision as i64);
                    out.push(44);
                    push_int_text(&mut out, *scale as i64);
                    out.push(41);
                }
            },
            OracleType::BinaryInteger => {
                crate::codec::write_bytes(&mut out, "BINARY_INTEGER".as_bytes());
            },
            OracleType::Long => {
                crate::codec::write_bytes(&mut out, "LONG".as_bytes());
            },
            OracleType::Char { max_size } => {
                crate::codec::write_bytes(&mut out, "CHAR(".as_bytes());
                push_int_text(&mut out, *max_size as i64);
                out.push(41);
            },
            OracleType::Date => {
                crate::codec::write_bytes(&mut out, "DATE".as_bytes());
            },
            OracleType::Clob => {
                crate::codec::write_bytes(&mut out, "CLOB".as_bytes());
            },
            OracleType::Nclob => {
                crate::codec::write_bytes(&mut out, "NCLOB".as_bytes());
            },
            OracleType::Blob => {
                crate::codec::write_bytes(&mut out, "BLOB".as_bytes());
            },
        }
        assert(out@ =~= spec_type_text(*self));
        utf8_lossy(out.as_slice())
    }
}

/// The SQL spelling of a type, as bytes.
pub open spec fn spec_type_text(t: OracleType) -> Seq<u8> {
    match t {
        OracleType::Varchar2 { max_size } => "VARCHAR2(".spec_bytes() + int_text(max_size as int)
            + seq![41u8],
        OracleType::Number { precision, scale } => "NUMBER".spec_bytes() + if precision == 0
            && scale == 0 {
            Seq::empty()
        } else if scale == 0 {
            seq![40u8] + int_text(precision as int) + seq![41u8]
        } else {
            seq![40u8] + int_text(precision as int) + seq![44u8] + int_text(scale as int) + seq![
                41u8,
            ]
        },
        OracleType::BinaryInteger => "BINARY_INTEGER".spec_bytes(),
        OracleType::Long => "LONG".spec_bytes(),
        OracleType::Char { max_size } => "CHAR(".spec_bytes() + int_text(max_size as int) + seq![
            41u8,
        ],
        OracleType::Date => "DATE".spec_bytes(),
        OracleType::Clob => "CLOB".spec_bytes(),
        OracleType::Nclob => "NCLOB".spec_bytes(),
        OracleType::Blob => "BLOB".spec_bytes(),
    }
}

// ---------------------------------------------------------------------------
// Column metadata
// ---------------------------------------------------------------------------

/// A column as the server describes it on the wire.
#[derive(Debug, Clone)]
pub struct ColumnMetadata {
    pub name: String,
    pub oracle_type: u8,
    pub precision: i8,
    pub scale: i8,
    pub max_size: u32,
    pub buffer_size: u32,
    pub nullable: bool,
}

impl ColumnMetadata {
    /// A nullable column with no size, precision or scale.
    pub fn new(name: String, oracle_type: u8) -> (r: ColumnMetadata)
        ensures
            r.name == name,
            r.oracle_type == oracle_type,
            r.precision == 0 && r.scale == 0 && r.max_size == 0 && r.buffer_size == 0,
            r.nullable,
    {
        ColumnMetadata {
            name,
            oracle_type,
            precision: 0,
            scale: 0,
            max_size: 0,
            buffer_size: 0,
            nullable: true,
        }
    }
}

/// A column of a result set.
#[derive(Debug, Clone)]
pub struct Column {
    pub name: String,
    pub nullable: bool,
    pub data_type: OracleType,
    pub oracle_type_num: u8,
}

impl Column {
    /// The column a description gives, if its type is one this client decodes.
    pub fn from_metadata(meta: &ColumnMetadata) -> (r: Result<Column, Error>)
        ensures
            match spec_type_from_raw(meta.oracle_type, meta.precision, meta.scale, meta.max_size) {
                Some(t) => r is Ok && r->Ok_0.name == meta.name && r->Ok_0.nullable
                    == meta.nullable && r->Ok_0.data_type == t && r->Ok_0.oracle_type_num
                    == meta.oracle_type,
                None => r == Err::<Column, Error>(
                    Error::UnsupportedType { type_num: meta.oracle_type },
                ),
            },
    {
        let data_type = OracleType::from_raw(
            meta.oracle_type,
            meta.precision,
            meta.scale,
            meta.max_size,
        )?;
        Ok(
            Column {
                name: meta.name.clone(),
                nullable: meta.nullable,
                data_type,
                oracle_type_num: meta.oracle_type,
            },
        )
    }
}

/// The columns shared by all rows of a result set.
#[derive(Debug, Clone)]
pub struct ColumnInfo {
    pub columns: Vec<Column>,
}

/// What `str::to_uppercase` makes of a string.
pub uninterp spec fn upper_of(s: Seq<char>) -> Seq<char>;

/// Relies on `str::to_uppercase`: the result depends on the characters alone.
#[verifier::external_body]
fn uppercase(s: &str) -> (r: String)
    ensures
        r@ == upper_of(s@),
{
    s.to_uppercase()
}

/// The views of strings.
pub open spec fn string_views(names: Seq<String>) -> Seq<Seq<char>> {
    names.map_values(|s: String| s@)
}

/// The upper-cased names of columns.
pub open spec fn upper_names(cols: Seq<Column>) -> Seq<Seq<char>> {
    cols.map_values(|c: Column| upper_of(c.name@))
}

/// The first position whose folded name equals `folded`.
pub open spec fn first_match(names: Seq<Seq<char>>, folded: Seq<char>, i: int) -> bool {
    0 <= i < names.len() && names[i] == folded && forall|j: int|
        0 <= j < i ==> names[j] != folded
}

/// Finds the first of the folded names that equals the folded query.
pub fn position_of_folded(names: &Vec<String>, folded: &String) -> (r: Option<usize>)
    ensures
        match r {
            Some(i) => first_match(string_views(names@), folded@, i as int),
            None => forall|j: int| 0 <= j < names@.len() ==> names@[j]@ != folded@,
        },
{
    let mut i: usize = 0;
    while i < names.len()
        invariant
            i <= names@.len(),
            forall|j: int| 0 <= j < i ==> names@[j]@ != folded@,
        decreases names@.len() - i,
    {
        if names[i] == *folded {
            return Some(i);
        }
        i = i + 1;
    }
    None
}

impl ColumnInfo {
    /// Wraps the columns.
    pub fn new(columns: Vec<Column>) -> (r: ColumnInfo)
        ensures
            r.columns@ == columns@,
    {
        ColumnInfo { columns }
    }

    /// The columns of the descriptions, failing on the first unsupported type.
    pub fn from_metadata(metadata: &[ColumnMetadata]) -> (r: Result<ColumnInfo, Error>)
        ensures
            (forall|i: int|
                0 <= i < metadata@.len() ==> #[trigger] spec_type_from_raw(
                    metadata@[i].oracle_type,
                    metadata@[i].precision,
                    metadata@[i].scale,
                    metadata@[i].max_size,
                ) is Some) ==> r is Ok,
            r is Ok ==> r->Ok_0.columns@.len() == metadata@.len() && forall|i: int|
                0 <= i < metadata@.len() ==> Some(#[trigger] r->Ok_0.columns@[i].data_type)
                    == spec_type_from_raw(
                    metadata@[i].oracle_type,
                    metadata@[i].precision,
                    metadata@[i].scale,
                    metadata@[i].max_size,
                ) && r->Ok_0.columns@[i].name == metadata@[i].name,
            r is Err ==> r->Err_0 is UnsupportedType,
    {
        let mut columns: Vec<Column> = Vec::new();
        let mut i: usize = 0;
        while i < metadata.len()
            invariant
                i <= metadata@.len(),
                columns@.len() == i,
                forall|k: int|
                    0 <= k < i ==> Some(#[trigger] columns@[k].data_type) == spec_type_from_raw(
                        metadata@[k].oracle_type,
                        metadata@[k].precision,
                        metadata@[k].scale,
                        metadata@[k].max_size,
                    ) && columns@[k].name == metadata@[k].name,
            decreases metadata@.len() - i,
        {
            let c = Column::from_metadata(&metadata[i])?;
            columns.push(c);
            i = i + 1;
        }
        Ok(ColumnInfo { columns })
    }

    /// The column names in order.
    pub fn column_names(&self) -> (r: Vec<String>)
        ensures
            r@.len() == self.columns@.len(),
            forall|i: int| 0 <= i < r@.len() ==> #[trigger] r@[i] == self.columns@[i].name,
    {
        let mut out: Vec<String> = Vec::new();
        let mut i: usize = 0;
        while i < self.columns.len()
            invariant
                i <= self.columns@.len(),
                out@.len() == i,
                forall|k: int| 0 <= k < i ==> #[trigger] out@[k] == self.columns@[k].name,
            decreases self.columns@.len() - i,
        {
            out.push(self.columns[i].name.clone());
            i = i + 1;
        }
        out
    }

    /// Number of columns.
    pub fn len(&self) -> (r: usize)
        ensures
            r == self.columns@.len(),
    {
        self.columns.len()
    }

    /// No columns.
    pub fn is_empty(&self) -> (r: bool)
        ensures
            r == (self.columns@.len() == 0),
    {
        self.columns.len() == 0
    }

    /// The column at `index`.
    pub fn get(&self, index: usize) -> (r: Option<&Column>)
        ensures
            match r {
                Some(c) => index < self.columns@.len() && *c == self.columns@[index as int],
                None => index >= self.columns@.len(),
            },
    {
        if index < self.columns.len() {
            Some(&self.columns[index])
        } else {
            None
        }
    }

    /// The first column whose name equals `name`, ignoring case.
    pub fn find_by_name(&self, name: &str) -> (r: Option<usize>)
        ensures
            match r {
                Some(i) => first_match(upper_names(self.columns@), upper_of(name@), i as int),
                None => forall|j: int|
                    0 <= j < self.columns@.len() ==> upper_of(self.columns@[j].name@) != upper_of(
                        name@,
                    ),
            },
    {
        let folded = uppercase(name);
        let mut names: Vec<String> = Vec::new();
        let mut i: usize = 0;
        while i < self.columns.len()
            invariant
                i <= self.columns@.len(),
                names@.len() == i,
                forall|k: int| 0 <= k < i ==> #[trigger] names@[k]@ == upper_of(self.columns@[k].name@),
            decreases self.columns@.len() - i,
        {
            names.push(uppercase(self.columns[i].name.as_str()));
            i = i + 1;
        }
        let r = position_of_folded(&names, &folded);
        proof {
            assert(string_views(names@) =~= upper_names(self.columns@));
            assert(folded@ == upper_of(name@));
            match r {
                Some(i) => {
                    assert(first_match(string_views(names@), folded@, i as int));
                    assert(first_match(upper_names(self.columns@), upper_of(name@), i as int));
                },
                None => {
                    assert forall|j: int| 0 <= j < self.columns@.len() implies upper_of(
                        self.columns@[j].name@,
                    ) != upper_of(name@) by {
                        assert(names@[j]@ == upper_of(self.columns@[j].name@));
                    }
                },
            }
        }
        r
    }
}

// ---------------------------------------------------------------------------
// Column defines
// ---------------------------------------------------------------------------

/// How the client asks the server to send one column.
#[derive(Debug, Clone, Copy, PartialEq, Eq, Structural)]
pub struct FetchVarImpl {
    pub ora_type_num: u8,
    pub flags: u8,
    pub buffer_size: u32,
    pub max_num_elements: u32,
    pub cont_flag: u64,
    pub charset_id: u16,
    pub charset_form: u8,
    pub lob_prefetch_length: u32,
}

/// The define of a plain column.
pub open spec fn spec_fetch_var(ora_type_num: u8, buffer_size: u32, charset_form: u8) -> FetchVarImpl {
    FetchVarImpl {
        ora_type_num,
        flags: TNS_BIND_USE_INDICATORS as u8,
        buffer_size,
        max_num_elements: 0,
        cont_flag: 0,
        charset_id: if charset_form != 0 {
            TNS_CHARSET_UTF8
        } else {
            0
        },
        charset_form,
        lob_prefetch_length: 0,
    }
}

/// The define of a LOB column with prefetch asked for.
pub open spec fn spec_lob_var(ora_type_num: u8, buffer_size: u32, prefetch_length: u32) -> FetchVarImpl {
    let is_clob = ora_type_num == ORA_TYPE_NUM_CLOB as u8;
    FetchVarImpl {
        ora_type_num,
        flags: TNS_BIND_USE_INDICATORS as u8,
        buffer_size,
        max_num_elements: 0,
        cont_flag: TNS_LOB_PREFETCH_FLAG,
        charset_id: if is_clob {
            TNS_CHARSET_UTF8
        } else {
            0
        },
        charset_form: if is_clob {
            CS_FORM_IMPLICIT
        } else {
            0
        },
        lob_prefetch_length: prefetch_length,
    }
}

/// The define of a JSON column.
pub open spec fn spec_json_var() -> FetchVarImpl {
    FetchVarImpl {
        ora_type_num: ORA_TYPE_NUM_JSON as u8,
        flags: TNS_BIND_USE_INDICATORS as u8,
        buffer_size: TNS_JSON_MAX_LENGTH,
        max_num_elements: 0,
        cont_flag: TNS_LOB_PREFETCH_FLAG,
        charset_id: TNS_CHARSET_UTF8,
        charset_form: CS_FORM_IMPLICIT,
        lob_prefetch_length: TNS_JSON_MAX_LENGTH,
    }
}

/// The define of a VECTOR column.
pub open spec fn spec_vector_var() -> FetchVarImpl {
    FetchVarImpl {
        ora_type_num: ORA_TYPE_NUM_VECTOR as u8,
        flags: TNS_BIND_USE_INDICATORS as u8,
        buffer_size: TNS_VECTOR_MAX_LENGTH,
        max_num_elements: 0,
        cont_flag: TNS_LOB_PREFETCH_FLAG,
        charset_id: 0,
        charset_form: 0,
        lob_prefetch_length: TNS_VECTOR_MAX_LENGTH,
    }
}

/// The define for a described column: ROWIDs as text, LOBs with prefetch, JSON
/// and VECTOR at their own sizes, character types in the implicit form.
pub open spec fn spec_define_for(t: u8, buffer_size: u32, lob_prefetch_size: u32) -> FetchVarImpl {
    let lob_buffer = if lob_prefetch_size > 0 {
        lob_prefetch_size
    } else {
        buffer_size
    };
    if t == ORA_TYPE_NUM_ROWID || t == ORA_TYPE_NUM_UROWID {
        spec_fetch_var(ORA_TYPE_NUM_VARCHAR as u8, TNS_MAX_UROWID_LENGTH, 0)
    } else if t == ORA_TYPE_NUM_CLOB || t == ORA_TYPE_NUM_BLOB {
        spec_lob_var(t, lob_buffer, lob_prefetch_size)
    } else if t == ORA_TYPE_NUM_BFILE {
        spec_lob_var(t, buffer_size, 0)
    } else if t == ORA_TYPE_NUM_JSON {
        spec_json_var()
    } else if t == ORA_TYPE_NUM_VECTOR {
        spec_vector_var()
    } else if t == ORA_TYPE_NUM_VARCHAR || t == ORA_TYPE_NUM_CHAR || t == ORA_TYPE_NUM_LONG {
        spec_fetch_var(t, buffer_size, 1)
    } else {
        spec_fetch_var(t, buffer_size, 0)
    }
}

impl FetchVarImpl {
    /// The define of a plain column; character forms other than 0 get UTF-8.
    pub fn new(ora_type_num: u8, buffer_size: u32, charset_form: u8) -> (r: FetchVarImpl)
        ensures
            r == spec_fetch_var(ora_type_num, buffer_size, charset_form),
    {
        FetchVarImpl {
            ora_type_num,
            flags: TNS_BIND_USE_INDICATORS as u8,
            buffer_size,
            max_num_elements: 0,
            cont_flag: 0,
            charset_id: if charset_form != 0 {
                TNS_CHARSET_UTF8
            } else {
                0
            },
            charset_form,
            lob_prefetch_length: 0,
        }
    }

    /// The define of a LOB column that asks for up to `prefetch_length` bytes inline.
    pub fn new_lob(ora_type_num: u8, buffer_size: u32, prefetch_length: u32) -> (r: FetchVarImpl)
        ensures
            r == spec_lob_var(ora_type_num, buffer_size, prefetch_length),
    {
        let is_clob = ora_type_num == ORA_TYPE_NUM_CLOB as u8;
        FetchVarImpl {
            ora_type_num,
            flags: TNS_BIND_USE_INDICATORS as u8,
            buffer_size,
            max_num_elements: 0,
            cont_flag: TNS_LOB_PREFETCH_FLAG,
            charset_id: if is_clob {
                TNS_CHARSET_UTF8
            } else {
                0
            },
            charset_form: if is_clob {
                CS_FORM_IMPLICIT
            } else {
                0
            },
            lob_prefetch_length: prefetch_length,
        }
    }

    /// The define of a JSON column.
    pub fn new_json() -> (r: FetchVarImpl)
        ensures
            r == spec_json_var(),
    {
        FetchVarImpl {
            ora_type_num: ORA_TYPE_NUM_JSON as u8,
            flags: TNS_BIND_USE_INDICATORS as u8,
            buffer_size: TNS_JSON_MAX_LENGTH,
            max_num_elements: 0,
            cont_flag: TNS_LOB_PREFETCH_FLAG,
            charset_id: TNS_CHARSET_UTF8,
            charset_form: CS_FORM_IMPLICIT,
            lob_prefetch_length: TNS_JSON_MAX_LENGTH,
        }
    }

    /// The define of a VECTOR column.
    pub fn new_vector() -> (r: FetchVarImpl)
        ensures
            r == spec_vector_var(),
    {
        FetchVarImpl {
            ora_type_num: ORA_TYPE_NUM_VECTOR as u8,
            flags: TNS_BIND_USE_INDICATORS as u8,
            buffer_size: TNS_VECTOR_MAX_LENGTH,
            max_num_elements: 0,
            cont_flag: TNS_LOB_PREFETCH_FLAG,
            charset_id: 0,
            charset_form: 0,
            lob_prefetch_length: TNS_VECTOR_MAX_LENGTH,
        }
    }

    /// CLOB, BLOB or BFILE.
    pub fn is_lob(&self) -> (r: bool)
        ensures
            r == (self.ora_type_num == ORA_TYPE_NUM_CLOB || self.ora_type_num == ORA_TYPE_NUM_BLOB
                || self.ora_type_num == ORA_TYPE_NUM_BFILE),
    {
        let t = self.ora_type_num as u16;
        t == ORA_TYPE_NUM_CLOB || t == ORA_TYPE_NUM_BLOB || t == ORA_TYPE_NUM_BFILE
    }

    /// The define asks for LOB data inline.
    pub fn has_lob_prefetch(&self) -> (r: bool)
        ensures
            r == (self.cont_flag & TNS_LOB_PREFETCH_FLAG != 0),
    {
        self.cont_flag & TNS_LOB_PREFETCH_FLAG != 0
    }
}

/// The defines for described columns, one per column in order.
pub fn build_fetch_vars_from_metadata(columns: &[ColumnMetadata], lob_prefetch_size: u32) -> (r: Vec<
    FetchVarImpl,
>)
    ensures
        r@.len() == columns@.len(),
        forall|i: int|
            0 <= i < r@.len() ==> #[trigger] r@[i] == spec_define_for(
                columns@[i].oracle_type,
                columns@[i].buffer_size,
                lob_prefetch_size,
            ),
{
    let mut out: Vec<FetchVarImpl> = Vec::new();
    let mut i: usize = 0;
    while i < columns.len()
        invariant
            i <= columns@.len(),
            out@.len() == i,
            forall|k: int|
                0 <= k < i ==> #[trigger] out@[k] == spec_define_for(
                    columns@[k].oracle_type,
                    columns@[k].buffer_size,
                    lob_prefetch_size,
                ),
        decreases columns@.len() - i,
    {
        let t = columns[i].oracle_type;
        let buffer_size = columns[i].buffer_size;
        let tn = t as u16;
        let lob_buffer = if lob_prefetch_size > 0 {
            lob_prefetch_size
        } else {
            buffer_size
        };
        let v = if tn == ORA_TYPE_NUM_ROWID || tn == ORA_TYPE_NUM_UROWID {
            FetchVarImpl::new(ORA_TYPE_NUM_VARCHAR as u8, TNS_MAX_UROWID_LENGTH, 0)
        } else if tn == ORA_TYPE_NUM_CLOB || tn == ORA_TYPE_NUM_BLOB {
            FetchVarImpl::new_lob(t, lob_buffer, lob_prefetch_size)
        } else if tn == ORA_TYPE_NUM_BFILE {
            FetchVarImpl::new_lob(t, buffer_size, 0)
        } else if tn == ORA_TYPE_NUM_JSON {
            FetchVarImpl::new_json()
        } else if tn == ORA_TYPE_NUM_VECTOR {
            FetchVarImpl::new_vector()
        } else if tn == ORA_TYPE_NUM_VARCHAR || tn == ORA_TYPE_NUM_CHAR || tn == ORA_TYPE_NUM_LONG {
            FetchVarImpl::new(t, buffer_size, 1)
        } else {
            FetchVarImpl::new(t, buffer_size, 0)
        };
        out.push(v);
        i = i + 1;
    }
    out
}

// ---------------------------------------------------------------------------
// LOBs
// ---------------------------------------------------------------------------

/// Offset of the locator byte holding the BLOB and abstract flags.
pub const TNS_LOB_LOC_OFFSET_FLAG_1: usize = 4;
/// Offset of the locator byte holding the temporary flag.
pub const TNS_LOB_LOC_OFFSET_FLAG_4: usize = 7;
/// Flag of a BLOB, at offset 4.
pub const TNS_LOB_LOC_FLAGS_BLOB: u8 = 0x01;
/// Flag of an abstract LOB, at offset 4.
pub const TNS_LOB_LOC_FLAGS_ABSTRACT: u8 = 0x40;
/// Flag of a temporary LOB, at offset 7.
pub const TNS_LOB_LOC_FLAGS_TEMP: u8 = 0x01;

/// The handle by which the server names a large object.
#[derive(Debug, Clone, PartialEq)]
pub struct LobLocator {
    pub locator: Vec<u8>,
    pub size: u64,
    pub chunk_size: u32,
    pub has_metadata: bool,
}

/// The flag bit `f` is set in byte `off` of the locator, which must be long enough.
pub open spec fn locator_flag(l: Seq<u8>, off: int, f: u8) -> bool {
    l.len() > off && l[off] & f != 0
}

impl LobLocator {
    /// A locator with its size and chunk size.
    pub fn new(locator: Vec<u8>, size: u64, chunk_size: u32, has_metadata: bool) -> (r: LobLocator)
        ensures
            r.locator@ == locator@,
            r.size == size,
            r.chunk_size == chunk_size,
            r.has_metadata == has_metadata,
    {
        LobLocator { locator, size, chunk_size, has_metadata }
    }

    /// Forty zero bytes, for a temporary LOB.
    pub fn empty() -> (r: LobLocator)
        ensures
            r.locator@ == Seq::new(40, |i: int| 0u8),
            r.size == 0 && r.chunk_size == 0 && !r.has_metadata,
    {
        let mut locator: Vec<u8> = Vec::new();
        crate::codec::write_zeros(&mut locator, 40);
        LobLocator { locator, size: 0, chunk_size: 0, has_metadata: false }
    }

    /// The locator marks a BLOB.
    pub fn is_blob(&self) -> (r: bool)
        ensures
            r == locator_flag(self.locator@, 4, TNS_LOB_LOC_FLAGS_BLOB),
    {
        self.locator.len() > TNS_LOB_LOC_OFFSET_FLAG_1 && self.locator[TNS_LOB_LOC_OFFSET_FLAG_1]
            & TNS_LOB_LOC_FLAGS_BLOB != 0
    }

    /// The locator marks a temporary LOB.
    pub fn is_temp(&self) -> (r: bool)
        ensures
            r == locator_flag(self.locator@, 7, TNS_LOB_LOC_FLAGS_TEMP),
    {
        self.locator.len() > TNS_LOB_LOC_OFFSET_FLAG_4 && self.locator[TNS_LOB_LOC_OFFSET_FLAG_4]
            & TNS_LOB_LOC_FLAGS_TEMP != 0
    }

    /// The locator marks an abstract LOB.
    pub fn is_abstract(&self) -> (r: bool)
        ensures
            r == locator_flag(self.locator@, 4, TNS_LOB_LOC_FLAGS_ABSTRACT),
    {
        self.locator.len() > TNS_LOB_LOC_OFFSET_FLAG_1 && self.locator[TNS_LOB_LOC_OFFSET_FLAG_1]
            & TNS_LOB_LOC_FLAGS_ABSTRACT != 0
    }
}

/// A LOB: its locator and, when it fitted the prefetch length, its data.
#[derive(Debug, Clone, PartialEq)]
pub struct LobValue {
    pub locator: LobLocator,
    pub data: Option<Vec<u8>>,
}

/// Big-endian UTF-16 code units of the bytes; a trailing odd byte is dropped.
pub open spec fn utf16_units(d: Seq<u8>) -> Seq<u16> {
    Seq::new(d.len() / 2, |i: int| (d[2 * i] as u16 * 256 + d[2 * i + 1] as u16) as u16)
}

impl LobValue {
    /// A LOB whose data came inline.
    pub fn with_data(locator: LobLocator, data: Vec<u8>) -> (r: LobValue)
        ensures
            r.locator == locator,
            r.data is Some && r.data->Some_0@ == data@,
    {
        LobValue { locator, data: Some(data) }
    }

    /// A LOB known only by its locator.
    pub fn locator_only(locator: LobLocator) -> (r: LobValue)
        ensures
            r.locator == locator,
            r.data is None,
    {
        LobValue { locator, data: None }
    }

    /// The data came inline.
    pub fn has_data(&self) -> (r: bool)
        ensures
            r == self.data is Some,
    {
        self.data.is_some()
    }

    /// The inline data of a CLOB, decoded from big-endian UTF-16.
    pub fn as_string(&self) -> (r: Option<String>)
        ensures
            match self.data {
                Some(d) => r is Some && r->Some_0@ == utf16_lossy_of(utf16_units(d@)),
                None => r is None,
            },
    {
        match &self.data {
            None => None,
            Some(d) => {
                let mut units: Vec<u16> = Vec::new();
                let mut i: usize = 0;
                while i < d.len() / 2
                    invariant
                        i <= d@.len() / 2,
                        units@ == utf16_units(d@).subrange(0, i as int),
                    decreases d@.len() / 2 - i,
                {
                    units.push(d[2 * i] as u16 * 256 + d[2 * i + 1] as u16);
                    i = i + 1;
                    assert(units@ =~= utf16_units(d@).subrange(0, i as int));
                }
                assert(units@ =~= utf16_units(d@));
                Some(utf16_lossy(units.as_slice()))
            },
        }
    }

    /// The inline data of a BLOB.
    pub fn as_bytes(&self) -> (r: Option<&[u8]>)
        ensures
            match self.data {
                Some(d) => r is Some && r->Some_0@ == d@,
                None => r is None,
            },
    {
        match &self.data {
            Some(d) => Some(d.as_slice()),
            None => None,
        }
    }

    /// The LOB's size in characters (CLOB) or bytes (BLOB).
    pub fn size(&self) -> (r: u64)
        ensures
            r == self.locator.size,
    {
        self.locator.size
    }

    /// The locator is empty.
    pub fn is_null(&self) -> (r: bool)
        ensures
            r == (self.locator.locator@.len() == 0),
    {
        self.locator.locator.len() == 0
    }
}

// ---------------------------------------------------------------------------
// Values and rows
// ---------------------------------------------------------------------------

/// One decoded column value.
#[derive(Debug, Clone, PartialEq)]
pub enum OracleValue {
    Null,
    String(String),
    /// A NUMBER as its canonical decimal text.
    Number(String),
    Date(OracleDate),
    Clob(LobValue),
    Blob(LobValue),
    Raw(Vec<u8>),
}

impl OracleValue {
    /// The value is NULL.
    pub fn is_null(&self) -> (r: bool)
        ensures
            r == (*self is Null),
    {
        match self {
            OracleValue::Null => true,
            _ => false,
        }
    }

    /// The text of a string or a number.
    pub fn as_str(&self) -> (r: Option<&str>)
        ensures
            match *self {
                OracleValue::String(s) => r is Some && r->Some_0@ == s@,
                OracleValue::Number(s) => r is Some && r->Some_0@ == s@,
                _ => r is None,
            },
    {
        match self {
            OracleValue::String(s) => Some(s.as_str()),
            OracleValue::Number(s) => Some(s.as_str()),
            _ => None,
        }
    }

    /// A NUMBER's value as an `i64`, when its text is an integer that fits.
    pub fn to_i64(&self) -> (r: Option<i64>)
        ensures
            match *self {
                OracleValue::Number(s) => r == crate::text::spec_parse_i64(
                    crate::auth::str_bytes(s@),
                ),
                _ => r is None,
            },
    {
        match self {
            OracleValue::Number(s) => crate::text::parse_i64(s.as_str().as_bytes()),
            _ => None,
        }
    }

    /// The date of a DATE value.
    pub fn as_date(&self) -> (r: Option<OracleDate>)
        ensures
            match *self {
                OracleValue::Date(d) => r == Some(d),
                _ => r is None,
            },
    {
        match self {
            OracleValue::Date(d) => Some(*d),
            _ => None,
        }
    }

    /// The LOB of a CLOB value.
    pub fn as_clob(&self) -> (r: Option<&LobValue>)
        ensures
            match *self {
                OracleValue::Clob(l) => r == Some(&l),
                _ => r is None,
            },
    {
        match self {
            OracleValue::Clob(l) => Some(l),
            _ => None,
        }
    }

    /// The LOB of a BLOB value.
    pub fn as_blob(&self) -> (r: Option<&LobValue>)
        ensures
            match *self {
                OracleValue::Blob(l) => r == Some(&l),
                _ => r is None,
            },
    {
        match self {
            OracleValue::Blob(l) => Some(l),
            _ => None,
        }
    }

    /// The bytes of a RAW value.
    pub fn as_raw(&self) -> (r: Option<&[u8]>)
        ensures
            match *self {
                OracleValue::Raw(b) => r is Some && r->Some_0@ == b@,
                _ => r is None,
            },
    {
        match self {
            OracleValue::Raw(b) => Some(b.as_slice()),
            _ => None,
        }
    }

    /// The inline text of a CLOB value.
    pub fn clob_string(&self) -> (r: Option<String>)
        ensures
            match *self {
                OracleValue::Clob(l) => match l.data {
                    Some(d) => r is Some && r->Some_0@ == utf16_lossy_of(utf16_units(d@)),
                    None => r is None,
                },
                _ => r is None,
            },
    {
        match self {
            OracleValue::Clob(l) => l.as_string(),
            _ => None,
        }
    }
}

/// A date as `YYYY-MM-DD HH:MM:SS`; years past 9999 carry a `+`, years before 0 a `-`.
pub open spec fn date_text(d: OracleDate) -> Seq<u8> {
    (if d.year < 0 {
        seq![45u8] + padded_text((-d.year) as nat, 4)
    } else if d.year > 9999 {
        seq![43u8] + nat_text(d.year as nat)
    } else {
        padded_text(d.year as nat, 4)
    }) + seq![45u8] + padded_text(d.month as nat, 2) + seq![45u8] + padded_text(d.day as nat, 2)
        + seq![32u8] + padded_text(d.hour as nat, 2) + seq![58u8] + padded_text(d.minute as nat, 2)
        + seq![58u8] + padded_text(d.second as nat, 2)
}

/// `<KIND: n bytes>`.
pub open spec fn size_text(kind: Seq<u8>, n: nat) -> Seq<u8> {
    seq![60u8] + kind + seq![58u8, 32u8] + nat_text(n) + " bytes>".spec_bytes()
}

fn push_size_text(out: &mut Vec<u8>, kind: &str, n: u64)
    ensures
        final(out)@ == old(out)@ + size_text(kind.spec_bytes(), n as nat),
{
    out.push(60);
    crate::codec::write_bytes(out, kind.as_bytes());
    out.push(58);
    out.push(32);
    push_nat_text(out, n);
    crate::codec::write_bytes(out, " bytes>".as_bytes());
    assert(final(out)@ =~= old(out)@ + size_text(kind.spec_bytes(), n as nat));
}

fn date_bytes(d: &OracleDate) -> (r: Vec<u8>)
    ensures
        r@ == date_text(*d),
{
    let mut out: Vec<u8> = Vec::new();
    if d.year < 0 {
        out.push(45);
        push_padded(&mut out, (0 - (d.year as i64)) as u64, 4);
    } else if d.year > 9999 {
        out.push(43);
        push_nat_text(&mut out, d.year as u64);
    } else {
        push_padded(&mut out, d.year as u64, 4);
    }
    out.push(45);
    push_padded(&mut out, d.month as u64, 2);
    out.push(45);
    push_padded(&mut out, d.day as u64, 2);
    out.push(32);
    push_padded(&mut out, d.hour as u64, 2);
    out.push(58);
    push_padded(&mut out, d.minute as u64, 2);
    out.push(58);
    push_padded(&mut out, d.second as u64, 2);
    assert(out@ =~= date_text(*d));
    out
}

impl OracleValue {
    /// The value as text: `NULL`, the string or number, the date as
    /// `YYYY-MM-DD HH:MM:SS`, an inline CLOB's text, else the LOB or RAW size.
    pub fn to_string(&self) -> (r: String)
        ensures
            match *self {
                OracleValue::Null => r@ == utf8_lossy_of("NULL".spec_bytes()),
                OracleValue::String(s) => r@ == s@,
                OracleValue::Number(s) => r@ == s@,
                OracleValue::Date(d) => r@ == utf8_lossy_of(date_text(d)),
                OracleValue::Clob(l) => match l.data {
                    Some(x) => r@ == utf16_lossy_of(utf16_units(x@)),
                    None => r@ == utf8_lossy_of(size_text("CLOB".spec_bytes(), l.locator.size as nat)),
                },
                OracleValue::Blob(l) => r@ == utf8_lossy_of(
                    size_text(
                        "BLOB".spec_bytes(),
                        match l.data {
                            Some(x) => x@.len(),
                            None => l.locator.size as nat,
                        },
                    ),
                ),
                OracleValue::Raw(b) => r@ == utf8_lossy_of(size_text("RAW".spec_bytes(), b@.len())),
            },
    {
        match self {
            OracleValue::Null => utf8_lossy("NULL".as_bytes()),
            OracleValue::String(s) => s.clone(),
            OracleValue::Number(s) => s.clone(),
            OracleValue::Date(d) => {
                let b = date_bytes(d);
                utf8_lossy(b.as_slice())
            },
            OracleValue::Clob(l) => match l.as_string() {
                Some(text) => text,
                None => {
                    let mut out: Vec<u8> = Vec::new();
                    push_size_text(&mut out, "CLOB", l.locator.size);
                    utf8_lossy(out.as_slice())
                },
            },
            OracleValue::Blob(l) => {
                let n: u64 = match &l.data {
                    Some(x) => x.len() as u64,
                    None => l.locator.size,
                };
                let mut out: Vec<u8> = Vec::new();
                push_size_text(&mut out, "BLOB", n);
                utf8_lossy(out.as_slice())
            },
            OracleValue::Raw(b) => {
                let mut out: Vec<u8> = Vec::new();
                push_size_text(&mut out, "RAW", b.len() as u64);
                utf8_lossy(out.as_slice())
            },
        }
    }
}

/// A row of decoded values, sharing its result set's columns.
#[derive(Debug, Clone)]
pub struct Row {
    values: Vec<OracleValue>,
    column_info: Arc<ColumnInfo>,
}

impl Row {
    /// The values of the row, in column order.
    pub closed spec fn spec_values(&self) -> Seq<OracleValue> {
        self.values@
    }

    /// The columns the row shares.
    pub closed spec fn spec_columns(&self) -> Seq<Column> {
        self.column_info.columns@
    }

    /// A row of values over shared columns.
    pub fn new(values: Vec<OracleValue>, column_info: Arc<ColumnInfo>) -> (r: Row)
        ensures
            r.spec_values() == values@,
            r.spec_columns() == column_info.columns@,
    {
        Row { values, column_info }
    }

    /// The value at `index`.
    pub fn get(&self, index: usize) -> (r: Option<&OracleValue>)
        ensures
            match r {
                Some(v) => index < self.spec_values().len() && *v == self.spec_values()[index as int],
                None => index >= self.spec_values().len(),
            },
    {
        if index < self.values.len() {
            Some(&self.values[index])
        } else {
            None
        }
    }

    /// The value of the first column named `name`, ignoring case.
    pub fn get_by_name(&self, name: &str) -> (r: Option<&OracleValue>)
        ensures
            r is Some ==> exists|i: int|
                0 <= i < self.spec_values().len() && *r->Some_0 == self.spec_values()[i]
                    && first_match(upper_names(self.spec_columns()), upper_of(name@), i),
    {
        match self.column_info.find_by_name(name) {
            Some(i) => if i < self.values.len() {
                let v = &self.values[i];
                assert(first_match(upper_names(self.spec_columns()), upper_of(name@), i as int));
                assert(*v == self.spec_values()[i as int]);
                Some(v)
            } else {
                None
            },
            None => None,
        }
    }

    /// Number of values.
    pub fn len(&self) -> (r: usize)
        ensures
            r == self.spec_values().len(),
    {
        self.values.len()
    }

    /// No values.
    pub fn is_empty(&self) -> (r: bool)
        ensures
            r == (self.spec_values().len() == 0),
    {
        self.values.len() == 0
    }

    /// All values in column order.
    pub fn values(&self) -> (r: &[OracleValue])
        ensures
            r@ == self.spec_values(),
    {
        self.values.as_slice()
    }

    /// The columns of the result set.
    pub fn columns(&self) -> (r: &[Column])
        ensures
            r@ == self.spec_columns(),
    {
        self.column_info.columns.as_slice()
    }

    /// The column names of the result set.
    pub fn column_names(&self) -> (r: Vec<String>)
        ensures
            r@.len() == self.spec_columns().len(),
            forall|i: int| 0 <= i < r@.len() ==> #[trigger] r@[i] == self.spec_columns()[i].name,
    {
        self.column_info.column_names()
    }
}

} // verus!
