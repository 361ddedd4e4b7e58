//! The source-code generator: from a named list of fields it renders a
//! Rust file with the schema's constants and a typed facade over the codec.
//! Nothing here touches a file: the text is handed back to the caller.

use vstd::prelude::*;
use vstd::string::*;

verus! {

/// The version that generated files name.
pub const VERSION: &'static str = "0.1.0";

/// The first lines of every generated file, up to the schema's name.
pub const HEADER: &'static str = "#![allow(unknown_lints)]\n#![allow(clippy::all)]\n\n#![allow(unused_attributes)]\n#![cfg_attr(rustfmt, rustfmt_skip)]\n\n#![allow(box_pointers)]\n#![allow(dead_code)]\n#![allow(missing_docs)]\n#![allow(non_camel_case_types)]\n#![allow(non_snake_case)]\n#![allow(non_upper_case_globals)]\n#![allow(trivial_casts)]\n#![allow(unused_imports)]\n#![allow(unused_results)]\n//! Generated file by schema ";

/// The type of a field.
#[derive(Clone, Copy, Debug, PartialEq, Eq, Structural)]
pub enum DataType {
    BOOL,
    U8,
    I8,
    U16,
    I16,
    U32,
    I32,
    U64,
    I64,
    F32,
    F64,
    BINARY,
    STRING,
}

/// The parts of a generated file that have one entry per field.
#[derive(Clone, Copy, Debug, PartialEq, Eq, Structural)]
pub enum Part {
    Index,
    Type,
    Name,
    Getter,
    Setter,
    Member,
    Store,
    Load,
}

/// Whether `c` is an uppercase letter, as Unicode defines it.
pub uninterp spec fn char_is_uppercase(c: char) -> bool;

/// The uppercase form of a string, as Unicode defines it.
pub uninterp spec fn uppercase_of(s: Seq<char>) -> Seq<char>;

/// `char::is_uppercase`.
#[verifier::external_body]
fn is_uppercase(c: char) -> (r: bool)
    ensures
        r == char_is_uppercase(c),
{
    c.is_uppercase()
}

/// `char::to_ascii_lowercase`: the letters `A` to `Z` become `a` to `z`,
/// every other character stays.
#[verifier::external_body]
fn to_ascii_lowercase(c: char) -> (r: char)
    ensures
        r == ascii_lower(c),
{
    c.to_ascii_lowercase()
}

/// `str::to_uppercase`.
#[verifier::external_body]
fn to_uppercase(s: &str) -> (r: String)
    ensures
        r@ == uppercase_of(s@),
{
    s.to_uppercase()
}

/// `String::from_iter` over characters: the string made of them, in order.
#[verifier::external_body]
fn string_from_chars(v: &Vec<char>) -> (s: String)
    ensures
        s@ == v@,
{
    String::from_iter(v.iter())
}

/// Whether two strings hold the same characters.
fn string_eq(a: &str, b: &str) -> (r: bool)
    ensures
        r == (a@ == b@),
{
    String::from_str(a) == String::from_str(b)
}

/// The ASCII lowercase of a character.
pub open spec fn ascii_lower(c: char) -> char {
    if 'A' <= c && c <= 'Z' {
        ((c as u8) + 32) as u8 as char
    } else {
        c
    }
}

/// The character of a decimal digit.
pub open spec fn digit_char(d: nat) -> char {
    if d == 0 {
        '0'
    } else if d == 1 {
        '1'
    } else if d == 2 {
        '2'
    } else if d == 3 {
        '3'
    } else if d == 4 {
        '4'
    } else if d == 5 {
        '5'
    } else if d == 6 {
        '6'
    } else if d == 7 {
        '7'
    } else if d == 8 {
        '8'
    } else {
        '9'
    }
}

/// A number in decimal, without leading zeros.
pub open spec fn decimal(n: nat) -> Seq<char>
    decreases n,
{
    if n < 10 {
        seq![digit_char(n)]
    } else {
        decimal(n / 10) + seq![digit_char(n % 10)]
    }
}

/// The one-character string of a decimal digit.
fn digit_str(d: usize) -> (s: &'static str)
    requires
        d < 10,
    ensures
        s@ == seq![digit_char(d as nat)],
{
    proof {
        reveal_strlit("0");
        reveal_strlit("1");
        reveal_strlit("2");
        reveal_strlit("3");
        reveal_strlit("4");
        reveal_strlit("5");
        reveal_strlit("6");
        reveal_strlit("7");
        reveal_strlit("8");
        reveal_strlit("9");
    }
    let s = if d == 0 {
        "0"
    } else if d == 1 {
        "1"
    } else if d == 2 {
        "2"
    } else if d == 3 {
        "3"
    } else if d == 4 {
        "4"
    } else if d == 5 {
        "5"
    } else if d == 6 {
        "6"
    } else if d == 7 {
        "7"
    } else if d == 8 {
        "8"
    } else {
        "9"
    };
    assert(s@ =~= seq![digit_char(d as nat)]);
    s
}

/// Renders a number in decimal.
pub fn decimal_string(n: usize) -> (s: String)
    ensures
        s@ == decimal(n as nat),
    decreases n,
{
    if n < 10 {
        String::from_str(digit_str(n))
    } else {
        let mut s = decimal_string(n / 10);
        s.append(digit_str(n % 10));
        s
    }
}

/// The snake-case rendering of the first `n` characters of a name: an
/// underscore and the ASCII lowercase for every uppercase letter, the
/// character itself for every other.
pub open spec fn snake_raw(s: Seq<char>, n: nat) -> Seq<char>
    decreases n,
{
    if n == 0 || n > s.len() {
        Seq::<char>::empty()
    } else {
        snake_step(snake_raw(s, (n - 1) as nat), s[n - 1], char_is_uppercase(s[n - 1]))
    }
}

/// One character more in a snake-case rendering.
pub open spec fn snake_step(done: Seq<char>, c: char, upper: bool) -> Seq<char> {
    if upper {
        done.push('_').push(ascii_lower(c))
    } else {
        done.push(c)
    }
}

/// The snake-case form of a name: rendered character by character, and
/// without the underscore that a leading uppercase letter gives.
pub open spec fn snake_text(s: Seq<char>) -> Seq<char> {
    let raw = snake_raw(s, s.len());
    if raw.len() > 0 && raw[0] == '_' {
        raw.drop_first()
    } else {
        raw
    }
}

/// Appends the snake-case rendering of one character, given whether the
/// character is an uppercase letter.
pub fn push_snake(v: &mut Vec<char>, c: char, upper: bool)
    ensures
        final(v)@ == snake_step(old(v)@, c, upper),
{
    if upper {
        v.push('_');
        v.push(to_ascii_lowercase(c));
    } else {
        v.push(c);
    }
}

/// Turns a camel-case name into snake case.
pub fn to_snake(s: &str) -> (r: String)
    ensures
        r@ == snake_text(s@),
{
    let mut v: Vec<char> = Vec::new();
    let n: usize = s.unicode_len();
    let mut i: usize = 0;
    while i < n
        invariant
            i <= n,
            n == s@.len(),
            v@ == snake_raw(s@, i as nat),
        decreases n - i,
    {
        let c: char = s.get_char(i);
        let upper = is_uppercase(c);
        push_snake(&mut v, c, upper);
        i = i + 1;
    }
    if v.len() > 0 && v[0] == '_' {
        let _ = v.remove(0);
        assert(v@ =~= snake_raw(s@, n as nat).drop_first());
    }
    string_from_chars(&v)
}

/// The lower-case name of a data type, which is also its Rust type where it is a scalar.
pub open spec fn lower_text(dt: DataType) -> Seq<char> {
    match dt {
        DataType::BOOL => "bool"@,
        DataType::U8 => "u8"@,
        DataType::I8 => "i8"@,
        DataType::U16 => "u16"@,
        DataType::I16 => "i16"@,
        DataType::U32 => "u32"@,
        DataType::I32 => "i32"@,
        DataType::U64 => "u64"@,
        DataType::I64 => "i64"@,
        DataType::F32 => "f32"@,
        DataType::F64 => "f64"@,
        DataType::BINARY => "binary"@,
        DataType::STRING => "string"@,
    }
}

/// The upper-case name of a data type: the name of its tag constant.
pub open spec fn upper_text(dt: DataType) -> Seq<char> {
    match dt {
        DataType::BOOL => "BOOL"@,
        DataType::U8 => "U8"@,
        DataType::I8 => "I8"@,
        DataType::U16 => "U16"@,
        DataType::I16 => "I16"@,
        DataType::U32 => "U32"@,
        DataType::I32 => "I32"@,
        DataType::U64 => "U64"@,
        DataType::I64 => "I64"@,
        DataType::F32 => "F32"@,
        DataType::F64 => "F64"@,
        DataType::BINARY => "BINARY"@,
        DataType::STRING => "STRING"@,
    }
}

/// What follows `get_` and `set_` in the names of the reader's and the writer's methods for a data type.
pub open spec fn accessor_text(dt: DataType) -> Seq<char> {
    match dt {
        DataType::BOOL => "bool"@,
        DataType::U8 => "u8"@,
        DataType::I8 => "i8"@,
        DataType::U16 => "u16"@,
        DataType::I16 => "i16"@,
        DataType::U32 => "u32"@,
        DataType::I32 => "i32"@,
        DataType::U64 => "u64"@,
        DataType::I64 => "i64"@,
        DataType::F32 => "f32"@,
        DataType::F64 => "f64"@,
        DataType::BINARY => "binary"@,
        DataType::STRING => "str"@,
    }
}

/// The Rust type of a value of a data type as the facade's methods take and return it.
pub open spec fn value_type_text(dt: DataType) -> Seq<char> {
    match dt {
        DataType::BOOL => "bool"@,
        DataType::U8 => "u8"@,
        DataType::I8 => "i8"@,
        DataType::U16 => "u16"@,
        DataType::I16 => "i16"@,
        DataType::U32 => "u32"@,
        DataType::I32 => "i32"@,
        DataType::U64 => "u64"@,
        DataType::I64 => "i64"@,
        DataType::F32 => "f32"@,
        DataType::F64 => "f64"@,
        DataType::BINARY => "&[u8]"@,
        DataType::STRING => "&str"@,
    }
}

/// The Rust type of an entity's member of a data type.
pub open spec fn member_type_text(dt: DataType) -> Seq<char> {
    match dt {
        DataType::BOOL => "bool"@,
        DataType::U8 => "u8"@,
        DataType::I8 => "i8"@,
        DataType::U16 => "u16"@,
        DataType::I16 => "i16"@,
        DataType::U32 => "u32"@,
        DataType::I32 => "i32"@,
        DataType::U64 => "u64"@,
        DataType::I64 => "i64"@,
        DataType::F32 => "f32"@,
        DataType::F64 => "f64"@,
        DataType::BINARY => "&'a [u8]"@,
        DataType::STRING => "&'a str"@,
    }
}

/// What the facade appends to a read: floats travel as bit patterns and are turned back.
pub open spec fn read_fix_text(dt: DataType) -> Seq<char> {
    match dt {
        DataType::BOOL => ""@,
        DataType::U8 => ""@,
        DataType::I8 => ""@,
        DataType::U16 => ""@,
        DataType::I16 => ""@,
        DataType::U32 => ""@,
        DataType::I32 => ""@,
        DataType::U64 => ""@,
        DataType::I64 => ""@,
        DataType::F32 => ".map(f32::from_bits)"@,
        DataType::F64 => ".map(f64::from_bits)"@,
        DataType::BINARY => ""@,
        DataType::STRING => ""@,
    }
}

/// What the facade appends to a written value: floats travel as bit patterns.
pub open spec fn write_fix_text(dt: DataType) -> Seq<char> {
    match dt {
        DataType::BOOL => ""@,
        DataType::U8 => ""@,
        DataType::I8 => ""@,
        DataType::U16 => ""@,
        DataType::I16 => ""@,
        DataType::U32 => ""@,
        DataType::I32 => ""@,
        DataType::U64 => ""@,
        DataType::I64 => ""@,
        DataType::F32 => ".to_bits()"@,
        DataType::F64 => ".to_bits()"@,
        DataType::BINARY => ""@,
        DataType::STRING => ""@,
    }
}


/// The data type that an upper-case name stands for.
pub open spec fn parse_upper(upper: Seq<char>) -> Result<DataType, &'static str> {
    if upper == "BOOL"@ {
        Ok(DataType::BOOL)
    } else if upper == "U8"@ {
        Ok(DataType::U8)
    } else if upper == "I8"@ {
        Ok(DataType::I8)
    } else if upper == "U16"@ {
        Ok(DataType::U16)
    } else if upper == "I16"@ {
        Ok(DataType::I16)
    } else if upper == "U32"@ {
        Ok(DataType::U32)
    } else if upper == "I32"@ {
        Ok(DataType::I32)
    } else if upper == "U64"@ {
        Ok(DataType::U64)
    } else if upper == "I64"@ {
        Ok(DataType::I64)
    } else if upper == "F32"@ {
        Ok(DataType::F32)
    } else if upper == "F64"@ {
        Ok(DataType::F64)
    } else if upper == "BINARY"@ {
        Ok(DataType::BINARY)
    } else if upper == "STRING"@ {
        Ok(DataType::STRING)
    } else {
        Err("unknown")
    }
}

impl DataType {
    /// The lower-case name of a data type, which is also its Rust type where it is a scalar.
    pub fn name(&self) -> (s: &'static str)
        ensures
            s@ == lower_text(*self),
    {
        match self {
            DataType::BOOL => "bool",
            DataType::U8 => "u8",
            DataType::I8 => "i8",
            DataType::U16 => "u16",
            DataType::I16 => "i16",
            DataType::U32 => "u32",
            DataType::I32 => "i32",
            DataType::U64 => "u64",
            DataType::I64 => "i64",
            DataType::F32 => "f32",
            DataType::F64 => "f64",
            DataType::BINARY => "binary",
            DataType::STRING => "string",
        }
    }

    /// The upper-case name of a data type: the name of its tag constant.
    pub fn upper_name(&self) -> (s: &'static str)
        ensures
            s@ == upper_text(*self),
    {
        match self {
            DataType::BOOL => "BOOL",
            DataType::U8 => "U8",
            DataType::I8 => "I8",
            DataType::U16 => "U16",
            DataType::I16 => "I16",
            DataType::U32 => "U32",
            DataType::I32 => "I32",
            DataType::U64 => "U64",
            DataType::I64 => "I64",
            DataType::F32 => "F32",
            DataType::F64 => "F64",
            DataType::BINARY => "BINARY",
            DataType::STRING => "STRING",
        }
    }

    /// What follows `get_` and `set_` in the names of the reader's and the writer's methods for a data type.
    pub fn accessor(&self) -> (s: &'static str)
        ensures
            s@ == accessor_text(*self),
    {
        match self {
            DataType::BOOL => "bool",
            DataType::U8 => "u8",
            DataType::I8 => "i8",
            DataType::U16 => "u16",
            DataType::I16 => "i16",
            DataType::U32 => "u32",
            DataType::I32 => "i32",
            DataType::U64 => "u64",
            DataType::I64 => "i64",
            DataType::F32 => "f32",
            DataType::F64 => "f64",
            DataType::BINARY => "binary",
            DataType::STRING => "str",
        }
    }

    /// The Rust type of a value of a data type as the facade's methods take and return it.
    pub fn value_type(&self) -> (s: &'static str)
        ensures
            s@ == value_type_text(*self),
    {
        match self {
            DataType::BOOL => "bool",
            DataType::U8 => "u8",
            DataType::I8 => "i8",
            DataType::U16 => "u16",
            DataType::I16 => "i16",
            DataType::U32 => "u32",
            DataType::I32 => "i32",
            DataType::U64 => "u64",
            DataType::I64 => "i64",
            DataType::F32 => "f32",
            DataType::F64 => "f64",
            DataType::BINARY => "&[u8]",
            DataType::STRING => "&str",
        }
    }

    /// The Rust type of an entity's member of a data type.
    pub fn member_type(&self) -> (s: &'static str)
        ensures
            s@ == member_type_text(*self),
    {
        match self {
            DataType::BOOL => "bool",
            DataType::U8 => "u8",
            DataType::I8 => "i8",
            DataType::U16 => "u16",
            DataType::I16 => "i16",
            DataType::U32 => "u32",
            DataType::I32 => "i32",
            DataType::U64 => "u64",
            DataType::I64 => "i64",
            DataType::F32 => "f32",
            DataType::F64 => "f64",
            DataType::BINARY => "&'a [u8]",
            DataType::STRING => "&'a str",
        }
    }

    /// What the facade appends to a read: floats travel as bit patterns and are turned back.
    pub fn read_fix(&self) -> (s: &'static str)
        ensures
            s@ == read_fix_text(*self),
    {
        match self {
            DataType::BOOL => "",
            DataType::U8 => "",
            DataType::I8 => "",
            DataType::U16 => "",
            DataType::I16 => "",
            DataType::U32 => "",
            DataType::I32 => "",
            DataType::U64 => "",
            DataType::I64 => "",
            DataType::F32 => ".map(f32::from_bits)",
            DataType::F64 => ".map(f64::from_bits)",
            DataType::BINARY => "",
            DataType::STRING => "",
        }
    }

    /// What the facade appends to a written value: floats travel as bit patterns.
    pub fn write_fix(&self) -> (s: &'static str)
        ensures
            s@ == write_fix_text(*self),
    {
        match self {
            DataType::BOOL => "",
            DataType::U8 => "",
            DataType::I8 => "",
            DataType::U16 => "",
            DataType::I16 => "",
            DataType::U32 => "",
            DataType::I32 => "",
            DataType::U64 => "",
            DataType::I64 => "",
            DataType::F32 => ".to_bits()",
            DataType::F64 => ".to_bits()",
            DataType::BINARY => "",
            DataType::STRING => "",
        }
    }


    /// The data type with this upper-case name.
    pub fn from_upper(upper: &str) -> (r: Result<DataType, &'static str>)
        ensures
            r == parse_upper(upper@),
    {
        if string_eq(upper, "BOOL") {
            Ok(DataType::BOOL)
        } else if string_eq(upper, "U8") {
            Ok(DataType::U8)
        } else if string_eq(upper, "I8") {
            Ok(DataType::I8)
        } else if string_eq(upper, "U16") {
            Ok(DataType::U16)
        } else if string_eq(upper, "I16") {
            Ok(DataType::I16)
        } else if string_eq(upper, "U32") {
            Ok(DataType::U32)
        } else if string_eq(upper, "I32") {
            Ok(DataType::I32)
        } else if string_eq(upper, "U64") {
            Ok(DataType::U64)
        } else if string_eq(upper, "I64") {
            Ok(DataType::I64)
        } else if string_eq(upper, "F32") {
            Ok(DataType::F32)
        } else if string_eq(upper, "F64") {
            Ok(DataType::F64)
        } else if string_eq(upper, "BINARY") {
            Ok(DataType::BINARY)
        } else if string_eq(upper, "STRING") {
            Ok(DataType::STRING)
        } else {
            Err("unknown")
        }
    }

    /// The data type with this name, in whatever case it is written.
    pub fn try_from(value: &str) -> (r: Result<DataType, &'static str>)
        ensures
            r == parse_upper(uppercase_of(value@)),
    {
        let upper = to_uppercase(value);
        DataType::from_upper(upper.as_str())
    }

    /// Whether values of this type are borrowed from the buffer.
    pub fn is_ref(&self) -> (r: bool)
        ensures
            r == is_ref_type(*self),
    {
        match self {
            DataType::BINARY => true,
            DataType::STRING => true,
            _ => false,
        }
    }
}

/// Whether values of a type are borrowed from the buffer: binary values and
/// strings are.
pub open spec fn is_ref_type(dt: DataType) -> bool {
    dt == DataType::BINARY || dt == DataType::STRING
}

/// Whether one of the first `n` fields is borrowed from the buffer.
pub open spec fn has_ref(fields: Seq<(Seq<char>, DataType)>, n: nat) -> bool
    decreases n,
{
    if n == 0 || n > fields.len() {
        false
    } else {
        has_ref(fields, (n - 1) as nat) || is_ref_type(fields[n - 1].1)
    }
}

/// The lifetime parameter of the entity, where it borrows.
pub open spec fn lifetime_text(fields: Seq<(Seq<char>, DataType)>) -> Seq<char> {
    if has_ref(fields, fields.len()) {
        "<'a>"@
    } else {
        ""@
    }
}

/// The lifetime of the buffer that an entity is parsed from, where it
/// borrows.
pub open spec fn parse_arg_text(fields: Seq<(Seq<char>, DataType)>) -> Seq<char> {
    if has_ref(fields, fields.len()) {
        "'a "@
    } else {
        ""@
    }
}

/// The serde derives of the entity, where they were asked for.
pub open spec fn serde_text(serde: bool) -> Seq<char> {
    if serde {
        ", Serialize, Deserialize"@
    } else {
        ""@
    }
}

/// The constant that names a field's index.
pub open spec fn index_text(name: Seq<char>, dt: DataType, index: nat) -> Seq<char> {
    "    pub const "@
    + name
    + ": usize = "@
    + decimal(index)
    + ";\n"@
}

/// A field's entry in the tag list.
pub open spec fn type_text(name: Seq<char>, dt: DataType, index: nat) -> Seq<char> {
    "    // "@
    + decimal(index)
    + ": "@
    + name
    + "\n    types::"@
    + upper_text(dt)
    + ",\n"@
}

/// A field's entry in the name list.
pub open spec fn name_text(name: Seq<char>, dt: DataType, index: nat) -> Seq<char> {
    "    // "@
    + decimal(index)
    + ": "@
    + name
    + "\n    \""@
    + name
    + "\",\n"@
}

/// The named getter of a field: it reads at the field's index.
pub open spec fn getter_text(name: Seq<char>, dt: DataType, index: nat) -> Seq<char> {
    "\n    pub fn get_"@
    + name
    + "(&mut self) -> Result<"@
    + value_type_text(dt)
    + ", CodecError> {\n        self.reader.get_"@
    + accessor_text(dt)
    + "("@
    + decimal(index)
    + ")"@
    + read_fix_text(dt)
    + "\n    }\n"@
}

/// The named setter of a field: it writes only when the field is next.
pub open spec fn setter_text(name: Seq<char>, dt: DataType, index: nat) -> Seq<char> {
    "\n    pub fn set_"@
    + name
    + "(&mut self, "@
    + name
    + ": "@
    + value_type_text(dt)
    + ") -> Result<(), CodecError> {\n        if self.writer_pos == "@
    + decimal(index)
    + " {\n            self.writer_pos += 1;\n            self.writer.set_"@
    + accessor_text(dt)
    + "("@
    + name
    + write_fix_text(dt)
    + ")\n        } else {\n            Err(CodecError::SequentialWriteViolation)\n        }\n    }\n"@
}

/// A field's member in the entity.
pub open spec fn member_text(name: Seq<char>, dt: DataType, index: nat) -> Seq<char> {
    "    pub "@
    + name
    + ": "@
    + member_type_text(dt)
    + ",\n"@
}

/// The statement that writes a field of the entity.
pub open spec fn store_text(name: Seq<char>, dt: DataType, index: nat) -> Seq<char> {
    "        writer.set_"@
    + accessor_text(dt)
    + "(self."@
    + name
    + write_fix_text(dt)
    + ")?;\n"@
}

/// The expression that reads a field of the entity.
pub open spec fn load_text(name: Seq<char>, dt: DataType, index: nat) -> Seq<char> {
    "            "@
    + name
    + ": reader.get_"@
    + accessor_text(dt)
    + "("@
    + decimal(index)
    + ")"@
    + read_fix_text(dt)
    + "?,\n"@
}

/// The text that one field contributes to a part of the script.
pub open spec fn item_text(part: Part, name: Seq<char>, dt: DataType, index: nat) -> Seq<char> {
    match part {
        Part::Index => index_text(name, dt, index),
        Part::Type => type_text(name, dt, index),
        Part::Name => name_text(name, dt, index),
        Part::Getter => getter_text(name, dt, index),
        Part::Setter => setter_text(name, dt, index),
        Part::Member => member_text(name, dt, index),
        Part::Store => store_text(name, dt, index),
        Part::Load => load_text(name, dt, index),
    }
}


/// The text that the first `n` fields contribute to a part of the script.
pub open spec fn items_text(part: Part, fields: Seq<(Seq<char>, DataType)>, n: nat) -> Seq<char>
    decreases n,
{
    if n == 0 || n > fields.len() {
        Seq::<char>::empty()
    } else {
        items_text(part, fields, (n - 1) as nat) + item_text(
            part,
            fields[n - 1].0,
            fields[n - 1].1,
            (n - 1) as nat,
        )
    }
}

/// The imports of a generated file.
pub open spec fn use_text(fields: Seq<(Seq<char>, DataType)>, serde: bool) -> Seq<char> {
    "use serbuffer::buffer::Buffer;\nuse serbuffer::error::CodecError;\nuse serbuffer::metadata::FieldMetadata;\nuse serbuffer::reader::BufferReader;\nuse serbuffer::types;\nuse serbuffer::writer::BufferWriter;\n"@
}

/// The module of index constants, one per field.
pub open spec fn field_index_text(fields: Seq<(Seq<char>, DataType)>, serde: bool) -> Seq<char> {
    "\npub mod index {\n"@
        + items_text(Part::Index, fields, fields.len())
        + "}\n"@
}

/// The tag list of the schema.
pub open spec fn data_type_text(fields: Seq<(Seq<char>, DataType)>, serde: bool) -> Seq<char> {
    "\npub const FIELD_TYPE: [u8; "@
        + decimal(fields.len())
        + "] = [\n"@
        + items_text(Part::Type, fields, fields.len())
        + "];\n"@
}

/// The name list of the schema.
pub open spec fn field_name_text(fields: Seq<(Seq<char>, DataType)>, serde: bool) -> Seq<char> {
    "\npub const FIELD_NAME: [&'static str; "@
        + decimal(fields.len())
        + "] = [\n"@
        + items_text(Part::Name, fields, fields.len())
        + "];\n"@
}

/// The function that pairs the tag list with the name list.
pub open spec fn field_metadata_text(fields: Seq<(Seq<char>, DataType)>, serde: bool) -> Seq<char> {
    "\npub fn field_metadata() -> FieldMetadata<"@
        + decimal(fields.len())
        + "> {\n    FieldMetadata::new(&FIELD_TYPE, &FIELD_NAME)\n}\n"@
}

/// The reading facade: one named getter per field.
pub open spec fn field_reader_text(fields: Seq<(Seq<char>, DataType)>, serde: bool) -> Seq<char> {
    "\npub struct FieldReader<'a> {\n    reader: BufferReader<'a, 'static>,\n}\n\nimpl<'a> FieldReader<'a> {\n    pub fn new(b: &'a mut Buffer) -> Result<Self, CodecError> {\n        let reader = b.as_reader(&FIELD_TYPE)?;\n        Ok(FieldReader { reader })\n    }\n"@
        + items_text(Part::Getter, fields, fields.len())
        + "}\n"@
}

/// The writing facade: one named setter per field, to be called in field order.
pub open spec fn field_writer_text(fields: Seq<(Seq<char>, DataType)>, serde: bool) -> Seq<char> {
    "\npub struct FieldWriter<'a> {\n    writer: BufferWriter<'a, 'static>,\n    writer_pos: usize,\n}\n\nimpl<'a> FieldWriter<'a> {\n    pub fn new(b: &'a mut Buffer) -> Self {\n        let writer = b.as_writer(&FIELD_TYPE);\n        FieldWriter {\n            writer,\n            writer_pos: 0,\n        }\n    }\n"@
        + items_text(Part::Setter, fields, fields.len())
        + "}\n"@
}

/// The entity: a struct with one member per field, written and parsed whole.
pub open spec fn entity_text(fields: Seq<(Seq<char>, DataType)>, serde: bool) -> Seq<char> {
    "\n#[derive(Clone, Debug"@
        + serde_text(serde)
        + ")]\npub struct Entity"@
        + lifetime_text(fields)
        + " {\n"@
        + items_text(Part::Member, fields, fields.len())
        + "}\n\nimpl"@
        + lifetime_text(fields)
        + " Entity"@
        + lifetime_text(fields)
        + " {\n    pub fn to_buffer(&self, b: &mut Buffer) -> Result<(), CodecError> {\n        let mut writer = b.as_writer(&FIELD_TYPE);\n"@
        + items_text(Part::Store, fields, fields.len())
        + "        Ok(())\n    }\n\n    pub fn parse(b: &"@
        + parse_arg_text(fields)
        + "mut Buffer) -> Result<Self, CodecError> {\n        let reader = b.as_reader(&FIELD_TYPE)?;\n        let entity = Entity {\n"@
        + items_text(Part::Load, fields, fields.len())
        + "        };\n        Ok(entity)\n    }\n}\n"@
}

/// The whole generated file: the header that names the schema and the
/// version, then the parts in their order.
pub open spec fn script_text(schema: Seq<char>, fields: Seq<(Seq<char>, DataType)>, serde: bool) -> Seq<char> {
    HEADER@
        + schema
        + ", version "@
        + VERSION@
        + "\n\n"@
        + use_text(fields, serde)
        + field_index_text(fields, serde)
        + data_type_text(fields, serde)
        + field_name_text(fields, serde)
        + field_metadata_text(fields, serde)
        + field_reader_text(fields, serde)
        + field_writer_text(fields, serde)
        + entity_text(fields, serde)
}


/// A field of a schema: its name and its type.
pub struct Field {
    name: String,
    data_type: DataType,
}

/// Renders what one field contributes to a part of the script.
fn item(part: Part, field: &Field, index: usize) -> (s: String)
    ensures
        s@ == item_text(part, field.name@, field.data_type, index as nat),
{
    let number = decimal_string(index);
    match part {
        Part::Index => {
            let mut s = String::from_str("    pub const ");
            s.append(field.name.as_str());
            s.append(": usize = ");
            s.append(number.as_str());
            s.append(";\n");
            s
        },
        Part::Type => {
            let mut s = String::from_str("    // ");
            s.append(number.as_str());
            s.append(": ");
            s.append(field.name.as_str());
            s.append("\n    types::");
            s.append(field.data_type.upper_name());
            s.append(",\n");
            s
        },
        Part::Name => {
            let mut s = String::from_str("    // ");
            s.append(number.as_str());
            s.append(": ");
            s.append(field.name.as_str());
            s.append("\n    \"");
            s.append(field.name.as_str());
            s.append("\",\n");
            s
        },
        Part::Getter => {
            let mut s = String::from_str("\n    pub fn get_");
            s.append(field.name.as_str());
            s.append("(&mut self) -> Result<");
            s.append(field.data_type.value_type());
            s.append(", CodecError> {\n        self.reader.get_");
            s.append(field.data_type.accessor());
            s.append("(");
            s.append(number.as_str());
            s.append(")");
            s.append(field.data_type.read_fix());
            s.append("\n    }\n");
            s
        },
        Part::Setter => {
            let mut s = String::from_str("\n    pub fn set_");
            s.append(field.name.as_str());
            s.append("(&mut self, ");
            s.append(field.name.as_str());
            s.append(": ");
            s.append(field.data_type.value_type());
            s.append(") -> Result<(), CodecError> {\n        if self.writer_pos == ");
            s.append(number.as_str());
            s.append(" {\n            self.writer_pos += 1;\n            self.writer.set_");
            s.append(field.data_type.accessor());
            s.append("(");
            s.append(field.name.as_str());
            s.append(field.data_type.write_fix());
            s.append(")\n        } else {\n            Err(CodecError::SequentialWriteViolation)\n        }\n    }\n");
            s
        },
        Part::Member => {
            let mut s = String::from_str("    pub ");
            s.append(field.name.as_str());
            s.append(": ");
            s.append(field.data_type.member_type());
            s.append(",\n");
            s
        },
        Part::Store => {
            let mut s = String::from_str("        writer.set_");
            s.append(field.data_type.accessor());
            s.append("(self.");
            s.append(field.name.as_str());
            s.append(field.data_type.write_fix());
            s.append(")?;\n");
            s
        },
        Part::Load => {
            let mut s = String::from_str("            ");
            s.append(field.name.as_str());
            s.append(": reader.get_");
            s.append(field.data_type.accessor());
            s.append("(");
            s.append(number.as_str());
            s.append(")");
            s.append(field.data_type.read_fix());
            s.append("?,\n");
            s
        },
    }
}


/// A schema under construction: a name and the fields added so far.
pub struct SchemaBuilder {
    schema: String,
    schema_snake: String,
    fields: Vec<Field>,
    serde_derive: bool,
}

impl SchemaBuilder {
    /// The schema's name.
    pub closed spec fn name(&self) -> Seq<char> {
        self.schema@
    }

    /// The schema's name in snake case, which names its file and module.
    pub closed spec fn snake(&self) -> Seq<char> {
        self.schema_snake@
    }

    /// The fields added so far, each with its name and type.
    pub closed spec fn fields(&self) -> Seq<(Seq<char>, DataType)> {
        Seq::new(self.fields@.len(), |i: int| (self.fields@[i].name@, self.fields@[i].data_type))
    }

    /// Whether the entity gets serde derives.
    pub closed spec fn serde(&self) -> bool {
        self.serde_derive
    }

    /// A schema without fields.
    pub fn new(schema: &str) -> (b: Self)
        ensures
            b.name() == schema@,
            b.snake() == snake_text(schema@),
            b.fields() == Seq::<(Seq<char>, DataType)>::empty(),
            !b.serde(),
    {
        let schema_snake = to_snake(schema);
        let b = SchemaBuilder {
            schema: String::from_str(schema),
            schema_snake,
            fields: Vec::new(),
            serde_derive: false,
        };
        assert(b.fields() =~= Seq::<(Seq<char>, DataType)>::empty());
        b
    }

    /// Adds a field behind those added so far.
    pub fn field(self, name: &str, data_type: DataType) -> (b: Self)
        ensures
            b.name() == self.name(),
            b.snake() == self.snake(),
            b.fields() == self.fields().push((name@, data_type)),
            b.serde() == self.serde(),
    {
        let mut b = self;
        b.fields.push(Field { name: String::from_str(name), data_type });
        assert(b.fields() =~= self.fields().push((name@, data_type)));
        b
    }

    /// Asks for serde derives on the entity.
    pub fn set_serde_derive(self) -> (b: Self)
        ensures
            b.name() == self.name(),
            b.snake() == self.snake(),
            b.fields() == self.fields(),
            b.serde(),
    {
        let mut b = self;
        b.serde_derive = true;
        assert(b.fields() =~= self.fields());
        b
    }

    /// The schema's name in snake case.
    pub fn snake_name(&self) -> (s: &str)
        ensures
            s@ == self.snake(),
    {
        self.schema_snake.as_str()
    }

    /// Renders a part of the script that has one entry per field.
    pub fn items(&self, part: Part) -> (s: String)
        ensures
            s@ == items_text(part, self.fields(), self.fields().len()),
    {
        let mut s = String::new();
        let mut index: usize = 0;
        while index < self.fields.len()
            invariant
                index <= self.fields@.len(),
                self.fields().len() == self.fields@.len(),
                s@ == items_text(part, self.fields(), index as nat),
            decreases self.fields@.len() - index,
        {
            let one = item(part, &self.fields[index], index);
            s.append(one.as_str());
            index = index + 1;
        }
        s
    }

    fn borrows(&self) -> (r: bool)
        ensures
            r == has_ref(self.fields(), self.fields().len()),
    {
        let mut ref_type = false;
        let mut index: usize = 0;
        while index < self.fields.len()
            invariant
                index <= self.fields@.len(),
                self.fields().len() == self.fields@.len(),
                ref_type == has_ref(self.fields(), index as nat),
            decreases self.fields@.len() - index,
        {
            if self.fields[index].data_type.is_ref() {
                ref_type = true;
            }
            index = index + 1;
        }
        ref_type
    }

    fn lifetime_str(&self) -> (s: &'static str)
        ensures
            s@ == lifetime_text(self.fields()),
    {
        if self.borrows() {
            "<'a>"
        } else {
            ""
        }
    }

    fn parse_arg_str(&self) -> (s: &'static str)
        ensures
            s@ == parse_arg_text(self.fields()),
    {
        if self.borrows() {
            "'a "
        } else {
            ""
        }
    }

    fn serde_str(&self) -> (s: &'static str)
        ensures
            s@ == serde_text(self.serde()),
    {
        if self.serde_derive {
            ", Serialize, Deserialize"
        } else {
            ""
        }
    }

    /// The imports of a generated file.
    pub fn build_use(&self) -> (s: String)
        ensures
            s@ == use_text(self.fields(), self.serde()),
    {
        let mut s = String::from_str("use serbuffer::buffer::Buffer;\nuse serbuffer::error::CodecError;\nuse serbuffer::metadata::FieldMetadata;\nuse serbuffer::reader::BufferReader;\nuse serbuffer::types;\nuse serbuffer::writer::BufferWriter;\n");
        s
    }

    /// The module of index constants, one per field.
    pub fn build_field_index(&self) -> (s: String)
        ensures
            s@ == field_index_text(self.fields(), self.serde()),
    {
        let index_items = self.items(Part::Index);
        let mut s = String::from_str("\npub mod index {\n");
        s.append(index_items.as_str());
        s.append("}\n");
        s
    }

    /// The tag list of the schema.
    pub fn build_data_type(&self) -> (s: String)
        ensures
            s@ == data_type_text(self.fields(), self.serde()),
    {
        let count = decimal_string(self.fields.len());
        let type_items = self.items(Part::Type);
        let mut s = String::from_str("\npub const FIELD_TYPE: [u8; ");
        s.append(count.as_str());
        s.append("] = [\n");
        s.append(type_items.as_str());
        s.append("];\n");
        s
    }

    /// The name list of the schema.
    pub fn build_field_name(&self) -> (s: String)
        ensures
            s@ == field_name_text(self.fields(), self.serde()),
    {
        let count = decimal_string(self.fields.len());
        let name_items = self.items(Part::Name);
        let mut s = String::from_str("\npub const FIELD_NAME: [&'static str; ");
        s.append(count.as_str());
        s.append("] = [\n");
        s.append(name_items.as_str());
        s.append("];\n");
        s
    }

    /// The function that pairs the tag list with the name list.
    pub fn build_field_metadata(&self) -> (s: String)
        ensures
            s@ == field_metadata_text(self.fields(), self.serde()),
    {
        let count = decimal_string(self.fields.len());
        let mut s = String::from_str("\npub fn field_metadata() -> FieldMetadata<");
        s.append(count.as_str());
        s.append("> {\n    FieldMetadata::new(&FIELD_TYPE, &FIELD_NAME)\n}\n");
        s
    }

    /// The reading facade: one named getter per field.
    pub fn build_field_reader(&self) -> (s: String)
        ensures
            s@ == field_reader_text(self.fields(), self.serde()),
    {
        let getter_items = self.items(Part::Getter);
        let mut s = String::from_str("\npub struct FieldReader<'a> {\n    reader: BufferReader<'a, 'static>,\n}\n\nimpl<'a> FieldReader<'a> {\n    pub fn new(b: &'a mut Buffer) -> Result<Self, CodecError> {\n        let reader = b.as_reader(&FIELD_TYPE)?;\n        Ok(FieldReader { reader })\n    }\n");
        s.append(getter_items.as_str());
        s.append("}\n");
        s
    }

    /// The writing facade: one named setter per field, to be called in field order.
    pub fn build_field_writer(&self) -> (s: String)
        ensures
            s@ == field_writer_text(self.fields(), self.serde()),
    {
        let setter_items = self.items(Part::Setter);
        let mut s = String::from_str("\npub struct FieldWriter<'a> {\n    writer: BufferWriter<'a, 'static>,\n    writer_pos: usize,\n}\n\nimpl<'a> FieldWriter<'a> {\n    pub fn new(b: &'a mut Buffer) -> Self {\n        let writer = b.as_writer(&FIELD_TYPE);\n        FieldWriter {\n            writer,\n            writer_pos: 0,\n        }\n    }\n");
        s.append(setter_items.as_str());
        s.append("}\n");
        s
    }

    /// The entity: a struct with one member per field, written and parsed whole.
    pub fn build_entity(&self) -> (s: String)
        ensures
            s@ == entity_text(self.fields(), self.serde()),
    {
        let member_items = self.items(Part::Member);
        let store_items = self.items(Part::Store);
        let load_items = self.items(Part::Load);
        let mut s = String::from_str("\n#[derive(Clone, Debug");
        s.append(self.serde_str());
        s.append(")]\npub struct Entity");
        s.append(self.lifetime_str());
        s.append(" {\n");
        s.append(member_items.as_str());
        s.append("}\n\nimpl");
        s.append(self.lifetime_str());
        s.append(" Entity");
        s.append(self.lifetime_str());
        s.append(" {\n    pub fn to_buffer(&self, b: &mut Buffer) -> Result<(), CodecError> {\n        let mut writer = b.as_writer(&FIELD_TYPE);\n");
        s.append(store_items.as_str());
        s.append("        Ok(())\n    }\n\n    pub fn parse(b: &");
        s.append(self.parse_arg_str());
        s.append("mut Buffer) -> Result<Self, CodecError> {\n        let reader = b.as_reader(&FIELD_TYPE)?;\n        let entity = Entity {\n");
        s.append(load_items.as_str());
        s.append("        };\n        Ok(entity)\n    }\n}\n");
        s
    }

    /// Renders the whole generated file.
    pub fn build_script(&self) -> (s: String)
        ensures
            s@ == script_text(self.name(), self.fields(), self.serde()),
    {
        let use_part = self.build_use();
        let field_index_part = self.build_field_index();
        let data_type_part = self.build_data_type();
        let field_name_part = self.build_field_name();
        let field_metadata_part = self.build_field_metadata();
        let field_reader_part = self.build_field_reader();
        let field_writer_part = self.build_field_writer();
        let entity_part = self.build_entity();
        let mut s = String::from_str(HEADER);
        s.append(self.schema.as_str());
        s.append(", version ");
        s.append(VERSION);
        s.append("\n\n");
        s.append(use_part.as_str());
        s.append(field_index_part.as_str());
        s.append(data_type_part.as_str());
        s.append(field_name_part.as_str());
        s.append(field_metadata_part.as_str());
        s.append(field_reader_part.as_str());
        s.append(field_writer_part.as_str());
        s.append(entity_part.as_str());
        s
    }
}

/// The module declaration of one schema.
pub open spec fn mod_line(snake: Seq<char>) -> Seq<char> {
    "pub mod "@ + snake + ";"@
}

/// The module file for the first `n` schemas: one declaration per schema,
/// with a line break between two of them.
pub open spec fn mods_text(schemas: Seq<SchemaBuilder>, n: nat) -> Seq<char>
    decreases n,
{
    if n == 0 || n > schemas.len() {
        Seq::<char>::empty()
    } else if n == 1 {
        mod_line(schemas[0].snake())
    } else {
        mods_text(schemas, (n - 1) as nat) + "\n"@ + mod_line(schemas[n - 1].snake())
    }
}

/// A set of schemas to be generated into one directory.
pub struct Codegen {
    generated_dir: String,
    schemas: Vec<SchemaBuilder>,
}

impl Codegen {
    /// The directory that the files are meant for.
    pub closed spec fn dir(&self) -> Seq<char> {
        self.generated_dir@
    }

    /// The schemas added so far.
    pub closed spec fn schemas(&self) -> Seq<SchemaBuilder> {
        self.schemas@
    }

    /// A generator for `generated_dir` without schemas.
    pub fn in_dir(generated_dir: &str) -> (c: Self)
        ensures
            c.dir() == generated_dir@,
            c.schemas() == Seq::<SchemaBuilder>::empty(),
    {
        Codegen { generated_dir: String::from_str(generated_dir), schemas: Vec::new() }
    }

    /// Adds a schema behind those added so far.
    pub fn schema(self, schema_builder: SchemaBuilder) -> (c: Self)
        ensures
            c.dir() == self.dir(),
            c.schemas() == self.schemas().push(schema_builder),
    {
        let mut c = self;
        c.schemas.push(schema_builder);
        c
    }

    /// The directory that the files are meant for.
    pub fn generated_dir(&self) -> (s: &str)
        ensures
            s@ == self.dir(),
    {
        self.generated_dir.as_str()
    }

    /// The number of schemas.
    pub fn len(&self) -> (n: usize)
        ensures
            n == self.schemas().len(),
    {
        self.schemas.len()
    }

    /// The name of the file of schema `i`: its snake-case name and `.rs`.
    pub fn file_name(&self, i: usize) -> (s: String)
        requires
            i < self.schemas().len(),
        ensures
            s@ == self.schemas()[i as int].snake() + ".rs"@,
    {
        let mut s = String::from_str(self.schemas[i].snake_name());
        s.append(".rs");
        s
    }

    /// The text of the file of schema `i`.
    pub fn script(&self, i: usize) -> (s: String)
        requires
            i < self.schemas().len(),
        ensures
            s@ == script_text(
                self.schemas()[i as int].name(),
                self.schemas()[i as int].fields(),
                self.schemas()[i as int].serde(),
            ),
    {
        self.schemas[i].build_script()
    }

    /// The text of the module file that declares every schema's module.
    pub fn mod_script(&self) -> (s: String)
        ensures
            s@ == mods_text(self.schemas(), self.schemas().len()),
    {
        let mut s = String::new();
        let mut i: usize = 0;
        while i < self.schemas.len()
            invariant
                i <= self.schemas@.len(),
                s@ == mods_text(self.schemas(), i as nat),
            decreases self.schemas@.len() - i,
        {
            if i > 0 {
                s.append("\n");
            }
            s.append("pub mod ");
            s.append(self.schemas[i].snake_name());
            s.append(";");
            i = i + 1;
        }
        s
    }
}

} // verus!
