use serbuffer::schema::{
    decimal_string, push_snake, to_snake, Codegen, DataType, Part, SchemaBuilder, VERSION,
};

#[test]
pub fn code_gen_basic_type_test() {
    let script = SchemaBuilder::new("DemoSchema")
        .field("timestamp", DataType::U64)
        .field("a", DataType::BOOL)
        .field("a1", DataType::U8)
        .build_script();

    println!("-- Start ---");
    println!("{}", script);
    println!("-- End ---");
}

#[test]
pub fn code_gen_ref_type_test() {
    let script = SchemaBuilder::new("DemoSchema")
        .field("timestamp", DataType::U64)
        .field("application_name", DataType::STRING)
        .field("agent_id", DataType::STRING)
        .field("a", DataType::BOOL)
        .field("a1", DataType::U8)
        .field("a2", DataType::BINARY)
        .build_script();

    println!("-- Start ---");
    println!("{}", script);
    println!("-- End ---");
}

fn demo() -> SchemaBuilder {
    SchemaBuilder::new("DemoSchema")
        .field("timestamp", DataType::U64)
        .field("name", DataType::STRING)
        .field("ratio", DataType::F32)
        .field("blob", DataType::BINARY)
}

#[test]
fn snake_case_names() {
    assert_eq!(to_snake("DemoSchema"), "demo_schema");
    assert_eq!(to_snake("GenDemo0"), "gen_demo0");
    assert_eq!(to_snake("already_snake"), "already_snake");
    assert_eq!(to_snake("aB"), "a_b");
    assert_eq!(to_snake("ABC"), "a_b_c");
    assert_eq!(to_snake("_X"), "_x");
    assert_eq!(to_snake(""), "");
    assert_eq!(demo().snake_name(), "demo_schema");
    let mut v = vec!['a'];
    push_snake(&mut v, 'Q', true);
    push_snake(&mut v, 'Q', false);
    assert_eq!(v, vec!['a', '_', 'q', 'Q']);
}

#[test]
fn decimal_rendering() {
    assert_eq!(decimal_string(0), "0");
    assert_eq!(decimal_string(7), "7");
    assert_eq!(decimal_string(10), "10");
    assert_eq!(decimal_string(1234567890), "1234567890");
    assert_eq!(decimal_string(usize::MAX), usize::MAX.to_string());
}

#[test]
fn data_type_names() {
    assert_eq!(DataType::BOOL.name(), "bool");
    assert_eq!(DataType::U64.name(), "u64");
    assert_eq!(DataType::BINARY.name(), "binary");
    assert_eq!(DataType::STRING.upper_name(), "STRING");
    assert_eq!(DataType::I16.upper_name(), "I16");
    assert_eq!(DataType::STRING.accessor(), "str");
    assert_eq!(DataType::BINARY.accessor(), "binary");
    assert_eq!(DataType::F64.accessor(), "f64");
    assert_eq!(DataType::STRING.value_type(), "&str");
    assert_eq!(DataType::BINARY.value_type(), "&[u8]");
    assert_eq!(DataType::I8.value_type(), "i8");
    assert_eq!(DataType::STRING.member_type(), "&'a str");
    assert_eq!(DataType::BINARY.member_type(), "&'a [u8]");
    assert_eq!(DataType::F32.read_fix(), ".map(f32::from_bits)");
    assert_eq!(DataType::F64.write_fix(), ".to_bits()");
    assert_eq!(DataType::U8.read_fix(), "");
    assert!(DataType::STRING.is_ref());
    assert!(DataType::BINARY.is_ref());
    assert!(!DataType::U32.is_ref());
}

#[test]
fn data_type_from_a_name() {
    assert_eq!(DataType::try_from("bool"), Ok(DataType::BOOL));
    assert_eq!(DataType::try_from("U8"), Ok(DataType::U8));
    assert_eq!(DataType::try_from("i8"), Ok(DataType::I8));
    assert_eq!(DataType::try_from("u16"), Ok(DataType::U16));
    assert_eq!(DataType::try_from("I16"), Ok(DataType::I16));
    assert_eq!(DataType::try_from("u32"), Ok(DataType::U32));
    assert_eq!(DataType::try_from("i32"), Ok(DataType::I32));
    assert_eq!(DataType::try_from("u64"), Ok(DataType::U64));
    assert_eq!(DataType::try_from("i64"), Ok(DataType::I64));
    assert_eq!(DataType::try_from("f32"), Ok(DataType::F32));
    assert_eq!(DataType::try_from("F64"), Ok(DataType::F64));
    assert_eq!(DataType::try_from("Binary"), Ok(DataType::BINARY));
    assert_eq!(DataType::try_from("string"), Ok(DataType::STRING));
    assert_eq!(DataType::try_from("bytes"), Err("unknown"));
    assert_eq!(DataType::try_from(""), Err("unknown"));
    assert_eq!(DataType::from_upper("STRING"), Ok(DataType::STRING));
    assert_eq!(DataType::from_upper("string"), Err("unknown"));
}

#[test]
fn index_constants_follow_field_order() {
    assert_eq!(
        demo().build_field_index(),
        "\npub mod index {\n    pub const timestamp: usize = 0;\n    pub const name: usize = 1;\n    pub const ratio: usize = 2;\n    pub const blob: usize = 3;\n}\n"
    );
    assert_eq!(SchemaBuilder::new("Empty").build_field_index(), "\npub mod index {\n}\n");
}

#[test]
fn tag_and_name_lists() {
    assert_eq!(
        demo().build_data_type(),
        "\npub const FIELD_TYPE: [u8; 4] = [\n    // 0: timestamp\n    types::U64,\n    // 1: name\n    types::STRING,\n    // 2: ratio\n    types::F32,\n    // 3: blob\n    types::BINARY,\n];\n"
    );
    assert_eq!(
        demo().build_field_name(),
        "\npub const FIELD_NAME: [&'static str; 4] = [\n    // 0: timestamp\n    \"timestamp\",\n    // 1: name\n    \"name\",\n    // 2: ratio\n    \"ratio\",\n    // 3: blob\n    \"blob\",\n];\n"
    );
    assert_eq!(
        demo().build_field_metadata(),
        "\npub fn field_metadata() -> FieldMetadata<4> {\n    FieldMetadata::new(&FIELD_TYPE, &FIELD_NAME)\n}\n"
    );
}

#[test]
fn getters_and_setters_delegate_by_index() {
    let b = demo();
    assert_eq!(
        b.items(Part::Getter),
        "\n    pub fn get_timestamp(&mut self) -> Result<u64, CodecError> {\n        self.reader.get_u64(0)\n    }\n\
         \n    pub fn get_name(&mut self) -> Result<&str, CodecError> {\n        self.reader.get_str(1)\n    }\n\
         \n    pub fn get_ratio(&mut self) -> Result<f32, CodecError> {\n        self.reader.get_f32(2).map(f32::from_bits)\n    }\n\
         \n    pub fn get_blob(&mut self) -> Result<&[u8], CodecError> {\n        self.reader.get_binary(3)\n    }\n"
    );
    let setters = b.items(Part::Setter);
    assert!(setters.contains("pub fn set_ratio(&mut self, ratio: f32) -> Result<(), CodecError> {\n        if self.writer_pos == 2 {\n            self.writer_pos += 1;\n            self.writer.set_f32(ratio.to_bits())\n        } else {\n            Err(CodecError::SequentialWriteViolation)\n        }\n    }\n"));
    assert!(setters.contains("pub fn set_blob(&mut self, blob: &[u8]) -> Result<(), CodecError> {\n        if self.writer_pos == 3 {"));
    assert!(b.build_field_reader().ends_with("        self.reader.get_binary(3)\n    }\n}\n"));
    assert!(b.build_field_reader().starts_with("\npub struct FieldReader<'a> {\n"));
    assert!(b.build_field_writer().starts_with("\npub struct FieldWriter<'a> {\n"));
    assert!(b.build_field_writer().contains(&setters));
}

#[test]
fn entity_borrows_only_where_a_field_does() {
    let plain = SchemaBuilder::new("Plain").field("n", DataType::I32);
    let entity = plain.build_entity();
    assert!(entity.starts_with("\n#[derive(Clone, Debug)]\npub struct Entity {\n    pub n: i32,\n}\n\nimpl Entity {\n"));
    assert!(entity.contains("        writer.set_i32(self.n)?;\n"));
    assert!(entity.contains("    pub fn parse(b: &mut Buffer) -> Result<Self, CodecError> {\n"));
    assert!(entity.contains("            n: reader.get_i32(0)?,\n"));

    let borrowed = demo().set_serde_derive().build_entity();
    assert!(borrowed.starts_with("\n#[derive(Clone, Debug, Serialize, Deserialize)]\npub struct Entity<'a> {\n    pub timestamp: u64,\n    pub name: &'a str,\n    pub ratio: f32,\n    pub blob: &'a [u8],\n}\n\nimpl<'a> Entity<'a> {\n"));
    assert!(borrowed.contains("    pub fn parse(b: &'a mut Buffer) -> Result<Self, CodecError> {\n"));
    assert!(borrowed.contains("            ratio: reader.get_f32(2).map(f32::from_bits)?,\n"));
    assert!(borrowed.contains("        writer.set_str(self.name)?;\n"));
}

#[test]
fn script_is_the_header_and_the_parts_in_order() {
    let b = demo();
    let script = b.build_script();
    assert!(script.starts_with("#![allow(unknown_lints)]\n#![allow(clippy::all)]\n"));
    let head = format!("//! Generated file by schema DemoSchema, version {}\n\n", VERSION);
    let at = script.find(&head).unwrap();
    let rest = &script[at + head.len()..];
    let parts = format!(
        "{}{}{}{}{}{}{}{}",
        b.build_use(),
        b.build_field_index(),
        b.build_data_type(),
        b.build_field_name(),
        b.build_field_metadata(),
        b.build_field_reader(),
        b.build_field_writer(),
        b.build_entity()
    );
    assert_eq!(rest, parts);
    assert!(b.build_use().contains("use serbuffer::buffer::Buffer;\n"));
}

#[test]
fn codegen_names_files_and_modules() {
    let gen = Codegen::in_dir("out")
        .schema(SchemaBuilder::new("GenDemo0").field("timestamp", DataType::U64))
        .schema(SchemaBuilder::new("GenDemo1").field("count", DataType::I64).set_serde_derive());
    assert_eq!(gen.generated_dir(), "out");
    assert_eq!(gen.len(), 2);
    assert_eq!(gen.file_name(0), "gen_demo0.rs");
    assert_eq!(gen.file_name(1), "gen_demo1.rs");
    assert_eq!(gen.mod_script(), "pub mod gen_demo0;\npub mod gen_demo1;");
    assert_eq!(
        gen.script(1),
        SchemaBuilder::new("GenDemo1").field("count", DataType::I64).set_serde_derive().build_script()
    );
    assert_eq!(Codegen::in_dir("x").mod_script(), "");
}
