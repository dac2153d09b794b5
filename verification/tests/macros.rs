use embedded2020::binfmt::macros::{
    check_write, count_args, derive_plan, section_name, Data, Fields, FootprintError, NamedField,
    NotSupported, Payload, Variant, WriteError,
};
use embedded2020::binfmt::{Level, Tag};
use embedded2020::semidap::macros::{log_plan, parsel, unescape, Action, FormatError, Piece};

fn named(name: &str, is_bool: bool) -> NamedField {
    NamedField { name: String::from(name), is_bool }
}

fn variant(name: &str, is_unit: bool) -> Variant {
    Variant { name: String::from(name), is_unit }
}

#[test]
fn footprint_arguments_are_counted() {
    assert_eq!(count_args("x = {}, y = {}"), Ok(2));
    assert_eq!(count_args("{{}} {}"), Ok(1));
    assert_eq!(count_args("no args"), Ok(0));
    assert_eq!(count_args("{x}"), Err(FootprintError::UnmatchedOpen));
    assert_eq!(count_args("a } b"), Err(FootprintError::UnmatchedClose));
    assert_eq!(count_args("{"), Err(FootprintError::UnmatchedOpen));
}

#[test]
fn writes_are_checked() {
    assert_eq!(check_write("x = {}", false, 1), Ok(String::from("x = {}")));
    assert_eq!(check_write("x = {}", true, 1), Ok(String::from("x = {}\n")));
    assert_eq!(check_write("a@b", false, 0), Err(WriteError::ContainsAt));
    assert_eq!(check_write("{} {}", false, 1), Err(WriteError::ArgCount { supplied: 1, expected: 2 }));
    assert_eq!(check_write("{", false, 0), Err(WriteError::Footprint(FootprintError::UnmatchedOpen)));
    assert_eq!(section_name("x = {}"), ".binfmt.x = {}");
}

#[test]
fn derive_c_like_enum() {
    let data = Data::Enum(vec![variant("Red", true), variant("Green", true), variant("Blue", true)]);
    let plan = derive_plan("Color", &data).unwrap();
    assert_eq!(plan.tag, Tag::CLikeEnum);
    assert_eq!(plan.footprint, "Red,Green,Blue");
    assert_eq!(plan.payload, Payload::Discriminant);
}

#[test]
fn derive_refuses_data_enums_and_unions() {
    let data = Data::Enum(vec![variant("A", true), variant("B", false)]);
    assert!(matches!(derive_plan("E", &data), Err(NotSupported)));
    assert!(matches!(derive_plan("U", &Data::Union), Err(NotSupported)));
}

#[test]
fn derive_bool_struct_as_register() {
    let data = Data::Struct(Fields::Named(vec![named("en", true), named("rdy", true)]));
    let plan = derive_plan("Status", &data).unwrap();
    assert_eq!(plan.tag, Tag::Register);
    assert_eq!(plan.footprint, "Status {{ en: {0}, rdy: {1} }}");
    assert_eq!(plan.payload, Payload::Bits(1));

    let many: Vec<NamedField> = (0..9).map(|i| named(&format!("f{}", i), true)).collect();
    let plan = derive_plan("Wide", &Data::Struct(Fields::Named(many))).unwrap();
    assert_eq!(plan.payload, Payload::Bits(2));
}

#[test]
fn derive_structs_with_fields() {
    let data = Data::Struct(Fields::Named(vec![named("x", false), named("ok", true)]));
    let plan = derive_plan("Point", &data).unwrap();
    assert_eq!(plan.tag, Tag::Footprint);
    assert_eq!(plan.footprint, "Point {{ x: {}, ok: {} }}");
    assert_eq!(plan.payload, Payload::Fields(2));

    let plan = derive_plan("Pair", &Data::Struct(Fields::Unnamed(2))).unwrap();
    assert_eq!(plan.footprint, "Pair({}, {})");
    assert_eq!(plan.payload, Payload::Fields(2));

    let plan = derive_plan("Unit", &Data::Struct(Fields::Unit)).unwrap();
    assert_eq!(plan.footprint, "Unit");
    assert_eq!(plan.payload, Payload::Fields(0));
}

#[test]
fn format_strings_split_into_pieces() {
    assert_eq!(
        parsel("x = {}, y = {:?}, z = {:#?}!"),
        Ok(vec![
            Piece::Str(String::from("x = ")),
            Piece::Display,
            Piece::Str(String::from(", y = ")),
            Piece::Debug { pretty: false },
            Piece::Str(String::from(", z = ")),
            Piece::Debug { pretty: true },
            Piece::Str(String::from("!")),
        ])
    );
    assert_eq!(parsel("{{}}"), Ok(vec![Piece::Str(String::from("{}"))]));
    assert_eq!(parsel("a{{{}"), Ok(vec![Piece::Str(String::from("a{")), Piece::Display]));
    assert_eq!(parsel(""), Ok(vec![]));
    assert_eq!(parsel("{x}"), Err(FormatError::InvalidFormat));
    assert_eq!(parsel("a}b"), Err(FormatError::UnmatchedRightBrace));
    assert_eq!(unescape("a}}b"), Ok(String::from("a}b")));
    assert_eq!(unescape("a}b"), Err(FormatError::UnmatchedRightBrace));
}

#[test]
fn log_macro_plans() {
    let plan = log_plan(Some(Level::Info), "n = {}", true).unwrap();
    assert!(!plan.debug_only);
    assert_eq!(
        plan.actions,
        vec![
            Action::Timestamp,
            Action::Level(2),
            Action::Symbol(String::from("n = ")),
            Action::Display,
            Action::Str(String::from("\n")),
        ]
    );
    let plan = log_plan(Some(Level::Trace), "entering", true).unwrap();
    assert!(plan.debug_only);
    assert_eq!(plan.actions[2], Action::Symbol(String::from("entering\n")));
    let plan = log_plan(None, "hi", false).unwrap();
    assert_eq!(plan.actions, vec![Action::Str(String::from("hi"))]);
    assert!(Level::Debug.needs_debug_assertions());
    assert!(!Level::Error.needs_debug_assertions());
}
