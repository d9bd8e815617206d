use mkutils::derive::basic::{Basic, BasicError, MetaReading};
use mkutils::derive::const_assoc::ConstAssoc;
use mkutils::derive::constructor::{Constructor, ConstructorArgs, DeriveError};
use mkutils::derive::default::{Default as DefaultMacro, ExprReading};
use mkutils::derive::empty::Empty;
use mkutils::derive::error::Error;
use mkutils::derive::from_chain::{ChainReading, FromChain};
use mkutils::derive::item_fn::{context, ItemFn, TokioMain};
use mkutils::derive::set_variant::SetVariant;
use mkutils::derive::shape::{
    Attribute, Data, DeriveInput, Field, Fields, Generics, ItemHeader, Meta, MetaKind, Variant,
};
use mkutils::derive::toggle::{Toggle, ToggleError};
use mkutils::derive::type_assoc::{TypeAssoc, TypeAssocArgs, TypeAssocAttribute, TypeAssocError};
use mkutils::derive::with::{FnArg as WithFnArg, GenericParam as WithGenericParam, MethodSig, MethodText, With};

fn header(ident: &str) -> ItemHeader {
    ItemHeader {
        ident: ident.to_string(),
        impl_generics: String::new(),
        type_generics: String::new(),
        where_clause: String::new(),
    }
}

fn generic_header(ident: &str, param: &str) -> ItemHeader {
    ItemHeader {
        ident: ident.to_string(),
        impl_generics: format!("<{param}>"),
        type_generics: format!("<{param}>"),
        where_clause: String::new(),
    }
}

fn input(ident: &str, data: Data) -> DeriveInput {
    DeriveInput {
        header: header(ident),
        data,
        attrs: Vec::new(),
        generics: Generics { type_params: Vec::new(), where_predicates: Vec::new() },
    }
}

fn named(name: &str, ty: &str) -> Field {
    Field { ident: Some(name.to_string()), ty: ty.to_string(), attrs: Vec::new() }
}

fn unnamed(ty: &str) -> Field {
    Field { ident: None, ty: ty.to_string(), attrs: Vec::new() }
}

fn unit_variant(name: &str) -> Variant {
    Variant { ident: name.to_string(), fields: Fields::Unit }
}

fn tuple_variant(name: &str, types: &[&str]) -> Variant {
    Variant { ident: name.to_string(), fields: Fields::Unnamed(types.iter().map(|ty| unnamed(ty)).collect()) }
}

/// `enum MyEnum { UnitOne, UnitTwo, UnitThree, String(String), Tuple(i32, i32) }`
fn my_enum_variants() -> Vec<Variant> {
    vec![
        unit_variant("UnitOne"),
        unit_variant("UnitTwo"),
        unit_variant("UnitThree"),
        tuple_variant("String", &["String"]),
        tuple_variant("Tuple", &["i32", "i32"]),
    ]
}

fn my_enum() -> DeriveInput {
    input("MyEnum", Data::Enum(my_enum_variants()))
}

fn attribute(path: &str, tokens: &str, metas: Option<Vec<Meta>>) -> Attribute {
    Attribute { path: path.to_string(), tokens: tokens.to_string(), metas }
}

#[test]
fn test_set_variant() {
    let variants = my_enum_variants();
    let setter = SetVariant::method_block_from_variant(&variants[1]).unwrap();

    assert_eq!(setter, "pub fn set_unit_two(&mut self) -> &mut Self { *self = Self::UnitTwo; self }");

    let setter = SetVariant::method_block_from_variant(&variants[2]).unwrap();

    assert_eq!(setter, "pub fn set_unit_three(&mut self) -> &mut Self { *self = Self::UnitThree; self }");
}

#[test]
fn test_toggle() {
    let variants = my_enum_variants();
    let units = Toggle::unit_variant_idents(&variants);
    let targets = Toggle::toggle_targets(&variants);
    let toggled = |i: usize| units[targets[i]].as_str();

    assert_eq!(toggled(0), "UnitTwo");
    assert_eq!(toggled(1), "UnitThree");
    assert_eq!(toggled(2), "UnitOne");
    assert_eq!(toggled(3), "UnitOne");
    assert_eq!(toggled(4), "UnitOne");
}

#[test]
fn test_constructor_c_struct() {
    let fields = vec![named("name", "String"), named("count", "i32")];
    let block = Constructor::constructor_method_block_for_c_struct(&fields, &ConstructorArgs::default_args());

    // `CStruct::new(String::from("hello"), 42)` sets `name` to "hello" and `count` to 42
    assert_eq!(block.unwrap(), "fn new(name: String, count: i32) -> Self { Self { name, count } }");
}

#[test]
fn test_constructor_tuple_struct() {
    let fields = vec![unnamed("&'static str"), unnamed("usize")];
    let block = Constructor::constructor_method_block_for_tuple_struct(&fields, &ConstructorArgs::default_args());

    // `TupleStruct::new("true", 7)` sets `.0` to "true" and `.1` to 7
    assert_eq!(block, "fn new(field_0: &'static str, field_1: usize) -> Self { Self(field_0, field_1) }");
}

#[test]
fn test_constructor_unit_struct() {
    let text = Constructor::derive_impl(&input("UnitStruct", Data::Struct(Fields::Unit)), &ConstructorArgs::default_args());

    assert_eq!(text.unwrap(), "impl UnitStruct  { fn new() -> Self { Self } }");
}

#[test]
fn test_constructor_pub_visibility() {
    let args = ConstructorArgs::parse("pub".to_string(), None);
    let block = Constructor::constructor_method_block_for_tuple_struct(&vec![unnamed("u8")], &args);

    // `PubConstructorStruct::new(255)` sets `.0` to 255
    assert_eq!(block, "pub fn new(field_0: u8) -> Self { Self(field_0) }");
}

#[test]
fn test_custom_constructor_name() {
    let args = ConstructorArgs::parse(String::new(), Some("from_parts".to_string()));
    let block = Constructor::constructor_method_block_for_tuple_struct(&vec![unnamed("&'static str")], &args);

    // `NamedConstructorStruct::from_parts("hello")` sets `.0` to "hello"
    assert_eq!(block, "fn from_parts(field_0: &'static str) -> Self { Self(field_0) }");
}

#[test]
fn test_custom_constructor_name_and_visibility() {
    let args = ConstructorArgs::parse("pub(crate)".to_string(), Some("create".to_string()));
    let text = Constructor::derive_impl(&input("NamedPubConstructorStruct", Data::Struct(Fields::Unit)), &args);

    assert_eq!(text.unwrap(), "impl NamedPubConstructorStruct  { pub(crate) fn create() -> Self { Self } }");
}

#[test]
fn test_const_assoc() {
    let consts = vec![
        ConstAssoc::new("pub".to_string(), "MAX_SIZE".to_string(), "usize".to_string(), "1024".to_string()),
        ConstAssoc::new(String::new(), "DEFAULT_NAME".to_string(), "&str".to_string(), "\"unnamed\"".to_string()),
    ];
    let text = ConstAssoc::derive_impl(&header("ConstAssocStruct"), &consts);

    assert_eq!(
        text,
        "impl ConstAssocStruct  { pub const MAX_SIZE: usize = 1024; const DEFAULT_NAME: &str = \"unnamed\"; }"
    );
}

#[test]
fn test_const_assoc_enum() {
    let consts = vec![ConstAssoc::new(
        "pub(crate)".to_string(),
        "SCALE_FACTOR".to_string(),
        "usize".to_string(),
        "25".to_string(),
    )];
    let text = ConstAssoc::derive_impl(&header("ConstAssocEnum"), &consts);

    assert_eq!(text, "impl ConstAssocEnum  { pub(crate) const SCALE_FACTOR: usize = 25; }");
}

#[test]
fn toggle_generates_match_arms_and_methods() {
    let text = Toggle::derive_impl(&my_enum());

    assert_eq!(
        text,
        "impl MyEnum  { pub fn toggled(&self) -> Self { match self { Self::UnitOne => Self::UnitTwo, \
         Self::UnitTwo => Self::UnitThree, Self::UnitThree => Self::UnitOne, Self::String(..) => Self::UnitOne, \
         Self::Tuple(..) => Self::UnitOne, } } pub fn toggle(&mut self) -> &mut Self { *self = self.toggled(); \
         self } }"
    );
}

#[test]
fn toggle_matches_named_field_variants_with_braces() {
    let variants = vec![
        unit_variant("A"),
        Variant { ident: "B".to_string(), fields: Fields::Named(vec![named("x", "u8")]) },
        unit_variant("C"),
    ];
    let text = Toggle::derive_impl(&input("E", Data::Enum(variants)));

    assert_eq!(
        text,
        "impl E  { pub fn toggled(&self) -> Self { match self { Self::A => Self::C, Self::B { .. } => Self::C, \
         Self::C => Self::A, } } pub fn toggle(&mut self) -> &mut Self { *self = self.toggled(); self } }"
    );
}

#[test]
fn toggle_match_arms_text() {
    let mut variants = my_enum_variants();
    variants.push(Variant { ident: "Named".to_string(), fields: Fields::Named(vec![named("x", "u8")]) });

    assert_eq!(
        Toggle::match_arms(&variants),
        vec![
            "Self::UnitOne => Self::UnitTwo,".to_string(),
            "Self::UnitTwo => Self::UnitThree,".to_string(),
            "Self::UnitThree => Self::UnitOne,".to_string(),
            "Self::String(..) => Self::UnitOne,".to_string(),
            "Self::Tuple(..) => Self::UnitOne,".to_string(),
            "Self::Named { .. } => Self::UnitOne,".to_string(),
        ]
    );
}

#[test]
fn toggle_refuses_an_enum_without_unit_variants() {
    let only_tuples = input("E", Data::Enum(vec![tuple_variant("A", &["u8"])]));
    assert_eq!(Toggle::try_derive_impl(&only_tuples).unwrap_err(), ToggleError::NoUnitVariants);

    let empty = input("E", Data::Enum(Vec::new()));
    assert_eq!(
        Toggle::try_derive_impl(&empty).unwrap(),
        "impl E  { pub fn toggled(&self) -> Self { match self {  } } pub fn toggle(&mut self) -> &mut Self { \
         *self = self.toggled(); self } }"
    );
}

#[test]
fn set_variant_skips_variants_with_fields() {
    let blocks = SetVariant::method_blocks(&my_enum());

    assert_eq!(blocks.len(), 3);
    assert_eq!(blocks[0], "pub fn set_unit_one(&mut self) -> &mut Self { *self = Self::UnitOne; self }");
    assert_eq!(SetVariant::method_name(&variant_named("HTTPServer")).unwrap(), "set_http_server");
}

fn variant_named(name: &str) -> Variant {
    unit_variant(name)
}

#[test]
fn constructor_rejects_enums_and_unnamed_fields_in_c_structs() {
    let enum_input = my_enum();

    assert!(matches!(
        Constructor::derive_impl(&enum_input, &ConstructorArgs::default_args()),
        Err(DeriveError::UnsupportedItemType)
    ));

    let fields = vec![named("a", "u8"), unnamed("u8")];

    assert!(matches!(
        Constructor::constructor_method_block_for_c_struct(&fields, &ConstructorArgs::default_args()),
        Err(DeriveError::CStructFieldMissingName)
    ));
}

#[test]
fn saturating_sub_on_tuple_struct() {
    let point = DeriveInput {
        header: generic_header("Point", "T"),
        data: Data::Struct(Fields::Unnamed(vec![unnamed("T"), unnamed("T")])),
        attrs: Vec::new(),
        generics: Generics { type_params: vec!["T".to_string()], where_predicates: Vec::new() },
    };
    let text = Basic::derive_impl(&point, "::num::traits::SaturatingSub", "saturating_sub", "Self", "saturating_sub");

    assert_eq!(
        text.unwrap(),
        "impl<T> ::num::traits::SaturatingSub for Point<T> where T: ::num::traits::SaturatingSub {  fn \
         saturating_sub(&self, other: &Self) -> Self { Self(::num::traits::SaturatingSub::saturating_sub(&self.0, \
         &other.0), ::num::traits::SaturatingSub::saturating_sub(&self.1, &other.1)) } }"
    );
}

#[test]
fn saturating_add_signed_with_associated_type_and_bound() {
    let metas = vec![
        Meta {
            path: "assoc".to_string(),
            kind: MetaKind::List("type Signed = Point<<T as SaturatingAddSigned>::Signed>".to_string()),
        },
        Meta { path: "bound".to_string(), kind: MetaKind::NameValue(Some("T: Copy".to_string())) },
    ];
    let point = DeriveInput {
        header: generic_header("Point", "T"),
        data: Data::Struct(Fields::Named(vec![named("x", "T"), named("y", "T")])),
        attrs: vec![attribute("saturating_add_signed", "", Some(metas))],
        generics: Generics { type_params: vec!["T".to_string()], where_predicates: Vec::new() },
    };
    let text = Basic::derive_impl(
        &point,
        "::mkutils::SaturatingAddSigned",
        "saturating_add_signed",
        "Self::Signed",
        "saturating_add_signed",
    )
    .unwrap();

    assert!(text.starts_with("impl<T> ::mkutils::SaturatingAddSigned for Point<T> where T : Copy { type Signed = "));
    assert!(text.contains("Point<<T as SaturatingAddSigned>::Signed>; fn saturating_add_signed(&self, other: &Self::Signed)"));
    assert!(text.ends_with(
        "Self { x: ::mkutils::SaturatingAddSigned::saturating_add_signed(&self.x, &other.x), y: \
         ::mkutils::SaturatingAddSigned::saturating_add_signed(&self.y, &other.y) } } }"
    ));
}

#[test]
fn basic_reports_each_error() {
    let with_attr = |meta: Meta| DeriveInput {
        header: header("S"),
        data: Data::Struct(Fields::Unit),
        attrs: vec![attribute("saturating_add", "", Some(vec![meta]))],
        generics: Generics { type_params: Vec::new(), where_predicates: Vec::new() },
    };
    let derive = |input: &DeriveInput| {
        Basic::derive_impl(input, "::num::traits::SaturatingAdd", "saturating_add", "Self", "saturating_add")
    };

    let unexpected = with_attr(Meta { path: "other".to_string(), kind: MetaKind::Path });
    assert_eq!(derive(&unexpected).unwrap_err(), BasicError::UnexpectedArgument);
    assert_eq!(Basic::unexpected_argument_message(), "expected `assoc`, or `bound` here");

    let assoc_path = with_attr(Meta { path: "assoc".to_string(), kind: MetaKind::Path });
    assert_eq!(derive(&assoc_path).unwrap_err(), BasicError::ExpectedList);

    let bad_item = with_attr(Meta { path: "assoc".to_string(), kind: MetaKind::List("= =".to_string()) });
    assert_eq!(derive(&bad_item).unwrap_err(), BasicError::InvalidAssociatedItem);

    let bound_list = with_attr(Meta { path: "bound".to_string(), kind: MetaKind::List("T".to_string()) });
    assert_eq!(derive(&bound_list).unwrap_err(), BasicError::ExpectedNameValue);

    let bound_number = with_attr(Meta { path: "bound".to_string(), kind: MetaKind::NameValue(None) });
    assert_eq!(derive(&bound_number).unwrap_err(), BasicError::ExpectedStringLiteral);

    let bad_bound = with_attr(Meta { path: "bound".to_string(), kind: MetaKind::NameValue(Some("+ +".to_string())) });
    assert_eq!(derive(&bad_bound).unwrap_err(), BasicError::InvalidBounds);

    let mut unreadable = with_attr(Meta { path: "other".to_string(), kind: MetaKind::Path });
    unreadable.attrs[0].metas = None;
    assert_eq!(derive(&unreadable).unwrap_err(), BasicError::InvalidAttributeArguments);

    let mut enum_input = my_enum();
    enum_input.attrs = Vec::new();
    assert_eq!(derive(&enum_input).unwrap_err(), BasicError::UnsupportedItemType);
}

#[test]
fn basic_impl_from_given_readings() {
    let metas = vec![
        Meta { path: "assoc".to_string(), kind: MetaKind::List("type Out = u8".to_string()) },
        Meta { path: "bound".to_string(), kind: MetaKind::NameValue(Some("T: Copy".to_string())) },
    ];
    let point = DeriveInput {
        header: generic_header("P", "T"),
        data: Data::Struct(Fields::Unnamed(vec![unnamed("T")])),
        attrs: vec![attribute("saturating_add", "", Some(metas))],
        generics: Generics { type_params: vec!["T".to_string()], where_predicates: Vec::new() },
    };
    let reading = |item: bool, item_with_semicolon: bool, predicates: Option<Vec<String>>| MetaReading {
        item_text: "type Out = u8".to_string(),
        item,
        item_with_semicolon_text: "type Out = u8;".to_string(),
        item_with_semicolon,
        bounds_text: "T: Copy".to_string(),
        predicates,
    };
    let readings = vec![vec![reading(false, true, None), reading(false, false, Some(vec!["T : Copy".to_string()]))]];
    let derive = |readings: &Vec<Vec<MetaReading>>| {
        Basic::derive_impl_from_readings(&point, "Add", "add", "Self", "saturating_add", readings)
    };

    assert_eq!(
        derive(&readings).unwrap(),
        "impl<T> Add for P<T> where T : Copy { type Out = u8; fn add(&self, other: &Self) -> Self { \
         Self(Add::add(&self.0, &other.0)) } }"
    );

    let unreadable_bound = vec![vec![reading(true, false, None), reading(false, false, None)]];
    assert_eq!(derive(&unreadable_bound).unwrap_err(), BasicError::InvalidBounds);

    let unreadable_item = vec![vec![reading(false, false, None), reading(false, false, Some(Vec::new()))]];
    assert_eq!(derive(&unreadable_item).unwrap_err(), BasicError::InvalidAssociatedItem);

    let (tokens, with_semicolon) = Basic::associated_item_texts("type A = u8");
    assert_eq!((tokens.as_str(), with_semicolon.as_str()), ("type A = u8", "type A = u8;"));
    let bound = Meta { path: "bound".to_string(), kind: MetaKind::NameValue(Some("T: Copy".to_string())) };
    assert_eq!(Basic::bound_text(&bound), Some("T: Copy".to_string()));
    let not_bound = Meta { path: "assoc".to_string(), kind: MetaKind::NameValue(Some("T: Copy".to_string())) };
    assert_eq!(Basic::bound_text(&not_bound), None);
    assert_eq!(Basic::associated_item_from_reading("type A = u8", false, true).unwrap(), "type A = u8;");
    assert_eq!(Basic::associated_item_from_reading("type A = u8;", true, false).unwrap(), "type A = u8;");
}

#[test]
fn basic_adds_semicolon_to_associated_item() {
    assert_eq!(Basic::parse_associated_item("type A = u8").unwrap(), "type A = u8;");
    assert_eq!(Basic::parse_associated_item("const B: u8 = 1;").unwrap(), "const B: u8 = 1;");
}

#[test]
fn default_uses_attribute_expressions() {
    let mut count = named("count", "usize");
    count.attrs.push(attribute("default", "7", None));
    let fields = vec![named("name", "String"), count];
    let text = DefaultMacro::derive_impl(&input("Config", Data::Struct(Fields::Named(fields)))).unwrap();

    assert_eq!(
        text,
        "impl ::std::default::Default for Config  { fn default() -> Self { Self { name: \
         ::std::default::Default::default(), count: 7 } } }"
    );

    let reading = |text: &str, parses: bool| ExprReading { text: text.to_string(), parses };
    let bad = || {
        let mut bad = unnamed("u8");
        bad.attrs.push(attribute("default", "let", None));
        bad
    };
    assert!(matches!(
        DefaultMacro::derive_impl(&input("Pair", Data::Struct(Fields::Unnamed(vec![bad()])))),
        Err(DeriveError::InvalidExpression)
    ));
    assert!(matches!(
        DefaultMacro::default_value_for_tuple_struct(&vec![bad()], &vec![reading("let", false)]),
        Err(DeriveError::InvalidExpression)
    ));
    assert_eq!(DefaultMacro::default_value_for_tuple_struct(&vec![bad()], &vec![reading("let", true)]).unwrap(), "Self(let)");
    assert_eq!(DefaultMacro::default_expression_text(&bad()), Some("let".to_string()));
    assert_eq!(DefaultMacro::default_expression_text(&unnamed("u8")), None);
    assert_eq!(DefaultMacro::default_field_value(&bad()).unwrap_err(), DeriveError::InvalidExpression);
    assert!(matches!(DefaultMacro::derive_impl(&my_enum()), Err(DeriveError::UnsupportedItemType)));
}

#[test]
fn type_assoc_reads_first_attribute() {
    let args = TypeAssocArgs {
        key: "impl_trait".to_string(),
        trait_path: "Shape".to_string(),
        assoc_types: vec![("Output".to_string(), "u8".to_string()), ("Err".to_string(), "()".to_string())],
    };
    let attrs = vec![
        TypeAssocAttribute { path: "doc".to_string(), args: None },
        TypeAssocAttribute { path: "type_assoc".to_string(), args: Some(args) },
    ];
    let text = TypeAssoc::derive_impl(&header("Square"), &attrs).unwrap();

    assert_eq!(text, "impl Shape for Square  { type Output = u8; type Err = (); }");
    assert!(matches!(TypeAssoc::derive_impl(&header("Square"), &Vec::new()), Err(TypeAssocError::MissingAttribute)));

    let wrong_key = TypeAssocArgs { key: "trait".to_string(), trait_path: "Shape".to_string(), assoc_types: Vec::new() };
    assert!(matches!(TypeAssoc::parse(&wrong_key), Err(TypeAssocError::UnexpectedTraitPathKey)));
    assert_eq!(TypeAssoc::missing_type_assoc_attribute_error_message(), "no `type_assoc` attribute found");
    assert_eq!(TypeAssoc::unexpected_trait_path_key(), "expected `impl_trait` here");
}

fn item_fn(is_async: bool) -> ItemFn {
    ItemFn {
        attrs: vec!["#[inline]".to_string()],
        vis: "pub".to_string(),
        is_async,
        sig: if is_async { "async fn run() -> Result<()>".to_string() } else { "fn run() -> Result<()>".to_string() },
        sync_sig: "fn run() -> Result<()>".to_string(),
        output: "-> Result<()>".to_string(),
        block: "{ work() }".to_string(),
    }
}

#[test]
fn context_wraps_sync_and_async_bodies() {
    assert_eq!(
        context("\"running\"", &item_fn(false)),
        "#[inline] pub fn run() -> Result<()> { ::anyhow::Context::context((move || -> Result<()> { work() })(), \
         \"running\") }"
    );
    assert_eq!(
        context("\"running\"", &item_fn(true)),
        "#[inline] pub async fn run() -> Result<()> { ::anyhow::Context::context((async move { work() }).await, \
         \"running\") }"
    );
}

#[test]
fn tokio_main_builds_runtime() {
    let tokio_main = TokioMain::parse(&vec![("thread_stack_size".to_string(), "SIZE".to_string())]);
    let text = tokio_main.derive_impl(&item_fn(true));

    assert_eq!(
        text,
        "#[inline] pub fn run() -> Result<()> { ::tokio::runtime::Builder::new_multi_thread().enable_all()\
         .thread_stack_size(SIZE).build().unwrap().block_on(async { work() }) }"
    );
}

#[test]
fn error_messages() {
    assert_eq!(Error::unexpected_value_multi_message(&[]), "expected nothing here");
    assert_eq!(Error::unexpected_value_multi_message(&["a", "b", "c"]), "expected `a`, `b`, or `c` here");
    assert_eq!(Error::missing_expected_attribute_message("with"), "no `with` attribute found");
}

fn method(ident: &str, generics: Vec<WithGenericParam>, inputs: Vec<WithFnArg>) -> MethodSig {
    MethodSig { ident: ident.to_string(), generics, inputs, is_unsafe: false, is_async: false }
}

#[test]
fn test_with() {
    // `fn set_values(&mut self, (first, second): (usize, usize)) -> &mut Self`
    let set_values = method(
        "set_values",
        Vec::new(),
        vec![WithFnArg::Receiver { mutable: true }, WithFnArg::Typed],
    );
    // `const fn record_type<T>(&mut self)`
    let record_type = method(
        "record_type",
        vec![WithGenericParam::Type("T".to_string())],
        vec![WithFnArg::Receiver { mutable: true }],
    );
    // `fn push(&mut self, value: usize)`
    let push = method("push", Vec::new(), vec![WithFnArg::Receiver { mutable: true }, WithFnArg::Typed]);

    // `WithStruct::default().with_values((2, 3)).with_type::<u64>().with_push(5)` calls the
    // three methods in turn, giving the values [2, 3, 5] and the size of `u64`
    assert_eq!(With::get_with_method_ident(&set_values.ident), "with_values");
    assert_eq!(With::get_original_method_application(&set_values), "self.set_values(parameter_1)");
    assert_eq!(With::get_with_method_ident(&record_type.ident), "with_type");
    assert_eq!(With::get_original_method_application(&record_type), "self.record_type::<T>()");
    assert_eq!(With::get_with_method_ident(&push.ident), "with_push");
    assert_eq!(With::get_original_method_application(&push), "self.push(parameter_1)");
}

#[test]
fn with_handles_functions_lifetimes_unsafe_and_async() {
    let mut sig = method(
        "make_thing",
        vec![WithGenericParam::Lifetime("'a".to_string()), WithGenericParam::Const("N".to_string())],
        vec![WithFnArg::Typed, WithFnArg::Typed],
    );
    sig.is_unsafe = true;
    sig.is_async = true;

    assert_eq!(
        With::get_original_method_application(&sig),
        "(unsafe { Self::make_thing::<N>(parameter_0, parameter_1) }).await"
    );
    let (idents, is_method) = With::get_with_method_parameter_idents_and_is_method(&sig.inputs);
    assert_eq!(idents, vec!["parameter_0".to_string(), "parameter_1".to_string()]);
    assert!(!is_method);
}

#[test]
fn with_generates_the_whole_method() {
    let sig = method("set_values", Vec::new(), vec![WithFnArg::Receiver { mutable: true }, WithFnArg::Typed]);
    let text = MethodText {
        prefix: "pub".to_string(),
        generics: String::new(),
        input_types: vec![String::new(), "(usize, usize)".to_string()],
        where_clause: String::new(),
    };

    assert_eq!(
        With::with_method(&sig, &text),
        "pub fn with_values(mut self, parameter_1: (usize, usize)) -> Self  { let _ = \
         self.set_values(parameter_1); self }"
    );

    let generic = method("record_type", vec![WithGenericParam::Type("T".to_string())], vec![WithFnArg::Receiver {
        mutable: false,
    }]);
    let text = MethodText {
        prefix: "const".to_string(),
        generics: "< T : Copy >".to_string(),
        input_types: vec![String::new()],
        where_clause: "where T : Default".to_string(),
    };

    assert_eq!(
        With::with_method(&generic, &text),
        "const fn with_type< T : Copy >(self) -> Self where T : Default { let _ = self.record_type::<T>(); self }"
    );
}

#[test]
fn with_method_takes_its_receiver_by_value() {
    assert_eq!(With::with_method_receiver(&WithFnArg::Receiver { mutable: true }), Some("mut self".to_string()));
    assert_eq!(With::with_method_receiver(&WithFnArg::Receiver { mutable: false }), Some("self".to_string()));
    assert_eq!(With::with_method_receiver(&WithFnArg::Typed), None);
}

#[test]
fn test_empty() {
    let enum_type = Empty::parse_empty_type(None).unwrap();
    let unit_struct = Empty::parse_empty_type(Some("unit_struct")).unwrap();
    let c_struct = Empty::parse_empty_type(Some("c_struct")).unwrap();

    assert_eq!(enum_type, Empty::parse_empty_type(Some("enum")).unwrap());
    assert_eq!(enum_type.get_declaration("EmptyEnum"), "enum EmptyEnum {}");
    assert_eq!(unit_struct.get_declaration("EmptyUnitStruct"), "struct EmptyUnitStruct;");
    assert_eq!(c_struct.get_declaration("EmptyCStruct"), "struct EmptyCStruct {}");

    let attributed = Empty { visibility: String::new(), empty_type: unit_struct };
    let text = attributed.derive_impl(
        &vec!["#[derive(Debug, Default, PartialEq)]".to_string(), "#[must_use]".to_string()],
        "AttributedEmptyUnitStruct",
        "impl AttributedEmptyUnitStruct {}",
    );
    assert_eq!(
        text,
        "#[derive(Debug, Default, PartialEq)] #[must_use] struct AttributedEmptyUnitStruct; impl \
         AttributedEmptyUnitStruct {}"
    );

    let public = Empty { visibility: "pub(crate)".to_string(), empty_type: c_struct };
    assert_eq!(
        public.derive_impl(&Vec::new(), "CrateCStruct", "impl CrateCStruct {}"),
        " pub(crate) struct CrateCStruct {} impl CrateCStruct {}"
    );
    assert_eq!(
        Empty::parse_empty_type(Some("union")).unwrap_err(),
        "expected `enum`, `unit_struct`, or `c_struct` here"
    );
}

#[test]
fn from_chain_reads_each_attribute() {
    let mut chained = input("S", Data::Struct(Fields::Unit));
    chained.attrs = vec![attribute("other", "", None), attribute("from_chain", "u8, u16", None)];

    assert_eq!(
        FromChain::derive(&chained).unwrap(),
        "impl ::std::convert::From<u8> for S  { fn from(value: u8) -> Self { <Self as ::std::convert::From<u16>>::from(\
         <u16 as ::std::convert::From<u8>>::from(value)) } }"
    );

    let mut broken = input("S", Data::Struct(Fields::Unit));
    broken.attrs = vec![attribute("from_chain", "u8", None), attribute("from_chain", "= =", None)];
    assert_eq!(FromChain::derive(&broken), Err(1));

    let readings = vec![
        ChainReading { text: "u8".to_string(), types: Some(vec!["A".to_string()]) },
        ChainReading { text: "= =".to_string(), types: None },
    ];
    assert_eq!(FromChain::derive_from_readings(&broken, &readings), Err(1));
    let readings = vec![
        ChainReading { text: "u8".to_string(), types: Some(vec!["A".to_string()]) },
        ChainReading { text: "= =".to_string(), types: Some(Vec::new()) },
    ];
    assert_eq!(
        FromChain::derive_from_readings(&broken, &readings).unwrap(),
        "impl ::std::convert::From<A> for S  { fn from(value: A) -> Self { <Self as ::std::convert::From<A>>::from(value) \
         } } impl ::std::convert::From<Self> for S  { fn from(value: Self) -> Self { value } }"
    );
}
