use random_derive::expand::expand_rand;
use random_derive::expand::parse_enum_variant;
use random_derive::shape::Body;
use random_derive::shape::TypeShape;
use random_derive::shape::Variant;
use random_derive::shape::VariantData;

fn named(ident: &str, fields: &[&str]) -> TypeShape {
    TypeShape {
        ident: String::from(ident),
        body: Body::Struct(VariantData::Struct(
            fields.iter().map(|f| String::from(*f)).collect(),
        )),
    }
}

#[test]
fn struct_works() {
    let shape = named("S", &["x", "y"]);
    let out = expand_rand(&shape);
    assert_eq!(
        out.as_str(),
        "impl Rand for S { fn rand<R: rand::Rng>(rng: &mut R) -> S \
         { S { x: rand::random(), y: rand::random() } } }"
    );
}

#[test]
fn enum_works() {
    let shape = TypeShape {
        ident: String::from("E"),
        body: Body::Enum(vec![
            Variant { ident: String::from("Variant1"), data: VariantData::Unit },
            Variant { ident: String::from("Variant2"), data: VariantData::Unit },
        ]),
    };
    let out = expand_rand(&shape);
    assert_eq!(
        out.as_str(),
        "impl Rand for E { fn rand<R: rand::Rng>(rng: &mut R) -> E \
         { let r: usize = rand::random::<usize>() % 2; \
         match r { 0 => E::Variant1, 1 => E::Variant2, _ => E::Variant1 } } }"
    );
}

#[test]
fn tuple_works() {
    let shape = TypeShape {
        ident: String::from("E"),
        body: Body::Enum(vec![
            Variant { ident: String::from("Variant1"), data: VariantData::Tuple(2) },
            Variant { ident: String::from("Variant2"), data: VariantData::Tuple(1) },
        ]),
    };
    let out = expand_rand(&shape);
    assert_eq!(
        out.as_str(),
        "impl Rand for E { fn rand<R: rand::Rng>(rng: &mut R) -> E \
         { let r: usize = rand::random::<usize>() % 2; \
         match r { 0 => E::Variant1(rand::random(), rand::random()), \
         1 => E::Variant2(rand::random()), \
         _ => E::Variant1(rand::random(), rand::random()) } } }"
    );
}

#[test]
fn nested_derives() {
    // Nesting is delegation: the outer type draws each field through the
    // same leaf call, so each shape expands independently of the other.
    let inner = named("S", &["x", "y"]);
    let outer = named("T", &["s1", "s2"]);
    let out_inner = expand_rand(&inner);
    let out_outer = expand_rand(&outer);
    assert_eq!(
        out_inner.as_str(),
        "impl Rand for S { fn rand<R: rand::Rng>(rng: &mut R) -> S \
         { S { x: rand::random(), y: rand::random() } } }"
    );
    assert_eq!(
        out_outer.as_str(),
        "impl Rand for T { fn rand<R: rand::Rng>(rng: &mut R) -> T \
         { T { s1: rand::random(), s2: rand::random() } } }"
    );
}

#[test]
fn unit_struct_works() {
    let shape = TypeShape {
        ident: String::from("U"),
        body: Body::Struct(VariantData::Unit),
    };
    let out = expand_rand(&shape);
    assert_eq!(
        out.as_str(),
        "impl Rand for U { fn rand<R: rand::Rng>(rng: &mut R) -> U { U } }"
    );
}

#[test]
fn tuple_struct_works() {
    let shape = TypeShape {
        ident: String::from("P"),
        body: Body::Struct(VariantData::Tuple(3)),
    };
    let out = expand_rand(&shape);
    assert_eq!(
        out.as_str(),
        "impl Rand for P { fn rand<R: rand::Rng>(rng: &mut R) -> P \
         { P(rand::random(), rand::random(), rand::random()) } }"
    );
}

#[test]
fn empty_named_struct() {
    let shape = named("N", &[]);
    let out = expand_rand(&shape);
    assert_eq!(
        out.as_str(),
        "impl Rand for N { fn rand<R: rand::Rng>(rng: &mut R) -> N { N {  } } }"
    );
}

#[test]
fn empty_tuple_struct() {
    let shape = TypeShape {
        ident: String::from("Z"),
        body: Body::Struct(VariantData::Tuple(0)),
    };
    let out = expand_rand(&shape);
    assert_eq!(
        out.as_str(),
        "impl Rand for Z { fn rand<R: rand::Rng>(rng: &mut R) -> Z { Z() } }"
    );
}

#[test]
fn single_variant_enum() {
    let shape = TypeShape {
        ident: String::from("E"),
        body: Body::Enum(vec![Variant {
            ident: String::from("Only"),
            data: VariantData::Unit,
        }]),
    };
    let out = expand_rand(&shape);
    assert_eq!(
        out.as_str(),
        "impl Rand for E { fn rand<R: rand::Rng>(rng: &mut R) -> E \
         { let r: usize = rand::random::<usize>() % 1; \
         match r { 0 => E::Only, _ => E::Only } } }"
    );
}

#[test]
fn record_variant_enum() {
    let shape = TypeShape {
        ident: String::from("E"),
        body: Body::Enum(vec![
            Variant {
                ident: String::from("Point"),
                data: VariantData::Struct(vec![String::from("x"), String::from("y")]),
            },
            Variant { ident: String::from("Origin"), data: VariantData::Unit },
        ]),
    };
    let out = expand_rand(&shape);
    assert_eq!(
        out.as_str(),
        "impl Rand for E { fn rand<R: rand::Rng>(rng: &mut R) -> E \
         { let r: usize = rand::random::<usize>() % 2; \
         match r { 0 => E::Point { x: rand::random(), y: rand::random() }, \
         1 => E::Origin, \
         _ => E::Point { x: rand::random(), y: rand::random() } } } }"
    );
}

#[test]
fn many_variants_two_digit_selector() {
    let variants: Vec<Variant> = (0..12)
        .map(|i| Variant {
            ident: format!("V{}", i),
            data: VariantData::Unit,
        })
        .collect();
    let shape = TypeShape {
        ident: String::from("Wide"),
        body: Body::Enum(variants),
    };
    let out = expand_rand(&shape);
    assert_eq!(
        out.as_str(),
        "impl Rand for Wide { fn rand<R: rand::Rng>(rng: &mut R) -> Wide \
         { let r: usize = rand::random::<usize>() % 12; \
         match r { 0 => Wide::V0, 1 => Wide::V1, 2 => Wide::V2, 3 => Wide::V3, \
         4 => Wide::V4, 5 => Wide::V5, 6 => Wide::V6, 7 => Wide::V7, \
         8 => Wide::V8, 9 => Wide::V9, 10 => Wide::V10, 11 => Wide::V11, \
         _ => Wide::V0 } } }"
    );
}

#[test]
fn indexed_arm() {
    let variant = Variant {
        ident: String::from("Pair"),
        data: VariantData::Tuple(2),
    };
    let out = parse_enum_variant(&variant, &String::from("E"), Some(3));
    assert_eq!(out.as_str(), "3 => E::Pair(rand::random(), rand::random())");
}

#[test]
fn default_arm() {
    let variant = Variant {
        ident: String::from("Home"),
        data: VariantData::Struct(vec![String::from("street")]),
    };
    let out = parse_enum_variant(&variant, &String::from("Addr"), None);
    assert_eq!(out.as_str(), "_ => Addr::Home { street: rand::random() }");
}
