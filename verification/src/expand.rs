//! The generator: from a type shape to the text of its `Rand` implementation.
//!
//! The spec functions here pin down every character of the generated clause;
//! the executable functions build that text and are proved to match.

use vstd::prelude::*;

use crate::numeral::append_dec;
use crate::numeral::spec_dec;
use crate::shape::Body;
use crate::shape::TypeShape;
use crate::shape::Variant;
use crate::shape::VariantData;
use crate::shape::shape_wf;

verus! {

/// The expression that draws one random leaf value.
pub open spec fn spec_rand_call() -> Seq<char> {
    "rand::random()"@
}

/// `name: rand::random()` for one named field.
pub open spec fn spec_named_field(name: Seq<char>) -> Seq<char> {
    name + ": rand::random()"@
}

/// The named fields' initializers, in declaration order, joined with `, `.
pub open spec fn spec_named_fields(names: Seq<String>) -> Seq<char>
    decreases names.len(),
{
    if names.len() == 0 {
        Seq::empty()
    } else if names.len() == 1 {
        spec_named_field(names[0]@)
    } else {
        spec_named_fields(names.drop_last()) + ", "@ + spec_named_field(names.last()@)
    }
}

/// `n` random draws joined with `, `, one for each unnamed field.
pub open spec fn spec_tuple_args(n: nat) -> Seq<char>
    decreases n,
{
    if n == 0 {
        Seq::empty()
    } else if n == 1 {
        spec_rand_call()
    } else {
        spec_tuple_args((n - 1) as nat) + ", "@ + spec_rand_call()
    }
}

/// What follows the constructor path for a given field shape: a braced list
/// of named draws, a parenthesised list of draws, or nothing at all.
pub open spec fn spec_fields_suffix(data: VariantData) -> Seq<char> {
    match data {
        VariantData::Struct(names) => " { "@ + spec_named_fields(names@) + " }"@,
        VariantData::Tuple(n) => "("@ + spec_tuple_args(n as nat) + ")"@,
        VariantData::Unit => Seq::empty(),
    }
}

/// The whole construction expression: the constructor path, then whatever
/// its field shape calls for.
pub open spec fn spec_construct(path: Seq<char>, data: VariantData) -> Seq<char> {
    path + spec_fields_suffix(data)
}

/// One match arm: pattern `pat`, then the variant's construction expression,
/// its path qualified by the enum's name.
pub open spec fn spec_arm(enum_ident: Seq<char>, v: Variant, pat: Seq<char>) -> Seq<char> {
    pat + " => "@ + spec_construct(enum_ident + "::"@ + v.ident@, v.data)
}

/// The pattern of an arm: the selector value when one is given, or the
/// wildcard for the trailing default arm.
pub open spec fn spec_arm_pat(index: Option<usize>) -> Seq<char> {
    match index {
        Some(i) => spec_dec(i as nat),
        None => "_"@,
    }
}

/// The arms for the declared variants, in order, each with its position as
/// the pattern, joined with `, `.
pub open spec fn spec_indexed_arms(enum_ident: Seq<char>, vs: Seq<Variant>) -> Seq<char>
    decreases vs.len(),
{
    if vs.len() == 0 {
        Seq::empty()
    } else if vs.len() == 1 {
        spec_arm(enum_ident, vs[0], spec_dec(0))
    } else {
        spec_indexed_arms(enum_ident, vs.drop_last()) + ", "@ + spec_arm(
            enum_ident,
            vs.last(),
            spec_dec((vs.len() - 1) as nat),
        )
    }
}

/// The body generated for a tagged union: draw a selector below the variant
/// count, then match it against every variant in order, with the first
/// variant once more as the default arm.
pub open spec fn spec_enum_body(enum_ident: Seq<char>, vs: Seq<Variant>) -> Seq<char> {
    "let r: usize = rand::random::<usize>() % "@ + spec_dec(vs.len()) + "; match r { "@
        + spec_indexed_arms(enum_ident, vs) + ", "@ + spec_arm(enum_ident, vs[0], "_"@) + " }"@
}

/// The expression generated inside the `rand` method for a shape.
pub open spec fn spec_rand_body(s: TypeShape) -> Seq<char> {
    match s.body {
        Body::Struct(data) => spec_construct(s.ident@, data),
        Body::Enum(vs) => spec_enum_body(s.ident@, vs@),
    }
}

/// The whole generated clause: an `impl Rand` with a single `rand` method
/// whose body is [`spec_rand_body`].
pub open spec fn spec_expand(s: TypeShape) -> Seq<char> {
    "impl Rand for "@ + s.ident@ + " { fn rand<R: rand::Rng>(rng: &mut R) -> "@ + s.ident@
        + " { "@ + spec_rand_body(s) + " } }"@
}

/// Appends `name: rand::random()` for each named field, comma-separated.
fn append_named_fields(out: &mut String, names: &Vec<String>)
    ensures
        final(out)@ == old(out)@ + spec_named_fields(names@),
{
    assert(out@ =~= old(out)@ + spec_named_fields(names@.take(0)));
    let mut i: usize = 0;
    while i < names.len()
        invariant
            i <= names@.len(),
            out@ == old(out)@ + spec_named_fields(names@.take(i as int)),
        decreases names@.len() - i,
    {
        if i > 0 {
            out.append(", ");
        }
        out.append(names[i].as_str());
        out.append(": rand::random()");
        i = i + 1;
        proof {
            assert(names@.take(i as int).drop_last() =~= names@.take(i - 1));
            assert(names@.take(i as int).last() == names@[i - 1]);
            assert(out@ =~= old(out)@ + spec_named_fields(names@.take(i as int)));
        }
    }
    proof {
        assert(names@.take(names@.len() as int) =~= names@);
    }
}

/// Appends `n` comma-separated random draws.
fn append_tuple_args(out: &mut String, n: usize)
    ensures
        final(out)@ == old(out)@ + spec_tuple_args(n as nat),
{
    assert(out@ =~= old(out)@ + spec_tuple_args(0));
    let mut i: usize = 0;
    while i < n
        invariant
            i <= n,
            out@ == old(out)@ + spec_tuple_args(i as nat),
        decreases n - i,
    {
        if i > 0 {
            out.append(", ");
        }
        out.append("rand::random()");
        i = i + 1;
        proof {
            assert(out@ =~= old(out)@ + spec_tuple_args(i as nat));
        }
    }
}

/// Appends what follows the constructor path for the field shape `data`.
fn append_fields_suffix(out: &mut String, data: &VariantData)
    ensures
        final(out)@ == old(out)@ + spec_fields_suffix(*data),
{
    match data {
        VariantData::Struct(names) => {
            out.append(" { ");
            append_named_fields(out, names);
            out.append(" }");
            assert(out@ =~= old(out)@ + spec_fields_suffix(*data));
        },
        VariantData::Tuple(n) => {
            out.append("(");
            append_tuple_args(out, *n);
            out.append(")");
            assert(out@ =~= old(out)@ + spec_fields_suffix(*data));
        },
        VariantData::Unit => {
            assert(out@ =~= old(out)@ + spec_fields_suffix(*data));
        },
    }
}

/// The match arm generated for one variant of the enum named `enum_ident`:
/// the selector value `index` as the pattern, or the wildcard when no index
/// is given (the trailing default arm), then the variant's construction
/// expression.
pub fn parse_enum_variant(variant: &Variant, enum_ident: &String, index: Option<usize>) -> (out:
    String)
    ensures
        out@ == spec_arm(enum_ident@, *variant, spec_arm_pat(index)),
{
    let mut out = String::new();
    match index {
        Some(i) => append_dec(&mut out, i),
        None => out.append("_"),
    }
    out.append(" => ");
    out.append(enum_ident.as_str());
    out.append("::");
    out.append(variant.ident.as_str());
    append_fields_suffix(&mut out, &variant.data);
    proof {
        assert(out@ =~= spec_arm(enum_ident@, *variant, spec_arm_pat(index)));
    }
    out
}

/// Appends the arms for all declared variants, in order, comma-separated,
/// each with its position as the pattern.
fn append_indexed_arms(out: &mut String, enum_ident: &String, vs: &Vec<Variant>)
    ensures
        final(out)@ == old(out)@ + spec_indexed_arms(enum_ident@, vs@),
{
    assert(out@ =~= old(out)@ + spec_indexed_arms(enum_ident@, vs@.take(0)));
    let mut i: usize = 0;
    while i < vs.len()
        invariant
            i <= vs@.len(),
            out@ == old(out)@ + spec_indexed_arms(enum_ident@, vs@.take(i as int)),
        decreases vs@.len() - i,
    {
        if i > 0 {
            out.append(", ");
        }
        let arm = parse_enum_variant(&vs[i], enum_ident, Some(i));
        out.append(arm.as_str());
        i = i + 1;
        proof {
            assert(vs@.take(i as int).drop_last() =~= vs@.take(i - 1));
            assert(vs@.take(i as int).last() == vs@[i - 1]);
            assert(out@ =~= old(out)@ + spec_indexed_arms(enum_ident@, vs@.take(i as int)));
        }
    }
    proof {
        assert(vs@.take(vs@.len() as int) =~= vs@);
    }
}

/// Appends the expression generated inside the `rand` method.
fn append_rand_body(out: &mut String, ast: &TypeShape)
    requires
        shape_wf(*ast),
    ensures
        final(out)@ == old(out)@ + spec_rand_body(*ast),
{
    match &ast.body {
        Body::Struct(data) => {
            out.append(ast.ident.as_str());
            append_fields_suffix(out, data);
            assert(out@ =~= old(out)@ + spec_rand_body(*ast));
        },
        Body::Enum(vs) => {
            out.append("let r: usize = rand::random::<usize>() % ");
            append_dec(out, vs.len());
            out.append("; match r { ");
            append_indexed_arms(out, &ast.ident, vs);
            out.append(", ");
            let arm = parse_enum_variant(&vs[0], &ast.ident, None);
            out.append(arm.as_str());
            out.append(" }");
            assert(out@ =~= old(out)@ + spec_rand_body(*ast));
        },
    }
}

/// Generates the `Rand` implementation clause for the shape `ast`.
///
/// For a struct body this is a single construction expression, field by
/// field or draw by draw; for a tagged union it draws a selector modulo the
/// variant count and matches it against every variant in order, with the
/// first declared variant once more as the default arm. The text returned
/// is exactly [`spec_expand`] of the shape.
pub fn expand_rand(ast: &TypeShape) -> (out: String)
    requires
        shape_wf(*ast),
    ensures
        out@ == spec_expand(*ast),
{
    let mut out = String::new();
    out.append("impl Rand for ");
    out.append(ast.ident.as_str());
    out.append(" { fn rand<R: rand::Rng>(rng: &mut R) -> ");
    out.append(ast.ident.as_str());
    out.append(" { ");
    append_rand_body(&mut out, ast);
    out.append(" } }");
    proof {
        assert(out@ =~= spec_expand(*ast));
    }
    out
}

} // verus!
