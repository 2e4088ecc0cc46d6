//! What the generated clause gives away about its input.
//!
//! The generator is a pure function of the shape, so it is deterministic by
//! its own contract. This module proves the other direction: the clause is
//! lossless. [`lemma_expand_frame_lossless`] reads the type's name and the
//! method body back out of the frame, and [`lemma_expand_lossless`] carries
//! that down to the whole shape: two accepted shapes, with usable
//! identifiers for all their names, that generate the same text are the same
//! shape. Nothing here weakens that to chosen examples: both lemmas
//! quantify over every pair of shapes.

use vstd::prelude::*;

use crate::expand::spec_arm;
use crate::expand::spec_construct;
use crate::expand::spec_enum_body;
use crate::expand::spec_expand;
use crate::expand::spec_fields_suffix;
use crate::expand::spec_indexed_arms;
use crate::expand::spec_named_field;
use crate::expand::spec_named_fields;
use crate::expand::spec_rand_body;
use crate::expand::spec_rand_call;
use crate::expand::spec_tuple_args;
use crate::numeral::digit_char;
use crate::numeral::lemma_dec_injective;
use crate::numeral::lemma_dec_readback;
use crate::numeral::spec_dec;
use crate::shape::Body;
use crate::shape::TypeShape;
use crate::shape::shape_wf;
use crate::shape::Variant;
use crate::shape::VariantData;

verus! {

/// A character that may stand in an identifier: a letter, a digit, or an
/// underscore.
pub open spec fn ident_char(c: char) -> bool {
    (97 <= c as u32 && c as u32 <= 122)  // 'a' ..= 'z'
        || (65 <= c as u32 && c as u32 <= 90)  // 'A' ..= 'Z'
        || (48 <= c as u32 && c as u32 <= 57)  // '0' ..= '9'
        || c as u32 == 95  // '_'
}

/// A usable identifier: nonempty and made of identifier characters. (Nothing
/// finer is needed below; what matters is that delimiters cannot occur in a
/// name.)
pub open spec fn ident_wf(s: Seq<char>) -> bool {
    s.len() >= 1 && (forall|i: int| 0 <= i < s.len() ==> ident_char(#[trigger] s[i]))
}

/// An equal prefix cancels on both sides of an equation of texts.
proof fn lemma_cancel_prefix(p: Seq<char>, x: Seq<char>, y: Seq<char>)
    requires
        p + x == p + y,
    ensures
        x == y,
{
    assert((p + x).len() == p.len() + x.len());
    assert((p + y).len() == p.len() + y.len());
    assert(x.len() == y.len());
    assert forall|i: int| 0 <= i < x.len() implies x[i] == y[i] by {
        assert((p + x)[p.len() + i] == x[i]);
        assert((p + y)[p.len() + i] == y[i]);
    }
    assert(x =~= y);
}

/// An equal suffix cancels on both sides of an equation of texts.
proof fn lemma_cancel_suffix(x: Seq<char>, y: Seq<char>, s: Seq<char>)
    requires
        x + s == y + s,
    ensures
        x == y,
{
    assert((x + s).len() == x.len() + s.len());
    assert((y + s).len() == y.len() + s.len());
    assert(x.len() == y.len());
    assert forall|i: int| 0 <= i < x.len() implies x[i] == y[i] by {
        assert((x + s)[i] == x[i]);
        assert((y + s)[i] == y[i]);
    }
    assert(x =~= y);
}

/// A maximal run of characters of one class is read off unambiguously: when
/// two texts agree, each starting with a nonempty run of characters in the
/// class that a character outside the class ends, the runs agree and so do
/// the remainders.
proof fn lemma_token_then_delim(
    cls: spec_fn(char) -> bool,
    a: Seq<char>,
    b: Seq<char>,
    s: Seq<char>,
    t: Seq<char>,
)
    requires
        a + s == b + t,
        a.len() >= 1,
        b.len() >= 1,
        forall|i: int| 0 <= i < a.len() ==> cls(#[trigger] a[i]),
        forall|i: int| 0 <= i < b.len() ==> cls(#[trigger] b[i]),
        s.len() >= 1,
        t.len() >= 1,
        !cls(s[0]),
        !cls(t[0]),
    ensures
        a == b,
        s == t,
{
    if a.len() < b.len() {
        assert((a + s)[a.len() as int] == s[0]);
        assert((b + t)[a.len() as int] == b[a.len() as int]);
        assert(cls(b[a.len() as int]));
        assert(false);
    }
    if b.len() < a.len() {
        assert((b + t)[b.len() as int] == t[0]);
        assert((a + s)[b.len() as int] == a[b.len() as int]);
        assert(cls(a[b.len() as int]));
        assert(false);
    }
    assert forall|i: int| 0 <= i < a.len() implies a[i] == b[i] by {
        assert((a + s)[i] == a[i]);
        assert((b + t)[i] == b[i]);
    }
    assert(a =~= b);
    lemma_cancel_prefix(a, s, t);
}

/// The joined named fields, read from the front: the first field's
/// initializer, then the rest behind a separator.
proof fn lemma_named_fields_front(names: Seq<String>)
    requires
        names.len() >= 1,
    ensures
        spec_named_fields(names) == spec_named_field(names[0]@) + (if names.len() >= 2 {
            ", "@ + spec_named_fields(names.drop_first())
        } else {
            Seq::<char>::empty()
        }),
    decreases names.len(),
{
    if names.len() == 1 {
        assert(spec_named_fields(names) =~= spec_named_field(names[0]@) + Seq::<char>::empty());
    } else if names.len() == 2 {
        assert(names.drop_last().len() == 1);
        assert(names.drop_last()[0] == names[0]);
        assert(names.drop_first().len() == 1);
        assert(names.drop_first()[0] == names[1]);
        assert(names.last() == names[1]);
        assert(spec_named_fields(names) == spec_named_fields(names.drop_last()) + ", "@
            + spec_named_field(names.last()@));
        assert(spec_named_fields(names.drop_last()) == spec_named_field(names[0]@));
        assert(spec_named_fields(names.drop_first()) == spec_named_field(names[1]@));
        assert(spec_named_fields(names) =~= spec_named_field(names[0]@) + (", "@
            + spec_named_fields(names.drop_first())));
    } else {
        let dl = names.drop_last();
        let nf = names.drop_first();
        lemma_named_fields_front(dl);
        assert(dl.drop_first() =~= nf.drop_last());
        assert(dl[0] == names[0]);
        assert(nf.last() == names.last());
        assert(spec_named_fields(nf) == spec_named_fields(nf.drop_last()) + ", "@
            + spec_named_field(nf.last()@));
        assert(spec_named_fields(names) =~= spec_named_field(names[0]@) + (", "@
            + spec_named_fields(nf)));
    }
}

/// The joined tuple arguments, read from the front: one draw, then the rest
/// behind a separator.
proof fn lemma_tuple_args_front(n: nat)
    requires
        n >= 1,
    ensures
        spec_tuple_args(n) == spec_rand_call() + (if n >= 2 {
            ", "@ + spec_tuple_args((n - 1) as nat)
        } else {
            Seq::<char>::empty()
        }),
    decreases n,
{
    if n == 1 {
        assert(spec_tuple_args(n) =~= spec_rand_call() + Seq::<char>::empty());
    } else if n == 2 {
        assert(spec_tuple_args(n) =~= spec_rand_call() + (", "@ + spec_tuple_args(1)));
    } else {
        lemma_tuple_args_front((n - 1) as nat);
        assert(spec_tuple_args(n) =~= spec_rand_call() + (", "@ + spec_tuple_args(
            (n - 1) as nat,
        )));
    }
}

/// The joined tuple arguments are read off unambiguously up to the closing
/// parenthesis that follows them.
proof fn lemma_tuple_args_unamb(m: nat, n: nat, ra: Seq<char>, rb: Seq<char>)
    requires
        spec_tuple_args(m) + ra == spec_tuple_args(n) + rb,
        ra.len() >= 1,
        rb.len() >= 1,
        ra[0] == ')',
        rb[0] == ')',
    ensures
        m == n,
        ra == rb,
    decreases m,
{
    reveal_strlit("rand::random()");
    reveal_strlit(", ");
    let c = spec_rand_call();
    if m == 0 && n == 0 {
        assert(spec_tuple_args(0) + ra =~= ra);
        assert(spec_tuple_args(0) + rb =~= rb);
    } else if m == 0 {
        lemma_tuple_args_front(n);
        assert((spec_tuple_args(0) + ra)[0] == ra[0]);
        assert((spec_tuple_args(n) + rb)[0] == c[0]);
        assert(false);
    } else if n == 0 {
        lemma_tuple_args_front(m);
        assert((spec_tuple_args(0) + rb)[0] == rb[0]);
        assert((spec_tuple_args(m) + ra)[0] == c[0]);
        assert(false);
    } else {
        lemma_tuple_args_front(m);
        lemma_tuple_args_front(n);
        let ta = if m >= 2 {
            ", "@ + spec_tuple_args((m - 1) as nat)
        } else {
            Seq::<char>::empty()
        };
        let tb = if n >= 2 {
            ", "@ + spec_tuple_args((n - 1) as nat)
        } else {
            Seq::<char>::empty()
        };
        assert(spec_tuple_args(m) + ra =~= c + (ta + ra));
        assert(spec_tuple_args(n) + rb =~= c + (tb + rb));
        lemma_cancel_prefix(c, ta + ra, tb + rb);
        if m == 1 && n == 1 {
            assert(ta + ra =~= ra);
            assert(tb + rb =~= rb);
        } else if m == 1 {
            assert((ta + ra)[0] == ra[0]);
            assert((tb + rb)[0] == ", "@[0]);
            assert(false);
        } else if n == 1 {
            assert((tb + rb)[0] == rb[0]);
            assert((ta + ra)[0] == ", "@[0]);
            assert(false);
        } else {
            assert(ta + ra =~= ", "@ + (spec_tuple_args((m - 1) as nat) + ra));
            assert(tb + rb =~= ", "@ + (spec_tuple_args((n - 1) as nat) + rb));
            lemma_cancel_prefix(
                ", "@,
                spec_tuple_args((m - 1) as nat) + ra,
                spec_tuple_args((n - 1) as nat) + rb,
            );
            lemma_tuple_args_unamb((m - 1) as nat, (n - 1) as nat, ra, rb);
        }
    }
}

/// The joined named fields are read off unambiguously up to the space that
/// follows them, provided every field name is a usable identifier.
proof fn lemma_named_fields_unamb(na: Seq<String>, nb: Seq<String>, ra: Seq<char>, rb: Seq<char>)
    requires
        forall|i: int| 0 <= i < na.len() ==> ident_wf((#[trigger] na[i])@),
        forall|i: int| 0 <= i < nb.len() ==> ident_wf((#[trigger] nb[i])@),
        spec_named_fields(na) + ra == spec_named_fields(nb) + rb,
        ra.len() >= 1,
        rb.len() >= 1,
        ra[0] == ' ',
        rb[0] == ' ',
    ensures
        na.len() == nb.len(),
        forall|i: int| 0 <= i < na.len() ==> (#[trigger] na[i])@ == nb[i]@,
        ra == rb,
    decreases na.len(),
{
    reveal_strlit(": rand::random()");
    reveal_strlit(", ");
    let lit = ": rand::random()"@;
    if na.len() == 0 && nb.len() == 0 {
        assert(spec_named_fields(na) + ra =~= ra);
        assert(spec_named_fields(nb) + rb =~= rb);
    } else if na.len() == 0 {
        lemma_named_fields_front(nb);
        assert((spec_named_fields(na) + ra)[0] == ra[0]);
        assert(spec_named_field(nb[0]@) == nb[0]@ + lit);
        assert((spec_named_fields(nb) + rb)[0] == nb[0]@[0]);
        assert(ident_char(nb[0]@[0]));
        assert(false);
    } else if nb.len() == 0 {
        lemma_named_fields_front(na);
        assert((spec_named_fields(nb) + rb)[0] == rb[0]);
        assert(spec_named_field(na[0]@) == na[0]@ + lit);
        assert((spec_named_fields(na) + ra)[0] == na[0]@[0]);
        assert(ident_char(na[0]@[0]));
        assert(false);
    } else {
        lemma_named_fields_front(na);
        lemma_named_fields_front(nb);
        let ta = if na.len() >= 2 {
            ", "@ + spec_named_fields(na.drop_first())
        } else {
            Seq::<char>::empty()
        };
        let tb = if nb.len() >= 2 {
            ", "@ + spec_named_fields(nb.drop_first())
        } else {
            Seq::<char>::empty()
        };
        assert(spec_named_fields(na) + ra =~= na[0]@ + (lit + (ta + ra)));
        assert(spec_named_fields(nb) + rb =~= nb[0]@ + (lit + (tb + rb)));
        assert((lit + (ta + ra))[0] == lit[0]);
        assert((lit + (tb + rb))[0] == lit[0]);
        assert(!ident_char(lit[0]));
        lemma_token_then_delim(
            |c: char| ident_char(c),
            na[0]@,
            nb[0]@,
            lit + (ta + ra),
            lit + (tb + rb),
        );
        lemma_cancel_prefix(lit, ta + ra, tb + rb);
        if na.len() == 1 && nb.len() == 1 {
            assert(ta + ra =~= ra);
            assert(tb + rb =~= rb);
        } else if na.len() == 1 {
            assert((ta + ra)[0] == ra[0]);
            assert((tb + rb)[0] == ", "@[0]);
            assert(false);
        } else if nb.len() == 1 {
            assert((tb + rb)[0] == rb[0]);
            assert((ta + ra)[0] == ", "@[0]);
            assert(false);
        } else {
            assert(ta + ra =~= ", "@ + (spec_named_fields(na.drop_first()) + ra));
            assert(tb + rb =~= ", "@ + (spec_named_fields(nb.drop_first()) + rb));
            lemma_cancel_prefix(
                ", "@,
                spec_named_fields(na.drop_first()) + ra,
                spec_named_fields(nb.drop_first()) + rb,
            );
            lemma_named_fields_unamb(na.drop_first(), nb.drop_first(), ra, rb);
            assert forall|i: int| 0 <= i < na.len() implies (#[trigger] na[i])@ == nb[i]@ by {
                if i >= 1 {
                    assert(na.drop_first()[i - 1] == na[i]);
                    assert(nb.drop_first()[i - 1] == nb[i]);
                }
            }
        }
    }
}

/// Every field name in a field shape is a usable identifier.
pub open spec fn data_wf(d: VariantData) -> bool {
    match d {
        VariantData::Struct(names) => forall|i: int|
            0 <= i < names@.len() ==> ident_wf((#[trigger] names@[i])@),
        VariantData::Tuple(_) => true,
        VariantData::Unit => true,
    }
}

/// The same field shape: the same kind, name for name and count for count.
pub open spec fn data_equiv(x: VariantData, y: VariantData) -> bool {
    match (x, y) {
        (VariantData::Struct(nx), VariantData::Struct(ny)) => nx@.len() == ny@.len() && (
        forall|i: int| 0 <= i < nx@.len() ==> (#[trigger] nx@[i])@ == ny@[i]@),
        (VariantData::Tuple(p), VariantData::Tuple(q)) => p == q,
        (VariantData::Unit, VariantData::Unit) => true,
        _ => false,
    }
}

/// A continuation that may follow a field shape in the generated text: a
/// separator before a further arm, or the space before a closing brace.
spec fn follows_fields(r: Seq<char>) -> bool {
    r.len() >= 1 && (r[0] == ',' || (r.len() >= 2 && r[0] == ' ' && r[1] == '}'))
}

/// A field shape is read off unambiguously from the text that follows the
/// constructor path, up to the continuation behind it.
proof fn lemma_fields_suffix_unamb(da: VariantData, db: VariantData, ra: Seq<char>, rb: Seq<char>)
    requires
        data_wf(da),
        data_wf(db),
        spec_fields_suffix(da) + ra == spec_fields_suffix(db) + rb,
        follows_fields(ra),
        follows_fields(rb),
    ensures
        data_equiv(da, db),
        ra == rb,
{
    reveal_strlit(" { ");
    reveal_strlit(" }");
    reveal_strlit("(");
    reveal_strlit(")");
    match (da, db) {
        (VariantData::Struct(xa), VariantData::Struct(xb)) => {
            assert(spec_fields_suffix(da) + ra =~= " { "@ + (spec_named_fields(xa@) + (" }"@
                + ra)));
            assert(spec_fields_suffix(db) + rb =~= " { "@ + (spec_named_fields(xb@) + (" }"@
                + rb)));
            lemma_cancel_prefix(
                " { "@,
                spec_named_fields(xa@) + (" }"@ + ra),
                spec_named_fields(xb@) + (" }"@ + rb),
            );
            assert((" }"@ + ra)[0] == ' ');
            assert((" }"@ + rb)[0] == ' ');
            lemma_named_fields_unamb(xa@, xb@, " }"@ + ra, " }"@ + rb);
            lemma_cancel_prefix(" }"@, ra, rb);
        },
        (VariantData::Struct(xa), VariantData::Tuple(q)) => {
            assert((spec_fields_suffix(da) + ra)[0] == ' ');
            assert((spec_fields_suffix(db) + rb)[0] == '(');
            assert(false);
        },
        (VariantData::Struct(xa), VariantData::Unit) => {
            assert((spec_fields_suffix(da) + ra)[0] == ' ');
            assert((spec_fields_suffix(da) + ra)[1] == '{');
            assert(spec_fields_suffix(db) + rb =~= rb);
            assert(rb[0] == ' ' && rb[1] == '}');
            assert(false);
        },
        (VariantData::Tuple(p), VariantData::Struct(xb)) => {
            assert((spec_fields_suffix(db) + rb)[0] == ' ');
            assert((spec_fields_suffix(da) + ra)[0] == '(');
            assert(false);
        },
        (VariantData::Tuple(p), VariantData::Tuple(q)) => {
            assert(spec_fields_suffix(da) + ra =~= "("@ + (spec_tuple_args(p as nat) + (")"@
                + ra)));
            assert(spec_fields_suffix(db) + rb =~= "("@ + (spec_tuple_args(q as nat) + (")"@
                + rb)));
            lemma_cancel_prefix(
                "("@,
                spec_tuple_args(p as nat) + (")"@ + ra),
                spec_tuple_args(q as nat) + (")"@ + rb),
            );
            assert((")"@ + ra)[0] == ')');
            assert((")"@ + rb)[0] == ')');
            lemma_tuple_args_unamb(p as nat, q as nat, ")"@ + ra, ")"@ + rb);
            lemma_cancel_prefix(")"@, ra, rb);
        },
        (VariantData::Tuple(p), VariantData::Unit) => {
            assert((spec_fields_suffix(da) + ra)[0] == '(');
            assert(spec_fields_suffix(db) + rb =~= rb);
            assert(false);
        },
        (VariantData::Unit, VariantData::Struct(xb)) => {
            assert((spec_fields_suffix(db) + rb)[0] == ' ');
            assert((spec_fields_suffix(db) + rb)[1] == '{');
            assert(spec_fields_suffix(da) + ra =~= ra);
            assert(ra[0] == ' ' && ra[1] == '}');
            assert(false);
        },
        (VariantData::Unit, VariantData::Tuple(q)) => {
            assert((spec_fields_suffix(db) + rb)[0] == '(');
            assert(spec_fields_suffix(da) + ra =~= ra);
            assert(false);
        },
        (VariantData::Unit, VariantData::Unit) => {
            assert(spec_fields_suffix(da) + ra =~= ra);
            assert(spec_fields_suffix(db) + rb =~= rb);
        },
    }
}

/// The arms for `vs`, read from the front, their patterns counting up from
/// `off`.
spec fn spec_arms_off(enum_ident: Seq<char>, vs: Seq<Variant>, off: nat) -> Seq<char>
    decreases vs.len(),
{
    if vs.len() == 0 {
        Seq::empty()
    } else if vs.len() == 1 {
        spec_arm(enum_ident, vs[0], spec_dec(off))
    } else {
        spec_arm(enum_ident, vs[0], spec_dec(off)) + ", "@ + spec_arms_off(
            enum_ident,
            vs.drop_first(),
            off + 1,
        )
    }
}

/// The front form of the arms, read from the back instead.
proof fn lemma_arms_off_snoc(e: Seq<char>, vs: Seq<Variant>, off: nat)
    requires
        vs.len() >= 2,
    ensures
        spec_arms_off(e, vs, off) == spec_arms_off(e, vs.drop_last(), off) + ", "@ + spec_arm(
            e,
            vs.last(),
            spec_dec((off + vs.len() - 1) as nat),
        ),
    decreases vs.len(),
{
    if vs.len() == 2 {
        assert(vs.drop_first().len() == 1);
        assert(vs.drop_first()[0] == vs[1]);
        assert(vs.drop_last().len() == 1);
        assert(vs.drop_last()[0] == vs[0]);
        assert(vs.last() == vs[1]);
        assert(spec_arms_off(e, vs.drop_first(), off + 1) == spec_arm(e, vs[1], spec_dec(off + 1)));
        assert(spec_arms_off(e, vs.drop_last(), off) == spec_arm(e, vs[0], spec_dec(off)));
        assert((off + vs.len() - 1) as nat == off + 1);
        assert(spec_arms_off(e, vs, off) =~= spec_arms_off(e, vs.drop_last(), off) + ", "@
            + spec_arm(e, vs.last(), spec_dec((off + vs.len() - 1) as nat)));
    } else {
        let nf = vs.drop_first();
        let dl = vs.drop_last();
        lemma_arms_off_snoc(e, nf, off + 1);
        assert(nf.drop_last() =~= dl.drop_first());
        assert(nf.last() == vs.last());
        assert(dl[0] == vs[0]);
        assert(spec_arms_off(e, dl, off) == spec_arm(e, vs[0], spec_dec(off)) + ", "@
            + spec_arms_off(e, dl.drop_first(), off + 1));
        assert(spec_arms_off(e, vs, off) =~= spec_arms_off(e, dl, off) + ", "@ + spec_arm(
            e,
            vs.last(),
            spec_dec((off + vs.len() - 1) as nat),
        ));
    }
}

/// The arms as the generator writes them are the front form started at zero.
proof fn lemma_indexed_arms_as_off(e: Seq<char>, vs: Seq<Variant>)
    ensures
        spec_indexed_arms(e, vs) == spec_arms_off(e, vs, 0),
    decreases vs.len(),
{
    if vs.len() >= 2 {
        lemma_indexed_arms_as_off(e, vs.drop_last());
        lemma_arms_off_snoc(e, vs, 0);
    }
}

/// The character that follows a variant's constructor path can never belong
/// to an identifier, whatever the variant's field shape, as long as the text
/// behind the field shape opens with a separator.
proof fn lemma_suffix_head_delim(d: VariantData, r: Seq<char>)
    requires
        r.len() >= 1,
        r[0] == ',',
    ensures
        (spec_fields_suffix(d) + r).len() >= 1,
        !ident_char((spec_fields_suffix(d) + r)[0]),
{
    reveal_strlit(" { ");
    reveal_strlit("(");
    match d {
        VariantData::Struct(names) => {
            assert((spec_fields_suffix(d) + r)[0] == ' ');
        },
        VariantData::Tuple(n) => {
            assert((spec_fields_suffix(d) + r)[0] == '(');
        },
        VariantData::Unit => {
            assert((spec_fields_suffix(d) + r)[0] == r[0]);
        },
    }
}

/// A run of arms with the same starting pattern is read off unambiguously up
/// to the separator that follows it, provided both runs list equally many
/// variants and every name is a usable identifier.
#[verifier::rlimit(100)]
proof fn lemma_arms_off_unamb(
    e: Seq<char>,
    va: Seq<Variant>,
    vb: Seq<Variant>,
    off: nat,
    ra: Seq<char>,
    rb: Seq<char>,
)
    requires
        forall|i: int|
            0 <= i < va.len() ==> ident_wf((#[trigger] va[i]).ident@) && data_wf(va[i].data),
        forall|i: int|
            0 <= i < vb.len() ==> ident_wf((#[trigger] vb[i]).ident@) && data_wf(vb[i].data),
        va.len() == vb.len(),
        spec_arms_off(e, va, off) + ra == spec_arms_off(e, vb, off) + rb,
        ra.len() >= 1,
        rb.len() >= 1,
        ra[0] == ',',
        rb[0] == ',',
    ensures
        forall|i: int|
            0 <= i < va.len() ==> (#[trigger] va[i]).ident@ == vb[i].ident@ && data_equiv(
                va[i].data,
                vb[i].data,
            ),
        ra == rb,
    decreases va.len(),
{
    reveal_strlit(", ");
    if va.len() == 0 {
        assert(spec_arms_off(e, va, off) + ra =~= ra);
        assert(spec_arms_off(e, vb, off) + rb =~= rb);
    } else {
        let pfx = spec_dec(off) + (" => "@ + (e + "::"@));
        let sfa = spec_fields_suffix(va[0].data);
        let sfb = spec_fields_suffix(vb[0].data);
        let taila = if va.len() >= 2 {
            ", "@ + spec_arms_off(e, va.drop_first(), off + 1)
        } else {
            Seq::<char>::empty()
        };
        let tailb = if vb.len() >= 2 {
            ", "@ + spec_arms_off(e, vb.drop_first(), off + 1)
        } else {
            Seq::<char>::empty()
        };
        assert(spec_arms_off(e, va, off) + ra =~= pfx + (va[0].ident@ + (sfa + (taila + ra))));
        assert(spec_arms_off(e, vb, off) + rb =~= pfx + (vb[0].ident@ + (sfb + (tailb + rb))));
        lemma_cancel_prefix(
            pfx,
            va[0].ident@ + (sfa + (taila + ra)),
            vb[0].ident@ + (sfb + (tailb + rb)),
        );
        assert((taila + ra)[0] == ',');
        assert((tailb + rb)[0] == ',');
        lemma_suffix_head_delim(va[0].data, taila + ra);
        lemma_suffix_head_delim(vb[0].data, tailb + rb);
        lemma_token_then_delim(
            |c: char| ident_char(c),
            va[0].ident@,
            vb[0].ident@,
            sfa + (taila + ra),
            sfb + (tailb + rb),
        );
        lemma_fields_suffix_unamb(va[0].data, vb[0].data, taila + ra, tailb + rb);
        if va.len() == 1 {
            assert(taila + ra =~= ra);
            assert(tailb + rb =~= rb);
        } else {
            assert(taila + ra =~= ", "@ + (spec_arms_off(e, va.drop_first(), off + 1) + ra));
            assert(tailb + rb =~= ", "@ + (spec_arms_off(e, vb.drop_first(), off + 1) + rb));
            lemma_cancel_prefix(
                ", "@,
                spec_arms_off(e, va.drop_first(), off + 1) + ra,
                spec_arms_off(e, vb.drop_first(), off + 1) + rb,
            );
            lemma_arms_off_unamb(e, va.drop_first(), vb.drop_first(), off + 1, ra, rb);
            assert forall|i: int|
                0 <= i < va.len() implies (#[trigger] va[i]).ident@ == vb[i].ident@ && data_equiv(
                va[i].data,
                vb[i].data,
            ) by {
                if i >= 1 {
                    assert(va.drop_first()[i - 1] == va[i]);
                    assert(vb.drop_first()[i - 1] == vb[i]);
                }
            }
        }
    }
}

/// The frame of the generated clause is unambiguous: two shapes with usable
/// type names whose generated texts coincide name the same type, and the
/// bodies generated inside the `rand` method coincide as well.
#[verifier::rlimit(50)]
pub proof fn lemma_expand_frame_lossless(a: TypeShape, b: TypeShape)
    requires
        ident_wf(a.ident@),
        ident_wf(b.ident@),
        spec_expand(a) == spec_expand(b),
    ensures
        a.ident@ == b.ident@,
        spec_rand_body(a) == spec_rand_body(b),
{
    let head = "impl Rand for "@;
    let mid = " { fn rand<R: rand::Rng>(rng: &mut R) -> "@;
    let open_body = " { "@;
    let close = " } }"@;
    let rest_a = mid + (a.ident@ + (open_body + (spec_rand_body(a) + close)));
    let rest_b = mid + (b.ident@ + (open_body + (spec_rand_body(b) + close)));
    assert(spec_expand(a) =~= head + (a.ident@ + rest_a));
    assert(spec_expand(b) =~= head + (b.ident@ + rest_b));
    lemma_cancel_prefix(head, a.ident@ + rest_a, b.ident@ + rest_b);
    reveal_strlit(" { fn rand<R: rand::Rng>(rng: &mut R) -> ");
    assert(rest_a[0] == mid[0]);
    assert(rest_b[0] == mid[0]);
    assert(!ident_char(mid[0]));
    lemma_token_then_delim(|c: char| ident_char(c), a.ident@, b.ident@, rest_a, rest_b);
    lemma_cancel_prefix(mid, a.ident@ + (open_body + (spec_rand_body(a) + close)), b.ident@ + (
    open_body + (spec_rand_body(b) + close)));
    lemma_cancel_prefix(a.ident@, open_body + (spec_rand_body(a) + close), open_body + (
    spec_rand_body(b) + close));
    lemma_cancel_prefix(open_body, spec_rand_body(a) + close, spec_rand_body(b) + close);
    lemma_cancel_suffix(spec_rand_body(a), spec_rand_body(b), close);
}

/// Every name in the shape is a usable identifier.
pub open spec fn shape_names_wf(s: TypeShape) -> bool {
    ident_wf(s.ident@) && match s.body {
        Body::Struct(d) => data_wf(d),
        Body::Enum(vs) => forall|i: int|
            0 <= i < vs@.len() ==> ident_wf((#[trigger] vs@[i]).ident@) && data_wf(vs@[i].data),
    }
}

/// The same shape: the same type name, the same kind of body, and the same
/// fields and variants, name for name and count for count.
pub open spec fn shape_equiv(a: TypeShape, b: TypeShape) -> bool {
    a.ident@ == b.ident@ && match (a.body, b.body) {
        (Body::Struct(da), Body::Struct(db)) => data_equiv(da, db),
        (Body::Enum(va), Body::Enum(vb)) => va@.len() == vb@.len() && (forall|i: int|
            0 <= i < va@.len() ==> (#[trigger] va@[i]).ident@ == vb@[i].ident@ && data_equiv(
                va@[i].data,
                vb@[i].data,
            )),
        _ => false,
    }
}


/// Two struct bodies for the same type name construct the same field shape.
#[verifier::rlimit(50)]
proof fn lemma_struct_bodies(i: Seq<char>, da: VariantData, db: VariantData)
    requires
        data_wf(da),
        data_wf(db),
        spec_construct(i, da) == spec_construct(i, db),
    ensures
        data_equiv(da, db),
{
    reveal_strlit(", ");
    lemma_cancel_prefix(i, spec_fields_suffix(da), spec_fields_suffix(db));
    assert(spec_fields_suffix(da) + ", "@ == spec_fields_suffix(db) + ", "@);
    lemma_fields_suffix_unamb(da, db, ", "@, ", "@);
}

/// Two enum bodies for the same type name list the same variants.
#[verifier::rlimit(100)]
proof fn lemma_enum_bodies(e: Seq<char>, va: Seq<Variant>, vb: Seq<Variant>)
    requires
        va.len() >= 1,
        vb.len() >= 1,
        forall|i: int|
            0 <= i < va.len() ==> ident_wf((#[trigger] va[i]).ident@) && data_wf(va[i].data),
        forall|i: int|
            0 <= i < vb.len() ==> ident_wf((#[trigger] vb[i]).ident@) && data_wf(vb[i].data),
        spec_enum_body(e, va) == spec_enum_body(e, vb),
    ensures
        va.len() == vb.len(),
        forall|i: int|
            0 <= i < va.len() ==> (#[trigger] va[i]).ident@ == vb[i].ident@ && data_equiv(
                va[i].data,
                vb[i].data,
            ),
{
    reveal_strlit("let r: usize = rand::random::<usize>() % ");
    reveal_strlit("; match r { ");
    reveal_strlit(", ");
    reveal_strlit(" }");
    let lpre = "let r: usize = rand::random::<usize>() % "@;
    let mpre = "; match r { "@;
    let la = spec_dec(va.len());
    let lb = spec_dec(vb.len());
    let xa = spec_indexed_arms(e, va) + (", "@ + (spec_arm(e, va[0], "_"@) + " }"@));
    let xb = spec_indexed_arms(e, vb) + (", "@ + (spec_arm(e, vb[0], "_"@) + " }"@));
    assert(spec_enum_body(e, va) =~= lpre + (la + (mpre + xa)));
    assert(spec_enum_body(e, vb) =~= lpre + (lb + (mpre + xb)));
    lemma_cancel_prefix(lpre, la + (mpre + xa), lb + (mpre + xb));
    lemma_dec_readback(va.len());
    lemma_dec_readback(vb.len());
    assert((mpre + xa)[0] == ';');
    assert((mpre + xb)[0] == ';');
    lemma_token_then_delim(|c: char| digit_char(c), la, lb, mpre + xa, mpre + xb);
    lemma_dec_injective(va.len(), vb.len());
    lemma_cancel_prefix(mpre, xa, xb);
    lemma_indexed_arms_as_off(e, va);
    lemma_indexed_arms_as_off(e, vb);
    let ca = ", "@ + (spec_arm(e, va[0], "_"@) + " }"@);
    let cb = ", "@ + (spec_arm(e, vb[0], "_"@) + " }"@);
    assert(spec_arms_off(e, va, 0) + ca == spec_arms_off(e, vb, 0) + cb);
    assert(ca[0] == ',');
    assert(cb[0] == ',');
    lemma_arms_off_unamb(e, va, vb, 0, ca, cb);
}

/// A struct body can never read as an enum body: the one opens with the
/// type's name, the other with the selector binding.
#[verifier::rlimit(100)]
proof fn lemma_struct_enum_distinct(i: Seq<char>, da: VariantData, e: Seq<char>, vs: Seq<Variant>)
    requires
        ident_wf(i),
        vs.len() >= 1,
    ensures
        spec_construct(i, da) != spec_enum_body(e, vs),
{
    if spec_construct(i, da) == spec_enum_body(e, vs) {
        reveal_strlit("let");
        reveal_strlit("let r: usize = rand::random::<usize>() % ");
        reveal_strlit(" r: usize = rand::random::<usize>() % ");
        reveal_strlit(" { ");
        reveal_strlit("(");
        reveal_strlit(", ");
        let lrest = " r: usize = rand::random::<usize>() % "@;
        let lpre = "let r: usize = rand::random::<usize>() % "@;
        assert(lpre =~= "let"@ + lrest);
        let xe = spec_dec(vs.len()) + ("; match r { "@ + (spec_indexed_arms(e, vs) + (", "@ + (
        spec_arm(e, vs[0], "_"@) + " }"@))));
        assert(spec_enum_body(e, vs) =~= "let"@ + (lrest + xe));
        // Compare with a separator behind both bodies, so that the text that
        // follows a unit body is nonempty too.
        assert(spec_construct(i, da) + ", "@ == spec_enum_body(e, vs) + ", "@);
        assert(spec_construct(i, da) + ", "@ =~= i + (spec_fields_suffix(da) + ", "@));
        assert(spec_enum_body(e, vs) + ", "@ =~= "let"@ + (lrest + (xe + ", "@)));
        assert(ident_wf("let"@));
        lemma_suffix_head_delim(da, ", "@);
        assert((lrest + (xe + ", "@))[0] == ' ');
        lemma_token_then_delim(
            |c: char| ident_char(c),
            i,
            "let"@,
            spec_fields_suffix(da) + ", "@,
            lrest + (xe + ", "@),
        );
        match da {
            VariantData::Struct(names) => {
                assert((spec_fields_suffix(da) + ", "@)[1] == '{');
                assert((lrest + (xe + ", "@))[1] == 'r');
            },
            VariantData::Tuple(n) => {
                assert((spec_fields_suffix(da) + ", "@)[0] == '(');
                assert((lrest + (xe + ", "@))[0] == ' ');
            },
            VariantData::Unit => {
                assert((spec_fields_suffix(da) + ", "@)[0] == ',');
                assert((lrest + (xe + ", "@))[0] == ' ');
            },
        }
    }
}

/// The generator loses nothing: two accepted shapes, with usable identifiers
/// for all their names, that generate the same text are the same shape, name
/// for name, field for field and variant for variant.
pub proof fn lemma_expand_lossless(a: TypeShape, b: TypeShape)
    requires
        shape_wf(a),
        shape_wf(b),
        shape_names_wf(a),
        shape_names_wf(b),
        spec_expand(a) == spec_expand(b),
    ensures
        shape_equiv(a, b),
{
    lemma_expand_frame_lossless(a, b);
    match (a.body, b.body) {
        (Body::Struct(da), Body::Struct(db)) => {
            lemma_struct_bodies(a.ident@, da, db);
        },
        (Body::Enum(va), Body::Enum(vb)) => {
            assert(spec_enum_body(a.ident@, va@) == spec_enum_body(a.ident@, vb@));
            lemma_enum_bodies(a.ident@, va@, vb@);
        },
        (Body::Struct(da), Body::Enum(vb)) => {
            lemma_struct_enum_distinct(a.ident@, da, b.ident@, vb@);
        },
        (Body::Enum(va), Body::Struct(db)) => {
            lemma_struct_enum_distinct(b.ident@, db, a.ident@, va@);
        },
    }
}

} // verus!
