use vstd::prelude::*;

use crate::command::{command_output, generated_value, point_sum_text, scalar_text, SecpCommand};
use crate::curve::{base_multiple, compressed_form, group_order, is_point_encoding};
use crate::hex::{hex_text, lemma_hex_round_trip};
use crate::keys::{point_parse, scalar_parse, Point, Scalar};

verus! {

/// Adding two scalars prints their sum modulo n, which then lies in [1, n-1]; where the sum
/// is a multiple of n the addition is refused as an arithmetic error.
pub proof fn add_is_sum_modulo_order(s1: Scalar, s2: Scalar, v: int)
    requires
        s1.inv(),
        s2.inv(),
    ensures
        ({
            let t = (s1.value() + s2.value()) % group_order();
            let out = command_output(SecpCommand::Add { scalar1: s1, scalar2: s2 }, v);
            &&& t != 0 ==> 0 < t < group_order() && out == Some(scalar_text(t))
            &&& t == 0 ==> out is None
        }),
{
}

/// The point that a group point's logarithm names is the point itself, and no other value in
/// [1, n-1] names it.
proof fn lemma_log_of(p: Point, k: int)
    requires
        p.inv(),
        0 < k < group_order(),
        p@ == base_multiple(k),
    ensures
        p.log() == k,
{
    let l = p.log();
    assert(0 < l < group_order() && p@ == base_multiple(l));
}

/// Multiplying G by s + 1 prints what adding G to s·G prints: each multiple of G is the one
/// before it plus G, so `Mul(s)` is G added to itself s - 1 times.
pub proof fn mul_adds_base_point(s: Scalar, s_next: Scalar, p: Point, g: Point, v: int)
    requires
        s.inv(),
        s_next.inv(),
        p.inv(),
        g.inv(),
        s_next.value() == s.value() + 1,
        p@ == base_multiple(s.value()),
        g@ == base_multiple(1),
    ensures
        command_output(SecpCommand::Mul { scalar: s_next }, v) == command_output(
            SecpCommand::Exp { point1: p, point2: g },
            v,
        ),
{
    lemma_log_of(p, s.value());
    lemma_log_of(g, 1);
    vstd::arithmetic::div_mod::lemma_small_mod((s.value() + 1) as nat, group_order() as nat);
}

/// Adding two points does not depend on their order, and adding a point to itself doubles it.
pub proof fn exp_commutes(p1: Point, p2: Point, v: int)
    requires
        p1.inv(),
        p2.inv(),
    ensures
        command_output(SecpCommand::Exp { point1: p1, point2: p2 }, v) == command_output(
            SecpCommand::Exp { point1: p2, point2: p1 },
            v,
        ),
        command_output(SecpCommand::Exp { point1: p1, point2: p1 }, v) == point_sum_text(
            2 * p1.log(),
        ),
{
    assert(p1.log() + p2.log() == p2.log() + p1.log());
    assert(p1.log() + p1.log() == 2 * p1.log());
}

/// Adding s·G to a point prints what adding the point `Mul(s)` computes to it prints.
pub proof fn add_exp_is_exp_of_mul(p: Point, s: Scalar, q: Point, v: int)
    requires
        p.inv(),
        s.inv(),
        q.inv(),
        q@ == base_multiple(s.value()),
    ensures
        command_output(SecpCommand::AddExp { point: p, scalar: s }, v) == command_output(
            SecpCommand::Exp { point1: p, point2: q },
            v,
        ),
{
    lemma_log_of(q, s.value());
}

/// A generated pair prints the generated scalar, then on a second line the point that `Mul`
/// prints for that scalar.
pub proof fn new_pair_point_is_mul_of_scalar(even: bool, v: int, s: Scalar)
    requires
        s.inv(),
        s.value() == generated_value(v, even),
    ensures
        command_output(SecpCommand::NewPair { even }, v) == Some(
            command_output(SecpCommand::New { even }, v)->0 + seq!['\n'] + command_output(
                SecpCommand::Mul { scalar: s },
                v,
            )->0,
        ),
{
}

/// Parsing the text of a scalar gives the scalar back.
pub proof fn scalar_hex_round_trip(s: Scalar)
    requires
        s.inv(),
    ensures
        scalar_parse(hex_text(s@)) == Ok::<Seq<u8>, crate::Error>(s@),
{
    lemma_hex_round_trip(s@);
}

/// Parsing the text of a point gives the point back.
pub proof fn point_hex_round_trip(p: Point)
    requires
        p.inv(),
    ensures
        point_parse(hex_text(p@)) == Ok::<Seq<u8>, crate::Error>(p@),
{
    lemma_hex_round_trip(p@);
    assert(is_point_encoding(p@));
    assert(compressed_form(p@) == p@);
}

} // verus!
