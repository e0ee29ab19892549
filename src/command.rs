use vstd::prelude::*;

use crate::curve::{base_multiple, group_order, is_group_point, is_scalar};
use crate::hex::hex_text;
use crate::keys::{lemma_scalar_bytes, scalar_bytes, Point, Scalar};
use crate::Error;

verus! {

/// The text of the scalar with value `v`: 64 lowercase hexadecimal digits.
pub open spec fn scalar_text(v: int) -> Seq<char> {
    hex_text(scalar_bytes(v))
}

/// The text of the point k·G: its compressed encoding in 66 lowercase hexadecimal digits.
pub open spec fn point_text(k: int) -> Seq<char> {
    hex_text(base_multiple(k))
}

/// The text of the point t·G, or `None` where t is a multiple of n and the sum is the point
/// at infinity.
pub open spec fn point_sum_text(t: int) -> Option<Seq<char>> {
    if t % group_order() == 0 {
        None
    } else {
        Some(point_text(t % group_order()))
    }
}

/// The scalar that generation keeps from a drawn value `v`: `v` itself, or n - v where a
/// point with even y is asked for and v·G has odd y.
pub open spec fn generated_value(v: int, even: bool) -> int {
    if even && base_multiple(v)[0] == 3 {
        group_order() - v
    } else {
        v
    }
}

/// Whether a command's result is the text `out`, where `None` stands for an arithmetic
/// error of the curve library.
pub open spec fn output_matches(out: Option<Seq<char>>, r: Result<String, Error>) -> bool {
    match out {
        Some(t) => r matches Ok(s) && s@ == t,
        None => r matches Err(Error::Secp(_)),
    }
}

/// One operation on the secp256k1 group with its operands.
pub enum SecpCommand {
    /// Draws a new scalar in [1, n-1]; with `even`, one whose point has an even y.
    New { even: bool },
    /// Draws a new scalar and its point, scalar first; with `even`, a point with an even y.
    NewPair { even: bool },
    /// Multiplies the base point G by a scalar.
    Mul { scalar: Scalar },
    /// Adds two points.
    Exp { point1: Point, point2: Point },
    /// Adds to a point the base point multiplied by a scalar.
    AddExp { point: Point, scalar: Scalar },
    /// Adds two scalars modulo n.
    Add { scalar1: Scalar, scalar2: Scalar },
}

/// The text that `cmd` prints where the generating commands draw the value `fresh`, or
/// `None` where the curve library refuses the arithmetic.
pub open spec fn command_output(cmd: SecpCommand, fresh: int) -> Option<Seq<char>> {
    match cmd {
        SecpCommand::New { even } => Some(scalar_text(generated_value(fresh, even))),
        SecpCommand::NewPair { even } => Some(
            scalar_text(generated_value(fresh, even)) + seq!['\n'] + point_text(
                generated_value(fresh, even),
            ),
        ),
        SecpCommand::Mul { scalar } => Some(point_text(scalar.value())),
        SecpCommand::Exp { point1, point2 } => point_sum_text(point1.log() + point2.log()),
        SecpCommand::AddExp { point, scalar } => point_sum_text(point.log() + scalar.value()),
        SecpCommand::Add { scalar1, scalar2 } => {
            let t = scalar1.value() + scalar2.value();
            if t % group_order() == 0 {
                None
            } else {
                Some(scalar_text(t % group_order()))
            }
        },
    }
}

/// The scalar kept from the drawn scalar `fresh`, with its point: where `even` is asked for,
/// a scalar whose point is odd is replaced by its negation, whose point is the even one.
pub fn generate(fresh: &Scalar, even: bool) -> (r: (Scalar, Point))
    ensures
        r.0.value() == generated_value(fresh.value(), even),
        r.1@ == base_multiple(r.0.value()),
        even ==> r.1@[0] == 2,
{
    proof {
        use_type_invariant(fresh);
    }
    let point = fresh.base_point();
    proof {
        use_type_invariant(&point);
    }
    if even && !point.has_even_y() {
        (fresh.negate(), point.negate())
    } else {
        (*fresh, point)
    }
}

/// The text of a scalar, with what it is equal to.
fn scalar_output(k: &Scalar) -> (r: String)
    ensures
        r@ == scalar_text(k.value()),
{
    proof {
        use_type_invariant(k);
        lemma_scalar_bytes(k@);
    }
    k.to_hex()
}

impl SecpCommand {
    /// Whether the command draws a fresh scalar.
    pub open spec fn draws(&self) -> bool {
        self is New || self is NewPair
    }

    /// Runs the command, taking `fresh` as the value drawn where it generates a scalar.
    pub fn exec_with(&self, fresh: &Scalar) -> (r: Result<String, Error>)
        ensures
            output_matches(command_output(*self, fresh.value()), r),
    {
        match self {
            SecpCommand::New { even } => {
                let (k, _) = generate(fresh, *even);
                let out = scalar_output(&k);
                assert(out@ == command_output(*self, fresh.value())->0);
                Ok(out)
            },
            SecpCommand::NewPair { even } => {
                let (k, p) = generate(fresh, *even);
                let mut out = scalar_output(&k);
                proof {
                    reveal_strlit("\n");
                }
                out.append("\n");
                let text = p.to_hex();
                out.append(text.as_str());
                assert(out@ == command_output(*self, fresh.value())->0);
                Ok(out)
            },
            _ => self.compute(),
        }
    }

    /// Runs a command that draws nothing; its result does not depend on a drawn value.
    fn compute(&self) -> (r: Result<String, Error>)
        requires
            !self.draws(),
        ensures
            forall|v: int| output_matches(#[trigger] command_output(*self, v), r),
    {
        match self {
            SecpCommand::Mul { scalar } => Ok(scalar.base_point().to_hex()),
            SecpCommand::Exp { point1, point2 } => match point1.combine(point2) {
                Ok(p) => Ok(p.to_hex()),
                Err(e) => Err(e),
            },
            SecpCommand::AddExp { point, scalar } => match point.add_exp(scalar) {
                Ok(p) => Ok(p.to_hex()),
                Err(e) => Err(e),
            },
            SecpCommand::Add { scalar1, scalar2 } => match scalar1.add(scalar2) {
                Ok(k) => Ok(scalar_output(&k)),
                Err(e) => Err(e),
            },
            _ => {
                proof {
                    assert(false);
                }
                Ok(String::new())
            },
        }
    }
}

/// Runs the operation that a command names.
pub trait Exec {
    /// Whether `r` is a result that running the command may give.
    spec fn exec_allows(&self, r: Result<String, Error>) -> bool;

    /// Runs the command and returns the text it prints, or the error it fails with.
    fn exec(&self) -> (r: Result<String, Error>)
        ensures
            self.exec_allows(r),
    ;
}

impl Exec for SecpCommand {
    /// The result is the command's output for some value in [1, n-1] drawn by the
    /// generating commands; the other commands draw nothing.
    open spec fn exec_allows(&self, r: Result<String, Error>) -> bool {
        exists|v: int| 0 < v < group_order() && output_matches(#[trigger] command_output(*self, v), r)
    }

    fn exec(&self) -> (r: Result<String, Error>) {
        if matches!(self, SecpCommand::New { .. } | SecpCommand::NewPair { .. }) {
            let fresh = Scalar::random();
            proof {
                use_type_invariant(&fresh);
            }
            let r = self.exec_with(&fresh);
            assert(output_matches(command_output(*self, fresh.value()), r));
            r
        } else {
            let r = self.compute();
            assert(output_matches(command_output(*self, 1), r));
            r
        }
    }
}

/// The command line's top-level choice of curve.
pub enum Command {
    /// Operations on the secp256k1 curve.
    Secp { subcommand: SecpCommand },
}

impl Exec for Command {
    open spec fn exec_allows(&self, r: Result<String, Error>) -> bool {
        match self {
            Command::Secp { subcommand } => subcommand.exec_allows(r),
        }
    }

    fn exec(&self) -> (r: Result<String, Error>) {
        match self {
            Command::Secp { subcommand } => subcommand.exec(),
        }
    }
}

} // verus!
