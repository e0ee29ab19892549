use secp256k1::Error as SecpError;
use vstd::prelude::*;

mod command;
mod curve;
mod hex;
mod keys;
mod laws;

verus! {

/// The curve library's error, carried unchanged in `Error::Secp`.
#[verifier::external_type_specification]
#[verifier::external_body]
pub struct ExSecpError(SecpError);

} // verus!

verus! {

/// Why an operation on scalars or points failed.
#[derive(Clone, Copy, Debug, PartialEq, Eq)]
pub enum Error {
    /// The text holds a character that is not a hexadecimal digit, or an odd number of digits.
    InvalidHex,
    /// The text is hexadecimal but gives the wrong number of bytes.
    InvalidLength,
    /// The scalar is zero or not below the group order.
    ScalarOutOfRange,
    /// The bytes do not encode a point of the curve.
    PointNotOnCurve,
    /// The curve library refused the arithmetic, as when a sum is zero or the point at infinity.
    Secp(SecpError),
}

} // verus!

pub use command::{
    command_output, generate, generated_value, output_matches, point_sum_text, point_text,
    scalar_text, Command, Exec, SecpCommand,
};
pub use curve::{
    base_multiple, be_value, compressed_form, field_prime, group_order, is_compressed_point,
    is_group_point, is_point_encoding, is_scalar, is_uncompressed_point, on_curve, point_log,
};
pub use hex::{decode, digit_value, encode, hex_bytes, hex_char, hex_text, is_hex};
pub use keys::{point_parse, scalar_bytes, scalar_parse, Point, Scalar};
pub use laws::{
    add_exp_is_exp_of_mul, add_is_sum_modulo_order, exp_commutes, mul_adds_base_point,
    new_pair_point_is_mul_of_scalar, point_hex_round_trip, scalar_hex_round_trip,
};
