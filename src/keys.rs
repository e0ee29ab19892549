use vstd::prelude::*;

use crate::curve::{
    base_multiple, be_value, check_secret_key, compressed_form, group_order, is_group_point,
    is_point_encoding, is_scalar, lemma_be_value_injective, point_log, public_key_add_exp,
    public_key_combine, public_key_from_secret, public_key_negate, public_key_parse,
    random_secret_key, secret_key_add, secret_key_negate,
};
use crate::hex::{decode, encode, hex_bytes, hex_text, is_hex};
use crate::Error;

verus! {

/// What parsing hexadecimal text as a scalar gives: its 32 bytes, or the first fault found.
pub open spec fn scalar_parse(s: Seq<char>) -> Result<Seq<u8>, Error> {
    if !is_hex(s) {
        Err(Error::InvalidHex)
    } else if hex_bytes(s).len() != 32 {
        Err(Error::InvalidLength)
    } else if !is_scalar(hex_bytes(s)) {
        Err(Error::ScalarOutOfRange)
    } else {
        Ok(hex_bytes(s))
    }
}

/// What parsing hexadecimal text as a point gives: its compressed encoding, or the first
/// fault found.
pub open spec fn point_parse(s: Seq<char>) -> Result<Seq<u8>, Error> {
    if !is_hex(s) {
        Err(Error::InvalidHex)
    } else if hex_bytes(s).len() != 33 && hex_bytes(s).len() != 65 {
        Err(Error::InvalidLength)
    } else if !is_point_encoding(hex_bytes(s)) {
        Err(Error::PointNotOnCurve)
    } else {
        Ok(compressed_form(hex_bytes(s)))
    }
}

/// The 32 big-endian bytes of a value in [1, n-1].
pub open spec fn scalar_bytes(v: int) -> Seq<u8> {
    choose|b: Seq<u8>| is_scalar(b) && be_value(b) == v
}

/// The bytes of a scalar are the ones `scalar_bytes` names for its value.
pub proof fn lemma_scalar_bytes(b: Seq<u8>)
    requires
        is_scalar(b),
    ensures
        scalar_bytes(be_value(b)) == b,
{
    let c = scalar_bytes(be_value(b));
    lemma_be_value_injective(c, b);
}

/// Copies 32 bytes into an array.
fn to_array32(v: &Vec<u8>) -> (r: [u8; 32])
    requires
        v@.len() == 32,
    ensures
        r@ == v@,
{
    let mut r = [0u8; 32];
    let mut i: usize = 0;
    while i < 32
        invariant
            i <= 32,
            v@.len() == 32,
            forall|j: int| 0 <= j < i ==> r@[j] == v@[j],
        decreases 32 - i,
    {
        r[i] = v[i];
        i = i + 1;
    }
    assert(r@ =~= v@);
    r
}

/// An element of [1, n-1], the nonzero integers modulo the group order n, held as 32
/// big-endian bytes.
#[derive(Clone, Copy, Debug, PartialEq, Eq)]
pub struct Scalar {
    bytes: [u8; 32],
}

impl View for Scalar {
    type V = Seq<u8>;

    closed spec fn view(&self) -> Seq<u8> {
        self.bytes@
    }
}

impl Scalar {
    #[verifier::type_invariant]
    pub open spec fn inv(&self) -> bool {
        is_scalar(self@)
    }

    /// The integer value of the scalar.
    pub open spec fn value(&self) -> int {
        be_value(self@)
    }

    /// Parses 64 hexadecimal digits of either case into a scalar in [1, n-1].
    pub fn from_hex(s: &str) -> (r: Result<Scalar, Error>)
        ensures
            r is Ok <==> scalar_parse(s@) is Ok,
            r matches Ok(k) ==> scalar_parse(s@) == Ok::<Seq<u8>, Error>(k@),
            r matches Err(e) ==> scalar_parse(s@) == Err::<Seq<u8>, Error>(e),
    {
        let bytes = match decode(s) {
            Some(b) => b,
            None => {
                return Err(Error::InvalidHex);
            },
        };
        if bytes.len() != 32 {
            return Err(Error::InvalidLength);
        }
        match check_secret_key(bytes.as_slice()) {
            Ok(()) => Ok(Scalar { bytes: to_array32(&bytes) }),
            Err(_) => Err(Error::ScalarOutOfRange),
        }
    }

    /// Draws a scalar uniformly at random from [1, n-1].
    pub fn random() -> (r: Scalar)
        ensures
            is_scalar(r@),
    {
        Scalar { bytes: random_secret_key() }
    }

    /// The scalar as 64 lowercase hexadecimal digits.
    pub fn to_hex(&self) -> (r: String)
        ensures
            r@ == hex_text(self@),
    {
        encode(self.bytes.as_slice())
    }

    /// The sum of two scalars modulo n; an arithmetic error where that sum is zero.
    pub fn add(&self, other: &Scalar) -> (r: Result<Scalar, Error>)
        ensures
            r is Ok <==> (self.value() + other.value()) % group_order() != 0,
            r matches Ok(k) ==> k.value() == (self.value() + other.value()) % group_order(),
            r matches Err(e) ==> e is Secp,
    {
        proof {
            use_type_invariant(self);
            use_type_invariant(other);
        }
        match secret_key_add(&self.bytes, &other.bytes) {
            Ok(b) => Ok(Scalar { bytes: b }),
            Err(e) => Err(Error::Secp(e)),
        }
    }

    /// The scalar n minus this one, which stands for the opposite point.
    pub fn negate(&self) -> (r: Scalar)
        ensures
            r.value() == group_order() - self.value(),
    {
        proof {
            use_type_invariant(self);
        }
        match secret_key_negate(&self.bytes) {
            Ok(b) => Scalar { bytes: b },
            Err(_) => {
                proof {
                    assert(false);
                }
                Scalar { bytes: self.bytes }
            },
        }
    }

    /// The point k·G for this scalar's value k.
    pub fn base_point(&self) -> (r: Point)
        ensures
            r@ == base_multiple(self.value()),
    {
        proof {
            use_type_invariant(self);
        }
        match public_key_from_secret(&self.bytes) {
            Ok(p) => Point { bytes: p },
            Err(_) => {
                proof {
                    assert(false);
                }
                Point { bytes: [0u8; 33] }
            },
        }
    }
}

/// A point of the group generated by G, other than the point at infinity, held in its
/// 33-byte compressed encoding.
#[derive(Clone, Copy, Debug, PartialEq, Eq)]
pub struct Point {
    bytes: [u8; 33],
}

impl View for Point {
    type V = Seq<u8>;

    closed spec fn view(&self) -> Seq<u8> {
        self.bytes@
    }
}

impl Point {
    #[verifier::type_invariant]
    pub open spec fn inv(&self) -> bool {
        is_group_point(self@)
    }

    /// The discrete logarithm of the point: the k in [1, n-1] with k·G equal to it.
    pub open spec fn log(&self) -> int {
        point_log(self@)
    }

    /// Parses 66 or 130 hexadecimal digits of either case, a compressed or a full encoding,
    /// into a point of the curve.
    pub fn from_hex(s: &str) -> (r: Result<Point, Error>)
        ensures
            r is Ok <==> point_parse(s@) is Ok,
            r matches Ok(p) ==> point_parse(s@) == Ok::<Seq<u8>, Error>(p@),
            r matches Err(e) ==> point_parse(s@) == Err::<Seq<u8>, Error>(e),
    {
        let bytes = match decode(s) {
            Some(b) => b,
            None => {
                return Err(Error::InvalidHex);
            },
        };
        if bytes.len() != 33 && bytes.len() != 65 {
            return Err(Error::InvalidLength);
        }
        match public_key_parse(bytes.as_slice()) {
            Ok(p) => Ok(Point { bytes: p }),
            Err(_) => Err(Error::PointNotOnCurve),
        }
    }

    /// The compressed encoding of the point as 66 lowercase hexadecimal digits.
    pub fn to_hex(&self) -> (r: String)
        ensures
            r@ == hex_text(self@),
    {
        encode(self.bytes.as_slice())
    }

    /// Whether the point's y coordinate is even, as its compressed encoding states.
    pub fn has_even_y(&self) -> (r: bool)
        ensures
            r == (self@[0] == 2),
    {
        self.bytes[0] == 2
    }

    /// The group sum of two points; an arithmetic error where it is the point at infinity.
    pub fn combine(&self, other: &Point) -> (r: Result<Point, Error>)
        ensures
            r is Ok <==> (self.log() + other.log()) % group_order() != 0,
            r matches Ok(p) ==> p@ == base_multiple((self.log() + other.log()) % group_order()),
            r matches Err(e) ==> e is Secp,
    {
        proof {
            use_type_invariant(self);
            use_type_invariant(other);
        }
        match public_key_combine(&self.bytes, &other.bytes) {
            Ok(b) => {
                proof {
                    let k = (self.log() + other.log()) % group_order();
                    assert(b@ == base_multiple(k));
                }
                Ok(Point { bytes: b })
            },
            Err(e) => Err(Error::Secp(e)),
        }
    }

    /// The point plus t·G for the scalar's value t; an arithmetic error where the sum is the
    /// point at infinity.
    pub fn add_exp(&self, t: &Scalar) -> (r: Result<Point, Error>)
        ensures
            r is Ok <==> (self.log() + t.value()) % group_order() != 0,
            r matches Ok(p) ==> p@ == base_multiple((self.log() + t.value()) % group_order()),
            r matches Err(e) ==> e is Secp,
    {
        proof {
            use_type_invariant(self);
            use_type_invariant(t);
        }
        match public_key_add_exp(&self.bytes, &t.bytes) {
            Ok(b) => {
                proof {
                    let k = (self.log() + t.value()) % group_order();
                    assert(b@ == base_multiple(k));
                }
                Ok(Point { bytes: b })
            },
            Err(e) => Err(Error::Secp(e)),
        }
    }

    /// The opposite point (x, -y): (n-k)·G for the point k·G, with the other parity of y.
    pub fn negate(&self) -> (r: Point)
        ensures
            r@ == base_multiple(group_order() - self.log()),
            r@[0] == 5 - self@[0],
    {
        proof {
            use_type_invariant(self);
        }
        match public_key_negate(&self.bytes) {
            Ok(b) => Point { bytes: b },
            Err(_) => {
                proof {
                    assert(false);
                }
                Point { bytes: self.bytes }
            },
        }
    }
}

} // verus!
