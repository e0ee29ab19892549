use vstd::prelude::*;

verus! {

/// The number whose 64-bit words, most significant first, are `a`, `b`, `c` and `d`.
pub open spec fn from_words(a: int, b: int, c: int, d: int) -> int {
    ((a * 0x1_0000_0000_0000_0000 + b) * 0x1_0000_0000_0000_0000 + c) * 0x1_0000_0000_0000_0000 + d
}

/// The order n of the group generated by the base point G.
pub open spec fn group_order() -> int {
    from_words(
        0xFFFF_FFFF_FFFF_FFFF,
        0xFFFF_FFFF_FFFF_FFFE,
        0xBAAE_DCE6_AF48_A03B,
        0xBFD2_5E8C_D036_4141,
    )
}

/// The prime p of the field over which the curve y^2 = x^3 + 7 is defined.
pub open spec fn field_prime() -> int {
    from_words(
        0xFFFF_FFFF_FFFF_FFFF,
        0xFFFF_FFFF_FFFF_FFFF,
        0xFFFF_FFFF_FFFF_FFFF,
        0xFFFF_FFFE_FFFF_FC2F,
    )
}

/// The unsigned big-endian value of a byte string.
pub open spec fn be_value(b: Seq<u8>) -> int
    decreases b.len(),
{
    if b.len() == 0 {
        0
    } else {
        be_value(b.drop_last()) * 256 + b.last() as int
    }
}

/// A well-formed secret scalar: 32 big-endian bytes whose value lies in [1, n-1].
pub open spec fn is_scalar(b: Seq<u8>) -> bool {
    b.len() == 32 && 0 < be_value(b) < group_order()
}

/// Whether (x, y) are reduced field elements that satisfy the curve equation.
pub open spec fn on_curve(x: int, y: int) -> bool {
    0 <= x < field_prime() && 0 <= y < field_prime() && (y * y) % field_prime() == (x * x * x
        + 7) % field_prime()
}

/// The x coordinate written in bytes 1 to 32 of a point encoding.
pub open spec fn x_of(b: Seq<u8>) -> int {
    be_value(b.subrange(1, 33))
}

/// The y coordinate written in bytes 33 to 64 of an uncompressed point encoding.
pub open spec fn y_of(b: Seq<u8>) -> int {
    be_value(b.subrange(33, 65))
}

/// A 33-byte compressed encoding of a curve point: the prefix 2 or 3 gives the parity of y.
pub open spec fn is_compressed_point(b: Seq<u8>) -> bool {
    &&& b.len() == 33
    &&& (b[0] == 2 || b[0] == 3)
    &&& exists|y: int| #[trigger] on_curve(x_of(b), y) && y % 2 == b[0] - 2
}

/// A 65-byte encoding of a curve point with both coordinates: prefix 4, or 6 and 7 where
/// the prefix also states the parity of y.
pub open spec fn is_uncompressed_point(b: Seq<u8>) -> bool {
    &&& b.len() == 65
    &&& (b[0] == 4 || b[0] == 6 || b[0] == 7)
    &&& on_curve(x_of(b), y_of(b))
    &&& (b[0] == 6 ==> y_of(b) % 2 == 0)
    &&& (b[0] == 7 ==> y_of(b) % 2 == 1)
}

/// An encoding that the library accepts as a point.
pub open spec fn is_point_encoding(b: Seq<u8>) -> bool {
    is_compressed_point(b) || is_uncompressed_point(b)
}

/// The compressed encoding of the point that an accepted encoding denotes.
pub open spec fn compressed_form(b: Seq<u8>) -> Seq<u8> {
    if b.len() == 33 {
        b
    } else {
        seq![(2 + y_of(b) % 2) as u8] + b.subrange(1, 33)
    }
}

/// The compressed encoding of k·G, the base point added to itself k times.
pub uninterp spec fn base_multiple(k: int) -> Seq<u8>;

/// A compressed encoding of a point of the group, that is of k·G for one k in [1, n-1]:
/// G generates a group of prime order n, so no two such k give the same point.
pub open spec fn is_group_point(b: Seq<u8>) -> bool {
    &&& is_compressed_point(b)
    &&& exists|k: int| 0 < k < group_order() && b == #[trigger] base_multiple(k)
    &&& forall|i: int, j: int|
        0 < i < group_order() && 0 < j < group_order() && b == #[trigger] base_multiple(i) && b
            == #[trigger] base_multiple(j) ==> i == j
}

/// The discrete logarithm of a group point: the k in [1, n-1] with k·G equal to it.
pub open spec fn point_log(b: Seq<u8>) -> int {
    choose|k: int| 0 < k < group_order() && b == #[trigger] base_multiple(k)
}

/// Equal-length byte strings with equal big-endian values are equal.
pub proof fn lemma_be_value_injective(a: Seq<u8>, b: Seq<u8>)
    requires
        a.len() == b.len(),
        be_value(a) == be_value(b),
    ensures
        a == b,
    decreases a.len(),
{
    if a.len() > 0 {
        lemma_be_value_nonneg(a.drop_last());
        lemma_be_value_nonneg(b.drop_last());
        let (qa, ra) = (be_value(a.drop_last()), a.last() as int);
        let (qb, rb) = (be_value(b.drop_last()), b.last() as int);
        vstd::arithmetic::div_mod::lemma_fundamental_div_mod_converse(qa * 256 + ra, 256, qa, ra);
        vstd::arithmetic::div_mod::lemma_fundamental_div_mod_converse(qb * 256 + rb, 256, qb, rb);
        lemma_be_value_injective(a.drop_last(), b.drop_last());
        assert(a =~= a.drop_last().push(a.last()));
        assert(b =~= b.drop_last().push(b.last()));
    }
}

/// A big-endian value is never negative.
pub proof fn lemma_be_value_nonneg(a: Seq<u8>)
    ensures
        be_value(a) >= 0,
    decreases a.len(),
{
    if a.len() > 0 {
        lemma_be_value_nonneg(a.drop_last());
    }
}

/// Relies on `SecretKey::from_slice`: it accepts exactly the 32-byte strings whose
/// big-endian value lies in [1, n-1].
#[verifier::external_body]
pub(crate) fn check_secret_key(data: &[u8]) -> (r: Result<(), secp256k1::Error>)
    ensures
        r is Ok <==> is_scalar(data@),
{
    match secp256k1::SecretKey::from_slice(data) {
        Ok(_) => Ok(()),
        Err(e) => Err(e),
    }
}

/// Relies on `SecretKey::new` over `thread_rng`: a key drawn at random, always in [1, n-1].
#[verifier::external_body]
pub(crate) fn random_secret_key() -> (r: [u8; 32])
    ensures
        is_scalar(r@),
{
    let key = secp256k1::SecretKey::new(&mut secp256k1::rand::thread_rng());
    let mut out = [0u8; 32];
    out.copy_from_slice(&key[..]);
    out
}

/// Relies on `SecretKey::add_assign`: the sum modulo n, refused where it is zero.
#[verifier::external_body]
pub(crate) fn secret_key_add(a: &[u8; 32], b: &[u8; 32]) -> (r: Result<[u8; 32], secp256k1::Error>)
    requires
        is_scalar(a@),
        is_scalar(b@),
    ensures
        r is Ok <==> (be_value(a@) + be_value(b@)) % group_order() != 0,
        r matches Ok(s) ==> be_value(s@) == (be_value(a@) + be_value(b@)) % group_order(),
{
    let mut key = secp256k1::SecretKey::from_slice(a)?;
    key.add_assign(b)?;
    let mut out = [0u8; 32];
    out.copy_from_slice(&key[..]);
    Ok(out)
}

/// Relies on `SecretKey::negate_assign`: the key becomes n minus itself.
#[verifier::external_body]
pub(crate) fn secret_key_negate(a: &[u8; 32]) -> (r: Result<[u8; 32], secp256k1::Error>)
    requires
        is_scalar(a@),
    ensures
        r is Ok,
        r matches Ok(s) ==> be_value(s@) == group_order() - be_value(a@),
{
    let mut key = secp256k1::SecretKey::from_slice(a)?;
    key.negate_assign();
    let mut out = [0u8; 32];
    out.copy_from_slice(&key[..]);
    Ok(out)
}

/// Relies on `PublicKey::from_secret_key`, under a signing context of `Secp256k1`: the point
/// k·G for the key's value k, in the compressed form that `PublicKey::serialize` writes.
#[verifier::external_body]
pub(crate) fn public_key_from_secret(a: &[u8; 32]) -> (r: Result<[u8; 33], secp256k1::Error>)
    requires
        is_scalar(a@),
    ensures
        r is Ok,
        r matches Ok(p) ==> p@ == base_multiple(be_value(a@)) && is_group_point(p@),
{
    let key = secp256k1::SecretKey::from_slice(a)?;
    let ctx = secp256k1::Secp256k1::signing_only();
    Ok(secp256k1::PublicKey::from_secret_key(&ctx, &key).serialize())
}

/// Relies on `PublicKey::from_slice`: it accepts a compressed or a full encoding of a curve
/// point, and `PublicKey::serialize` writes that point back in compressed form.
#[verifier::external_body]
pub(crate) fn public_key_parse(data: &[u8]) -> (r: Result<[u8; 33], secp256k1::Error>)
    ensures
        r is Ok <==> is_point_encoding(data@),
        r matches Ok(p) ==> p@ == compressed_form(data@) && is_group_point(p@),
{
    Ok(secp256k1::PublicKey::from_slice(data)?.serialize())
}

/// Relies on `PublicKey::combine`: the group sum of two points, refused where it is the point
/// at infinity, that is where their logarithms add up to n.
#[verifier::external_body]
pub(crate) fn public_key_combine(a: &[u8; 33], b: &[u8; 33]) -> (r: Result<[u8; 33], secp256k1::Error>)
    requires
        is_group_point(a@),
        is_group_point(b@),
    ensures
        forall|i: int, j: int|
            0 < i < group_order() && 0 < j < group_order() && a@ == #[trigger] base_multiple(i)
                && b@ == #[trigger] base_multiple(j) ==> {
                &&& (r is Ok <==> (i + j) % group_order() != 0)
                &&& (r matches Ok(p) ==> p@ == base_multiple((i + j) % group_order()))
            },
        r matches Ok(p) ==> is_group_point(p@),
{
    let p = secp256k1::PublicKey::from_slice(a)?;
    let q = secp256k1::PublicKey::from_slice(b)?;
    Ok(p.combine(&q)?.serialize())
}

/// Relies on `PublicKey::add_exp_assign`: the point plus t·G for the tweak's value t,
/// refused where the sum is the point at infinity.
#[verifier::external_body]
pub(crate) fn public_key_add_exp(a: &[u8; 33], t: &[u8; 32]) -> (r: Result<[u8; 33], secp256k1::Error>)
    requires
        is_group_point(a@),
        is_scalar(t@),
    ensures
        forall|i: int|
            0 < i < group_order() && a@ == #[trigger] base_multiple(i) ==> {
                &&& (r is Ok <==> (i + be_value(t@)) % group_order() != 0)
                &&& (r matches Ok(p) ==> p@ == base_multiple((i + be_value(t@)) % group_order()))
            },
        r matches Ok(p) ==> is_group_point(p@),
{
    let mut p = secp256k1::PublicKey::from_slice(a)?;
    p.add_exp_assign(&secp256k1::Secp256k1::verification_only(), t)?;
    Ok(p.serialize())
}

/// Relies on `PublicKey::negate_assign`: the point (x, -y), with the same x and the other
/// parity of y, which is (n-k)·G for the point k·G.
#[verifier::external_body]
pub(crate) fn public_key_negate(a: &[u8; 33]) -> (r: Result<[u8; 33], secp256k1::Error>)
    requires
        is_group_point(a@),
    ensures
        r is Ok,
        r matches Ok(p) ==> is_group_point(p@) && p@[0] == 5 - a@[0],
        r matches Ok(p) ==> forall|i: int|
            0 < i < group_order() && a@ == #[trigger] base_multiple(i) ==> p@ == base_multiple(
                group_order() - i,
            ),
{
    let mut p = secp256k1::PublicKey::from_slice(a)?;
    p.negate_assign(&secp256k1::Secp256k1::verification_only());
    Ok(p.serialize())
}

} // verus!
