use ecc::{Command, Error, Exec, Point, Scalar, SecpCommand};

const G: &str = "0279be667ef9dcbbac55a06295ce870b07029bfcdb2dce28d959f2815b16f81798";
const G_FULL: &str = "0479be667ef9dcbbac55a06295ce870b07029bfcdb2dce28d959f2815b16f81798\
                      483ada7726a3c4655da4fbfc0e1108a8fd17b448a68554199c47d08ffb10d4b8";
const TWO_G: &str = "02c6047f9441ed7d6d3045406e95c07cd85c778e4b8cef3ca7abac09b95c709ee5";
const ORDER: &str = "fffffffffffffffffffffffffffffffebaaedce6af48a03bbfd25e8cd0364141";
const ORDER_LESS_ONE: &str = "fffffffffffffffffffffffffffffffebaaedce6af48a03bbfd25e8cd0364140";

fn scalar_of(v: u8) -> Scalar {
    Scalar::from_hex(&format!("{:064x}", v)).unwrap()
}

fn point(s: &str) -> Point {
    Point::from_hex(s).unwrap()
}

fn run(cmd: SecpCommand) -> Result<String, Error> {
    cmd.exec()
}

fn mul_text(v: u8) -> String {
    run(SecpCommand::Mul { scalar: scalar_of(v) }).unwrap()
}

#[test]
fn add_one_and_one_gives_two() {
    let out = run(SecpCommand::Add { scalar1: scalar_of(1), scalar2: scalar_of(1) }).unwrap();
    assert_eq!(out, format!("{:064x}", 2));
}

#[test]
fn add_wraps_modulo_order() {
    let big = Scalar::from_hex(ORDER_LESS_ONE).unwrap();
    let out = run(SecpCommand::Add { scalar1: big, scalar2: scalar_of(3) }).unwrap();
    assert_eq!(out, format!("{:064x}", 2));
}

#[test]
fn add_to_zero_is_an_arithmetic_error() {
    let big = Scalar::from_hex(ORDER_LESS_ONE).unwrap();
    let r = run(SecpCommand::Add { scalar1: big, scalar2: scalar_of(1) });
    assert!(matches!(r, Err(Error::Secp(_))));
}

#[test]
fn mul_one_is_the_base_point() {
    assert_eq!(mul_text(1), G);
}

#[test]
fn mul_two_is_the_doubled_base_point() {
    assert_eq!(mul_text(2), TWO_G);
}

#[test]
fn exp_of_base_point_with_itself_doubles_it() {
    let out = run(SecpCommand::Exp { point1: point(G), point2: point(G) }).unwrap();
    assert_eq!(out, TWO_G);
}

#[test]
fn mul_is_repeated_addition_of_base_point() {
    let mut acc = point(G);
    for k in 2..=7u8 {
        let next = run(SecpCommand::Exp { point1: acc, point2: point(G) }).unwrap();
        assert_eq!(next, mul_text(k));
        acc = point(&next);
    }
}

#[test]
fn exp_is_commutative() {
    let p = point(&mul_text(5));
    let q = point(&mul_text(9));
    let a = run(SecpCommand::Exp { point1: p, point2: q }).unwrap();
    let b = run(SecpCommand::Exp { point1: q, point2: p }).unwrap();
    assert_eq!(a, b);
    assert_eq!(a, mul_text(14));
}

#[test]
fn exp_of_opposite_points_is_an_arithmetic_error() {
    let p = point(G);
    let r = run(SecpCommand::Exp { point1: p, point2: p.negate() });
    assert!(matches!(r, Err(Error::Secp(_))));
}

#[test]
fn add_exp_matches_exp_of_mul() {
    let p = point(&mul_text(11));
    let s = scalar_of(4);
    let direct = run(SecpCommand::AddExp { point: p, scalar: s }).unwrap();
    let via_mul = run(SecpCommand::Exp { point1: p, point2: point(&mul_text(4)) }).unwrap();
    assert_eq!(direct, via_mul);
    assert_eq!(direct, mul_text(15));
}

#[test]
fn add_exp_of_base_point_and_one() {
    let out = run(SecpCommand::AddExp { point: point(G), scalar: scalar_of(1) }).unwrap();
    assert_eq!(out, TWO_G);
}

#[test]
fn new_pair_prints_scalar_then_its_point() {
    let out = run(SecpCommand::NewPair { even: false }).unwrap();
    let lines: Vec<&str> = out.split('\n').collect();
    assert_eq!(lines.len(), 2);
    assert_eq!(lines[0].len(), 64);
    let s = Scalar::from_hex(lines[0]).unwrap();
    assert_eq!(run(SecpCommand::Mul { scalar: s }).unwrap(), lines[1]);
}

#[test]
fn new_prints_a_valid_scalar() {
    let out = run(SecpCommand::New { even: false }).unwrap();
    assert_eq!(out.len(), 64);
    assert!(Scalar::from_hex(&out).is_ok());
}

#[test]
fn new_even_gives_point_with_even_y() {
    for _ in 0..8 {
        let out = run(SecpCommand::New { even: true }).unwrap();
        let s = Scalar::from_hex(&out).unwrap();
        let p = run(SecpCommand::Mul { scalar: s }).unwrap();
        assert!(p.starts_with("02"));
    }
}

#[test]
fn new_pair_even_gives_point_with_even_y() {
    for _ in 0..8 {
        let out = run(SecpCommand::NewPair { even: true }).unwrap();
        let lines: Vec<&str> = out.split('\n').collect();
        assert!(lines[1].starts_with("02"));
        let s = Scalar::from_hex(lines[0]).unwrap();
        assert_eq!(run(SecpCommand::Mul { scalar: s }).unwrap(), lines[1]);
    }
}

#[test]
fn exec_with_uses_the_drawn_scalar() {
    let fresh = scalar_of(1);
    let out = SecpCommand::NewPair { even: false }.exec_with(&fresh).unwrap();
    assert_eq!(out, format!("{:064x}\n{}", 1, G));
    let out = SecpCommand::New { even: false }.exec_with(&scalar_of(9)).unwrap();
    assert_eq!(out, format!("{:064x}", 9));
}

#[test]
fn exec_with_even_negates_an_odd_scalar() {
    // 3·G has an even y and 6·G an odd one, so 6 is replaced by n - 6.
    let three = SecpCommand::New { even: true }.exec_with(&scalar_of(3)).unwrap();
    assert_eq!(three, format!("{:064x}", 3));
    assert!(mul_text(6).starts_with("03"));
    let six = SecpCommand::New { even: true }.exec_with(&scalar_of(6)).unwrap();
    assert_eq!(six, "fffffffffffffffffffffffffffffffebaaedce6af48a03bbfd25e8cd036413b");
    let pair = SecpCommand::NewPair { even: true }.exec_with(&scalar_of(6)).unwrap();
    let lines: Vec<&str> = pair.split('\n').collect();
    assert_eq!(lines[0], six);
    assert_eq!(&lines[1][2..], &mul_text(6)[2..]);
    assert!(lines[1].starts_with("02"));
}

#[test]
fn command_runs_its_subcommand() {
    let cmd = Command::Secp { subcommand: SecpCommand::Mul { scalar: scalar_of(1) } };
    assert_eq!(cmd.exec().unwrap(), G);
}

#[test]
fn scalar_round_trips_through_hex() {
    let s = Scalar::from_hex(ORDER_LESS_ONE).unwrap();
    assert_eq!(s.to_hex(), ORDER_LESS_ONE);
    assert_eq!(Scalar::from_hex(&s.to_hex()).unwrap(), s);
}

#[test]
fn scalar_accepts_uppercase_digits() {
    let s = Scalar::from_hex(&ORDER_LESS_ONE.to_uppercase()).unwrap();
    assert_eq!(s.to_hex(), ORDER_LESS_ONE);
}

#[test]
fn point_round_trips_through_hex() {
    let p = point(TWO_G);
    assert_eq!(p.to_hex(), TWO_G);
    assert_eq!(Point::from_hex(&p.to_hex()).unwrap(), p);
}

#[test]
fn full_encoding_parses_to_compressed_point() {
    assert_eq!(point(G_FULL).to_hex(), G);
}

#[test]
fn scalar_zero_is_rejected() {
    assert_eq!(Scalar::from_hex(&format!("{:064x}", 0)), Err(Error::ScalarOutOfRange));
}

#[test]
fn scalar_equal_to_order_is_rejected() {
    assert_eq!(Scalar::from_hex(ORDER), Err(Error::ScalarOutOfRange));
}

#[test]
fn scalar_above_order_is_rejected() {
    let above = "ffffffffffffffffffffffffffffffffffffffffffffffffffffffffffffffff";
    assert_eq!(Scalar::from_hex(above), Err(Error::ScalarOutOfRange));
}

#[test]
fn scalar_with_bad_digit_is_rejected() {
    let bad = format!("{}g", &ORDER_LESS_ONE[..63]);
    assert_eq!(Scalar::from_hex(&bad), Err(Error::InvalidHex));
    assert_eq!(Scalar::from_hex("abc"), Err(Error::InvalidHex));
    assert_eq!(Scalar::from_hex("é1"), Err(Error::InvalidHex));
}

#[test]
fn scalar_of_wrong_length_is_rejected() {
    assert_eq!(Scalar::from_hex("01"), Err(Error::InvalidLength));
    assert_eq!(Scalar::from_hex(""), Err(Error::InvalidLength));
    assert_eq!(Scalar::from_hex(&format!("{:066x}", 1)), Err(Error::InvalidLength));
}

#[test]
fn point_off_curve_is_rejected() {
    // x = 5 gives x^3 + 7 = 132, which has no square root modulo p.
    let off = format!("02{:064x}", 5);
    assert_eq!(Point::from_hex(&off), Err(Error::PointNotOnCurve));
    let mut full = G_FULL.to_string();
    full.replace_range(129..130, "9");
    assert_eq!(Point::from_hex(&full), Err(Error::PointNotOnCurve));
}

#[test]
fn point_with_bad_prefix_is_rejected() {
    let bad = format!("05{}", &G[2..]);
    assert_eq!(Point::from_hex(&bad), Err(Error::PointNotOnCurve));
}

#[test]
fn point_with_x_beyond_field_is_rejected() {
    let bad = "02fffffffffffffffffffffffffffffffffffffffffffffffffffffffefffffc2f";
    assert_eq!(Point::from_hex(bad), Err(Error::PointNotOnCurve));
}

#[test]
fn point_of_wrong_length_is_rejected() {
    assert_eq!(Point::from_hex(&G[..64]), Err(Error::InvalidLength));
    assert_eq!(Point::from_hex("0x02"), Err(Error::InvalidHex));
}

#[test]
fn negated_point_flips_parity() {
    let p = point(G);
    let n = p.negate();
    assert_eq!(&n.to_hex()[2..], &G[2..]);
    assert!(n.to_hex().starts_with("03"));
    assert!(!n.has_even_y());
    assert!(p.has_even_y());
}

#[test]
fn negated_scalar_is_order_minus_value() {
    assert_eq!(scalar_of(1).negate().to_hex(), ORDER_LESS_ONE);
}
