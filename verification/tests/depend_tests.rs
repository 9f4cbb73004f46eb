use mist::depend::{parse_expression, split_alternatives, Alternative, Operator};

#[test]
fn bare_name_has_no_constraint() {
    let alt = Alternative::parse("pkg1");
    assert_eq!(alt.pkgname, "pkg1");
    assert!(alt.constraint.is_none());
}

#[test]
fn equal_constraint() {
    let alt = Alternative::parse("pkg2=1.0");
    assert_eq!(alt.pkgname, "pkg2");
    let c = alt.constraint.unwrap();
    assert_eq!(c.operator, Operator::Equal);
    assert_eq!(c.version, "1.0");
}

#[test]
fn first_operator_in_search_order_wins() {
    let alt = Alternative::parse("pkg3>=1.0=1.3");
    assert_eq!(alt.pkgname, "pkg3");
    let c = alt.constraint.unwrap();
    assert_eq!(c.operator, Operator::GreaterOrEqual);
    assert_eq!(c.version, "1.0=1.3");
}

#[test]
fn every_operator_is_told_apart() {
    let cases = [
        ("a<=1", Operator::LessOrEqual),
        ("a>=1", Operator::GreaterOrEqual),
        ("a=1", Operator::Equal),
        ("a<1", Operator::StrictlyLess),
        ("a>1", Operator::StrictlyGreater),
    ];
    for (text, operator) in cases {
        let alt = Alternative::parse(text);
        assert_eq!(alt.pkgname, "a");
        let c = alt.constraint.unwrap();
        assert_eq!(c.operator, operator);
        assert_eq!(c.version, "1");
    }
}

#[test]
fn equality_sign_is_found_before_angle() {
    let alt = Alternative::parse("pkg>1=2");
    assert_eq!(alt.pkgname, "pkg>1");
    let c = alt.constraint.unwrap();
    assert_eq!(c.operator, Operator::Equal);
    assert_eq!(c.version, "2");
}

#[test]
fn doubled_angle_leaves_one_in_the_version() {
    let alt = Alternative::parse("pkg<<3");
    assert_eq!(alt.pkgname, "pkg");
    let c = alt.constraint.unwrap();
    assert_eq!(c.operator, Operator::StrictlyLess);
    assert_eq!(c.version, "<3");
}

#[test]
fn operator_from_text() {
    assert_eq!(Operator::from_text("<="), Operator::LessOrEqual);
    assert_eq!(Operator::from_text(">="), Operator::GreaterOrEqual);
    assert_eq!(Operator::from_text("="), Operator::Equal);
    assert_eq!(Operator::from_text("<"), Operator::StrictlyLess);
    assert_eq!(Operator::from_text(">"), Operator::StrictlyGreater);
}

#[test]
fn expression_is_cut_at_bars() {
    assert_eq!(split_alternatives("pkg1|pkg2>=5"), vec!["pkg1", "pkg2>=5"]);
    assert_eq!(split_alternatives("pkg1"), vec!["pkg1"]);
}

#[test]
fn empty_pieces_are_kept() {
    assert_eq!(split_alternatives(""), vec![""]);
    assert_eq!(split_alternatives("a|"), vec!["a", ""]);
    assert_eq!(split_alternatives("|a||b"), vec!["", "a", "", "b"]);
}

#[test]
fn expression_with_wide_characters() {
    assert_eq!(split_alternatives("é|ü=1"), vec!["é", "ü=1"]);
    let alts = parse_expression("é|ü=1");
    assert_eq!(alts[1].pkgname, "ü");
}

#[test]
fn expression_alternatives_in_order() {
    let alts = parse_expression("pkg3>=1.0|pkg5=5|pkg6");
    assert_eq!(alts.len(), 3);
    assert_eq!(alts[0].pkgname, "pkg3");
    assert_eq!(alts[0].constraint.as_ref().unwrap().operator, Operator::GreaterOrEqual);
    assert_eq!(alts[0].constraint.as_ref().unwrap().version, "1.0");
    assert_eq!(alts[1].pkgname, "pkg5");
    assert_eq!(alts[1].constraint.as_ref().unwrap().operator, Operator::Equal);
    assert_eq!(alts[2].pkgname, "pkg6");
    assert!(alts[2].constraint.is_none());
}
