use flow_farm::bounds::{point_from_string, Bounds};
use flow_farm::error::ParseError;

fn rect(left: i32, top: i32, right: i32, bottom: i32) -> Bounds {
    Bounds { left, top, right, bottom }
}

#[test]
fn parses_plain_bounds() {
    assert_eq!(Bounds::from_string("[0,0][99,199]"), Ok(rect(0, 0, 99, 199)));
    assert_eq!(Bounds::from_string("[100,200][300,400]"), Ok(rect(100, 200, 300, 400)));
}

#[test]
fn parses_signed_numbers() {
    assert_eq!(Bounds::from_string("[-5,+7][-0,0012]"), Ok(rect(-5, 7, 0, 12)));
    assert_eq!(
        Bounds::from_string("[-2147483648,2147483647][0,0]"),
        Ok(rect(i32::MIN, i32::MAX, 0, 0))
    );
}

#[test]
fn drops_any_number_of_outer_brackets() {
    assert_eq!(Bounds::from_string("[[[1,2][3,4]]"), Ok(rect(1, 2, 3, 4)));
    assert_eq!(Bounds::from_string("1,2][3,4"), Ok(rect(1, 2, 3, 4)));
}

#[test]
fn rejects_garbage_bounds() {
    assert_eq!(Bounds::from_string("garbage"), Err(ParseError::MalformedBounds));
    assert_eq!(Bounds::from_string(""), Err(ParseError::MalformedBounds));
    assert_eq!(Bounds::from_string("[]"), Err(ParseError::MalformedBounds));
}

#[test]
fn rejects_wrong_group_count() {
    assert_eq!(Bounds::from_string("[1,2]"), Err(ParseError::MalformedBounds));
    assert_eq!(Bounds::from_string("[1,2][3,4][5,6]"), Err(ParseError::MalformedBounds));
}

#[test]
fn rejects_wrong_field_count() {
    assert_eq!(Bounds::from_string("[1,2,3][4,5]"), Err(ParseError::MalformedBounds));
    assert_eq!(Bounds::from_string("[1][4,5]"), Err(ParseError::MalformedBounds));
    assert_eq!(Bounds::from_string("[1,2][4,5,6]"), Err(ParseError::MalformedBounds));
}

#[test]
fn rejects_fields_that_are_no_integers() {
    assert_eq!(Bounds::from_string("[1, 2][3,4]"), Err(ParseError::MalformedBounds));
    assert_eq!(Bounds::from_string("[1,2][3,x]"), Err(ParseError::MalformedBounds));
    assert_eq!(Bounds::from_string("[1,][3,4]"), Err(ParseError::MalformedBounds));
    assert_eq!(Bounds::from_string("[1,2][3,-]"), Err(ParseError::MalformedBounds));
    assert_eq!(Bounds::from_string("[1.5,2][3,4]"), Err(ParseError::MalformedBounds));
}

#[test]
fn rejects_numbers_out_of_range() {
    assert_eq!(Bounds::from_string("[2147483648,0][0,0]"), Err(ParseError::MalformedBounds));
    assert_eq!(Bounds::from_string("[-2147483649,0][0,0]"), Err(ParseError::MalformedBounds));
    assert_eq!(
        Bounds::from_string("[99999999999999999999999999,0][0,0]"),
        Err(ParseError::MalformedBounds)
    );
}

#[test]
fn agrees_with_the_standard_integer_parser() {
    for field in ["0", "-0", "+0", "007", "-12", "+12", "", "+", "-", "1 ", " 1", "١", "1_0", "0x10"] {
        let text = format!("[{},1][2,3]", field);
        let expected = field.parse::<i32>().ok();
        let got = Bounds::from_string(&text).ok().map(|b| b.left);
        assert_eq!(got, expected, "field {:?}", field);
    }
}

#[test]
fn center_truncates_toward_zero() {
    assert_eq!(rect(0, 0, 99, 199).center(), (49, 99));
    assert_eq!(rect(0, 0, 99, 199).center_x(), 49);
    assert_eq!(rect(0, 0, 99, 199).center_y(), 99);
    assert_eq!(rect(-3, -5, 0, 0).center(), (-1, -2));
    assert_eq!(rect(-3, -4, 2, 5).center(), (0, 0));
    assert_eq!(rect(10, 20, 10, 20).center(), (10, 20));
}

#[test]
fn center_does_not_overflow() {
    assert_eq!(rect(i32::MAX, i32::MAX, i32::MAX, i32::MAX).center(), (i32::MAX, i32::MAX));
    assert_eq!(rect(i32::MIN, i32::MIN, i32::MIN, i32::MIN).center(), (i32::MIN, i32::MIN));
    assert_eq!(rect(i32::MIN, 0, i32::MAX, 0).center(), (0, 0));
    assert_eq!(rect(i32::MAX - 1, 0, i32::MAX, 0).center_x(), i32::MAX - 1);
}

#[test]
fn writes_the_text_form() {
    assert_eq!(rect(0, 0, 99, 199).to_string(), "[0,0][99,199]");
    assert_eq!(rect(-1, 20, 300, -4000).to_string(), "[-1,20][300,-4000]");
    assert_eq!(
        rect(i32::MIN, i32::MAX, 0, 10).to_string(),
        "[-2147483648,2147483647][0,10]"
    );
}

#[test]
fn text_form_round_trips() {
    let samples = [
        rect(0, 0, 0, 0),
        rect(0, 0, 1080, 1920),
        rect(-7, -8, -9, -10),
        rect(i32::MIN, i32::MAX, i32::MAX, i32::MIN),
        rect(5, 4, 3, 2),
        rect(10, 100, 1000, 10000),
    ];
    for r in samples {
        assert_eq!(Bounds::from_string(&r.to_string()), Ok(r));
    }
}

#[test]
fn well_formedness_is_about_order_of_edges() {
    assert!(rect(0, 0, 0, 0).is_well_formed());
    assert!(rect(1, 2, 3, 4).is_well_formed());
    assert!(!rect(3, 2, 1, 4).is_well_formed());
    assert!(!rect(1, 4, 3, 2).is_well_formed());
}

#[test]
fn reads_a_point() {
    assert_eq!(point_from_string("540,960"), Some((540, 960)));
    assert_eq!(point_from_string("-1,+2"), Some((-1, 2)));
    assert_eq!(point_from_string("1,2,3"), None);
    assert_eq!(point_from_string("1"), None);
    assert_eq!(point_from_string("1, 2"), None);
    assert_eq!(point_from_string(""), None);
    assert_eq!(point_from_string(","), None);
}
