//! The extractor: the sentence template, the date header, the product
//! table, and each failure condition.

use ar_bot::email::split_emails;
use ar_bot::email::Email;
use ar_bot::errors::ExtractError;
use ar_bot::extract::Entry;
use ar_bot::product::Product;

fn email(contents: &str) -> Email {
    Email::new("fixture.html", contents).unwrap()
}

fn with_date(date: &str, body: &str) -> Email {
    let mut contents = String::from("Date: ");
    contents.push_str(date);
    contents.push_str("\r\n\r\n");
    contents.push_str(body);
    email(&contents)
}

const COOL_BODY: &str = "The Cool Invoice For iMIS ID 12345 For the Product COOL_PROD Has Changed\r\nYou need to verify the Autodraft is now correct";

#[test]
fn test_extract_cool_message() {
    let e = Entry::from_email(&with_date("Sat, 21 Jul 2018 16:39:04 -0400", COOL_BODY)).unwrap();
    assert_eq!(e.id, 12345);
    assert_eq!(e.product, Product::Other("COOL_PROD".to_string()));
    assert_eq!(e.time, "Sat, 21 Jul 2018 16:39:04 -0400".to_string());
}

#[test]
fn test_extract_missing_date_header() {
    let e = email("From: iMIS <iMIS@jccgb.org>\r\n\r\nThe Cool Invoice For iMIS ID 1 For the Product X Has Changed\r\nYou need to verify the Autodraft is now correct");
    assert_eq!(
        Entry::from_email(&e).unwrap_err(),
        ExtractError::MissingTimestamp
    );
}

#[test]
fn test_extract_empty_date() {
    let e = email("Date:   \r\n\r\nwhatever");
    assert_eq!(
        Entry::from_email(&e).unwrap_err(),
        ExtractError::MissingTimestamp
    );
}

#[test]
fn test_extract_date_skips_spaces() {
    let e = with_date("  Sat, 21 Jul 2018 16:39:04 -0400", COOL_BODY);
    assert_eq!(
        Entry::from_email(&e).unwrap().time,
        "Sat, 21 Jul 2018 16:39:04 -0400".to_string()
    );
}

#[test]
fn test_extract_date_not_at_line_start_ignored() {
    // "Date:" buried inside another header line does not count.
    let e = email("X-Note: see Date: nowhere\r\n\r\nbody");
    assert_eq!(
        Entry::from_email(&e).unwrap_err(),
        ExtractError::MissingTimestamp
    );
}

#[test]
fn test_extract_no_match() {
    let e = with_date("T1", "An unrelated message body");
    assert_eq!(Entry::from_email(&e).unwrap_err(), ExtractError::NoMatch);
}

#[test]
fn test_extract_no_body_separator() {
    // A date line but never a blank line: there is no body to match.
    let e = email("Date: T1\r\nThe Cool Invoice For iMIS ID 1 For the Product X Has Changed");
    assert_eq!(Entry::from_email(&e).unwrap_err(), ExtractError::NoMatch);
}

#[test]
fn test_extract_body_needs_full_template() {
    let e = with_date(
        "T1",
        "The Cool Invoice For iMIS ID 12345 For the Product COOL_PROD Has Changed\r\nsomething else entirely",
    );
    assert_eq!(Entry::from_email(&e).unwrap_err(), ExtractError::NoMatch);
}

#[test]
fn test_extract_trailing_text_allowed() {
    let mut body = String::from(COOL_BODY);
    body.push_str(" -- and some trailing text after the template");
    let e = with_date("T1", &body);
    assert_eq!(Entry::from_email(&e).unwrap().id, 12345);
}

#[test]
fn test_extract_malformed_id() {
    let e = with_date(
        "T1",
        "The Cool Invoice For iMIS ID 99999999999 For the Product COOL_PROD Has Changed\r\nYou need to verify the Autodraft is now correct",
    );
    assert_eq!(
        Entry::from_email(&e).unwrap_err(),
        ExtractError::MalformedId
    );
}

#[test]
fn test_extract_id_bounds() {
    let ok = with_date(
        "T1",
        "The Cool Invoice For iMIS ID 4294967295 For the Product P Has Changed\r\nYou need to verify the Autodraft is now correct",
    );
    assert_eq!(Entry::from_email(&ok).unwrap().id, 4294967295);
    let over = with_date(
        "T1",
        "The Cool Invoice For iMIS ID 4294967296 For the Product P Has Changed\r\nYou need to verify the Autodraft is now correct",
    );
    assert_eq!(
        Entry::from_email(&over).unwrap_err(),
        ExtractError::MalformedId
    );
}

#[test]
fn test_extract_token_with_digits_and_underscores() {
    let e = with_date(
        "T1",
        "The Nifty Invoice For iMIS ID 7 For the Product CAMP_2024_x Has Changed\r\nYou need to verify the Autodraft is now correct",
    );
    assert_eq!(
        Entry::from_email(&e).unwrap().product,
        Product::Other("CAMP_2024_x".to_string())
    );
}

#[test]
fn test_unknown_product_round_trip() {
    // A token missing from the known table comes back verbatim.
    assert_eq!(
        Product::from_str("COOL_PROD").unwrap(),
        Product::Other("COOL_PROD".to_string())
    );
    assert_eq!(
        Product::from_str("").unwrap(),
        Product::Other("".to_string())
    );
}

#[test]
fn test_known_product_codes() {
    assert_eq!(Product::from_str("CG_TUITION").unwrap(), Product::CgBilling);
    assert_eq!(Product::from_str("CG_TRANS").unwrap(), Product::CgTrans);
    assert_eq!(
        Product::from_str("CAMP_KALE_TUIT").unwrap(),
        Product::CampKaleTuit
    );
    assert_eq!(
        Product::from_str("CAMP_KALE_TRANS").unwrap(),
        Product::CampKaleTrans
    );
    assert_eq!(
        Product::from_str("CAMP_KING_TUIT").unwrap(),
        Product::CampKingTuit
    );
    assert_eq!(
        Product::from_str("CAMP_KING_TRANS").unwrap(),
        Product::CampKingTrans
    );
}

#[test]
fn test_known_code_in_message() {
    let e = with_date(
        "T1",
        "The Cool Invoice For iMIS ID 5 For the Product CG_TUITION Has Changed\r\nYou need to verify the Autodraft is now correct",
    );
    assert_eq!(Entry::from_email(&e).unwrap().product, Product::CgBilling);
}

#[test]
fn test_product_display_names() {
    assert_eq!(Product::CgBilling.display_name(), "Grossman Tuition");
    assert_eq!(Product::CgTrans.display_name(), "Grossman Tranportation");
    assert_eq!(
        Product::CampKaleTuit.display_name(),
        "Kaleidoscope Tuition"
    );
    assert_eq!(
        Product::CampKaleTrans.display_name(),
        "Kaleidoscope Transportation"
    );
    assert_eq!(Product::CampKingTuit.display_name(), "Kingswood Tuition");
    assert_eq!(
        Product::CampKingTrans.display_name(),
        "Kingswood Transportation"
    );
    assert_eq!(
        Product::Other("COOL_PROD".to_string()).display_name(),
        "Non-builtin product COOL_PROD"
    );
}

#[test]
fn test_product_equality() {
    assert_eq!(
        Product::Other("A".to_string()),
        Product::Other("A".to_string())
    );
    assert_ne!(
        Product::Other("A".to_string()),
        Product::Other("B".to_string())
    );
    assert_ne!(Product::CgBilling, Product::CgTrans);
    assert_ne!(Product::CgBilling, Product::Other("CG_TUITION".to_string()));
}

#[test]
fn test_error_descriptions() {
    assert_eq!(ExtractError::NoMatch.describe(), "Couldn't match Regex");
    assert_eq!(
        ExtractError::MalformedId.describe(),
        "Could not read iMIS id"
    );
    assert_eq!(
        ExtractError::MissingTimestamp.describe(),
        "No usable date found"
    );
}

#[test]
fn test_split_emails_single() {
    let parts = split_emails("one whole file");
    assert_eq!(parts.len(), 1);
    assert_eq!(parts[0], "one whole file".to_string());
}

#[test]
fn test_email_new_keeps_fields() {
    let e = Email::new("name.html", "the contents").unwrap();
    assert_eq!(e.filename, "name.html".to_string());
    assert_eq!(e.contents, "the contents".to_string());
}
