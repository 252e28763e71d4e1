//! The classification and merge behaviour of the digest, driven through
//! raw fixture messages.

use ar_bot::batch::Batch;
use ar_bot::batch::EntryClass;
use ar_bot::email::Email;
use ar_bot::extract::Entry;
use ar_bot::product::Product;

const TEST_COOL_STR: &str = "The Cool Invoice For iMIS ID 12345 For the Product COOL_PROD Has Changed\r\nYou need to verify the Autodraft is now correct";
const TEST_DIF_ID: &str = "The Cool Invoice For iMIS ID 12346 For the Product COOL_PROD Has Changed\r\nYou need to verify the Autodraft is now correct";
const TEST_DIF_PROD: &str = "The Cool Invoice For iMIS ID 12345 For the Product COOL_PROOD Has Changed\r\nYou need to verify the Autodraft is now correct";
const TEST_DIF_BOTH: &str = "The Cool Invoice For iMIS ID 22345 For the Product COL_PROD Has Changed\r\nYou need to verify the Autodraft is now correct";

fn email_from_str(s: &str) -> Email {
    let mut contents = String::from(
        "From: iMIS <iMIS@jccgb.org>\r\nDate: Sat, 21 Jul 2018 16:39:04 -0400\r\nSent: Saturday, July 21, 2018 4:39 PM\r\nTo: Some People; Whose Names; Are Omitted\r\nSubject: Invoice Charge Change for Super Nifty Autodraft\r\n\r\n",
    );
    contents.push_str(s);
    Email::new("Saturday, July 21, 2018 4:39 PM.html", &contents).unwrap()
}

#[test]
fn test_entry_from_str() {
    assert_eq!(
        Entry::from_email(&email_from_str(TEST_COOL_STR)).unwrap(),
        Entry {
            id: 12345,
            product: Product::Other(String::from("COOL_PROD")),
            time: "Sat, 21 Jul 2018 16:39:04 -0400".to_string(),
        },
    )
}

#[test]
fn test_add_entry_to_empty_batch() {
    // Should create a new BatchEntry
    let mut batch = Batch::new();
    batch
        .add_entry(Entry::from_email(&email_from_str(TEST_COOL_STR)).unwrap())
        .unwrap();
    let test_batch = Batch::test();
    assert_eq!(batch, test_batch)
}

#[test]
fn test_add_entry_new_id() {
    // Should create a second BatchEntry
    let mut batch = Batch::new();
    batch
        .add_entry(Entry::from_email(&email_from_str(TEST_COOL_STR)).unwrap())
        .unwrap();
    batch
        .add_entry(Entry::from_email(&email_from_str(TEST_DIF_BOTH)).unwrap())
        .unwrap();
    let test_batch = Batch::test_second_email_str(TEST_DIF_BOTH);
    assert_eq!(batch, test_batch)
}

#[test]
fn test_add_entry_duplicate_id() {
    let test_time = "Sat, 21 Jul 2018 16:39:04 -0400".to_string();
    // Should add product to existing BatchEntry
    let mut batch = Batch::new();
    batch
        .add_entry(Entry::from_email(&email_from_str(TEST_COOL_STR)).unwrap())
        .unwrap();
    batch
        .add_entry(Entry::from_email(&email_from_str(TEST_DIF_PROD)).unwrap())
        .unwrap();
    let mut test_batch = Batch::new();
    test_batch
        .add_entry(Entry {
            id: 12345,
            product: Product::Other("COOL_PROOD".into()),
            time: test_time.clone(),
        })
        .unwrap();
    test_batch
        .add_entry(Entry {
            id: 12345,
            product: Product::Other("COOL_PROD".into()),
            time: test_time.clone(),
        })
        .unwrap();
    assert_eq!(batch, test_batch)
}

#[test]
fn test_add_entry_duplicate_product() {
    // Make a BatchEntry for a the new ID, it doesnt matter if two products are the same
    let mut batch = Batch::new();
    batch
        .add_entry(Entry::from_email(&email_from_str(TEST_COOL_STR)).unwrap())
        .unwrap();
    batch
        .add_entry(Entry::from_email(&email_from_str(TEST_DIF_ID)).unwrap())
        .unwrap();
    let test_batch = Batch::test_second_email_str(TEST_DIF_ID);
    assert_eq!(batch, test_batch)
}

#[test]
fn test_add_entry_duplicate_id_and_product() {
    // Should just add the time
    let test_time = "Sat, 21 Jul 2018 16:39:04 -0400".to_string();
    let mut batch = Batch::new();
    batch
        .add_entry(Entry::from_email(&email_from_str(TEST_COOL_STR)).unwrap())
        .unwrap();
    batch
        .add_entry(Entry::from_email(&email_from_str(TEST_COOL_STR)).unwrap())
        .unwrap();
    let mut test_batch = Batch::new();
    test_batch
        .add_entry(Entry {
            id: 12345,
            product: Product::Other("COOL_PROD".into()),
            time: test_time.clone(),
        })
        .unwrap();
    test_batch
        .add_entry(Entry {
            id: 12345,
            product: Product::Other("COOL_PROD".into()),
            time: test_time.clone(),
        })
        .unwrap();
    assert_eq!(batch, test_batch)
}

#[test]
fn test_classify_new_entry() {
    let test_batch = Batch::test();
    let test_entry = Entry::from_email(&email_from_str(TEST_DIF_BOTH)).unwrap();
    assert_eq!(test_batch.classify(&test_entry), EntryClass::New)
}

#[test]
fn test_classify_duplicate_id_and_product() {
    let test_batch = Batch::test();
    let test_entry = Entry::from_email(&email_from_str(TEST_COOL_STR)).unwrap();
    assert_eq!(
        test_batch.classify(&test_entry),
        EntryClass::Duplicate((12345, Product::from_str("COOL_PROD").unwrap()))
    )
}

#[test]
fn test_classify_duplicate_id() {
    let test_batch = Batch::test();
    let test_entry = Entry::from_email(&email_from_str(TEST_DIF_PROD)).unwrap();
    assert_eq!(
        test_batch.classify(&test_entry),
        EntryClass::NewProduct(12345)
    )
}

#[test]
fn test_classify_duplicate_prod() {
    let test_batch = Batch::test();
    let test_entry = Entry::from_email(&email_from_str(TEST_DIF_ID)).unwrap();
    assert_eq!(test_batch.classify(&test_entry), EntryClass::New)
}
