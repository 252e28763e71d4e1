//! End-to-end scenarios: a cool invoice message ingested twice, then a
//! near-miss product code for the same subscriber.

use ar_bot::batch::Batch;
use ar_bot::email::Email;
use ar_bot::extract::Entry;
use ar_bot::product::Product;

fn message(body: &str, date: &str) -> Email {
    let mut contents = String::from("Date: ");
    contents.push_str(date);
    contents.push_str("\r\n\r\n");
    contents.push_str(body);
    Email::new("scenario.html", &contents).unwrap()
}

const COOL_BODY: &str = "The Cool Invoice For iMIS ID 12345 For the Product COOL_PROD Has Changed\r\nYou need to verify the Autodraft is now correct";
const PROOD_BODY: &str = "The Cool Invoice For iMIS ID 12345 For the Product COOL_PROOD Has Changed\r\nYou need to verify the Autodraft is now correct";

#[test]
fn test_cool_message_twice() {
    let e1 = Entry::from_email(&message(COOL_BODY, "T1")).unwrap();
    assert_eq!(
        e1,
        Entry {
            id: 12345,
            product: Product::Other("COOL_PROD".to_string()),
            time: "T1".to_string(),
        }
    );
    let e2 = Entry::from_email(&message(COOL_BODY, "T2")).unwrap();
    let mut batch = Batch::new();
    batch.add_entry(e1).unwrap();
    batch.add_entry(e2).unwrap();
    let entries = batch.entries_vec();
    assert_eq!(entries.len(), 1);
    assert_eq!(entries[0].id(), 12345);
    let alerts = entries[0].alerts_vec();
    assert_eq!(alerts.len(), 1);
    assert_eq!(alerts[0].0, Product::Other("COOL_PROD".to_string()));
    assert_eq!(alerts[0].1, vec!["T1".to_string(), "T2".to_string()]);
}

#[test]
fn test_near_miss_product_gains_second_key() {
    let mut batch = Batch::new();
    batch
        .add_entry(Entry::from_email(&message(COOL_BODY, "T1")).unwrap())
        .unwrap();
    batch
        .add_entry(Entry::from_email(&message(COOL_BODY, "T2")).unwrap())
        .unwrap();
    batch
        .add_entry(Entry::from_email(&message(PROOD_BODY, "T3")).unwrap())
        .unwrap();
    let entries = batch.entries_vec();
    assert_eq!(entries.len(), 1);
    let alerts = entries[0].alerts_vec();
    assert_eq!(alerts.len(), 2);
    for (p, ts) in alerts {
        if p == Product::Other("COOL_PROD".to_string()) {
            // the first key is unaffected
            assert_eq!(ts, vec!["T1".to_string(), "T2".to_string()]);
        } else {
            assert_eq!(p, Product::Other("COOL_PROOD".to_string()));
            assert_eq!(ts, vec!["T3".to_string()]);
        }
    }
}
