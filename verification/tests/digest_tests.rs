//! The digest's merge semantics on constructed records, the read-only
//! traversal, and the smaller configuration and state types.

use ar_bot::batch::Batch;
use ar_bot::batch::BatchEntry;
use ar_bot::brain::Brain;
use ar_bot::brain::Context;
use ar_bot::config::Config;
use ar_bot::config::Directory;
use ar_bot::email::Email;
use ar_bot::extract::Entry;
use ar_bot::product::Product;

fn rec(id: u32, code: &str, time: &str) -> Entry {
    Entry {
        id,
        product: Product::Other(code.to_string()),
        time: time.to_string(),
    }
}

fn times_of(batch: &Batch, id: u32, code: &str) -> Vec<String> {
    for be in batch.entries_vec() {
        if be.id() == id {
            for (p, ts) in be.alerts_vec() {
                if p == Product::Other(code.to_string()) {
                    return ts;
                }
            }
        }
    }
    panic!("no such subscriber/product pair");
}

#[test]
fn test_single_record_single_entry() {
    // One record into an empty digest: one entry, one product, one time.
    let mut b = Batch::new();
    b.add_entry(rec(1, "P", "T1")).unwrap();
    let entries = b.entries_vec();
    assert_eq!(entries.len(), 1);
    assert_eq!(entries[0].id(), 1);
    let alerts = entries[0].alerts_vec();
    assert_eq!(alerts.len(), 1);
    assert_eq!(alerts[0].0, Product::Other("P".to_string()));
    assert_eq!(alerts[0].1, vec!["T1".to_string()]);
}

#[test]
fn test_two_subscribers_two_entries() {
    let mut b = Batch::new();
    b.add_entry(rec(1, "P", "T1")).unwrap();
    b.add_entry(rec(2, "Q", "T2")).unwrap();
    let entries = b.entries_vec();
    assert_eq!(entries.len(), 2);
    for be in &entries {
        let alerts = be.alerts_vec();
        assert_eq!(alerts.len(), 1);
        if be.id() == 1 {
            assert_eq!(alerts[0].0, Product::Other("P".to_string()));
            assert_eq!(alerts[0].1, vec!["T1".to_string()]);
        } else {
            assert_eq!(be.id(), 2);
            assert_eq!(alerts[0].0, Product::Other("Q".to_string()));
            assert_eq!(alerts[0].1, vec!["T2".to_string()]);
        }
    }
}

#[test]
fn test_same_subscriber_new_product() {
    let mut b = Batch::new();
    b.add_entry(rec(1, "P", "T1")).unwrap();
    b.add_entry(rec(1, "Q", "T2")).unwrap();
    let entries = b.entries_vec();
    assert_eq!(entries.len(), 1);
    assert_eq!(entries[0].alerts_vec().len(), 2);
    assert_eq!(times_of(&b, 1, "P"), vec!["T1".to_string()]);
    assert_eq!(times_of(&b, 1, "Q"), vec!["T2".to_string()]);
}

#[test]
fn test_duplicate_appends_time_in_order() {
    let mut b = Batch::new();
    b.add_entry(rec(1, "P", "T1")).unwrap();
    b.add_entry(rec(1, "P", "T2")).unwrap();
    let entries = b.entries_vec();
    assert_eq!(entries.len(), 1);
    assert_eq!(entries[0].alerts_vec().len(), 1);
    assert_eq!(
        times_of(&b, 1, "P"),
        vec!["T1".to_string(), "T2".to_string()]
    );
}

#[test]
fn test_duplicate_identical_instants_kept() {
    // Repeated identical instants stay as distinct list entries.
    let mut b = Batch::new();
    b.add_entry(rec(1, "P", "T")).unwrap();
    b.add_entry(rec(1, "P", "T")).unwrap();
    assert_eq!(times_of(&b, 1, "P"), vec!["T".to_string(), "T".to_string()]);
}

#[test]
fn test_batch_equality_ignores_product_order() {
    let mut a = Batch::new();
    a.add_entry(rec(1, "P", "T1")).unwrap();
    a.add_entry(rec(1, "Q", "T2")).unwrap();
    let mut b = Batch::new();
    b.add_entry(rec(1, "Q", "T2")).unwrap();
    b.add_entry(rec(1, "P", "T1")).unwrap();
    assert_eq!(a, b);
}

#[test]
fn test_batch_equality_ignores_subscriber_order() {
    let mut a = Batch::new();
    a.add_entry(rec(1, "P", "T1")).unwrap();
    a.add_entry(rec(2, "Q", "T2")).unwrap();
    let mut b = Batch::new();
    b.add_entry(rec(2, "Q", "T2")).unwrap();
    b.add_entry(rec(1, "P", "T1")).unwrap();
    assert_eq!(a, b);
}

#[test]
fn test_batch_inequality() {
    let mut a = Batch::new();
    a.add_entry(rec(1, "P", "T1")).unwrap();
    let mut b = Batch::new();
    b.add_entry(rec(1, "P", "T2")).unwrap();
    assert_ne!(a, b);
    let mut c = Batch::new();
    c.add_entry(rec(2, "P", "T1")).unwrap();
    assert_ne!(a, c);
    assert_ne!(a, Batch::new());
}

#[test]
fn test_times_do_not_leak_across_products() {
    let mut b = Batch::new();
    b.add_entry(rec(1, "P", "T1")).unwrap();
    b.add_entry(rec(1, "Q", "T2")).unwrap();
    b.add_entry(rec(1, "P", "T3")).unwrap();
    assert_eq!(
        times_of(&b, 1, "P"),
        vec!["T1".to_string(), "T3".to_string()]
    );
    assert_eq!(times_of(&b, 1, "Q"), vec!["T2".to_string()]);
}

#[test]
fn test_batch_entry_from_record() {
    let be = BatchEntry::from(rec(9, "P", "T"));
    assert_eq!(be.id(), 9);
    let alerts = be.alerts_vec();
    assert_eq!(alerts.len(), 1);
    assert_eq!(alerts[0].0, Product::Other("P".to_string()));
    assert_eq!(alerts[0].1, vec!["T".to_string()]);
}

#[test]
fn test_from_brain_skips_failures() {
    let good1 = "Date: T1\r\n\r\nThe Cool Invoice For iMIS ID 1 For the Product P Has Changed\r\nYou need to verify the Autodraft is now correct";
    let bad = "no date, no template";
    let good2 = "Date: T2\r\n\r\nThe Cool Invoice For iMIS ID 1 For the Product P Has Changed\r\nYou need to verify the Autodraft is now correct";
    let mut brain = Brain::new();
    brain.emails.push(Email::new("a", good1).unwrap());
    brain.emails.push(Email::new("b", bad).unwrap());
    brain.emails.push(Email::new("c", good2).unwrap());
    let batch = Batch::from_brain(&brain).unwrap();
    assert_eq!(
        times_of(&batch, 1, "P"),
        vec!["T1".to_string(), "T2".to_string()]
    );
    assert_eq!(batch.entries_vec().len(), 1);
}

#[test]
fn test_from_brain_empty() {
    let brain = Brain::new();
    let batch = Batch::from_brain(&brain).unwrap();
    assert_eq!(batch, Batch::new());
}

#[test]
fn test_brain_new_is_empty() {
    assert_eq!(Brain::new().emails.len(), 0);
}

#[test]
fn test_context_initialize() {
    let ctx = Context::initialize(Config::default()).unwrap();
    assert_eq!(ctx.brain.emails.len(), 0);
    assert_eq!(ctx.config, Config::default());
}

#[test]
fn test_hx_path_joins() {
    let mut ctx = Context::initialize(Config::default()).unwrap();
    assert_eq!(ctx.hx_path(), "./brain/hx".to_string());
    ctx.config.directory.path = "./storage".to_string();
    assert_eq!(ctx.hx_path(), "./storage/hx".to_string());
}

#[test]
fn test_config_default_values() {
    let c = Config::default();
    assert_eq!(c.config_path, Some("Bot.toml".to_string()));
    assert_eq!(
        c.directory,
        Directory {
            compressed: false,
            path: "./brain/".to_string(),
        }
    );
}

#[test]
fn test_config_add_config_path() {
    let mut c = Config::default();
    c.add_config_path("Alternate.toml").unwrap();
    assert_eq!(c.config_path, Some("Alternate.toml".to_string()));
    assert_eq!(c.directory, Config::default().directory);
}
