//! The record extractor: reads one raw message into a structured record
//! `{subscriber id, product, timestamp}`, or reports why it cannot.
//!
//! The recognized body shape is the fixed sentence template
//! `The <word> Invoice For iMIS ID <digits> For the Product <token> Has
//! Changed`, followed on the next line by `You need to verify the Autodraft
//! is now correct`; only the digits and the product-code token vary. The
//! timestamp is the value of a `Date:` header line in the same message.

use vstd::prelude::*;
use vstd::string::*;
use crate::errors::ExtractError;
use crate::product::Product;
use crate::product::ProductView;
use crate::product::product_of_token;
use crate::product::is_known_code;
use crate::email::Email;
use crate::text::starts_with_at;
use crate::text::find_from;
use crate::text::find_in;
use crate::text::match_at;
use crate::text::str_to_chars;
use crate::text::word_run_len;
use crate::text::digit_run_len;
use crate::text::space_run_len;
use crate::text::word_run_at;
use crate::text::digit_run_at;
use crate::text::space_run_at;
use crate::text::digits_val;
use crate::text::parse_digits;
use crate::text::lemma_digit_run_chars;

verus! {

/// One parsed occurrence: who was alerted, about what, and when.
#[derive(Debug, PartialEq)]
pub struct Entry {
    pub id: u32,
    pub product: Product,
    pub time: String,
}

/// Mathematical value of an `Entry`.
pub struct EntryView {
    pub id: u32,
    pub product: ProductView,
    pub time: Seq<char>,
}

impl View for Entry {
    type V = EntryView;

    open spec fn view(&self) -> EntryView {
        EntryView { id: self.id, product: self.product@, time: self.time@ }
    }
}

/// Position `i` begins a line: the start of the text, or right after a CRLF.
pub open spec fn is_line_start(s: Seq<char>, i: int) -> bool {
    i == 0 || (i >= 2 && s[i - 2] == '\r' && s[i - 1] == '\n')
}

/// A `Date:` header label occurs at the start of the line at position `i`.
pub open spec fn date_hdr_at(s: Seq<char>, i: int) -> bool {
    starts_with_at(s, "Date:"@, i) && is_line_start(s, i)
}

/// The first position at or after `from` where a `Date:` header line begins.
pub open spec fn find_date_hdr(s: Seq<char>, from: int) -> Option<int>
    decreases s.len() - from,
{
    if from < 0 || from >= s.len() {
        None
    } else if date_hdr_at(s, from) {
        Some(from)
    } else {
        find_date_hdr(s, from + 1)
    }
}

/// The send date carried by the message: the text of the first `Date:`
/// header line, spaces after the label skipped, up to the closing CRLF.
/// `None` when there is no such line or the date text is empty.
pub open spec fn find_date(s: Seq<char>) -> Option<Seq<char>> {
    match find_date_hdr(s, 0) {
        None => None,
        Some(p) => {
            let q = p + "Date:"@.len() + space_run_len(s, p + "Date:"@.len());
            match find_from(s, "\r\n"@, q) {
                None => None,
                Some(r) => if r == q {
                    None
                } else {
                    Some(s.subrange(q, r))
                },
            }
        },
    }
}

/// The body of the message: everything after the first blank line.
pub open spec fn body_of(s: Seq<char>) -> Option<Seq<char>> {
    match find_from(s, "\r\n\r\n"@, 0) {
        None => None,
        Some(b) => Some(s.subrange(b + "\r\n\r\n"@.len(), s.len() as int)),
    }
}

/// Parses a body against the fixed sentence template. Yields the subscriber
/// id digits and the product-code token, reading each variable segment as the
/// longest possible run, as the pattern demands.
pub open spec fn template_parse(body: Seq<char>) -> Option<(Seq<char>, Seq<char>)> {
    if !starts_with_at(body, "The "@, 0) {
        None
    } else {
        let p1 = "The "@.len() as int;
        let w1 = word_run_len(body, p1);
        if w1 == 0 {
            None
        } else {
            let p2 = p1 + w1;
            if !starts_with_at(body, " Invoice For iMIS ID "@, p2) {
                None
            } else {
                let p3 = p2 + " Invoice For iMIS ID "@.len();
                let d = digit_run_len(body, p3);
                if d == 0 {
                    None
                } else {
                    let p4 = p3 + d;
                    if !starts_with_at(body, " For the Product "@, p4) {
                        None
                    } else {
                        let p5 = p4 + " For the Product "@.len();
                        let w2 = word_run_len(body, p5);
                        if w2 == 0 {
                            None
                        } else {
                            let p6 = p5 + w2;
                            if !starts_with_at(
                                body,
                                " Has Changed\r\nYou need to verify the Autodraft is now correct"@,
                                p6,
                            ) {
                                None
                            } else {
                                Some((body.subrange(p3, p4), body.subrange(p5, p6)))
                            }
                        }
                    }
                }
            }
        }
    }
}

/// The product-code token of the message, when its body matches the template.
pub open spec fn parsed_token(s: Seq<char>) -> Option<Seq<char>> {
    match body_of(s) {
        None => None,
        Some(body) => match template_parse(body) {
            None => None,
            Some(dt) => Some(dt.1),
        },
    }
}

/// What extracting a raw text yields: the record, or the first failure in
/// the order checked (missing date, unmatched pattern, oversized id).
pub open spec fn extract_spec(s: Seq<char>) -> Result<EntryView, ExtractError> {
    match find_date(s) {
        None => Err(ExtractError::MissingTimestamp),
        Some(date) => match body_of(s) {
            None => Err(ExtractError::NoMatch),
            Some(body) => match template_parse(body) {
                None => Err(ExtractError::NoMatch),
                Some(dt) => if digits_val(dt.0) > u32::MAX {
                    Err(ExtractError::MalformedId)
                } else {
                    Ok(
                        EntryView {
                            id: digits_val(dt.0) as u32,
                            product: product_of_token(dt.1),
                            time: date,
                        },
                    )
                },
            },
        },
    }
}

/// A successfully extracted record whose product token is not in the known
/// table carries the token verbatim in the fallback product.
pub proof fn lemma_extract_keeps_unknown_token(s: Seq<char>, en: EntryView, tok: Seq<char>)
    requires
        extract_spec(s) == Ok::<EntryView, ExtractError>(en),
        parsed_token(s) == Some(tok),
        !is_known_code(tok),
    ensures
        en.product == ProductView::Other(tok),
{
}

/// Finds the first `Date:` header line.
fn find_hdr_exec(v: &Vec<char>) -> (r: Option<usize>)
    ensures
        match r {
            Some(p) => find_date_hdr(v@, 0) == Some(p as int) && p < v@.len() && date_hdr_at(
                v@,
                p as int,
            ),
            None => find_date_hdr(v@, 0) is None,
        },
{
    let lab = str_to_chars("Date:");
    let n = v.len();
    let mut i: usize = 0;
    while i < n
        invariant
            i <= n,
            n == v@.len(),
            lab@ == "Date:"@,
            find_date_hdr(v@, 0) == find_date_hdr(v@, i as int),
        decreases n - i,
    {
        let fits = lab.len() <= n - i;
        let m = if fits {
            match_at(v, &lab, i)
        } else {
            false
        };
        let ls = if i == 0 {
            true
        } else {
            i >= 2 && v[i - 2] == '\r' && v[i - 1] == '\n'
        };
        if m && ls {
            return Some(i);
        }
        proof {
            assert(!date_hdr_at(v@, i as int));
        }
        i = i + 1;
    }
    None
}

/// Finds the date text of the message: start and end position in `v`.
fn find_date_exec(v: &Vec<char>) -> (r: Option<(usize, usize)>)
    ensures
        match r {
            Some(qr) => qr.0 <= qr.1 <= v@.len() && find_date(v@) == Some(
                v@.subrange(qr.0 as int, qr.1 as int),
            ),
            None => find_date(v@) is None,
        },
{
    let lab = str_to_chars("Date:");
    let n = v.len();
    proof {
        assert(lab@ == "Date:"@);
    }
    match find_hdr_exec(v) {
        None => None,
        Some(p) => {
            proof {
                assert(p + lab@.len() <= n);
            }
            let q0 = p + lab.len();
            let sp = space_run_at(v, q0);
            let q = q0 + sp;
            let crlf = str_to_chars("\r\n");
            match find_in(v, &crlf, q) {
                None => None,
                Some(r) => if r == q {
                    None
                } else {
                    Some((q, r))
                },
            }
        },
    }
}

/// Copies the character range `v[from .. to]`.
fn sub_chars(v: &Vec<char>, from: usize, to: usize) -> (r: Vec<char>)
    requires
        from <= to <= v@.len(),
    ensures
        r@ == v@.subrange(from as int, to as int),
{
    let mut r: Vec<char> = Vec::new();
    let mut i: usize = from;
    while i < to
        invariant
            from <= i <= to <= v@.len(),
            r@ == v@.subrange(from as int, i as int),
        decreases to - i,
    {
        r.push(v[i]);
        i = i + 1;
        proof {
            assert(r@ =~= v@.subrange(from as int, i as int));
        }
    }
    r
}

/// Matches a body against the template; returns the positions of the id
/// digits and of the product token.
fn template_parse_exec(bv: &Vec<char>) -> (r: Option<(usize, usize, usize, usize)>)
    ensures
        match r {
            Some(t) => t.0 <= t.1 <= bv@.len() && t.2 <= t.3 <= bv@.len() && digit_run_len(
                bv@,
                t.0 as int,
            ) == t.1 - t.0 && template_parse(bv@) == Some(
                (bv@.subrange(t.0 as int, t.1 as int), bv@.subrange(t.2 as int, t.3 as int)),
            ),
            None => template_parse(bv@) is None,
        },
{
    let lit_the = str_to_chars("The ");
    let lit_inv = str_to_chars(" Invoice For iMIS ID ");
    let lit_prod = str_to_chars(" For the Product ");
    let lit_tail = str_to_chars(" Has Changed\r\nYou need to verify the Autodraft is now correct");
    let n = bv.len();
    if lit_the.len() > n {
        return None;
    }
    if !match_at(bv, &lit_the, 0) {
        return None;
    }
    let p1 = lit_the.len();
    let w1 = word_run_at(bv, p1);
    if w1 == 0 {
        return None;
    }
    let p2 = p1 + w1;
    if lit_inv.len() > n - p2 {
        return None;
    }
    if !match_at(bv, &lit_inv, p2) {
        return None;
    }
    let p3 = p2 + lit_inv.len();
    let d = digit_run_at(bv, p3);
    if d == 0 {
        return None;
    }
    let p4 = p3 + d;
    if lit_prod.len() > n - p4 {
        return None;
    }
    if !match_at(bv, &lit_prod, p4) {
        return None;
    }
    let p5 = p4 + lit_prod.len();
    let w2 = word_run_at(bv, p5);
    if w2 == 0 {
        return None;
    }
    let p6 = p5 + w2;
    if lit_tail.len() > n - p6 {
        return None;
    }
    if !match_at(bv, &lit_tail, p6) {
        return None;
    }
    Some((p3, p4, p5, p6))
}

impl Entry {
    /// Extracts the record a raw message carries: the subscriber id and
    /// product-code token of its body, and the send date of its `Date:`
    /// header. Pure over the message text; fails exactly as
    /// [`extract_spec`] says.
    pub fn from_email(e: &Email) -> (r: Result<Entry, ExtractError>)
        ensures
            match r {
                Ok(en) => extract_spec(e.contents@) == Ok::<EntryView, ExtractError>(en@),
                Err(err) => extract_spec(e.contents@) == Err::<EntryView, ExtractError>(err),
            },
    {
        let s = e.contents.as_str();
        let v = str_to_chars(s);
        let (dq, dr) = match find_date_exec(&v) {
            None => {
                return Err(ExtractError::MissingTimestamp);
            },
            Some(qr) => qr,
        };
        let time = String::from_str(s.substring_char(dq, dr));
        let sep = str_to_chars("\r\n\r\n");
        let b = match find_in(&v, &sep, 0) {
            None => {
                return Err(ExtractError::NoMatch);
            },
            Some(b) => b,
        };
        proof {
            assert(b + sep@.len() <= v.len());
        }
        let bs = b + sep.len();
        let bv = sub_chars(&v, bs, v.len());
        let (p3, p4, p5, p6) = match template_parse_exec(&bv) {
            None => {
                return Err(ExtractError::NoMatch);
            },
            Some(t) => t,
        };
        proof {
            lemma_digit_run_chars(bv@, p3 as int);
        }
        let id = match parse_digits(&bv, p3, p4 - p3) {
            None => {
                proof {
                    assert(bv@.subrange(p3 as int, p3 + (p4 - p3)) =~= bv@.subrange(
                        p3 as int,
                        p4 as int,
                    ));
                }
                return Err(ExtractError::MalformedId);
            },
            Some(x) => x,
        };
        let tok = s.substring_char(bs + p5, bs + p6);
        proof {
            assert(s@.subrange(bs + p5, bs + p6) =~= bv@.subrange(p5 as int, p6 as int));
            assert(bv@.subrange(p3 as int, p3 + (p4 - p3)) =~= bv@.subrange(p3 as int, p4 as int));
        }
        let product = match Product::from_str(tok) {
            Ok(p) => p,
            Err(_) => {
                return Err(ExtractError::NoMatch);
            },
        };
        Ok(Entry { id, product, time })
    }
}

} // verus!
