//! The product being alerted on: a closed set of known billing codes, with a
//! fallback that carries an unrecognized code verbatim.

use vstd::prelude::*;
use vstd::string::*;
use crate::errors::ExtractError;
use crate::text::str_to_chars;
use crate::text::chars_eq;

verus! {

/// What is being alerted on. Each known billing code has its own tag; any
/// other code is kept verbatim in `Other`.
#[derive(Debug)]
pub enum Product {
    CgBilling,
    CgTrans,
    CampKaleTuit,
    CampKaleTrans,
    CampKingTuit,
    CampKingTrans,
    Other(String),
}

/// Mathematical value of a `Product`: the fallback code as a character
/// sequence.
pub enum ProductView {
    CgBilling,
    CgTrans,
    CampKaleTuit,
    CampKaleTrans,
    CampKingTuit,
    CampKingTrans,
    Other(Seq<char>),
}

impl View for Product {
    type V = ProductView;

    open spec fn view(&self) -> ProductView {
        match self {
            Product::CgBilling => ProductView::CgBilling,
            Product::CgTrans => ProductView::CgTrans,
            Product::CampKaleTuit => ProductView::CampKaleTuit,
            Product::CampKaleTrans => ProductView::CampKaleTrans,
            Product::CampKingTuit => ProductView::CampKingTuit,
            Product::CampKingTrans => ProductView::CampKingTrans,
            Product::Other(s) => ProductView::Other(s@),
        }
    }
}

/// The token is one of the known billing codes.
pub open spec fn is_known_code(t: Seq<char>) -> bool {
    ||| t == "CG_TUITION"@
    ||| t == "CG_TRANS"@
    ||| t == "CAMP_KALE_TUIT"@
    ||| t == "CAMP_KALE_TRANS"@
    ||| t == "CAMP_KING_TUIT"@
    ||| t == "CAMP_KING_TRANS"@
}

/// The product denoted by a code token: the matching known tag, or the
/// fallback carrying the token itself.
pub open spec fn product_of_token(t: Seq<char>) -> ProductView {
    if t == "CG_TUITION"@ {
        ProductView::CgBilling
    } else if t == "CG_TRANS"@ {
        ProductView::CgTrans
    } else if t == "CAMP_KALE_TUIT"@ {
        ProductView::CampKaleTuit
    } else if t == "CAMP_KALE_TRANS"@ {
        ProductView::CampKaleTrans
    } else if t == "CAMP_KING_TUIT"@ {
        ProductView::CampKingTuit
    } else if t == "CAMP_KING_TRANS"@ {
        ProductView::CampKingTrans
    } else {
        ProductView::Other(t)
    }
}

/// A token that is not in the known table maps to the fallback product
/// carrying exactly that token.
pub proof fn lemma_unknown_product_round_trip(t: Seq<char>)
    requires
        !is_known_code(t),
    ensures
        product_of_token(t) == ProductView::Other(t),
{
}

impl Product {
    /// Looks a code token up in the known table; never fails, since an
    /// unknown token becomes the fallback product.
    pub fn from_str(s: &str) -> (r: Result<Product, ExtractError>)
        ensures
            r matches Ok(p) && p@ == product_of_token(s@),
    {
        let cs = str_to_chars(s);
        if chars_eq(&cs, &str_to_chars("CG_TUITION")) {
            Ok(Product::CgBilling)
        } else if chars_eq(&cs, &str_to_chars("CG_TRANS")) {
            Ok(Product::CgTrans)
        } else if chars_eq(&cs, &str_to_chars("CAMP_KALE_TUIT")) {
            Ok(Product::CampKaleTuit)
        } else if chars_eq(&cs, &str_to_chars("CAMP_KALE_TRANS")) {
            Ok(Product::CampKaleTrans)
        } else if chars_eq(&cs, &str_to_chars("CAMP_KING_TUIT")) {
            Ok(Product::CampKingTuit)
        } else if chars_eq(&cs, &str_to_chars("CAMP_KING_TRANS")) {
            Ok(Product::CampKingTrans)
        } else {
            Ok(Product::Other(s.to_owned()))
        }
    }

    /// The human-readable name of the product, as the digest renders it.
    pub fn display_name(&self) -> (r: String)
        ensures
            r@ == product_display(self@),
    {
        match self {
            Product::CgBilling => "Grossman Tuition".to_owned(),
            Product::CgTrans => "Grossman Tranportation".to_owned(),
            Product::CampKaleTuit => "Kaleidoscope Tuition".to_owned(),
            Product::CampKaleTrans => "Kaleidoscope Transportation".to_owned(),
            Product::CampKingTuit => "Kingswood Tuition".to_owned(),
            Product::CampKingTrans => "Kingswood Transportation".to_owned(),
            Product::Other(s) => {
                let mut r = "Non-builtin product ".to_owned();
                r.append(s.as_str());
                r
            },
        }
    }
}

/// The rendered name of a product.
pub open spec fn product_display(p: ProductView) -> Seq<char> {
    match p {
        ProductView::CgBilling => "Grossman Tuition"@,
        ProductView::CgTrans => "Grossman Tranportation"@,
        ProductView::CampKaleTuit => "Kaleidoscope Tuition"@,
        ProductView::CampKaleTrans => "Kaleidoscope Transportation"@,
        ProductView::CampKingTuit => "Kingswood Tuition"@,
        ProductView::CampKingTrans => "Kingswood Transportation"@,
        ProductView::Other(s) => "Non-builtin product "@ + s,
    }
}

impl PartialEq for Product {
    /// Products are equal when they carry the same tag; two fallback values
    /// are equal exactly when their carried codes are equal.
    fn eq(&self, other: &Product) -> (r: bool) {
        match self {
            Product::CgBilling => matches!(other, Product::CgBilling),
            Product::CgTrans => matches!(other, Product::CgTrans),
            Product::CampKaleTuit => matches!(other, Product::CampKaleTuit),
            Product::CampKaleTrans => matches!(other, Product::CampKaleTrans),
            Product::CampKingTuit => matches!(other, Product::CampKingTuit),
            Product::CampKingTrans => matches!(other, Product::CampKingTrans),
            Product::Other(a) => match other {
                Product::Other(b) => String::eq(a, b),
                _ => false,
            },
        }
    }
}

impl vstd::std_specs::cmp::PartialEqSpecImpl for Product {
    open spec fn obeys_eq_spec() -> bool {
        true
    }

    open spec fn eq_spec(&self, other: &Product) -> bool {
        self@ == other@
    }
}

impl Clone for Product {
    /// A clone carries the same tag and, for the fallback, an equal code.
    fn clone(&self) -> (r: Self)
        ensures
            r == *self,
    {
        match self {
            Product::CgBilling => Product::CgBilling,
            Product::CgTrans => Product::CgTrans,
            Product::CampKaleTuit => Product::CampKaleTuit,
            Product::CampKaleTrans => Product::CampKaleTrans,
            Product::CampKingTuit => Product::CampKingTuit,
            Product::CampKingTrans => Product::CampKingTrans,
            Product::Other(s) => Product::Other(s.clone()),
        }
    }
}

} // verus!
