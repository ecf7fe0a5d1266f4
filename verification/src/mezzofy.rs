//! The shapes the coupon vendor speaks in — the issue/commit flow's bodies
//! and results — and what the ledger reads out of them.

use vstd::prelude::*;

verus! {

/// The body committing an issued coupon transaction at the vendor.
pub struct CouponIssueCommit<'a> {
    pub delivery_method: &'a str,
    pub lang: &'a str,
    pub coupon_delivery_type: &'a str,
    pub payment_name: Option<&'a str>,
    pub pay_receipt: Option<&'a str>,
    pub purchase_receipt: &'a str,
    pub receipt_template_id: &'a str,
    pub template_id: &'a str,
    pub transaction_gateway: &'a str,
    pub transaction_amount: &'a str,
    pub transaction_note: &'a str,
    pub reference_no: Option<&'a str>,
    pub issue_reference: Option<&'a str>,
    pub transaction_ref_no: Option<&'a str>,
    pub processed_by: Option<&'a str>,
}

/// What a commit returns: the customer's coupons, serial included.
pub struct CouponIssueCommitResult {
    pub customer_coupons: Vec<CustomerCoupons>,
}

pub struct CustomerCoupons {
    pub customer_coupon: CustomerCoupon,
}

pub struct CustomerCoupon {
    pub coupon_serial: String,
}

/// A coupon serial's redemption url.
pub struct Serial {
    pub single_serial_url: String,
}

pub struct CouponSerial {
    pub serial: Serial,
}

/// What a serial lookup returns.
pub struct CouponSerialResult {
    pub couponserial: CouponSerial,
}

/// The serial the commit flow records: the first coupon of the vendor's
/// answer, or nothing when the vendor returned an empty list.
pub fn first_coupon_serial(res: &CouponIssueCommitResult) -> (r: Option<&String>)
    ensures
        match r {
            Some(s) => res.customer_coupons@.len() > 0 && s
                == res.customer_coupons@[0].customer_coupon.coupon_serial,
            None => res.customer_coupons@.len() == 0,
        },
{
    if res.customer_coupons.len() > 0 {
        Some(&res.customer_coupons[0].customer_coupon.coupon_serial)
    } else {
        None
    }
}

} // verus!
