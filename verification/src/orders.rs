//! Data types of the order flow.

use vstd::prelude::*;

verus! {

/// One line of an order, as listed.
#[derive(Debug, Clone)]
pub struct OrderDetailListOut {
    pub order_d_id: Option<i32>,
    pub order_id: Option<i32>,
    pub food_id: Option<i32>,
    pub food_name: Option<String>,
    pub food_photo: Option<String>,
    pub user_id: Option<i32>,
}

/// Filters of the order listing.
#[derive(Debug, Clone)]
pub struct OrderListDto {
    pub status: Option<String>,
    pub user_id: Option<i32>,
}

/// Input to update an order's status and bookkeeping.
#[derive(Debug, Clone)]
pub struct UpdateOrder {
    pub status: i32,
    pub id: i32,
    pub order_no: Option<String>,
    pub child_status: Option<i32>,
    pub user_id: Option<i32>,
    pub approval_feedback: Option<String>,
    pub finish_feedback: Option<String>,
    pub points: Option<i32>,
    pub transaction_type: Option<String>,
    pub balance: Option<i32>,
    pub ship_id: Option<i32>,
    pub description: Option<String>,
}

} // verus!
