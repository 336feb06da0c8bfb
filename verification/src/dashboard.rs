//! Data types of the household dashboard.

use vstd::prelude::*;

verus! {

/// One entry of the most-ordered-dishes ranking.
#[derive(Debug, Clone)]
pub struct TopFoodOrderOut {
    pub food_id: i64,
    pub food_name: String,
    pub food_photo: String,
    pub order_count: i64,
}

/// The most-ordered-dishes ranking.
#[derive(Debug, Clone)]
pub struct TopFoodRankingResponse {
    pub list: Vec<TopFoodOrderOut>,
    pub message: Option<String>,
}

/// One of today's orders, condensed for the dashboard.
#[derive(Debug, Clone)]
pub struct TodayOrderEntryOut {
    pub order_id: i64,
    pub category: String,
    pub foods_text: String,
    pub status: String,
}

/// Today's orders, condensed for the dashboard.
#[derive(Debug, Clone)]
pub struct TodayOrdersResponse {
    pub list: Vec<TodayOrderEntryOut>,
    pub message: Option<String>,
}

/// Lifetime order counters of one user.
#[derive(Debug, Clone)]
pub struct OrderStatsOut {
    pub total_orders: i64,
    pub finished_orders: i64,
    pub rejected_orders: i64,
}

/// One order shown on the points journey.
#[derive(Debug, Clone)]
pub struct JourneyOrderOut {
    pub order_id: i64,
    pub foods_text: String,
    pub status: String,
}

/// The points journey: today's orders and the points balance.
#[derive(Debug, Clone)]
pub struct PointsJourneyOut {
    pub today_orders: Vec<JourneyOrderOut>,
    pub today_points: i64,
    pub current_points: i32,
    pub total_gain_points: i64,
    pub total_cost_points: i64,
    pub message: Option<String>,
}

/// Aggregate order counters of the household.
#[derive(Debug, Clone)]
pub struct OrderCollectOut {
    pub total_orders: Option<i64>,
    pub completed_orders: Option<i64>,
    pub rejected_orders: Option<i64>,
}

/// Today's points movement.
#[derive(Debug, Clone)]
pub struct TodayPointsOut {
    pub deduct_sum: Option<i64>,
    pub earn_sum: Option<i64>,
    pub today_sum: Option<i64>,
}

/// Input to the order ranking query.
#[derive(Debug, Clone)]
pub struct OrderRankingDto {
    pub user_id: i32,
    pub role: Option<i32>,
}

/// Input to the dish lottery: one random dish per requested category.
#[derive(Debug, Clone)]
pub struct LotteryDto {
    pub user_id: i32,
    pub food_types: Vec<i32>,
}

} // verus!
