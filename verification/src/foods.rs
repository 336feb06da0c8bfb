//! Data types of the food catalogue.

use vstd::prelude::*;

verus! {

/// Whether a dish is visible, hidden, or still under review.
#[allow(non_camel_case_types)]
#[derive(Debug, Clone, Copy, PartialEq, Eq, Structural)]
pub enum FoodStatusEnum {
    NORMAL,
    OFF,
    AUDITING,
    REJECTED,
}

/// Which side of the household submitted the dish.
#[allow(non_camel_case_types)]
#[derive(Debug, Clone, Copy, PartialEq, Eq, Structural)]
pub enum SubmitRoleEnum {
    ORDERING_APPLY,
    RECEIVING_CREATE,
}

/// Review state of a submitted dish.
#[allow(non_camel_case_types)]
#[derive(Debug, Clone, Copy, PartialEq, Eq, Structural)]
pub enum ApplyStatusEnum {
    PENDING,
    APPROVED,
    REJECTED,
}

/// A personal mark on a dish.
#[allow(non_camel_case_types)]
#[derive(Debug, Clone, Copy, PartialEq, Eq, Structural)]
pub enum MarkTypeEnum {
    LIKE,
    NOT_RECOMMEND,
}

/// Meal-of-day category of a dish.
#[derive(Debug, Clone, Copy, PartialEq, Eq, Structural)]
pub enum FoodCategory {
    Breakfast,
    Lunch,
    AfternoonTea,
    Dinner,
    MidnightSnack,
}

impl FoodCategory {
    /// The category encoded by the numeric column value, if any.
    pub open spec fn spec_from_i32(v: i32) -> Option<FoodCategory> {
        if v == 1 {
            Some(FoodCategory::Breakfast)
        } else if v == 2 {
            Some(FoodCategory::Lunch)
        } else if v == 3 {
            Some(FoodCategory::AfternoonTea)
        } else if v == 4 {
            Some(FoodCategory::Dinner)
        } else if v == 5 {
            Some(FoodCategory::MidnightSnack)
        } else {
            None
        }
    }

    /// Decodes the numeric category column: 1 breakfast, 2 lunch, 3
    /// afternoon tea, 4 dinner, 5 midnight snack.
    pub fn from_i32(v: i32) -> (r: Option<FoodCategory>)
        ensures
            r == FoodCategory::spec_from_i32(v),
    {
        match v {
            1 => Some(FoodCategory::Breakfast),
            2 => Some(FoodCategory::Lunch),
            3 => Some(FoodCategory::AfternoonTea),
            4 => Some(FoodCategory::Dinner),
            5 => Some(FoodCategory::MidnightSnack),
            _ => None,
        }
    }

    /// The numeric column value of each category.
    pub open spec fn spec_to_i32(self) -> i32 {
        match self {
            FoodCategory::Breakfast => 1,
            FoodCategory::Lunch => 2,
            FoodCategory::AfternoonTea => 3,
            FoodCategory::Dinner => 4,
            FoodCategory::MidnightSnack => 5,
        }
    }

    /// Encodes the category as its numeric column value; decoding it
    /// again gives the category back.
    pub fn to_i32(&self) -> (r: i32)
        ensures
            r == self.spec_to_i32(),
            FoodCategory::spec_from_i32(r) == Some(*self),
    {
        match self {
            FoodCategory::Breakfast => 1,
            FoodCategory::Lunch => 2,
            FoodCategory::AfternoonTea => 3,
            FoodCategory::Dinner => 4,
            FoodCategory::MidnightSnack => 5,
        }
    }

    /// The label shown to users for each category.
    pub open spec fn spec_zh_label(self) -> Seq<char> {
        match self {
            FoodCategory::Breakfast => "早餐"@,
            FoodCategory::Lunch => "午餐"@,
            FoodCategory::AfternoonTea => "下午茶"@,
            FoodCategory::Dinner => "晚餐"@,
            FoodCategory::MidnightSnack => "夜宵"@,
        }
    }

    /// The display label of the category.
    pub fn zh_label(&self) -> (r: &'static str)
        ensures
            r@ == self.spec_zh_label(),
    {
        match self {
            FoodCategory::Breakfast => "早餐",
            FoodCategory::Lunch => "午餐",
            FoodCategory::AfternoonTea => "下午茶",
            FoodCategory::Dinner => "晚餐",
            FoodCategory::MidnightSnack => "夜宵",
        }
    }
}

/// One dish-to-tag link row.
#[derive(Debug, Clone)]
pub struct FoodTagMapRecord {
    pub food_id: i64,
    pub tag_id: i64,
}

/// One tag of a dish, as shown to users.
#[derive(Debug, Clone)]
pub struct FoodTagOut {
    pub tag_id: i64,
    pub tag_name: String,
}

/// Input to create a dish.
#[derive(Debug, Clone)]
pub struct FoodCreateInput {
    pub food_name: String,
    pub food_photo: Option<String>,
    pub food_types: FoodCategory,
    pub tag_ids: Option<Vec<i64>>,
    pub group_id: Option<i64>,
}

/// Input to update a dish; absent fields stay unchanged.
#[derive(Debug, Clone)]
pub struct FoodUpdateInput {
    pub food_id: i64,
    pub food_name: Option<String>,
    pub food_photo: Option<String>,
    pub food_types: Option<FoodCategory>,
    pub tag_ids: Option<Vec<i64>>,
    pub apply_remark: Option<String>,
    pub food_status: Option<FoodStatusEnum>,
    pub apply_status: Option<ApplyStatusEnum>,
}

/// Input to create a tag.
#[derive(Debug, Clone)]
pub struct TagCreateInput {
    pub tag_name: String,
    pub sort: Option<i32>,
}

/// The filters a dish listing accepts.
#[derive(Debug, Clone)]
pub struct FoodFilterQuery {
    pub keyword: Option<String>,
    pub food_status: Option<FoodStatusEnum>,
    pub apply_status: Option<ApplyStatusEnum>,
    pub submit_role: Option<SubmitRoleEnum>,
    pub category: Option<FoodCategory>,
    pub tag_ids: Option<Vec<i64>>,
    pub group_id: Option<i64>,
    pub only_active: Option<bool>,
    pub created_by: Option<i64>,
}

/// Input to mark or unmark a dish.
#[derive(Debug, Clone)]
pub struct FoodMarkActionInput {
    pub food_id: i64,
    pub mark_type: MarkTypeEnum,
}

/// Input to draw a surprise selection of dishes.
#[derive(Debug, Clone)]
pub struct BlindBoxDrawInput {
    pub group_id: Option<i64>,
    pub food_types: Vec<FoodCategory>,
    pub limit_each: Option<u32>,
}

/// One drawn dish.
#[derive(Debug, Clone)]
pub struct BlindBoxFoodSnapshot {
    pub food_id: i64,
    pub food_name: String,
    pub food_photo: Option<String>,
    pub category: FoodCategory,
}

/// The result of a surprise draw.
#[derive(Debug, Clone)]
pub struct BlindBoxDrawResultOut {
    pub results: Vec<BlindBoxFoodSnapshot>,
    pub requested_types: Vec<FoodCategory>,
}

} // verus!
