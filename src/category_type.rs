use vstd::prelude::*;

verus! {

/// License category of a track or a session.
#[derive(Copy, Clone, Debug, PartialEq, Eq, Structural)]
pub enum CategoryType {
    Oval,
    Road,
    DirtOval,
    DirtRoad,
    SportsCar,
    FormulaCar,
}

/// The integer that the upstream data and the store use for a category.
pub open spec fn category_code(c: CategoryType) -> int {
    match c {
        CategoryType::Oval => 1,
        CategoryType::Road => 2,
        CategoryType::DirtOval => 3,
        CategoryType::DirtRoad => 4,
        CategoryType::SportsCar => 5,
        CategoryType::FormulaCar => 6,
    }
}

impl CategoryType {
    /// The category with the given code; codes outside 1..=6 are rejected.
    pub fn from_i32(i: i32) -> (r: Result<CategoryType, &'static str>)
        ensures
            (1 <= i <= 6) <==> r is Ok,
            r matches Ok(c) ==> category_code(c) == i,
    {
        match i {
            1 => Ok(CategoryType::Oval),
            2 => Ok(CategoryType::Road),
            3 => Ok(CategoryType::DirtOval),
            4 => Ok(CategoryType::DirtRoad),
            5 => Ok(CategoryType::SportsCar),
            6 => Ok(CategoryType::FormulaCar),
            _ => Err("invalid category int"),
        }
    }

    pub fn to_db_type(&self) -> (r: i32)
        ensures
            r == category_code(*self),
    {
        match self {
            CategoryType::Oval => 1,
            CategoryType::Road => 2,
            CategoryType::DirtOval => 3,
            CategoryType::DirtRoad => 4,
            CategoryType::SportsCar => 5,
            CategoryType::FormulaCar => 6,
        }
    }

    pub fn to_nice_string(&self) -> (r: &'static str)
        ensures
            r@ == category_label(*self),
    {
        match self {
            CategoryType::Oval => "Oval",
            CategoryType::Road => "Road",
            CategoryType::DirtOval => "Dirt Oval",
            CategoryType::DirtRoad => "Dirt Road",
            CategoryType::SportsCar => "Sports Car",
            CategoryType::FormulaCar => "Formula Car",
        }
    }
}

/// The display label of a category.
pub open spec fn category_label(c: CategoryType) -> Seq<char> {
    match c {
        CategoryType::Oval => "Oval"@,
        CategoryType::Road => "Road"@,
        CategoryType::DirtOval => "Dirt Oval"@,
        CategoryType::DirtRoad => "Dirt Road"@,
        CategoryType::SportsCar => "Sports Car"@,
        CategoryType::FormulaCar => "Formula Car"@,
    }
}

} // verus!
