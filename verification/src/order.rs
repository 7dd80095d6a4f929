//! Sort order of a listing as a request gives it: a column and a direction,
//! each optional, with the type's default taking the place of a missing one.
use vstd::prelude::*;

verus! {

/// Sort direction; descending unless the request asks otherwise.
#[derive(Clone, Copy, Debug, PartialEq, Eq, Structural)]
pub enum Direction {
    Desc,
    Asc,
}

impl Default for Direction {
    fn default() -> (r: Self)
        ensures
            r == Direction::Desc,
    {
        Direction::Desc
    }
}

/// What to sort by and in which direction.
#[derive(Clone, Debug)]
pub struct Order<T> where T: Default + Clone {
    pub by: Option<T>,
    pub direction: Option<Direction>,
}

impl<T> Default for Order<T> where T: Default + Clone {
    fn default() -> (r: Self)
        ensures
            r.by is None,
            r.direction is None,
    {
        Order { by: None, direction: None }
    }
}

impl<T> Order<T> where T: Default + Clone {
    /// The column asked for: a clone of the one given, else `T::default()`.
    pub fn by(&self) -> (r: T)
        ensures
            self.by matches Some(b) ==> cloned::<T>(b, r),
            self.by is None ==> T::default.ensures((), r),
    {
        match &self.by {
            Some(b) => b.clone(),
            None => T::default(),
        }
    }

    /// The direction asked for, descending when none was given.
    pub fn direction(&self) -> (r: Direction)
        ensures
            r == match self.direction {
                Some(d) => d,
                None => Direction::Desc,
            },
    {
        self.direction.unwrap_or_default()
    }
}

} // verus!
