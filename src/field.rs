use vstd::prelude::*;

verus! {

/// Either a single point on the board or the board's dimensions.
#[derive(Clone, Copy, Debug, PartialEq, Eq, Structural)]
pub struct Field {
    /// The width component.
    pub x: u32,
    /// The height component.
    pub y: u32,
}

/// `a * b`, saturated at `u32::MAX`.
pub open spec fn saturating_mul_u32(a: int, b: int) -> int {
    if a * b > u32::MAX {
        u32::MAX as int
    } else {
        a * b
    }
}

impl Field {
    /// The number of fields of a board with these dimensions.
    pub open spec fn area(self) -> int {
        saturating_mul_u32(self.x as int, self.y as int)
    }

    /// The position of `coord` in the row-major order of a board with
    /// these dimensions.
    pub open spec fn linear_index(self, coord: Field) -> int {
        coord.y * self.x + coord.x
    }

    /// `coord` lies on a board with these dimensions and its linear index
    /// stays below the (saturated) area.
    pub open spec fn contains(self, coord: Field) -> bool {
        &&& coord.x < self.x
        &&& coord.y < self.y
        &&& self.linear_index(coord) < self.area()
    }

    /// The area `x * y`, saturated at `u32::MAX`.
    pub fn len(&self) -> (r: u32)
        ensures
            r == self.area(),
    {
        assert((self.x as int) * (self.y as int) <= (u32::MAX as int) * (u32::MAX as int))
            by (nonlinear_arith)
            requires
                self.x <= u32::MAX,
                self.y <= u32::MAX,
        ;
        let p: u64 = (self.x as u64) * (self.y as u64);
        if p > u32::MAX as u64 {
            u32::MAX
        } else {
            p as u32
        }
    }

    /// The linear index of `coord` on a board with these dimensions, or
    /// `None` where `coord` lies off the board.
    pub fn index_of(&self, coord: &Field) -> (r: Option<u32>)
        ensures
            r.is_some() <==> self.contains(*coord),
            r.is_some() ==> r.unwrap() == self.linear_index(*coord),
    {
        if coord.x >= self.x || coord.y >= self.y {
            return None;
        }
        assert((coord.y as int) * (self.x as int) + (coord.x as int) < u64::MAX as int)
            by (nonlinear_arith)
            requires
                coord.y < self.x || coord.y >= self.x,
                coord.y <= u32::MAX,
                self.x <= u32::MAX,
                coord.x <= u32::MAX,
        ;
        let i: u64 = (coord.y as u64) * (self.x as u64) + (coord.x as u64);
        let len = self.len();
        if i < len as u64 {
            Some(i as u32)
        } else {
            None
        }
    }

    /// Whether `coord` lies on a board with these dimensions.
    pub fn is_valid_coord(&self, coord: &Field) -> (r: bool)
        ensures
            r == self.contains(*coord),
    {
        self.index_of(coord).is_some()
    }
}

} // verus!
