//! The objects that can be placed on a course.

use crate::grid::Point;
use vstd::prelude::*;
use vstd::string::StringExecFns;

verus! {

/// One placed object. A wall and a height zone are given by two corners and
/// fill the rectangle between them, corners included; a hole and a start
/// sit on one cell.
#[derive(Clone, Copy, Debug, PartialEq, Eq, Structural)]
pub enum GameObject {
    Hole(Point),
    Wall { a: Point, b: Point },
    Start(Point),
    Height { a: Point, b: Point, height: i32 },
}

impl Default for GameObject {
    /// A start at the origin.
    fn default() -> (o: GameObject)
        ensures
            o == GameObject::Start(Point { x: 0, y: 0 }),
    {
        GameObject::Start(Point { x: 0, y: 0 })
    }
}

/// Whether `v` lies between `a` and `b`, whichever of the two is smaller.
pub open spec fn between(a: int, b: int, v: int) -> bool {
    (a <= v <= b) || (b <= v <= a)
}

impl GameObject {
    /// The wall with both corners still pending: the mark that a two-corner
    /// tool is active and no corner was chosen yet.
    pub open spec fn placeholder() -> GameObject {
        GameObject::Wall { a: Point::pending(), b: Point::pending() }
    }

    /// The letter shown on a cell that the object occupies.
    pub open spec fn spec_symbol(self) -> Seq<char> {
        match self {
            GameObject::Hole(_) => seq!['H'],
            GameObject::Wall { .. } => seq!['W'],
            GameObject::Start(_) => seq!['S'],
            GameObject::Height { .. } => seq!['H'],
        }
    }

    /// The cell of a one-cell object.
    pub open spec fn spec_point(self) -> Option<Point> {
        match self {
            GameObject::Hole(p) => Some(p),
            GameObject::Wall { .. } => None,
            GameObject::Start(p) => Some(p),
            GameObject::Height { .. } => None,
        }
    }

    /// The points that define the object: its cell, or its two corners.
    pub open spec fn points(self) -> Seq<Point> {
        match self {
            GameObject::Hole(p) => seq![p],
            GameObject::Wall { a, b } => seq![a, b],
            GameObject::Start(p) => seq![p],
            GameObject::Height { a, b, .. } => seq![a, b],
        }
    }

    /// Whether `p` is one of the defining points.
    pub open spec fn touches(self, p: Point) -> bool {
        match self {
            GameObject::Hole(q) => q == p,
            GameObject::Wall { a, b } => a == p || b == p,
            GameObject::Start(q) => q == p,
            GameObject::Height { a, b, .. } => a == p || b == p,
        }
    }

    /// Whether the object occupies the cell `p`.
    pub open spec fn covers(self, p: Point) -> bool {
        match self {
            GameObject::Hole(q) => q == p,
            GameObject::Start(q) => q == p,
            GameObject::Wall { a, b } => between(a.x as int, b.x as int, p.x as int) && between(
                a.y as int,
                b.y as int,
                p.y as int,
            ),
            GameObject::Height { a, b, .. } => between(a.x as int, b.x as int, p.x as int)
                && between(a.y as int, b.y as int, p.y as int),
        }
    }

    /// The letter shown on a cell that the object occupies.
    pub fn symbol(&self) -> (s: String)
        ensures
            s@ == self.spec_symbol(),
    {
        proof {
            reveal_strlit("H");
            reveal_strlit("W");
            reveal_strlit("S");
        }
        let s = match self {
            GameObject::Hole(_) => String::from_str("H"),
            GameObject::Wall { .. } => String::from_str("W"),
            GameObject::Start(_) => String::from_str("S"),
            GameObject::Height { .. } => String::from_str("H"),
        };
        assert(s@ =~= self.spec_symbol());
        s
    }

    /// The cell of a one-cell object, and nothing for the others.
    pub fn point(&self) -> (p: Option<Point>)
        ensures
            p == self.spec_point(),
    {
        match self {
            GameObject::Hole(p) => Some(*p),
            GameObject::Wall { .. } => None,
            GameObject::Start(p) => Some(*p),
            GameObject::Height { .. } => None,
        }
    }

    /// The points that define the object: its cell, or its two corners.
    pub fn get_points(&self) -> (v: Vec<Point>)
        ensures
            v@ == self.points(),
    {
        let v = match self {
            GameObject::Hole(p) => vec![*p],
            GameObject::Wall { a, b } => vec![*a, *b],
            GameObject::Start(p) => vec![*p],
            GameObject::Height { a, b, .. } => vec![*a, *b],
        };
        assert(v@ =~= self.points());
        v
    }

    /// Whether the object is a wall.
    pub fn is_wall(&self) -> (b: bool)
        ensures
            b == (*self is Wall),
    {
        match self {
            GameObject::Wall { .. } => true,
            _ => false,
        }
    }

    /// Whether the object is a start.
    pub fn is_start(&self) -> (b: bool)
        ensures
            b == (*self is Start),
    {
        match self {
            GameObject::Start(_) => true,
            _ => false,
        }
    }

    /// Whether the object is a hole.
    pub fn is_hole(&self) -> (b: bool)
        ensures
            b == (*self is Hole),
    {
        match self {
            GameObject::Hole(_) => true,
            _ => false,
        }
    }

    /// Whether `pt` is one of the defining points.
    pub fn has_point(&self, pt: Point) -> (b: bool)
        ensures
            b == self.touches(pt),
            b == self.points().contains(pt),
    {
        let b = match self {
            GameObject::Hole(q) => *q == pt,
            GameObject::Wall { a, b } => *a == pt || *b == pt,
            GameObject::Start(q) => *q == pt,
            GameObject::Height { a, b, .. } => *a == pt || *b == pt,
        };
        proof {
            let s = self.points();
            if b {
                if s[0] == pt {
                    assert(s.contains(pt));
                } else {
                    assert(s[1] == pt);
                    assert(s.contains(pt));
                }
            }
        }
        b
    }

    /// Whether the object is the placeholder of an active two-corner tool.
    pub fn is_placeholder(&self) -> (b: bool)
        ensures
            b == (*self == GameObject::placeholder()),
    {
        match self {
            GameObject::Wall { a, b } => a.is_pending() && b.is_pending(),
            _ => false,
        }
    }
}

} // verus!
