//! The course: the placed objects in the order in which they were added, and
//! the index that tells for each cell which object occupies it.

use crate::grid::Point;
use crate::object::{between, GameObject};
use std::collections::HashMap;
use vstd::prelude::*;

verus! {

broadcast use vstd::std_specs::hash::group_hash_axioms;

/// The object that occupies the cell `p`: the last one of `objects` that
/// covers it, if any does.
pub open spec fn occupant(objects: Seq<GameObject>, p: Point) -> Option<GameObject>
    decreases objects.len(),
{
    if objects.len() == 0 {
        None
    } else if objects.last().covers(p) {
        Some(objects.last())
    } else {
        occupant(objects.drop_last(), p)
    }
}

/// Whether one of `objects` is a start.
pub open spec fn has_start(objects: Seq<GameObject>) -> bool {
    exists|i: int| 0 <= i < objects.len() && #[trigger] objects[i] is Start
}

/// `objects` with a start at the origin appended if they hold none.
pub open spec fn with_start(objects: Seq<GameObject>) -> Seq<GameObject> {
    if has_start(objects) {
        objects
    } else {
        objects.push(GameObject::Start(Point { x: 0, y: 0 }))
    }
}

/// The cell of the last start among `objects`.
pub open spec fn start_of(objects: Seq<GameObject>) -> Option<Point>
    decreases objects.len(),
{
    if objects.len() == 0 {
        None
    } else {
        match objects.last() {
            GameObject::Start(p) => Some(p),
            _ => start_of(objects.drop_last()),
        }
    }
}

/// A choice of objects to take off the course.
#[derive(Clone, Copy, Debug, PartialEq, Eq, Structural)]
pub enum Matcher {
    /// Every start.
    Starts,
    /// Every hole.
    Holes,
    /// Every object that has the point as its cell or as one of its corners.
    Touching(Point),
}

impl Matcher {
    /// Whether `obj` is among the chosen objects.
    pub open spec fn selects(self, obj: GameObject) -> bool {
        match self {
            Matcher::Starts => obj is Start,
            Matcher::Holes => obj is Hole,
            Matcher::Touching(p) => obj.touches(p),
        }
    }

    /// Whether `obj` is among the chosen objects.
    pub fn matches(&self, obj: &GameObject) -> (b: bool)
        ensures
            b == self.selects(*obj),
    {
        match self {
            Matcher::Starts => obj.is_start(),
            Matcher::Holes => obj.is_hole(),
            Matcher::Touching(p) => obj.has_point(*p),
        }
    }
}

/// What stays of `objects` when the objects that `which` selects are taken
/// off: the others, in their order.
pub open spec fn remaining(objects: Seq<GameObject>, which: Matcher) -> Seq<GameObject> {
    objects.filter(|o: GameObject| !which.selects(o))
}

/// A start cell is found exactly on the courses that hold a start.
pub proof fn lemma_start_of(objects: Seq<GameObject>)
    ensures
        start_of(objects) is Some <==> has_start(objects),
    decreases objects.len(),
{
    if objects.len() > 0 {
        let front = objects.drop_last();
        lemma_start_of(front);
        if objects.last() is Start {
            assert(objects[objects.len() - 1] is Start);
        } else if has_start(front) {
            let j = choose|j: int| 0 <= j < front.len() && #[trigger] front[j] is Start;
            assert(objects[j] is Start);
        } else if has_start(objects) {
            let j = choose|j: int| 0 <= j < objects.len() && #[trigger] objects[j] is Start;
            assert(front[j] is Start);
        }
    }
}

/// The occupant of a cell is the last object that covers it: no later
/// object covers the cell, and a cell without occupant is covered by none.
pub proof fn lemma_occupant_is_last(objects: Seq<GameObject>, p: Point)
    ensures
        match occupant(objects, p) {
            Some(obj) => exists|i: int|
                0 <= i < objects.len() && #[trigger] objects[i] == obj && objects[i].covers(p)
                    && forall|j: int| i < j < objects.len() ==> !(#[trigger] objects[j]).covers(p),
            None => forall|j: int| 0 <= j < objects.len() ==> !(#[trigger] objects[j]).covers(p),
        },
    decreases objects.len(),
{
    if objects.len() > 0 {
        let front = objects.drop_last();
        let last = objects.len() - 1;
        if objects.last().covers(p) {
            assert(objects[last] == objects.last());
        } else {
            lemma_occupant_is_last(front, p);
            match occupant(front, p) {
                Some(obj) => {
                    let i = choose|i: int|
                        0 <= i < front.len() && #[trigger] front[i] == obj && front[i].covers(p)
                            && forall|j: int|
                                i < j < front.len() ==> !(#[trigger] front[j]).covers(p);
                    assert(objects[i] == obj);
                    assert forall|j: int| i < j < objects.len() implies
                        !(#[trigger] objects[j]).covers(p) by {
                        if j < last {
                            assert(front[j] == objects[j]);
                        }
                    }
                },
                None => {
                    assert forall|j: int| 0 <= j < objects.len() implies
                        !(#[trigger] objects[j]).covers(p) by {
                        if j < last {
                            assert(front[j] == objects[j]);
                        }
                    }
                },
            }
        }
    }
}

/// An object that is added takes the cells it covers and leaves the
/// occupants of all other cells as they were.
pub proof fn lemma_occupant_push(objects: Seq<GameObject>, obj: GameObject, p: Point)
    ensures
        occupant(objects.push(obj), p) == if obj.covers(p) {
            Some(obj)
        } else {
            occupant(objects, p)
        },
{
    assert(objects.push(obj).drop_last() =~= objects);
}

/// Making sure of a start a second time changes nothing.
pub proof fn lemma_with_start_idempotent(objects: Seq<GameObject>)
    ensures
        has_start(with_start(objects)),
        with_start(with_start(objects)) == with_start(objects),
{
    if !has_start(objects) {
        assert(with_start(objects)[objects.len() as int] is Start);
    }
}

/// A course. Its view is the sequence of the placed objects, oldest first.
pub struct GolfMap {
    objects: Vec<GameObject>,
    map: HashMap<u64, GameObject>,
}

/// Whether the index `m` says of the cell `p` what `objects` say.
spec fn agrees(m: Map<u64, GameObject>, objects: Seq<GameObject>, p: Point) -> bool {
    match occupant(objects, p) {
        Some(o) => m.contains_key(p.spec_key()) && m[p.spec_key()] == o,
        None => !m.contains_key(p.spec_key()),
    }
}

/// Whether the cell `p` of the rectangle comes before the cell `(i, j)` when
/// the rectangle is walked column by column.
spec fn walked(x0: int, x1: int, y0: int, y1: int, i: int, j: int, p: Point) -> bool {
    x0 <= p.x <= x1 && y0 <= p.y <= y1 && (p.x < i || (p.x == i && p.y < j))
}

/// Whether the index `m` holds `obj` on the cells walked so far, and on all
/// others says what `before` say.
spec fn agrees_partly(
    m: Map<u64, GameObject>,
    before: Seq<GameObject>,
    obj: GameObject,
    done: bool,
    p: Point,
) -> bool {
    if done {
        m.contains_key(p.spec_key()) && m[p.spec_key()] == obj
    } else {
        agrees(m, before, p)
    }
}

/// Enters `obj` into the index on every cell of the rectangle with the
/// corners `a` and `b`.
fn fill(
    map: &mut HashMap<u64, GameObject>,
    obj: GameObject,
    a: Point,
    b: Point,
    Ghost(before): Ghost<Seq<GameObject>>,
)
    requires
        forall|p: Point| agrees(old(map)@, before, p),
        forall|p: Point|
            obj.covers(p) <==> between(a.x as int, b.x as int, p.x as int)
                && between(a.y as int, b.y as int, p.y as int),
    ensures
        forall|p: Point| agrees(final(map)@, before.push(obj), p),
{
    let x0: i64 = if a.x <= b.x { a.x as i64 } else { b.x as i64 };
    let x1: i64 = if a.x <= b.x { b.x as i64 } else { a.x as i64 };
    let y0: i64 = if a.y <= b.y { a.y as i64 } else { b.y as i64 };
    let y1: i64 = if a.y <= b.y { b.y as i64 } else { a.y as i64 };
    let mut i: i64 = x0;
    while i <= x1
        invariant
            x0 <= i <= x1 + 1,
            i32::MIN <= x0 <= x1 <= i32::MAX,
            i32::MIN <= y0 <= y1 <= i32::MAX,
            forall|p: Point|
                #[trigger] agrees_partly(
                    map@,
                    before,
                    obj,
                    walked(x0 as int, x1 as int, y0 as int, y1 as int, i as int, y0 as int, p),
                    p,
                ),
        decreases x1 + 1 - i,
    {
        let mut j: i64 = y0;
        while j <= y1
            invariant
                x0 <= i <= x1,
                y0 <= j <= y1 + 1,
                i32::MIN <= x0 <= x1 <= i32::MAX,
                i32::MIN <= y0 <= y1 <= i32::MAX,
                forall|p: Point|
                    #[trigger] agrees_partly(
                        map@,
                        before,
                        obj,
                        walked(x0 as int, x1 as int, y0 as int, y1 as int, i as int, j as int, p),
                        p,
                    ),
            decreases y1 + 1 - j,
        {
            let cell = Point { x: i as i32, y: j as i32 };
            let ghost prior = map@;
            map.insert(cell.key(), obj);
            proof {
                assert forall|p: Point|
                    #[trigger] agrees_partly(
                        map@,
                        before,
                        obj,
                        walked(
                            x0 as int,
                            x1 as int,
                            y0 as int,
                            y1 as int,
                            i as int,
                            j + 1,
                            p,
                        ),
                        p,
                    ) by {
                    assert(agrees_partly(
                        prior,
                        before,
                        obj,
                        walked(x0 as int, x1 as int, y0 as int, y1 as int, i as int, j as int, p),
                        p,
                    ));
                    if p != cell {
                        assert(p.spec_key() != cell.spec_key()) by {
                            if p.spec_key() == cell.spec_key() {
                                Point::lemma_key_injective(p, cell);
                            }
                        }
                    }
                }
            }
            j = j + 1;
        }
        proof {
            assert forall|p: Point|
                #[trigger] agrees_partly(
                    map@,
                    before,
                    obj,
                    walked(x0 as int, x1 as int, y0 as int, y1 as int, i + 1, y0 as int, p),
                    p,
                ) by {
                assert(agrees_partly(
                    map@,
                    before,
                    obj,
                    walked(x0 as int, x1 as int, y0 as int, y1 as int, i as int, y1 + 1, p),
                    p,
                ));
            }
        }
        i = i + 1;
    }
    proof {
        assert forall|p: Point| agrees(map@, before.push(obj), p) by {
            lemma_occupant_push(before, obj, p);
            assert(agrees_partly(
                map@,
                before,
                obj,
                walked(x0 as int, x1 as int, y0 as int, y1 as int, x1 + 1, y0 as int, p),
                p,
            ));
        }
    }
}

impl View for GolfMap {
    type V = Seq<GameObject>;

    /// The placed objects, oldest first.
    closed spec fn view(&self) -> Seq<GameObject> {
        self.objects@
    }
}

impl Default for GolfMap {
    /// The course that holds a start at the origin and nothing else.
    fn default() -> (m: GolfMap)
        ensures
            m@ == seq![GameObject::Start(Point { x: 0, y: 0 })],
            m.wf(),
    {
        let mut m = GolfMap::new();
        m.add_object(GameObject::Start(Point { x: 0, y: 0 }));
        assert(m@ =~= seq![GameObject::Start(Point { x: 0, y: 0 })]);
        m
    }
}

impl GolfMap {
    /// Whether the index is up to date: on every cell it holds the occupant
    /// that the objects give.
    pub closed spec fn wf(&self) -> bool {
        forall|p: Point| agrees(self.map@, self.objects@, p)
    }

    /// The course without any object.
    pub fn new() -> (m: GolfMap)
        ensures
            m@ == Seq::<GameObject>::empty(),
            m.wf(),
    {
        GolfMap { objects: Vec::new(), map: HashMap::new() }
    }

    /// The placed objects, oldest first.
    pub fn objects(&self) -> (v: &Vec<GameObject>)
        ensures
            v@ == self@,
    {
        &self.objects
    }

    /// Builds the index anew from the objects.
    pub fn update_hashmap(&mut self)
        ensures
            final(self)@ == old(self)@,
            final(self).wf(),
    {
        self.map.clear();
        let n = self.objects.len();
        let mut k: usize = 0;
        while k < n
            invariant
                k <= n,
                n == self.objects.len(),
                self.objects@ == old(self).objects@,
                forall|p: Point| agrees(self.map@, self.objects@.take(k as int), p),
            decreases n - k,
        {
            let obj = self.objects[k];
            let ghost before = self.objects@.take(k as int);
            match obj {
                GameObject::Wall { a, b } => fill(&mut self.map, obj, a, b, Ghost(before)),
                GameObject::Height { a, b, .. } => fill(&mut self.map, obj, a, b, Ghost(before)),
                GameObject::Hole(p) => fill(&mut self.map, obj, p, p, Ghost(before)),
                GameObject::Start(p) => fill(&mut self.map, obj, p, p, Ghost(before)),
            }
            assert(self.objects@.take(k + 1) =~= before.push(obj));
            k = k + 1;
        }
        assert(self.objects@.take(n as int) =~= self.objects@);
    }

    /// Appends `obj` and brings the index up to date.
    pub fn add_object(&mut self, obj: GameObject)
        ensures
            final(self)@ == old(self)@.push(obj),
            final(self).wf(),
    {
        self.objects.push(obj);
        self.update_hashmap();
    }

    /// Takes off every object that `which` selects and brings the index up
    /// to date. The others keep their order.
    pub fn remove_where(&mut self, which: Matcher)
        ensures
            final(self)@ == remaining(old(self)@, which),
            final(self).wf(),
    {
        let mut kept: Vec<GameObject> = Vec::new();
        let n = self.objects.len();
        let mut i: usize = 0;
        proof {
            reveal(Seq::filter);
        }
        while i < n
            invariant
                i <= n,
                n == self.objects.len(),
                self.objects@ == old(self).objects@,
                kept@ == remaining(self.objects@.take(i as int), which),
            decreases n - i,
        {
            let obj = self.objects[i];
            proof {
                reveal(Seq::filter);
                assert(self.objects@.take(i + 1).drop_last() =~= self.objects@.take(i as int));
            }
            if !which.matches(&obj) {
                kept.push(obj);
            }
            i = i + 1;
        }
        assert(self.objects@.take(n as int) =~= self.objects@);
        self.objects = kept;
        self.update_hashmap();
    }

    /// Appends a start at the origin if the course holds no start, and
    /// leaves the course as it is otherwise.
    pub fn ensure_start_exists(&mut self)
        requires
            old(self).wf(),
        ensures
            final(self)@ == with_start(old(self)@),
            has_start(final(self)@),
            final(self).wf(),
    {
        let n = self.objects.len();
        let mut found = false;
        let mut i: usize = 0;
        while i < n
            invariant
                i <= n,
                n == self.objects.len(),
                *self == *old(self),
                found == has_start(self.objects@.take(i as int)),
            decreases n - i,
        {
            if self.objects[i].is_start() {
                found = true;
                assert(self.objects@.take(i + 1)[i as int] is Start);
            } else if found {
                let ghost j = choose|j: int|
                    0 <= j < i && #[trigger] self.objects@.take(i as int)[j] is Start;
                assert(self.objects@.take(i + 1)[j] is Start);
            } else {
                assert forall|j: int| 0 <= j < i + 1 implies
                    !(#[trigger] self.objects@.take(i + 1)[j] is Start) by {
                    if j < i {
                        assert(!(self.objects@.take(i as int)[j] is Start));
                    }
                }
            }
            i = i + 1;
        }
        assert(self.objects@.take(n as int) =~= self.objects@);
        if !found {
            self.add_object(GameObject::Start(Point { x: 0, y: 0 }));
            assert(self.objects@[n as int] is Start);
        }
    }

    /// The cell of the start that was added last: where the ball is set
    /// down.
    pub fn start_cell(&self) -> (cell: Option<Point>)
        ensures
            cell == start_of(self@),
            cell is Some <==> has_start(self@),
    {
        let n = self.objects.len();
        let mut cell: Option<Point> = None;
        let mut i: usize = 0;
        while i < n
            invariant
                i <= n,
                n == self.objects.len(),
                cell == start_of(self.objects@.take(i as int)),
            decreases n - i,
        {
            proof {
                assert(self.objects@.take(i + 1).drop_last() =~= self.objects@.take(i as int));
            }
            match self.objects[i] {
                GameObject::Start(p) => {
                    cell = Some(p);
                },
                _ => {},
            }
            i = i + 1;
        }
        proof {
            assert(self.objects@.take(n as int) =~= self.objects@);
            lemma_start_of(self.objects@);
        }
        cell
    }

    /// The object that occupies the cell `point`.
    pub fn get_point(&self, point: &Point) -> (found: Option<&GameObject>)
        requires
            self.wf(),
        ensures
            match found {
                Some(obj) => occupant(self@, *point) == Some(*obj),
                None => occupant(self@, *point) is None,
            },
    {
        assert(agrees(self.map@, self.objects@, *point));
        let key = point.key();
        self.map.get(&key)
    }
}

} // verus!
