//! The editor: which tool is active, and what a click on a cell does with it.

use crate::course::{remaining, GolfMap, Matcher};
use crate::grid::Point;
use crate::object::GameObject;
use vstd::prelude::*;

verus! {

/// The tools that can be chosen.
#[derive(Clone, Copy, Debug, PartialEq, Eq, Structural)]
pub enum Tool {
    PlayGame,
    Delete,
    Start,
    Hole,
    Wall,
    Height,
}

/// The editor's state. The object of `EditMap` is a pattern of the kind that
/// is being placed. For a wall and a height zone its first corner tells how
/// far the placing has come: pending while no corner is chosen, the chosen
/// corner after the first click.
#[derive(Clone, Copy, Debug, PartialEq, Eq, Structural)]
pub enum EditOption {
    PlayGame,
    EditMap(GameObject),
    Delete,
}

impl EditOption {
    /// Whether a wall or a height zone is being placed and no corner is
    /// chosen yet.
    pub open spec fn awaits_first_corner(self) -> bool {
        match self {
            EditOption::EditMap(GameObject::Wall { a, .. }) => a == Point::pending(),
            EditOption::EditMap(GameObject::Height { a, .. }) => a == Point::pending(),
            _ => false,
        }
    }

    /// Whether a wall or a height zone is being placed and its first corner
    /// is chosen.
    pub open spec fn awaits_second_corner(self) -> bool {
        match self {
            EditOption::EditMap(GameObject::Wall { a, .. }) => a != Point::pending(),
            EditOption::EditMap(GameObject::Height { a, .. }) => a != Point::pending(),
            _ => false,
        }
    }

    /// Whether a click in this state may change the course: every state
    /// but play and the wait for a first corner.
    pub open spec fn commits(self) -> bool {
        !(self is PlayGame) && !self.awaits_first_corner()
    }

    /// Whether a click in this state may change the course.
    pub fn changes_course(&self) -> (b: bool)
        ensures
            b == self.commits(),
    {
        match self {
            EditOption::PlayGame => false,
            EditOption::Delete => true,
            EditOption::EditMap(GameObject::Wall { a, .. }) => !a.is_pending(),
            EditOption::EditMap(GameObject::Height { a, .. }) => !a.is_pending(),
            EditOption::EditMap(_) => true,
        }
    }

    /// The state in which a tool starts.
    pub open spec fn entered(tool: Tool) -> EditOption {
        match tool {
            Tool::PlayGame => EditOption::PlayGame,
            Tool::Delete => EditOption::Delete,
            Tool::Start => EditOption::EditMap(GameObject::Start(Point { x: 0, y: 0 })),
            Tool::Hole => EditOption::EditMap(GameObject::Hole(Point { x: 0, y: 0 })),
            Tool::Wall => EditOption::EditMap(
                GameObject::Wall { a: Point::pending(), b: Point::pending() },
            ),
            Tool::Height => EditOption::EditMap(
                GameObject::Height { a: Point::pending(), b: Point::pending(), height: 0 },
            ),
        }
    }

    /// The course after a tool was chosen: the two-corner tools leave the
    /// placeholder on it.
    pub open spec fn objects_entered(objects: Seq<GameObject>, tool: Tool) -> Seq<GameObject> {
        match tool {
            Tool::Wall => objects.push(GameObject::placeholder()),
            Tool::Height => objects.push(GameObject::placeholder()),
            _ => objects,
        }
    }

    /// The state after a click on `pt`, with `slider` the height that is
    /// set at that moment.
    pub open spec fn clicked(self, pt: Point, slider: i32) -> EditOption {
        match self {
            EditOption::EditMap(GameObject::Wall { a, b }) => if a == Point::pending() {
                EditOption::EditMap(GameObject::Wall { a: pt, b: Point::pending() })
            } else {
                EditOption::EditMap(GameObject::Wall { a: Point::pending(), b: Point::pending() })
            },
            EditOption::EditMap(GameObject::Height { a, b, height }) => if a == Point::pending() {
                EditOption::EditMap(GameObject::Height { a: pt, b: Point::pending(), height })
            } else {
                EditOption::EditMap(
                    GameObject::Height {
                        a: Point::pending(),
                        b: Point::pending(),
                        height: slider,
                    },
                )
            },
            _ => self,
        }
    }

    /// The course after a click on `pt`.
    pub open spec fn objects_clicked(
        self,
        objects: Seq<GameObject>,
        pt: Point,
        slider: i32,
    ) -> Seq<GameObject> {
        match self {
            EditOption::PlayGame => objects,
            EditOption::Delete => remaining(objects, Matcher::Touching(pt)),
            EditOption::EditMap(GameObject::Start(_)) => remaining(objects, Matcher::Starts).push(
                GameObject::Start(pt),
            ),
            EditOption::EditMap(GameObject::Hole(_)) => remaining(objects, Matcher::Holes).push(
                GameObject::Hole(pt),
            ),
            EditOption::EditMap(GameObject::Wall { a, b }) => if a == Point::pending() {
                objects
            } else {
                objects.push(GameObject::Wall { a, b: pt })
            },
            EditOption::EditMap(GameObject::Height { a, b, height }) => if a == Point::pending() {
                objects
            } else {
                objects.push(GameObject::Height { a, b: pt, height: slider })
            },
        }
    }

    /// Chooses a tool. A two-corner tool starts without a corner and puts
    /// the placeholder on the course.
    pub fn select(tool: Tool, map: &mut GolfMap) -> (mode: EditOption)
        requires
            old(map).wf(),
        ensures
            mode == EditOption::entered(tool),
            final(map)@ == EditOption::objects_entered(old(map)@, tool),
            final(map).wf(),
    {
        let pending = Point { x: -1, y: -1 };
        match tool {
            Tool::PlayGame => EditOption::PlayGame,
            Tool::Delete => EditOption::Delete,
            Tool::Start => EditOption::EditMap(GameObject::Start(Point { x: 0, y: 0 })),
            Tool::Hole => EditOption::EditMap(GameObject::Hole(Point { x: 0, y: 0 })),
            Tool::Wall => {
                map.add_object(GameObject::Wall { a: pending, b: pending });
                EditOption::EditMap(GameObject::Wall { a: pending, b: pending })
            },
            Tool::Height => {
                map.add_object(GameObject::Wall { a: pending, b: pending });
                EditOption::EditMap(GameObject::Height { a: pending, b: pending, height: 0 })
            },
        }
    }

    /// Handles a click on the cell `pt`. The one-cell tools move their
    /// object there; the two-corner tools take the first corner, and with
    /// the second add the object and start over; the delete tool takes off
    /// every object that has `pt` as its cell or corner.
    pub fn click(self, map: &mut GolfMap, pt: Point, slider: i32) -> (next: EditOption)
        requires
            old(map).wf(),
        ensures
            next == self.clicked(pt, slider),
            final(map)@ == self.objects_clicked(old(map)@, pt, slider),
            !self.commits() ==> final(map)@ == old(map)@,
            final(map).wf(),
    {
        let pending = Point { x: -1, y: -1 };
        match self {
            EditOption::PlayGame => self,
            EditOption::Delete => {
                map.remove_where(Matcher::Touching(pt));
                self
            },
            EditOption::EditMap(GameObject::Start(_)) => {
                map.remove_where(Matcher::Starts);
                map.add_object(GameObject::Start(pt));
                self
            },
            EditOption::EditMap(GameObject::Hole(_)) => {
                map.remove_where(Matcher::Holes);
                map.add_object(GameObject::Hole(pt));
                self
            },
            EditOption::EditMap(GameObject::Wall { a, b: _ }) => {
                if a.is_pending() {
                    EditOption::EditMap(GameObject::Wall { a: pt, b: pending })
                } else {
                    map.add_object(GameObject::Wall { a, b: pt });
                    EditOption::EditMap(GameObject::Wall { a: pending, b: pending })
                }
            },
            EditOption::EditMap(GameObject::Height { a, b: _, height }) => {
                if a.is_pending() {
                    EditOption::EditMap(GameObject::Height { a: pt, b: pending, height })
                } else {
                    map.add_object(GameObject::Height { a, b: pt, height: slider });
                    EditOption::EditMap(
                        GameObject::Height { a: pending, b: pending, height: slider },
                    )
                }
            },
        }
    }
}

/// Two clicks with a two-corner tool that has no corner yet add one object
/// with the clicked cells as its corners, and leave the tool without a
/// corner again.
pub proof fn lemma_two_clicks_place(
    mode: EditOption,
    objects: Seq<GameObject>,
    first: Point,
    second: Point,
    slider: i32,
)
    requires
        mode.awaits_first_corner(),
        first != Point::pending(),
    ensures
        mode.clicked(first, slider).awaits_second_corner(),
        mode.objects_clicked(objects, first, slider) == objects,
        mode.clicked(first, slider).clicked(second, slider).awaits_first_corner(),
        mode.clicked(first, slider).objects_clicked(objects, second, slider) == objects.push(
            match mode {
                EditOption::EditMap(GameObject::Height { .. }) => GameObject::Height {
                    a: first,
                    b: second,
                    height: slider,
                },
                _ => GameObject::Wall { a: first, b: second },
            },
        ),
{
}

} // verus!
