//! The text form of a course: one record per object, a tag character followed
//! by the object's numbers, each written as one symbol of the alphabet.

use crate::alphabet::{char_i, code_of, i_char, lemma_code_of_symbol, squash, symbol_of};
use crate::course::GolfMap;
use crate::grid::Point;
use crate::object::GameObject;
use vstd::prelude::*;
use vstd::string::StringExecFns;

verus! {

broadcast use vstd::string::group_string_axioms;

/// The record written for `obj`. The placeholder of an active tool is not
/// written at all.
pub open spec fn record(obj: GameObject) -> Seq<char> {
    match obj {
        GameObject::Wall { a, b } => if obj == GameObject::placeholder() {
            Seq::empty()
        } else {
            seq![
                'a',
                symbol_of(a.x as int),
                symbol_of(a.y as int),
                symbol_of(b.x as int),
                symbol_of(b.y as int),
            ]
        },
        GameObject::Hole(p) => seq!['b', symbol_of(p.x as int), symbol_of(p.y as int)],
        GameObject::Height { a, b, height } => seq![
            'c',
            symbol_of(a.x as int),
            symbol_of(a.y as int),
            symbol_of(b.x as int),
            symbol_of(b.y as int),
            symbol_of(height as int),
        ],
        GameObject::Start(p) => seq!['d', symbol_of(p.x as int), symbol_of(p.y as int)],
    }
}

/// The text of a course: the records of its objects, the object added last
/// first.
pub open spec fn encode(objects: Seq<GameObject>) -> Seq<char>
    decreases objects.len(),
{
    if objects.len() == 0 {
        Seq::empty()
    } else {
        record(objects.last()) + encode(objects.drop_last())
    }
}

/// The numbers that the characters of `text` stand for.
pub open spec fn codes(text: Seq<char>) -> Seq<i32> {
    Seq::new(text.len(), |i: int| code_of(text[i]) as i32)
}

/// The record that starts `codes`, with its length, if the first number is
/// a tag and enough numbers follow it.
pub open spec fn record_at(codes: Seq<i32>) -> Option<(GameObject, int)> {
    if codes.len() >= 5 && codes[0] == 0 {
        Some(
            (
                GameObject::Wall {
                    a: Point { x: codes[1], y: codes[2] },
                    b: Point { x: codes[3], y: codes[4] },
                },
                5,
            ),
        )
    } else if codes.len() >= 3 && codes[0] == 1 {
        Some((GameObject::Hole(Point { x: codes[1], y: codes[2] }), 3))
    } else if codes.len() >= 6 && codes[0] == 2 {
        Some(
            (
                GameObject::Height {
                    a: Point { x: codes[1], y: codes[2] },
                    b: Point { x: codes[3], y: codes[4] },
                    height: codes[5],
                },
                6,
            ),
        )
    } else if codes.len() >= 3 && codes[0] == 3 {
        Some((GameObject::Start(Point { x: codes[1], y: codes[2] }), 3))
    } else {
        None
    }
}

/// The objects read from `codes`, left to right: a record where one starts,
/// and one number skipped where none does.
pub open spec fn parse(codes: Seq<i32>) -> Seq<GameObject>
    decreases codes.len(),
{
    if codes.len() == 0 {
        Seq::empty()
    } else {
        match record_at(codes) {
            Some((obj, used)) => seq![obj] + parse(codes.skip(used)),
            None => parse(codes.skip(1)),
        }
    }
}

/// The objects read from `text`.
pub open spec fn decode(text: Seq<char>) -> Seq<GameObject> {
    parse(codes(text))
}

/// Whether a number has a symbol of its own.
pub open spec fn writable(v: int) -> bool {
    0 <= v < 62
}

/// Whether every number of `obj` has a symbol of its own.
pub open spec fn representable(obj: GameObject) -> bool {
    match obj {
        GameObject::Hole(p) => writable(p.x as int) && writable(p.y as int),
        GameObject::Start(p) => writable(p.x as int) && writable(p.y as int),
        GameObject::Wall { a, b } => writable(a.x as int) && writable(a.y as int) && writable(
            b.x as int,
        ) && writable(b.y as int),
        GameObject::Height { a, b, height } => writable(a.x as int) && writable(a.y as int)
            && writable(b.x as int) && writable(b.y as int) && writable(height as int),
    }
}

/// A point as it is read after it was written: a coordinate without symbol
/// has become 0.
pub open spec fn restored_point(p: Point) -> Point {
    Point { x: squash(p.x as int) as i32, y: squash(p.y as int) as i32 }
}

/// An object as it is read after it was written.
pub open spec fn restored(obj: GameObject) -> GameObject {
    match obj {
        GameObject::Hole(p) => GameObject::Hole(restored_point(p)),
        GameObject::Start(p) => GameObject::Start(restored_point(p)),
        GameObject::Wall { a, b } => GameObject::Wall {
            a: restored_point(a),
            b: restored_point(b),
        },
        GameObject::Height { a, b, height } => GameObject::Height {
            a: restored_point(a),
            b: restored_point(b),
            height: squash(height as int) as i32,
        },
    }
}

/// What is read from the text of `objects`: the objects without the
/// placeholders, each as restored, the one added last first.
pub open spec fn read_back(objects: Seq<GameObject>) -> Seq<GameObject>
    decreases objects.len(),
{
    if objects.len() == 0 {
        Seq::empty()
    } else if objects.last() == GameObject::placeholder() {
        read_back(objects.drop_last())
    } else {
        seq![restored(objects.last())] + read_back(objects.drop_last())
    }
}

/// A text that begins with the record of `obj` reads as `obj` restored,
/// followed by what the rest of the text reads as; the placeholder, which
/// has no record, adds nothing.
pub proof fn lemma_decode_record(obj: GameObject, rest: Seq<char>)
    ensures
        decode(record(obj) + rest) == if obj == GameObject::placeholder() {
            decode(rest)
        } else {
            seq![restored(obj)] + decode(rest)
        },
{
    let text = record(obj) + rest;
    let nums = codes(text);
    if obj == GameObject::placeholder() {
        assert(text =~= rest);
    } else {
        let used = record(obj).len() as int;
        assert(nums.skip(used) =~= codes(rest));
        assert(forall|k: int| 0 <= k < used ==> text[k] == record(obj)[k]);
        match obj {
            GameObject::Hole(p) => {
                lemma_code_of_symbol(p.x as int);
                lemma_code_of_symbol(p.y as int);
                assert(nums[0] == 1 && nums[1] == restored_point(p).x && nums[2]
                    == restored_point(p).y);
            },
            GameObject::Start(p) => {
                lemma_code_of_symbol(p.x as int);
                lemma_code_of_symbol(p.y as int);
                assert(nums[0] == 3 && nums[1] == restored_point(p).x && nums[2]
                    == restored_point(p).y);
            },
            GameObject::Wall { a, b } => {
                lemma_code_of_symbol(a.x as int);
                lemma_code_of_symbol(a.y as int);
                lemma_code_of_symbol(b.x as int);
                lemma_code_of_symbol(b.y as int);
                assert(nums[0] == 0 && nums[1] == restored_point(a).x && nums[2]
                    == restored_point(a).y && nums[3] == restored_point(b).x && nums[4]
                    == restored_point(b).y);
            },
            GameObject::Height { a, b, height } => {
                lemma_code_of_symbol(a.x as int);
                lemma_code_of_symbol(a.y as int);
                lemma_code_of_symbol(b.x as int);
                lemma_code_of_symbol(b.y as int);
                lemma_code_of_symbol(height as int);
                assert(nums[0] == 2 && nums[1] == restored_point(a).x && nums[2]
                    == restored_point(a).y && nums[3] == restored_point(b).x && nums[4]
                    == restored_point(b).y && nums[5] == squash(height as int));
            },
        }
        assert(record_at(nums) == Some((restored(obj), used)));
    }
}

/// Reading the text of a course gives the course back in reverse order,
/// without its placeholders, each number without symbol replaced by 0.
pub proof fn lemma_decode_encode(objects: Seq<GameObject>)
    ensures
        decode(encode(objects)) == read_back(objects),
    decreases objects.len(),
{
    if objects.len() == 0 {
        assert(codes(Seq::<char>::empty()) =~= Seq::<i32>::empty());
    } else {
        lemma_decode_encode(objects.drop_last());
        lemma_decode_record(objects.last(), encode(objects.drop_last()));
    }
}

/// An object whose numbers all have symbols is read as it was written, and
/// is not the placeholder.
pub proof fn lemma_restored_representable(obj: GameObject)
    requires
        representable(obj),
    ensures
        restored(obj) == obj,
        obj != GameObject::placeholder(),
{
}

/// Every object of a course whose numbers all have symbols is among the
/// objects read from the text of the course.
pub proof fn lemma_round_trip_keeps(objects: Seq<GameObject>, i: int)
    requires
        0 <= i < objects.len(),
        representable(objects[i]),
    ensures
        decode(encode(objects)).contains(objects[i]),
    decreases objects.len(),
{
    lemma_decode_encode(objects);
    let front = objects.drop_last();
    let back = read_back(objects);
    if i == objects.len() - 1 {
        lemma_restored_representable(objects[i]);
        assert(back[0] == objects[i]);
    } else {
        lemma_round_trip_keeps(front, i);
        lemma_decode_encode(front);
        let k = choose|k: int| 0 <= k < read_back(front).len() && read_back(front)[k] == front[i];
        if objects.last() == GameObject::placeholder() {
            assert(back[k] == objects[i]);
        } else {
            assert(back[k + 1] == objects[i]);
        }
    }
}

/// A course whose objects are all representable is read from its text in
/// reverse order, unchanged otherwise.
pub proof fn lemma_round_trip(objects: Seq<GameObject>)
    requires
        forall|i: int| 0 <= i < objects.len() ==> representable(#[trigger] objects[i]),
    ensures
        decode(encode(objects)) == objects.reverse(),
    decreases objects.len(),
{
    lemma_decode_encode(objects);
    if objects.len() == 0 {
        assert(objects.reverse() =~= Seq::<GameObject>::empty());
    } else {
        let front = objects.drop_last();
        assert forall|i: int| 0 <= i < front.len() implies representable(#[trigger] front[i]) by {
            assert(front[i] == objects[i]);
        }
        lemma_round_trip(front);
        lemma_decode_encode(front);
        lemma_restored_representable(objects.last());
        assert(seq![objects.last()] + front.reverse() =~= objects.reverse());
    }
}

/// The text of a course begins with the record of the object added last:
/// adding an object puts its record in front of the text.
pub proof fn lemma_encode_push(objects: Seq<GameObject>, obj: GameObject)
    ensures
        encode(objects.push(obj)) == record(obj) + encode(objects),
{
    assert(objects.push(obj).drop_last() =~= objects);
}

/// The text of two courses joined is the text of the second followed by
/// the text of the first.
pub proof fn lemma_encode_concat(first: Seq<GameObject>, second: Seq<GameObject>)
    ensures
        encode(first + second) == encode(second) + encode(first),
    decreases second.len(),
{
    if second.len() == 0 {
        assert(first + second =~= first);
        assert(encode(second) + encode(first) =~= encode(first));
    } else {
        lemma_encode_concat(first, second.drop_last());
        assert((first + second).drop_last() =~= first + second.drop_last());
        assert((first + second).last() == second.last());
        assert(record(second.last()) + (encode(second.drop_last()) + encode(first)) =~= (record(
            second.last(),
        ) + encode(second.drop_last())) + encode(first));
    }
}

/// The text of one object.
pub fn record_text(obj: &GameObject) -> (s: String)
    ensures
        s@ == record(*obj),
{
    let mut s = String::new();
    match obj {
        GameObject::Wall { a, b } => {
            if !obj.is_placeholder() {
                s.push('a');
                s.append(char_i(a.x).as_str());
                s.append(char_i(a.y).as_str());
                s.append(char_i(b.x).as_str());
                s.append(char_i(b.y).as_str());
            }
        },
        GameObject::Hole(p) => {
            s.push('b');
            s.append(char_i(p.x).as_str());
            s.append(char_i(p.y).as_str());
        },
        GameObject::Height { a, b, height } => {
            s.push('c');
            s.append(char_i(a.x).as_str());
            s.append(char_i(a.y).as_str());
            s.append(char_i(b.x).as_str());
            s.append(char_i(b.y).as_str());
            s.append(char_i(*height).as_str());
        },
        GameObject::Start(p) => {
            s.push('d');
            s.append(char_i(p.x).as_str());
            s.append(char_i(p.y).as_str());
        },
    }
    assert(s@ =~= record(*obj));
    s
}

/// The numbers of the characters of `text`.
pub fn read_codes(text: &str) -> (v: Vec<i32>)
    ensures
        v@ == codes(text@),
        forall|i: int| 0 <= i < v.len() ==> 0 <= #[trigger] v[i] < 62,
{
    let mut v: Vec<i32> = Vec::new();
    for c in it: text.chars()
        invariant
            it.seq() == text@,
            v@ == codes(text@.take(it.index())),
    {
        v.push(i_char(c));
        assert(v@ =~= codes(text@.take(it.index() + 1)));
    }
    assert(text@.take(text@.len() as int) =~= text@);
    v
}

impl GolfMap {
    /// The text of the course.
    pub fn to_text(&self) -> (s: String)
        ensures
            s@ == encode(self@),
    {
        let objects = self.objects();
        let mut s = String::new();
        let mut i: usize = objects.len();
        assert(objects@.take(i as int) =~= objects@);
        while i > 0
            invariant
                i <= objects.len(),
                s@ + encode(objects@.take(i as int)) == encode(objects@),
            decreases i,
        {
            let ghost written = s@;
            i = i - 1;
            let piece = record_text(&objects[i]);
            s.append(piece.as_str());
            proof {
                let upto = objects@.take(i + 1);
                assert(upto.drop_last() =~= objects@.take(i as int));
                assert(upto.last() == objects@[i as int]);
                assert(s@ + encode(objects@.take(i as int)) =~= written + encode(upto));
            }
        }
        assert(s@ + Seq::<char>::empty() =~= s@);
        s
    }

    /// Replaces the course by the objects read from `text`. Nothing is
    /// refused: what is no record is passed over.
    pub fn from_text(&mut self, text: String)
        ensures
            final(self)@ == decode(text@),
            final(self).wf(),
    {
        let codes = read_codes(text.as_str());
        *self = GolfMap::new();
        let n = codes.len();
        let mut i: usize = 0;
        assert(codes@.skip(0) =~= codes@);
        assert(self@ + parse(codes@) =~= parse(codes@));
        while i < n
            invariant
                i <= n,
                n == codes.len(),
                self.wf(),
                self@ + parse(codes@.skip(i as int)) == parse(codes@),
            decreases n - i,
        {
            let ghost rest = codes@.skip(i as int);
            let ghost read = self@;
            let tag = codes[i];
            let left = n - i;
            let mut used: usize = 1;
            if tag == 0 && left >= 5 {
                let a = Point { x: codes[i + 1], y: codes[i + 2] };
                let b = Point { x: codes[i + 3], y: codes[i + 4] };
                self.add_object(GameObject::Wall { a, b });
                used = 5;
            } else if tag == 1 && left >= 3 {
                let pos = Point { x: codes[i + 1], y: codes[i + 2] };
                self.add_object(GameObject::Hole(pos));
                used = 3;
            } else if tag == 2 && left >= 6 {
                let a = Point { x: codes[i + 1], y: codes[i + 2] };
                let b = Point { x: codes[i + 3], y: codes[i + 4] };
                let height = codes[i + 5];
                self.add_object(GameObject::Height { a, b, height });
                used = 6;
            } else if tag == 3 && left >= 3 {
                let pos = Point { x: codes[i + 1], y: codes[i + 2] };
                self.add_object(GameObject::Start(pos));
                used = 3;
            }
            proof {
                assert(rest.skip(used as int) =~= codes@.skip(i + used));
                match record_at(rest) {
                    Some((obj, len)) => {
                        assert(len == used);
                        assert(self@ == read.push(obj));
                        assert(read.push(obj) + parse(rest.skip(len)) =~= read + (seq![obj]
                            + parse(rest.skip(len))));
                    },
                    None => {
                        assert(self@ == read);
                    },
                }
            }
            i = i + used;
        }
        assert(codes@.skip(n as int) =~= Seq::<i32>::empty());
        assert(self@ + Seq::<GameObject>::empty() =~= self@);
    }
}

} // verus!
