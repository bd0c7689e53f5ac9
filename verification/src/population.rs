//! The population: the members of the swarm, newest first, and the tick
//! that admits one more and moves them all.

use vstd::prelude::*;
use crate::field::{Point, FIELD_COLUMNS, FIELD_ROWS, UNIT};
use crate::member::BoidMember;
use crate::motion::{lemma_stays_on_course, move_member, moved, on_course};
use crate::random::{random_below, random_dir};

verus! {

/// The swarm never grows beyond this many members.
pub const MAX_MEMBERS: usize = 50;

/// The state of the simulation: the members, newest first.
pub struct MainState {
    pub boid: Vec<BoidMember>,
}

impl View for MainState {
    type V = Seq<BoidMember>;

    open spec fn view(&self) -> Seq<BoidMember> {
        self.boid@
    }
}

/// Whether a column, a row and a heading are ones that a new member may be
/// given: a cell of the field and a heading below 360 degrees.
pub open spec fn in_field(x: i32, y: i32, dir: u16) -> bool {
    &&& 0 <= x < FIELD_COLUMNS
    &&& 0 <= y < FIELD_ROWS
    &&& dir < 360
}

/// The member that joins a swarm of `count` members at column `x` and row
/// `y` with heading `dir`: its identity is the new size of the swarm.
pub open spec fn spawned(count: nat, x: i32, y: i32, dir: u16) -> BoidMember {
    BoidMember { id: (count + 1) as u8, pos_x: (x * UNIT) as i64, pos_y: (y * UNIT) as i64, dir }
}

/// The swarm after an admission: one more member at the front, unless the
/// swarm is full.
pub open spec fn admitted(s: Seq<BoidMember>, x: i32, y: i32, dir: u16) -> Seq<BoidMember> {
    if s.len() < MAX_MEMBERS {
        seq![spawned(s.len(), x, y, dir)] + s
    } else {
        s
    }
}

/// A member after one tick. One that stands out of reach stays as it is.
pub open spec fn ticked(m: BoidMember) -> BoidMember {
    if m.within_reach() {
        moved(m)
    } else {
        m
    }
}

/// The swarm after every member has had its tick.
pub open spec fn stepped(s: Seq<BoidMember>) -> Seq<BoidMember> {
    Seq::new(s.len(), |i: int| ticked(s[i]))
}

/// Whether a swarm is one that admissions build: at most
/// [`MAX_MEMBERS`] members, numbered from 1 in the order they joined, the
/// newest first.
pub open spec fn in_admission_order(s: Seq<BoidMember>) -> bool {
    &&& s.len() <= MAX_MEMBERS
    &&& forall|i: int| 0 <= i < s.len() ==> (#[trigger] s[i]).id == s.len() - i
}

/// The swarm after one admission for each of `draws` in turn, each draw a
/// column, a row and a heading.
pub open spec fn admitted_all(s: Seq<BoidMember>, draws: Seq<(i32, i32, u16)>) -> Seq<BoidMember>
    decreases draws.len(),
{
    if draws.len() == 0 {
        s
    } else {
        let draw = draws.last();
        admitted(admitted_all(s, draws.drop_last()), draw.0, draw.1, draw.2)
    }
}

impl MainState {
    /// Whether the swarm is one that the simulation builds: in admission
    /// order, and every member on course.
    pub open spec fn wf(&self) -> bool {
        &&& in_admission_order(self@)
        &&& forall|i: int| 0 <= i < self@.len() ==> on_course(#[trigger] self@[i])
    }

    /// The empty swarm.
    pub fn new() -> (s: MainState)
        ensures
            s@ == Seq::<BoidMember>::empty(),
            s.wf(),
    {
        MainState { boid: Vec::new() }
    }

    /// Puts `member` at the front of the swarm.
    pub fn add_boid_member(&mut self, member: BoidMember)
        ensures
            final(self)@ == seq![member] + old(self)@,
            old(self).wf() && old(self)@.len() < MAX_MEMBERS && member.id == old(self)@.len() + 1
                && on_course(member) ==> final(self).wf(),
    {
        self.boid.insert(0, member);
        assert(self.boid@ =~= seq![member] + old(self).boid@);
    }

    /// Admits a member at column `x` and row `y` with heading `dir`, unless
    /// the swarm is full.
    pub fn admit_at(&mut self, x: i32, y: i32, dir: u16)
        ensures
            final(self)@ == admitted(old(self)@, x, y, dir),
            old(self).wf() && in_field(x, y, dir) ==> final(self).wf(),
    {
        if self.boid.len() < MAX_MEMBERS {
            let count: u8 = self.boid.len() as u8;
            let member = BoidMember::new(count + 1, (x as i64) * UNIT, (y as i64) * UNIT, dir);
            self.add_boid_member(member);
        }
    }

    /// Admits a member at a random cell of the field with a random heading,
    /// unless the swarm is full.
    pub fn admit_member(&mut self)
        ensures
            exists|x: i32, y: i32, dir: u16|
                in_field(x, y, dir) && final(self)@ == #[trigger] admitted(old(self)@, x, y, dir),
            old(self)@.len() >= MAX_MEMBERS ==> final(self)@ == old(self)@,
            old(self)@.len() < MAX_MEMBERS ==> final(self)@.len() == old(self)@.len() + 1
                && final(self)@.skip(1) == old(self)@,
            old(self).wf() ==> final(self).wf(),
    {
        if self.boid.len() < MAX_MEMBERS {
            let x: i32 = random_below(FIELD_COLUMNS);
            let y: i32 = random_below(FIELD_ROWS);
            let dir: u16 = random_dir();
            self.admit_at(x, y, dir);
        } else {
            assert(in_field(0, 0, 0) && self@ == admitted(old(self)@, 0, 0, 0));
        }
    }

    /// Gives every member its tick: each one within reach is moved and
    /// turned, the others stay as they are.
    pub fn move_all(&mut self)
        ensures
            final(self)@ == stepped(old(self)@),
            forall|i: int| 0 <= i < old(self)@.len() ==> final(self)@[i].id == old(self)@[i].id,
            old(self).wf() ==> final(self).wf(),
    {
        let mut i: usize = 0;
        while i < self.boid.len()
            invariant
                i <= self.boid.len(),
                self.boid.len() == old(self).boid.len(),
                forall|j: int| 0 <= j < i ==> self.boid@[j] == ticked(old(self).boid@[j]),
                forall|j: int| i <= j < self.boid.len() ==> self.boid@[j] == old(self).boid@[j],
            decreases self.boid.len() - i,
        {
            let mut member: BoidMember = self.boid[i];
            if member.can_move() {
                let new_loc: Point = move_member(&mut member);
                member.transform(new_loc.x, new_loc.y);
                self.boid[i] = member;
            }
            i += 1;
        }
        assert(self.boid@ =~= stepped(old(self).boid@));
        proof {
            if old(self).wf() {
                assert forall|j: int| 0 <= j < self@.len() implies on_course(#[trigger] self@[j]) by {
                    if old(self)@[j].within_reach() {
                        lemma_stays_on_course(old(self)@[j]);
                    }
                }
            }
        }
    }

    /// One tick of the simulation: admits a member at random unless the
    /// swarm is full, then gives every member its tick.
    pub fn update(&mut self)
        ensures
            exists|x: i32, y: i32, dir: u16|
                in_field(x, y, dir) && final(self)@ == stepped(
                    #[trigger] admitted(old(self)@, x, y, dir),
                ),
            final(self)@.len() == (if old(self)@.len() < MAX_MEMBERS {
                old(self)@.len() + 1
            } else {
                old(self)@.len()
            }),
            forall|i: int|
                0 <= i < old(self)@.len() ==> final(self)@[i + final(self)@.len() - old(self)@.len()]
                    == ticked(old(self)@[i]),
            old(self).wf() ==> final(self).wf(),
    {
        self.admit_member();
        self.move_all();
    }

    /// Where the members stand, in the order of the swarm.
    pub fn positions(&self) -> (v: Vec<Point>)
        ensures
            v@.len() == self@.len(),
            forall|i: int|
                0 <= i < self@.len() ==> v@[i] == (Point { x: self@[i].pos_x, y: self@[i].pos_y }),
    {
        let mut v: Vec<Point> = Vec::new();
        let mut i: usize = 0;
        while i < self.boid.len()
            invariant
                i <= self.boid.len(),
                v@.len() == i,
                forall|j: int|
                    0 <= j < i ==> v@[j] == (Point { x: self@[j].pos_x, y: self@[j].pos_y }),
            decreases self.boid.len() - i,
        {
            v.push(Point::new(self.boid[i].pos_x, self.boid[i].pos_y));
            i += 1;
        }
        v
    }
}

/// An admission keeps a swarm in admission order, and it adds a member
/// exactly when the swarm is not full.
pub proof fn lemma_admission_keeps_order(s: Seq<BoidMember>, x: i32, y: i32, dir: u16)
    requires
        in_admission_order(s),
    ensures
        in_admission_order(admitted(s, x, y, dir)),
        admitted(s, x, y, dir).len() == (if s.len() < MAX_MEMBERS {
            s.len() + 1
        } else {
            s.len()
        }),
{
}

/// However many admissions an empty swarm goes through, it never holds more
/// than [`MAX_MEMBERS`] members: it holds one member for each admission up
/// to that many, numbered from 1 in the order they joined.
pub proof fn lemma_admissions_fill_the_swarm(draws: Seq<(i32, i32, u16)>)
    ensures
        in_admission_order(admitted_all(Seq::<BoidMember>::empty(), draws)),
        admitted_all(Seq::<BoidMember>::empty(), draws).len() == (if draws.len() < MAX_MEMBERS {
            draws.len()
        } else {
            MAX_MEMBERS as nat
        }),
    decreases draws.len(),
{
    if draws.len() > 0 {
        let draw = draws.last();
        lemma_admissions_fill_the_swarm(draws.drop_last());
        lemma_admission_keeps_order(
            admitted_all(Seq::<BoidMember>::empty(), draws.drop_last()),
            draw.0,
            draw.1,
            draw.2,
        );
    }
}

} // verus!
