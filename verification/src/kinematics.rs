//! The 2D kinematics engine: robots and obstacles.
//!
//! Robots are identified by name; adding a robot under an existing name
//! overwrites the prior robot. Obstacles are anonymous and ordered.
//! Discrete action tokens are lowercased and mapped to fixed velocity
//! profiles. The per-frame advance replaces every robot's pose with one
//! supplied by the caller and records the caller's step hint as
//! diagnostic state only: the new poses are a function of the prior
//! robots and the supplied poses alone, never of the hint. The embedding
//! layer is expected to integrate each pose with the fixed step
//! [`DELTA_TIME_STEP_BITS`], not with the hint.

use crate::scalar::Scalar;
use vstd::prelude::*;

verus! {

/// Bits of the fixed integration step, 0.016 time units.
pub const DELTA_TIME_STEP_BITS: u64 = 0x3F90624DD2F1A9FC;

/// Bits of the forward linear velocity, 60.
pub const LINEAR_FAST_BITS: u64 = 0x404E000000000000;

/// Bits of the backward linear velocity, -40.
pub const LINEAR_REVERSE_BITS: u64 = 0xC044000000000000;

/// Bits of the leftward angular velocity, 1.2.
pub const ANGULAR_FAST_BITS: u64 = 0x3FF3333333333333;

/// Bits of the rightward angular velocity, -1.2.
pub const ANGULAR_FAST_NEG_BITS: u64 = 0xBFF3333333333333;

/// Bits of zero.
pub const ZERO_BITS: u64 = 0;

/// Bits of the bounding-box side 40.
pub const BOX_40_BITS: u64 = 0x4044000000000000;

/// Bits of the bounding-box side 50.
pub const BOX_50_BITS: u64 = 0x4049000000000000;

/// Bits of the bounding-box side 60.
pub const BOX_60_BITS: u64 = 0x404E000000000000;

/// A simulated unicycle-kinematics entity.
pub struct Robot {
    pub name: String,
    pub robot_type: String,
    pub x: Scalar,
    pub y: Scalar,
    pub theta: Scalar,
    pub linear_vel: Scalar,
    pub angular_vel: Scalar,
    pub width: Scalar,
    pub height: Scalar,
}

/// A static, anonymous geometric region, kept for rendering only.
pub struct Obstacle {
    pub x: Scalar,
    pub y: Scalar,
    pub width: Scalar,
    pub height: Scalar,
    pub shape: String,
}

/// One robot's pose after an integration step, handed back by the
/// embedding layer.
#[derive(Clone, Copy, PartialEq, Eq, Structural, Debug)]
pub struct Pose {
    pub x: Scalar,
    pub y: Scalar,
    pub theta: Scalar,
}

/// What `str::to_lowercase` returns; the result depends on the
/// characters of the argument alone.
pub uninterp spec fn lower_of(s: Seq<char>) -> Seq<char>;

/// Relies on `str::to_lowercase`: the Unicode lowercase mapping of the
/// argument, a pure function of its characters.
#[verifier::external_body]
fn lowercase(s: &String) -> (r: String)
    ensures
        r@ == lower_of(s@),
{
    s.to_lowercase()
}

/// The bounding box `(width, height)` derived from a robot type, with
/// the default box for any unknown type.
pub open spec fn bounding_box(t: Seq<char>) -> (Scalar, Scalar) {
    if t == "turtlebot"@ {
        (Scalar { bits: BOX_40_BITS }, Scalar { bits: BOX_40_BITS })
    } else if t == "differential"@ {
        (Scalar { bits: BOX_50_BITS }, Scalar { bits: BOX_50_BITS })
    } else if t == "ackermann"@ {
        (Scalar { bits: BOX_60_BITS }, Scalar { bits: BOX_40_BITS })
    } else {
        (Scalar { bits: BOX_40_BITS }, Scalar { bits: BOX_40_BITS })
    }
}

/// The `(linear_vel, angular_vel)` profile of a lowercased action
/// token, or `None` for an unrecognized token.
pub open spec fn action_profile(k: Seq<char>) -> Option<(Scalar, Scalar)> {
    if k == "forward"@ {
        Some((Scalar { bits: LINEAR_FAST_BITS }, Scalar { bits: ZERO_BITS }))
    } else if k == "backward"@ {
        Some((Scalar { bits: LINEAR_REVERSE_BITS }, Scalar { bits: ZERO_BITS }))
    } else if k == "left"@ {
        Some((Scalar { bits: ZERO_BITS }, Scalar { bits: ANGULAR_FAST_BITS }))
    } else if k == "right"@ {
        Some((Scalar { bits: ZERO_BITS }, Scalar { bits: ANGULAR_FAST_NEG_BITS }))
    } else if k == "stop"@ {
        Some((Scalar { bits: ZERO_BITS }, Scalar { bits: ZERO_BITS }))
    } else {
        None
    }
}

pub open spec fn distinct_robot_names(s: Seq<Robot>) -> bool {
    forall|i: int, j: int| 0 <= i < j < s.len() ==> s[i].name@ != s[j].name@
}

pub open spec fn robot_has(s: Seq<Robot>, m: Seq<char>) -> bool {
    exists|i: int| 0 <= i < s.len() && s[i].name@ == m
}

pub open spec fn robot_index_of(s: Seq<Robot>, m: Seq<char>) -> int {
    choose|i: int| 0 <= i < s.len() && s[i].name@ == m
}

pub open spec fn robot_lookup(s: Seq<Robot>, m: Seq<char>) -> Robot {
    s[robot_index_of(s, m)]
}

/// The robot registry after inserting `n`: replace in place under the
/// same name, else append.
pub open spec fn upsert_robot(s: Seq<Robot>, n: Robot) -> Seq<Robot> {
    if robot_has(s, n.name@) {
        s.update(robot_index_of(s, n.name@), n)
    } else {
        s.push(n)
    }
}

/// `r` with its velocities overwritten and everything else kept.
pub open spec fn with_velocity(r: Robot, l: Scalar, a: Scalar) -> Robot {
    Robot {
        name: r.name,
        robot_type: r.robot_type,
        x: r.x,
        y: r.y,
        theta: r.theta,
        linear_vel: l,
        angular_vel: a,
        width: r.width,
        height: r.height,
    }
}

/// `r` teleported to `(x, y)`, heading and velocities untouched.
pub open spec fn with_position(r: Robot, x: Scalar, y: Scalar) -> Robot {
    Robot {
        name: r.name,
        robot_type: r.robot_type,
        x,
        y,
        theta: r.theta,
        linear_vel: r.linear_vel,
        angular_vel: r.angular_vel,
        width: r.width,
        height: r.height,
    }
}

/// `r` with its whole pose replaced, identity and velocities kept.
pub open spec fn with_pose(r: Robot, p: Pose) -> Robot {
    Robot {
        name: r.name,
        robot_type: r.robot_type,
        x: p.x,
        y: p.y,
        theta: p.theta,
        linear_vel: r.linear_vel,
        angular_vel: r.angular_vel,
        width: r.width,
        height: r.height,
    }
}

/// The registry after `set_velocity`: a silent no-op for an unknown
/// name.
pub open spec fn velocity_set(s: Seq<Robot>, n: Seq<char>, l: Scalar, a: Scalar) -> Seq<Robot> {
    if robot_has(s, n) {
        s.update(robot_index_of(s, n), with_velocity(robot_lookup(s, n), l, a))
    } else {
        s
    }
}

/// The registry after `move_robot`: a silent no-op for an unknown name.
pub open spec fn robot_moved(s: Seq<Robot>, n: Seq<char>, x: Scalar, y: Scalar) -> Seq<Robot> {
    if robot_has(s, n) {
        s.update(robot_index_of(s, n), with_position(robot_lookup(s, n), x, y))
    } else {
        s
    }
}

/// The registry after `apply_action` of the lowercased token `k`: a
/// silent no-op for an unknown name or an unrecognized token.
pub open spec fn action_applied(s: Seq<Robot>, n: Seq<char>, k: Seq<char>) -> Seq<Robot> {
    if robot_has(s, n) {
        match action_profile(k) {
            Some(p) => s.update(robot_index_of(s, n), with_velocity(robot_lookup(s, n), p.0, p.1)),
            None => s,
        }
    } else {
        s
    }
}

/// The registry after one per-frame advance: every robot's pose is
/// replaced by the supplied pose at the same position. The caller's
/// step hint does not appear here at all.
pub open spec fn robots_after_update(s: Seq<Robot>, ps: Seq<Pose>) -> Seq<Robot> {
    Seq::new(s.len(), |i: int| with_pose(s[i], ps[i]))
}

/// In a registry with distinct names, an entry's index is determined by
/// its name.
proof fn lemma_robot_at(s: Seq<Robot>, m: Seq<char>, k: int)
    requires
        distinct_robot_names(s),
        0 <= k < s.len(),
        s[k].name@ == m,
    ensures
        robot_has(s, m),
        robot_index_of(s, m) == k,
        robot_lookup(s, m) == s[k],
{
    assert(robot_has(s, m));
    let i = robot_index_of(s, m);
    assert(0 <= i < s.len() && s[i].name@ == m);
}

/// Law: inserting a robot under an existing name replaces that entry's
/// attributes entirely, leaves every other entry alone, and does not
/// grow the registry; under a fresh name it appends one entry.
pub proof fn lemma_upsert_robot_overwrites(s: Seq<Robot>, n: Robot)
    requires
        distinct_robot_names(s),
    ensures
        distinct_robot_names(upsert_robot(s, n)),
        robot_has(upsert_robot(s, n), n.name@),
        robot_lookup(upsert_robot(s, n), n.name@) == n,
        forall|m: Seq<char>|
            m != n.name@ ==> #[trigger] robot_has(upsert_robot(s, n), m) == robot_has(s, m),
        forall|m: Seq<char>|
            m != n.name@ && robot_has(s, m) ==> #[trigger] robot_lookup(upsert_robot(s, n), m)
                == robot_lookup(s, m),
        upsert_robot(s, n).len() == if robot_has(s, n.name@) {
            s.len()
        } else {
            s.len() + 1
        },
{
    let up = upsert_robot(s, n);
    if robot_has(s, n.name@) {
        let i = robot_index_of(s, n.name@);
        assert(0 <= i < s.len() && s[i].name@ == n.name@);
        assert forall|k: int| 0 <= k < up.len() implies #[trigger] up[k].name@ == s[k].name@ by {
            if k == i {
                assert(up[k] == n);
            }
        }
        lemma_robot_at(up, n.name@, i);
        assert forall|m: Seq<char>| m != n.name@ implies #[trigger] robot_has(up, m) == robot_has(
            s,
            m,
        ) by {
            if robot_has(s, m) {
                let j = robot_index_of(s, m);
                assert(up[j].name@ == m);
            }
            if robot_has(up, m) {
                let j = robot_index_of(up, m);
                assert(s[j].name@ == m);
            }
        }
        assert forall|m: Seq<char>| m != n.name@ && robot_has(s, m) implies #[trigger] robot_lookup(
            up,
            m,
        ) == robot_lookup(s, m) by {
            let j = robot_index_of(s, m);
            assert(0 <= j < s.len() && s[j].name@ == m);
            assert(j != i);
            lemma_robot_at(up, m, j);
        }
    } else {
        assert(up == s.push(n));
        assert forall|k: int| 0 <= k < s.len() implies #[trigger] up[k] == s[k] by {}
        lemma_robot_at(up, n.name@, s.len() as int);
        assert forall|m: Seq<char>| m != n.name@ implies #[trigger] robot_has(up, m) == robot_has(
            s,
            m,
        ) by {
            if robot_has(s, m) {
                let j = robot_index_of(s, m);
                assert(up[j].name@ == m);
            }
            if robot_has(up, m) {
                let j = robot_index_of(up, m);
                assert(0 <= j < up.len() && up[j].name@ == m);
                assert(j != s.len() as int);
                assert(s[j].name@ == m);
            }
        }
        assert forall|m: Seq<char>| m != n.name@ && robot_has(s, m) implies #[trigger] robot_lookup(
            up,
            m,
        ) == robot_lookup(s, m) by {
            let j = robot_index_of(s, m);
            lemma_robot_at(up, m, j);
        }
    }
}

/// Replacing the entry at `i` by one with the same name keeps the
/// registry well-formed and leaves every other lookup unchanged.
proof fn lemma_robot_update_frame(s: Seq<Robot>, i: int, r: Robot)
    requires
        distinct_robot_names(s),
        0 <= i < s.len(),
        r.name@ == s[i].name@,
    ensures
        distinct_robot_names(s.update(i, r)),
        robot_has(s, r.name@),
        robot_index_of(s, r.name@) == i,
        robot_lookup(s.update(i, r), r.name@) == r,
        forall|m: Seq<char>| #[trigger] robot_has(s.update(i, r), m) == robot_has(s, m),
        forall|m: Seq<char>|
            m != r.name@ && robot_has(s, m) ==> #[trigger] robot_lookup(s.update(i, r), m)
                == robot_lookup(s, m),
{
    let up = s.update(i, r);
    lemma_robot_at(s, r.name@, i);
    assert forall|k: int| 0 <= k < up.len() implies #[trigger] up[k].name@ == s[k].name@ by {
        if k == i {
            assert(up[k] == r);
        }
    }
    lemma_robot_at(up, r.name@, i);
    assert forall|m: Seq<char>| #[trigger] robot_has(up, m) == robot_has(s, m) by {
        if robot_has(s, m) {
            let j = robot_index_of(s, m);
            assert(up[j].name@ == m);
        }
        if robot_has(up, m) {
            let j = robot_index_of(up, m);
            assert(s[j].name@ == m);
        }
    }
    assert forall|m: Seq<char>| m != r.name@ && robot_has(s, m) implies #[trigger] robot_lookup(
        up,
        m,
    ) == robot_lookup(s, m) by {
        let j = robot_index_of(s, m);
        assert(0 <= j < s.len() && s[j].name@ == m);
        assert(j != i);
        lemma_robot_at(up, m, j);
    }
}

/// Law: overwriting one robot's velocities changes that robot's entry
/// alone; the name set, the count and every other robot are untouched,
/// and an unknown name changes nothing.
pub proof fn lemma_velocity_set_facts(s: Seq<Robot>, n: Seq<char>, l: Scalar, a: Scalar)
    requires
        distinct_robot_names(s),
    ensures
        distinct_robot_names(velocity_set(s, n, l, a)),
        velocity_set(s, n, l, a).len() == s.len(),
        forall|m: Seq<char>| #[trigger] robot_has(velocity_set(s, n, l, a), m) == robot_has(s, m),
        robot_has(s, n) ==> robot_lookup(velocity_set(s, n, l, a), n) == with_velocity(
            robot_lookup(s, n),
            l,
            a,
        ),
        forall|m: Seq<char>|
            m != n && robot_has(s, m) ==> #[trigger] robot_lookup(velocity_set(s, n, l, a), m)
                == robot_lookup(s, m),
{
    if robot_has(s, n) {
        let i = robot_index_of(s, n);
        assert(0 <= i < s.len() && s[i].name@ == n);
        lemma_robot_update_frame(s, i, with_velocity(robot_lookup(s, n), l, a));
    }
}

/// Law: teleporting one robot changes that robot's entry alone; the
/// name set, the count and every other robot are untouched, and an
/// unknown name changes nothing.
pub proof fn lemma_robot_moved_facts(s: Seq<Robot>, n: Seq<char>, x: Scalar, y: Scalar)
    requires
        distinct_robot_names(s),
    ensures
        distinct_robot_names(robot_moved(s, n, x, y)),
        robot_moved(s, n, x, y).len() == s.len(),
        forall|m: Seq<char>| #[trigger] robot_has(robot_moved(s, n, x, y), m) == robot_has(s, m),
        robot_has(s, n) ==> robot_lookup(robot_moved(s, n, x, y), n) == with_position(
            robot_lookup(s, n),
            x,
            y,
        ),
        forall|m: Seq<char>|
            m != n && robot_has(s, m) ==> #[trigger] robot_lookup(robot_moved(s, n, x, y), m)
                == robot_lookup(s, m),
{
    if robot_has(s, n) {
        let i = robot_index_of(s, n);
        assert(0 <= i < s.len() && s[i].name@ == n);
        lemma_robot_update_frame(s, i, with_position(robot_lookup(s, n), x, y));
    }
}

/// Law: applying an action token overwrites the named robot's
/// velocities with the token's profile and changes nothing else; an
/// unknown name or an unrecognized token changes nothing at all.
pub proof fn lemma_action_applied_facts(s: Seq<Robot>, n: Seq<char>, k: Seq<char>)
    requires
        distinct_robot_names(s),
    ensures
        distinct_robot_names(action_applied(s, n, k)),
        action_applied(s, n, k).len() == s.len(),
        forall|m: Seq<char>| #[trigger] robot_has(action_applied(s, n, k), m) == robot_has(s, m),
        robot_has(s, n) ==> action_applied(s, n, k) == (match action_profile(k) {
            Some(p) => velocity_set(s, n, p.0, p.1),
            None => s,
        }),
        forall|m: Seq<char>|
            m != n && robot_has(s, m) ==> #[trigger] robot_lookup(action_applied(s, n, k), m)
                == robot_lookup(s, m),
{
    if robot_has(s, n) {
        match action_profile(k) {
            Some(p) => {
                let i = robot_index_of(s, n);
                assert(0 <= i < s.len() && s[i].name@ == n);
                lemma_robot_update_frame(s, i, with_velocity(robot_lookup(s, n), p.0, p.1));
            },
            None => {},
        }
    }
}

/// Law: the per-frame advance is independent of the caller's step
/// hint. Two engines that agree on their robots and receive the same
/// poses agree on their robots after the advance, whatever hints `h1`
/// and `h2` were passed to them; by the contract of `update_robots`,
/// the hint is recorded as diagnostic state and nothing more.
pub proof fn lemma_update_ignores_hint(
    s1: Seq<Robot>,
    s2: Seq<Robot>,
    ps: Seq<Pose>,
    h1: Scalar,
    h2: Scalar,
)
    requires
        s1 == s2,
    ensures
        robots_after_update(s1, ps) == robots_after_update(s2, ps),
{
}

/// Index of the robot named `name`, if any.
fn find_robot(v: &Vec<Robot>, name: &String) -> (r: Option<usize>)
    ensures
        match r {
            Some(i) => 0 <= i < v@.len() && v@[i as int].name@ == name@,
            None => forall|k: int| 0 <= k < v@.len() ==> #[trigger] v@[k].name@ != name@,
        },
{
    let mut i: usize = 0;
    while i < v.len()
        invariant
            i <= v@.len(),
            forall|k: int| 0 <= k < i ==> #[trigger] v@[k].name@ != name@,
        decreases v@.len() - i,
    {
        if v[i].name == *name {
            return Some(i);
        }
        i = i + 1;
    }
    None
}

/// Owns robots and obstacles and the last step hint.
pub struct KinematicsEngine {
    robots: Vec<Robot>,
    obstacles: Vec<Obstacle>,
    last_update: Scalar,
}

impl KinematicsEngine {
    pub closed spec fn robots_seq(self) -> Seq<Robot> {
        self.robots@
    }

    pub closed spec fn obstacles_seq(self) -> Seq<Obstacle> {
        self.obstacles@
    }

    /// The step hint most recently passed to `update_robots`,
    /// diagnostic state only.
    pub closed spec fn last_hint(self) -> Scalar {
        self.last_update
    }

    pub open spec fn has_robot(self, m: Seq<char>) -> bool {
        robot_has(self.robots_seq(), m)
    }

    pub open spec fn robot_of(self, m: Seq<char>) -> Robot {
        robot_lookup(self.robots_seq(), m)
    }

    /// Robot names are unique.
    pub open spec fn wf(self) -> bool {
        distinct_robot_names(self.robots_seq())
    }

    /// An empty engine, with a zero step hint.
    pub fn new() -> (r: KinematicsEngine)
        ensures
            r.wf(),
            r.robots_seq() == Seq::<Robot>::empty(),
            r.obstacles_seq() == Seq::<Obstacle>::empty(),
            r.last_hint() == (Scalar { bits: 0 }),
    {
        let r = KinematicsEngine {
            robots: Vec::new(),
            obstacles: Vec::new(),
            last_update: Scalar { bits: 0 },
        };
        proof {
            assert(r.robots_seq() =~= Seq::<Robot>::empty());
            assert(r.obstacles_seq() =~= Seq::<Obstacle>::empty());
        }
        r
    }

    /// Inserts or overwrites the robot under `name` at pose
    /// `(x, y, theta = 0)` with zero velocities and the bounding box
    /// derived from `robot_type`. No error path.
    pub fn add_robot(&mut self, name: String, robot_type: String, x: Scalar, y: Scalar)
        requires
            old(self).wf(),
        ensures
            final(self).wf(),
            final(self).robots_seq() == upsert_robot(
                old(self).robots_seq(),
                (Robot {
                    name,
                    robot_type,
                    x,
                    y,
                    theta: Scalar { bits: ZERO_BITS },
                    linear_vel: Scalar { bits: ZERO_BITS },
                    angular_vel: Scalar { bits: ZERO_BITS },
                    width: bounding_box(robot_type@).0,
                    height: bounding_box(robot_type@).1,
                }),
            ),
            final(self).has_robot(name@),
            final(self).robot_of(name@) == (Robot {
                name,
                robot_type,
                x,
                y,
                theta: Scalar { bits: ZERO_BITS },
                linear_vel: Scalar { bits: ZERO_BITS },
                angular_vel: Scalar { bits: ZERO_BITS },
                width: bounding_box(robot_type@).0,
                height: bounding_box(robot_type@).1,
            }),
            forall|m: Seq<char>|
                m != name@ ==> #[trigger] final(self).has_robot(m) == old(self).has_robot(m),
            forall|m: Seq<char>|
                m != name@ && old(self).has_robot(m) ==> #[trigger] final(self).robot_of(m) == old(self).robot_of(m),
            final(self).robots_seq().len() == if old(self).has_robot(name@) {
                old(self).robots_seq().len()
            } else {
                old(self).robots_seq().len() + 1
            },
            final(self).obstacles_seq() == old(self).obstacles_seq(),
            final(self).last_hint() == old(self).last_hint(),
    {
        let t_turtle: String = "turtlebot".to_owned();
        let t_diff: String = "differential".to_owned();
        let t_acker: String = "ackermann".to_owned();
        let wh: (Scalar, Scalar) = if robot_type == t_turtle {
            (Scalar { bits: BOX_40_BITS }, Scalar { bits: BOX_40_BITS })
        } else if robot_type == t_diff {
            (Scalar { bits: BOX_50_BITS }, Scalar { bits: BOX_50_BITS })
        } else if robot_type == t_acker {
            (Scalar { bits: BOX_60_BITS }, Scalar { bits: BOX_40_BITS })
        } else {
            (Scalar { bits: BOX_40_BITS }, Scalar { bits: BOX_40_BITS })
        };
        proof {
            assert(wh == bounding_box(robot_type@));
        }
        let idx = find_robot(&self.robots, &name);
        let robot = Robot {
            name,
            robot_type,
            x,
            y,
            theta: Scalar { bits: ZERO_BITS },
            linear_vel: Scalar { bits: ZERO_BITS },
            angular_vel: Scalar { bits: ZERO_BITS },
            width: wh.0,
            height: wh.1,
        };
        let ghost s_old = self.robots@;
        match idx {
            Some(i) => {
                proof {
                    lemma_robot_at(s_old, robot.name@, i as int);
                }
                let _ = self.robots.remove(i);
                self.robots.insert(i, robot);
                proof {
                    assert(self.robots@ =~= s_old.update(i as int, robot));
                    lemma_upsert_robot_overwrites(s_old, robot);
                }
            },
            None => {
                self.robots.push(robot);
                proof {
                    assert(!robot_has(s_old, robot.name@));
                    lemma_upsert_robot_overwrites(s_old, robot);
                }
            },
        }
    }

    /// Overwrites the robot's velocities directly; a silent no-op if
    /// the robot is unknown.
    pub fn set_robot_velocity(&mut self, name: String, linear: Scalar, angular: Scalar)
        requires
            old(self).wf(),
        ensures
            final(self).wf(),
            final(self).robots_seq() == velocity_set(old(self).robots_seq(), name@, linear, angular),
            final(self).obstacles_seq() == old(self).obstacles_seq(),
            final(self).last_hint() == old(self).last_hint(),
    {
        let idx = find_robot(&self.robots, &name);
        let ghost s_old = self.robots@;
        match idx {
            None => {},
            Some(i) => {
                proof {
                    lemma_robot_at(s_old, name@, i as int);
                }
                let mut r = self.robots.remove(i);
                r.linear_vel = linear;
                r.angular_vel = angular;
                self.robots.insert(i, r);
                proof {
                    assert(r == with_velocity(s_old[i as int], linear, angular));
                    assert(self.robots@ =~= s_old.update(i as int, r));
                    lemma_robot_update_frame(s_old, i as int, r);
                }
            },
        }
    }

    /// Teleports the robot's position, heading and velocities
    /// untouched; a silent no-op if the robot is unknown.
    pub fn move_robot(&mut self, name: String, x: Scalar, y: Scalar)
        requires
            old(self).wf(),
        ensures
            final(self).wf(),
            final(self).robots_seq() == robot_moved(old(self).robots_seq(), name@, x, y),
            final(self).obstacles_seq() == old(self).obstacles_seq(),
            final(self).last_hint() == old(self).last_hint(),
    {
        let idx = find_robot(&self.robots, &name);
        let ghost s_old = self.robots@;
        match idx {
            None => {},
            Some(i) => {
                proof {
                    lemma_robot_at(s_old, name@, i as int);
                }
                let mut r = self.robots.remove(i);
                r.x = x;
                r.y = y;
                self.robots.insert(i, r);
                proof {
                    assert(r == with_position(s_old[i as int], x, y));
                    assert(self.robots@ =~= s_old.update(i as int, r));
                    lemma_robot_update_frame(s_old, i as int, r);
                }
            },
        }
    }

    /// Lowercases the action token and overwrites the robot's
    /// velocities with the matching profile; a silent no-op if the
    /// robot is unknown or the token is unrecognized.
    pub fn apply_action(&mut self, name: String, action: String)
        requires
            old(self).wf(),
        ensures
            final(self).wf(),
            final(self).robots_seq() == action_applied(
                old(self).robots_seq(),
                name@,
                lower_of(action@),
            ),
            final(self).obstacles_seq() == old(self).obstacles_seq(),
            final(self).last_hint() == old(self).last_hint(),
    {
        let key = lowercase(&action);
        let idx = find_robot(&self.robots, &name);
        let ghost s_old = self.robots@;
        match idx {
            None => {},
            Some(i) => {
                let t_forward: String = "forward".to_owned();
                let t_backward: String = "backward".to_owned();
                let t_left: String = "left".to_owned();
                let t_right: String = "right".to_owned();
                let t_stop: String = "stop".to_owned();
                let profile: Option<(Scalar, Scalar)> = if key == t_forward {
                    Some((Scalar { bits: LINEAR_FAST_BITS }, Scalar { bits: ZERO_BITS }))
                } else if key == t_backward {
                    Some((Scalar { bits: LINEAR_REVERSE_BITS }, Scalar { bits: ZERO_BITS }))
                } else if key == t_left {
                    Some((Scalar { bits: ZERO_BITS }, Scalar { bits: ANGULAR_FAST_BITS }))
                } else if key == t_right {
                    Some((Scalar { bits: ZERO_BITS }, Scalar { bits: ANGULAR_FAST_NEG_BITS }))
                } else if key == t_stop {
                    Some((Scalar { bits: ZERO_BITS }, Scalar { bits: ZERO_BITS }))
                } else {
                    None
                };
                proof {
                    assert(profile == action_profile(lower_of(action@)));
                    lemma_robot_at(s_old, name@, i as int);
                }
                match profile {
                    None => {},
                    Some(p) => {
                        let mut r = self.robots.remove(i);
                        r.linear_vel = p.0;
                        r.angular_vel = p.1;
                        self.robots.insert(i, r);
                        proof {
                            assert(r == with_velocity(s_old[i as int], p.0, p.1));
                            assert(self.robots@ =~= s_old.update(i as int, r));
                            lemma_robot_update_frame(s_old, i as int, r);
                        }
                    },
                }
            },
        }
    }

    /// The per-frame advance: records the caller's step hint as
    /// diagnostic state and replaces every robot's pose with the
    /// supplied one, in registry order. The embedding layer computes
    /// each pose by integrating with the fixed step, never with the
    /// hint; nothing in this contract depends on `dt_hint` except the
    /// recorded hint itself.
    pub fn update_robots(&mut self, dt_hint: Scalar, poses: &Vec<Pose>)
        requires
            old(self).wf(),
            poses@.len() == old(self).robots_seq().len(),
        ensures
            final(self).wf(),
            final(self).robots_seq() == robots_after_update(old(self).robots_seq(), poses@),
            final(self).obstacles_seq() == old(self).obstacles_seq(),
            final(self).last_hint() == dt_hint,
    {
        self.last_update = dt_hint;
        let ghost s_old = self.robots@;
        let ghost obs_old = self.obstacles@;
        let mut i: usize = 0;
        while i < self.robots.len()
            invariant
                self.robots@.len() == s_old.len(),
                poses@.len() == s_old.len(),
                i <= s_old.len(),
                forall|j: int|
                    0 <= j < i ==> #[trigger] self.robots@[j] == with_pose(s_old[j], poses@[j]),
                forall|j: int| i <= j < s_old.len() ==> #[trigger] self.robots@[j] == s_old[j],
                self.obstacles@ == obs_old,
                self.last_update == dt_hint,
            decreases s_old.len() - i,
        {
            let p = poses[i];
            let mut r = self.robots.remove(i);
            r.x = p.x;
            r.y = p.y;
            r.theta = p.theta;
            self.robots.insert(i, r);
            proof {
                assert(r == with_pose(s_old[i as int], poses@[i as int]));
            }
            i = i + 1;
        }
        proof {
            assert(self.robots@ =~= robots_after_update(s_old, poses@));
            assert forall|k: int|
                0 <= k < self.robots@.len() implies #[trigger] self.robots@[k].name@
                == s_old[k].name@ by {}
        }
    }

    /// Appends an anonymous obstacle; no identity, no deduplication,
    /// no validation of the shape tag.
    pub fn add_obstacle(&mut self, x: Scalar, y: Scalar, width: Scalar, height: Scalar, shape: String)
        requires
            old(self).wf(),
        ensures
            final(self).wf(),
            final(self).obstacles_seq() == old(self).obstacles_seq().push(
                (Obstacle { x, y, width, height, shape }),
            ),
            final(self).robots_seq() == old(self).robots_seq(),
            final(self).last_hint() == old(self).last_hint(),
    {
        self.obstacles.push(Obstacle { x, y, width, height, shape });
    }

    /// Empties the obstacle list only; robots are untouched.
    pub fn clear_obstacles(&mut self)
        requires
            old(self).wf(),
        ensures
            final(self).wf(),
            final(self).obstacles_seq() == Seq::<Obstacle>::empty(),
            final(self).robots_seq() == old(self).robots_seq(),
            final(self).last_hint() == old(self).last_hint(),
    {
        self.obstacles.clear();
        proof {
            assert(self.obstacles@ =~= Seq::<Obstacle>::empty());
        }
    }

    /// Empties robots and obstacles together; the recorded step hint
    /// is diagnostic state and stays.
    pub fn clear(&mut self)
        ensures
            final(self).wf(),
            final(self).robots_seq() == Seq::<Robot>::empty(),
            final(self).obstacles_seq() == Seq::<Obstacle>::empty(),
            final(self).last_hint() == old(self).last_hint(),
    {
        self.robots.clear();
        self.obstacles.clear();
        proof {
            assert(self.robots@ =~= Seq::<Robot>::empty());
            assert(self.obstacles@ =~= Seq::<Obstacle>::empty());
        }
    }

    pub fn get_robot_count(&self) -> (r: usize)
        ensures
            r == self.robots_seq().len(),
    {
        self.robots.len()
    }

    /// The full current robot listing, in unspecified order.
    pub fn get_robots(&self) -> (r: &Vec<Robot>)
        ensures
            r@ == self.robots_seq(),
    {
        &self.robots
    }

    /// The obstacle listing, in insertion order.
    pub fn get_obstacles(&self) -> (r: &Vec<Obstacle>)
        ensures
            r@ == self.obstacles_seq(),
    {
        &self.obstacles
    }
}

} // verus!
