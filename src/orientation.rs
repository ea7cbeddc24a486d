use vstd::prelude::*;

verus! {

/// A settled orientation of a die.
///
/// A die at rest is turned by an element of the cube's rotation group. As a unit
/// quaternion such a rotation has 1, 2 or 4 nonzero components, all of the same
/// magnitude (1, 1/sqrt 2 or 1/2). So the quaternion is fixed by the sign of each
/// component, and this type keeps just those signs, each in {-1, 0, 1}, in the
/// order x, y, z, w.
#[derive(Clone, Copy, Debug, PartialEq, Eq, Structural)]
pub struct Orientation {
    pub x: i8,
    pub y: i8,
    pub z: i8,
    pub w: i8,
}

/// A quaternion with integer components (x, y, z, w), up to a positive factor.
pub type IntQuat = (int, int, int, int);

pub open spec fn is_sign(c: int) -> bool {
    -1 <= c <= 1
}

pub open spec fn sign_of(c: int) -> int {
    if c > 0 {
        1
    } else if c < 0 {
        -1
    } else {
        0
    }
}

pub open spec fn nonzero(c: int) -> int {
    if c != 0 {
        1
    } else {
        0
    }
}

/// Hamilton product `a * b`.
pub open spec fn quat_mul(a: IntQuat, b: IntQuat) -> IntQuat {
    (
        a.3 * b.0 + a.0 * b.3 + a.1 * b.2 - a.2 * b.1,
        a.3 * b.1 - a.0 * b.2 + a.1 * b.3 + a.2 * b.0,
        a.3 * b.2 + a.0 * b.1 - a.1 * b.0 + a.2 * b.3,
        a.3 * b.3 - a.0 * b.0 - a.1 * b.1 - a.2 * b.2,
    )
}

/// The quarter turn that a die makes when it slides by `(dx, dz)`: a turn by
/// `-dz` quarters about x, then one by `dx` quarters about z (each up to the
/// factor sqrt 2; a zero component of the slide gives the identity).
pub open spec fn slide_turn(dx: int, dz: int) -> IntQuat {
    quat_mul((0, 0, dx, 1), (-dz, 0, 0, 1))
}

pub open spec fn is_unit_delta(dx: int, dz: int) -> bool {
    (dx == 0 && (dz == 1 || dz == -1)) || (dz == 0 && (dx == 1 || dx == -1))
}

/// Two-bit code of one sign: `+` is 1, `-` is 3, zero is 0.
pub open spec fn sign_code(c: int) -> int {
    if c > 0 {
        1
    } else if c < 0 {
        3
    } else {
        0
    }
}

/// The sign that a two-bit code stands for (code 2 stands for none).
pub open spec fn code_sign(k: int) -> int {
    if k == 1 {
        1
    } else if k == 3 {
        -1
    } else {
        0
    }
}

/// The two-bit field `i` of a byte, from the high end: x, y, z, w.
pub open spec fn field(b: u8, i: int) -> int {
    if i == 0 {
        (b as int / 64) % 4
    } else if i == 1 {
        (b as int / 16) % 4
    } else if i == 2 {
        (b as int / 4) % 4
    } else {
        b as int % 4
    }
}

impl Orientation {
    pub open spec fn quat(self) -> IntQuat {
        (self.x as int, self.y as int, self.z as int, self.w as int)
    }

    pub open spec fn nonzero_count(self) -> int {
        nonzero(self.x as int) + nonzero(self.y as int) + nonzero(self.z as int) + nonzero(
            self.w as int,
        )
    }

    /// The signs describe a rotation of the cube.
    pub open spec fn wf(self) -> bool {
        &&& is_sign(self.x as int)
        &&& is_sign(self.y as int)
        &&& is_sign(self.z as int)
        &&& is_sign(self.w as int)
        &&& (self.nonzero_count() == 1 || self.nonzero_count() == 2 || self.nonzero_count() == 4)
    }

    pub open spec fn from_quat(q: IntQuat) -> Orientation {
        Orientation {
            x: sign_of(q.0) as i8,
            y: sign_of(q.1) as i8,
            z: sign_of(q.2) as i8,
            w: sign_of(q.3) as i8,
        }
    }

    /// The orientation after a slide by `(dx, dz)`.
    pub open spec fn rolled_spec(self, dx: int, dz: int) -> Orientation {
        Orientation::from_quat(quat_mul(slide_turn(dx, dz), self.quat()))
    }

    pub open spec fn byte_spec(self) -> int {
        sign_code(self.x as int) * 64 + sign_code(self.y as int) * 16 + sign_code(self.z as int) * 4
            + sign_code(self.w as int)
    }

    /// The orientation that a byte holds, field by field.
    pub open spec fn of_byte(b: u8) -> Orientation {
        Orientation {
            x: code_sign(field(b, 0)) as i8,
            y: code_sign(field(b, 1)) as i8,
            z: code_sign(field(b, 2)) as i8,
            w: code_sign(field(b, 3)) as i8,
        }
    }

    /// A byte is an orientation's code: no field is 2, and the signs describe a rotation.
    pub open spec fn byte_is_valid(b: u8) -> bool {
        &&& field(b, 0) != 2
        &&& field(b, 1) != 2
        &&& field(b, 2) != 2
        &&& field(b, 3) != 2
        &&& Orientation::of_byte(b).wf()
    }

    /// The home face up: the identity rotation (either sign of `w`).
    pub open spec fn is_identity_spec(self) -> bool {
        self.x == 0 && self.y == 0 && self.z == 0
    }

    pub fn identity() -> (r: Orientation)
        ensures
            r.wf(),
            r.is_identity_spec(),
            r.w == 1,
    {
        Orientation { x: 0, y: 0, z: 0, w: 1 }
    }

    pub fn is_identity(&self) -> (r: bool)
        ensures
            r == self.is_identity_spec(),
    {
        self.x == 0 && self.y == 0 && self.z == 0
    }

    /// Turns the die by the roll of a slide by `(dx, dz)`.
    pub fn rolled(self, dx: i32, dz: i32) -> (r: Orientation)
        requires
            self.wf(),
            is_unit_delta(dx as int, dz as int),
        ensures
            r == self.rolled_spec(dx as int, dz as int),
            r.wf(),
    {
        let x = self.x as i32;
        let y = self.y as i32;
        let z = self.z as i32;
        let w = self.w as i32;
        // A quarter turn about x (a slide along z) or about z (a slide along x).
        let (px, py, pz, pw) = if dz == 1 {
            (x - w, y + z, z - y, w + x)
        } else if dz == -1 {
            (x + w, y - z, z + y, w - x)
        } else if dx == 1 {
            (x - y, y + x, z + w, w - z)
        } else {
            (x + y, y - x, z - w, w + z)
        };
        let r = Orientation { x: sign_i32(px), y: sign_i32(py), z: sign_i32(pz), w: sign_i32(pw) };
        proof {
            lemma_rolled_cases(self, dx as int, dz as int);
            lemma_roll_wf(self, dx as int, dz as int);
        }
        r
    }

    /// The byte code of the orientation: two bits per component, x first.
    pub fn to_byte(&self) -> (r: u8)
        requires
            self.wf(),
        ensures
            r as int == self.byte_spec(),
    {
        let r = code_of(self.x) * 64 + code_of(self.y) * 16 + code_of(self.z) * 4 + code_of(self.w);
        r
    }

    /// Reads an orientation back from its byte code; `None` for a byte that is no
    /// orientation's code.
    pub fn from_byte(b: u8) -> (r: Option<Orientation>)
        ensures
            r == (if Orientation::byte_is_valid(b) {
                Some(Orientation::of_byte(b))
            } else {
                None
            }),
    {
        let f0 = b / 64 % 4;
        let f1 = b / 16 % 4;
        let f2 = b / 4 % 4;
        let f3 = b % 4;
        if f0 == 2 || f1 == 2 || f2 == 2 || f3 == 2 {
            return None;
        }
        let o = Orientation { x: sign_of_code(f0), y: sign_of_code(f1), z: sign_of_code(f2), w: sign_of_code(f3) };
        let count = (if o.x != 0 { 1u8 } else { 0 }) + (if o.y != 0 { 1u8 } else { 0 }) + (if o.z
            != 0 {
            1u8
        } else {
            0
        }) + (if o.w != 0 { 1u8 } else { 0 });
        if count == 1 || count == 2 || count == 4 {
            Some(o)
        } else {
            None
        }
    }
}

fn sign_i32(c: i32) -> (r: i8)
    ensures
        r as int == sign_of(c as int),
{
    if c > 0 {
        1
    } else if c < 0 {
        -1
    } else {
        0
    }
}

fn code_of(c: i8) -> (r: u8)
    ensures
        r as int == sign_code(c as int),
        r <= 3,
{
    if c > 0 {
        1
    } else if c < 0 {
        3
    } else {
        0
    }
}

fn sign_of_code(k: u8) -> (r: i8)
    ensures
        r as int == code_sign(k as int),
{
    if k == 1 {
        1
    } else if k == 3 {
        -1
    } else {
        0
    }
}

/// The roll of each of the four slides, written out.
proof fn lemma_rolled_cases(o: Orientation, dx: int, dz: int)
    requires
        is_unit_delta(dx, dz),
    ensures
        dz == 1 ==> o.rolled_spec(dx, dz) == Orientation::from_quat(
            (o.x - o.w, o.y + o.z, o.z - o.y, o.w + o.x),
        ),
        dz == -1 ==> o.rolled_spec(dx, dz) == Orientation::from_quat(
            (o.x + o.w, o.y - o.z, o.z + o.y, o.w - o.x),
        ),
        dx == 1 ==> o.rolled_spec(dx, dz) == Orientation::from_quat(
            (o.x - o.y, o.y + o.x, o.z + o.w, o.w - o.z),
        ),
        dx == -1 ==> o.rolled_spec(dx, dz) == Orientation::from_quat(
            (o.x + o.y, o.y - o.x, o.z - o.w, o.w + o.z),
        ),
{
    let q = o.quat();
    if dz == 1 {
        assert(dx == 0);
        assert(slide_turn(0, 1) == (-1int, 0int, 0int, 1int));
        assert(quat_mul((-1, 0, 0, 1), q) == (q.0 - q.3, q.1 + q.2, q.2 - q.1, q.3 + q.0));
    } else if dz == -1 {
        assert(dx == 0);
        assert(slide_turn(0, -1) == (1int, 0int, 0int, 1int));
        assert(quat_mul((1, 0, 0, 1), q) == (q.0 + q.3, q.1 - q.2, q.2 + q.1, q.3 - q.0));
    } else if dx == 1 {
        assert(dz == 0);
        assert(slide_turn(1, 0) == (0int, 0int, 1int, 1int));
        assert(quat_mul((0, 0, 1, 1), q) == (q.0 - q.1, q.1 + q.0, q.2 + q.3, q.3 - q.2));
    } else {
        assert(dz == 0 && dx == -1);
        assert(slide_turn(-1, 0) == (0int, 0int, -1int, 1int));
        assert(quat_mul((0, 0, -1, 1), q) == (q.0 + q.1, q.1 - q.0, q.2 - q.3, q.3 + q.2));
    }
}

/// A slide's roll keeps the signs those of a rotation of the cube.
pub proof fn lemma_roll_wf(o: Orientation, dx: int, dz: int)
    requires
        o.wf(),
        is_unit_delta(dx, dz),
    ensures
        o.rolled_spec(dx, dz).wf(),
{
    lemma_rolled_cases(o, dx, dz);
    assert(o.x == -1 || o.x == 0 || o.x == 1);
    assert(o.y == -1 || o.y == 0 || o.y == 1);
    assert(o.z == -1 || o.z == 0 || o.z == 1);
    assert(o.w == -1 || o.w == 0 || o.w == 1);
}

/// Sliding by `(dx, dz)` and then by `(-dx, -dz)` turns a die back: the second
/// roll undoes the first.
pub proof fn lemma_roll_back(o: Orientation, dx: int, dz: int)
    requires
        o.wf(),
        is_unit_delta(dx, dz),
    ensures
        o.rolled_spec(dx, dz).rolled_spec(-dx, -dz) == o,
{
    lemma_rolled_cases(o, dx, dz);
    lemma_rolled_cases(o.rolled_spec(dx, dz), -dx, -dz);
    assert(o.x == -1 || o.x == 0 || o.x == 1);
    assert(o.y == -1 || o.y == 0 || o.y == 1);
    assert(o.z == -1 || o.z == 0 || o.z == 1);
    assert(o.w == -1 || o.w == 0 || o.w == 1);
}

/// Reading back the byte of an orientation gives the orientation.
pub proof fn lemma_byte_round_trip(o: Orientation)
    requires
        o.wf(),
    ensures
        0 <= o.byte_spec() < 256,
        Orientation::byte_is_valid(o.byte_spec() as u8),
        Orientation::of_byte(o.byte_spec() as u8) == o,
{
    assert(o.x == -1 || o.x == 0 || o.x == 1);
    assert(o.y == -1 || o.y == 0 || o.y == 1);
    assert(o.z == -1 || o.z == 0 || o.z == 1);
    assert(o.w == -1 || o.w == 0 || o.w == 1);
}

} // verus!
