//! A camera position on an integer grid, from an early experiment.

use vstd::prelude::*;

verus! {

/// Integer position.
#[derive(Debug, Default, Clone, Copy)]
pub struct Position {
    pub x: i32,
    pub y: i32,
    pub z: i32,
}

impl Position {
    /// One step up.
    pub fn up(&mut self)
        requires
            old(self).y < i32::MAX,
        ensures
            *final(self) == (Position { y: (old(self).y + 1) as i32, ..*old(self) }),
    {
        self.y += 1;
    }

    /// Move to (a, b, c).
    pub fn position(&mut self, a: i32, b: i32, c: i32)
        ensures
            *final(self) == (Position { x: a, y: b, z: c }),
    {
        self.x = a;
        self.y = b;
        self.z = c;
    }

    /// Move by (dx, dy, dz), computing the target first.
    pub fn relative(&mut self, dx: i32, dy: i32, dz: i32)
        requires
            i32::MIN <= old(self).x + dx <= i32::MAX,
            i32::MIN <= old(self).y + dy <= i32::MAX,
            i32::MIN <= old(self).z + dz <= i32::MAX,
        ensures
            final(self).x == old(self).x + dx,
            final(self).y == old(self).y + dy,
            final(self).z == old(self).z + dz,
    {
        let k = self.x + dx;
        let l = self.y + dy;
        let m = self.z + dz;
        Position::position(self, k, l, m)
    }

    /// Move by (a, b, c) in place.
    pub fn melative(&mut self, a: i32, b: i32, c: i32)
        requires
            i32::MIN <= old(self).x + a <= i32::MAX,
            i32::MIN <= old(self).y + b <= i32::MAX,
            i32::MIN <= old(self).z + c <= i32::MAX,
        ensures
            final(self).x == old(self).x + a,
            final(self).y == old(self).y + b,
            final(self).z == old(self).z + c,
    {
        self.x += a;
        self.y += b;
        self.z += c;
    }
}

/// Moving by an offset with `relative` and with `melative` lands on the same position.
pub proof fn relative_is_melative(p: Position, q: Position, r: Position, dx: i32, dy: i32, dz: i32)
    requires
        q.x == p.x + dx && q.y == p.y + dy && q.z == p.z + dz,
        r.x == p.x + dx && r.y == p.y + dy && r.z == p.z + dz,
    ensures
        q == r,
{
}

} // verus!
