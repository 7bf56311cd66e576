//! State and rules of a small game of pong played on a grid.
use vstd::prelude::*;

use crate::data::{group_models, name_is, position_of_name, Data, DataModel};
use crate::index::field_value;

verus! {

broadcast use group_models;

/// Positions, sizes and velocities of the paddles, the ball and the playfield.
///
/// Positions are relative to the playfield's centre; sizes are half-extents.
pub struct PongState {
    pub p1_pos: (i16, i16),
    pub p1_size: (u16, u16),
    pub p2_pos: (i16, i16),
    pub p2_size: (u16, u16),
    pub ball_pos: (i16, i16),
    pub ball_vel: (i16, i16),
    pub playfield_size: (u16, u16),
}

/// The value of `x` reinterpreted as a 16-bit signed integer (`x as i16`).
pub open spec fn signed(x: u16) -> int {
    if x < 0x8000 {
        x as int
    } else {
        x - 0x10000
    }
}

/// Reinterprets the bits of `x` as a signed integer.
fn as_signed(x: u16) -> (r: i16)
    ensures
        r == signed(x),
{
    let r = x as i16;
    assert(r == (if x < 0x8000 { x as int } else { x - 0x10000 })) by (bit_vector)
        requires
            r == x as i16,
    ;
    r
}

/// Whether `(x, y)` lies strictly inside the box of half-extents `size` centred on `pos`.
pub open spec fn strictly_inside(x: int, y: int, pos: (i16, i16), size: (u16, u16)) -> bool {
    &&& x > pos.0 - signed(size.0)
    &&& x < pos.0 + signed(size.0)
    &&& y > pos.1 - signed(size.1)
    &&& y < pos.1 + signed(size.1)
}

/// Whether `v` fits in an `i16`.
pub open spec fn fits(v: int) -> bool {
    i16::MIN <= v <= i16::MAX
}

/// Whether one tick from `s` computes every intermediate value without leaving the range of
/// `i16`.
pub open spec fn tick_in_range(s: PongState) -> bool {
    let bx = s.ball_pos.0 + s.ball_vel.0;
    let by = s.ball_pos.1 + s.ball_vel.1;
    let hit1 = strictly_inside(bx, by, s.p1_pos, s.p1_size);
    let vx1 = if hit1 { -s.ball_vel.0 } else { s.ball_vel.0 as int };
    let hit2 = strictly_inside(bx, by, s.p2_pos, s.p2_size);
    let vx2 = if hit2 { -vx1 } else { vx1 };
    let max_x = signed(s.playfield_size.0);
    let max_y = signed(s.playfield_size.1);
    &&& fits(bx) && fits(by)
    &&& fits(s.p1_pos.0 - signed(s.p1_size.0)) && fits(s.p1_pos.0 + signed(s.p1_size.0))
    &&& fits(s.p1_pos.1 - signed(s.p1_size.1)) && fits(s.p1_pos.1 + signed(s.p1_size.1))
    &&& fits(s.p2_pos.0 - signed(s.p2_size.0)) && fits(s.p2_pos.0 + signed(s.p2_size.0))
    &&& fits(s.p2_pos.1 - signed(s.p2_size.1)) && fits(s.p2_pos.1 + signed(s.p2_size.1))
    &&& fits(vx1) && fits(vx2)
    &&& fits(-max_x) && fits(-max_y)
    &&& (bx < -max_x || bx > max_x ==> fits(-vx2))
    &&& (by < -max_y || by > max_y ==> fits(-s.ball_vel.1))
}

/// The state after one tick: the ball moves by its velocity; it bounces horizontally off a
/// paddle that it lands strictly inside; leaving the playfield at the left or right puts it
/// back in the middle column with its horizontal velocity reversed; leaving it at the top or
/// bottom puts it on that edge with its vertical velocity reversed.
pub open spec fn tick_result(s: PongState) -> PongState {
    let bx = s.ball_pos.0 + s.ball_vel.0;
    let by = s.ball_pos.1 + s.ball_vel.1;
    let vx1 = if strictly_inside(bx, by, s.p1_pos, s.p1_size) { -s.ball_vel.0 } else { s.ball_vel.0 as int };
    let vx2 = if strictly_inside(bx, by, s.p2_pos, s.p2_size) { -vx1 } else { vx1 };
    let max_x = signed(s.playfield_size.0);
    let max_y = signed(s.playfield_size.1);
    let out_x = bx < -max_x || bx > max_x;
    let new_x = if out_x { 0 } else { bx };
    let new_vx = if out_x { -vx2 } else { vx2 };
    let new_y = if by < -max_y { -max_y } else if by > max_y { max_y } else { by };
    let new_vy = if by < -max_y || by > max_y { -s.ball_vel.1 } else { s.ball_vel.1 as int };
    PongState {
        p1_pos: s.p1_pos,
        p1_size: s.p1_size,
        p2_pos: s.p2_pos,
        p2_size: s.p2_size,
        ball_pos: (new_x as i16, new_y as i16),
        ball_vel: (new_vx as i16, new_vy as i16),
        playfield_size: s.playfield_size,
    }
}

impl Default for PongState {
    fn default() -> (r: Self)
        ensures
            r.p1_pos == (-8i16, -4i16) && r.p1_size == (1u16, 2u16),
            r.p2_pos == (8i16, 4i16) && r.p2_size == (1u16, 2u16),
            r.ball_pos == (0i16, 0i16) && r.ball_vel == (1i16, 1i16),
            r.playfield_size == (12u16, 6u16),
    {
        PongState {
            p1_pos: (-8, -4),
            p1_size: (1, 2),
            p2_pos: (8, 4),
            p2_size: (1, 2),
            ball_pos: (0, 0),
            ball_vel: (1, 1),
            playfield_size: (12, 6),
        }
    }
}

impl PongState {
    /// Advances the game by one step (see [`tick_result`]).
    pub fn tick(&mut self)
        requires
            tick_in_range(*old(self)),
        ensures
            *final(self) == tick_result(*old(self)),
    {
        // Integrate ball position
        self.ball_pos.0 = self.ball_pos.0 + self.ball_vel.0;
        self.ball_pos.1 = self.ball_pos.1 + self.ball_vel.1;

        // P1 collision
        let p1_min_x = self.p1_pos.0 - as_signed(self.p1_size.0);
        let p1_min_y = self.p1_pos.1 - as_signed(self.p1_size.1);

        let p1_max_x = self.p1_pos.0 + as_signed(self.p1_size.0);
        let p1_max_y = self.p1_pos.1 + as_signed(self.p1_size.1);

        if self.ball_pos.0 > p1_min_x && self.ball_pos.0 < p1_max_x && self.ball_pos.1 > p1_min_y
            && self.ball_pos.1 < p1_max_y {
            self.ball_vel.0 = -self.ball_vel.0;
        }

        // P2 collision
        let p2_min_x = self.p2_pos.0 - as_signed(self.p2_size.0);
        let p2_min_y = self.p2_pos.1 - as_signed(self.p2_size.1);

        let p2_max_x = self.p2_pos.0 + as_signed(self.p2_size.0);
        let p2_max_y = self.p2_pos.1 + as_signed(self.p2_size.1);

        if self.ball_pos.0 > p2_min_x && self.ball_pos.0 < p2_max_x && self.ball_pos.1 > p2_min_y
            && self.ball_pos.1 < p2_max_y {
            self.ball_vel.0 = -self.ball_vel.0;
        }

        // Playfield collision
        let playfield_max_x = as_signed(self.playfield_size.0);
        let playfield_max_y = as_signed(self.playfield_size.1);

        let playfield_min_x = -playfield_max_x;
        let playfield_min_y = -playfield_max_y;

        if self.ball_pos.0 < playfield_min_x {
            self.ball_pos.0 = 0;
            self.ball_vel.0 = -self.ball_vel.0;
        } else if self.ball_pos.0 > playfield_max_x {
            self.ball_pos.0 = 0;
            self.ball_vel.0 = -self.ball_vel.0;
        }
        if self.ball_pos.1 < playfield_min_y {
            self.ball_pos.1 = playfield_min_y;
            self.ball_vel.1 = -self.ball_vel.1;
        } else if self.ball_pos.1 > playfield_max_y {
            self.ball_pos.1 = playfield_max_y;
            self.ball_vel.1 = -self.ball_vel.1;
        }
    }
}

/// After a tick the ball is inside the playfield, and each component of its velocity keeps
/// its magnitude.
pub proof fn law_tick_keeps_ball_in_playfield(s: PongState)
    requires
        tick_in_range(s),
    ensures
        ({
            let t = tick_result(s);
            &&& -s.playfield_size.0 <= t.ball_pos.0 <= s.playfield_size.0
            &&& -s.playfield_size.1 <= t.ball_pos.1 <= s.playfield_size.1
            &&& (t.ball_vel.0 == s.ball_vel.0 || t.ball_vel.0 == -s.ball_vel.0)
            &&& (t.ball_vel.1 == s.ball_vel.1 || t.ball_vel.1 == -s.ball_vel.1)
        }),
{
}

/// A tick changes only the ball.
pub proof fn law_tick_moves_only_the_ball(s: PongState)
    ensures
        ({
            let t = tick_result(s);
            &&& t.p1_pos == s.p1_pos && t.p1_size == s.p1_size
            &&& t.p2_pos == s.p2_pos && t.p2_size == s.p2_size
            &&& t.playfield_size == s.playfield_size
        }),
{
}

/// The ball's position after it moves by its velocity, before anything stops it.
pub open spec fn moved_ball(s: PongState) -> (int, int) {
    (s.ball_pos.0 + s.ball_vel.0, s.ball_pos.1 + s.ball_vel.1)
}

/// Whether the moved ball lands strictly inside the paddle at `pos` of half-extents `size`.
pub open spec fn lands_in(s: PongState, pos: (i16, i16), size: (u16, u16)) -> bool {
    let (bx, by) = moved_ball(s);
    pos.0 - signed(size.0) < bx < pos.0 + signed(size.0) && pos.1 - signed(size.1) < by < pos.1 + signed(size.1)
}

/// The same game with the two paddles swapped.
pub open spec fn paddles_swapped(s: PongState) -> PongState {
    PongState { p1_pos: s.p2_pos, p1_size: s.p2_size, p2_pos: s.p1_pos, p2_size: s.p1_size, ..s }
}

/// While the moved ball stays within the playfield it stays where its velocity took it, keeps
/// its vertical velocity, and reverses its horizontal velocity exactly when it lands inside one
/// paddle but not the other (either paddle, the two alike).
pub proof fn law_tick_bounces_off_either_paddle(s: PongState)
    requires
        tick_in_range(s),
        -signed(s.playfield_size.0) <= moved_ball(s).0 <= signed(s.playfield_size.0),
        -signed(s.playfield_size.1) <= moved_ball(s).1 <= signed(s.playfield_size.1),
    ensures
        tick_result(s).ball_pos.0 == moved_ball(s).0,
        tick_result(s).ball_pos.1 == moved_ball(s).1,
        tick_result(s).ball_vel.1 == s.ball_vel.1,
        lands_in(s, s.p1_pos, s.p1_size) != lands_in(s, s.p2_pos, s.p2_size) ==> tick_result(s).ball_vel.0
            == -s.ball_vel.0,
        lands_in(s, s.p1_pos, s.p1_size) == lands_in(s, s.p2_pos, s.p2_size) ==> tick_result(s).ball_vel.0
            == s.ball_vel.0,
{
}

/// A ball that leaves the playfield at the left or right comes back in the middle column,
/// heading the other way from where the paddles sent it; one that leaves at the top or bottom
/// stays on that edge and reverses its vertical velocity.
pub proof fn law_tick_at_the_edges(s: PongState)
    requires
        tick_in_range(s),
    ensures
        ({
            let (bx, by) = moved_ball(s);
            let max_x = signed(s.playfield_size.0);
            let max_y = signed(s.playfield_size.1);
            let bounced = lands_in(s, s.p1_pos, s.p1_size) != lands_in(s, s.p2_pos, s.p2_size);
            let t = tick_result(s);
            &&& (bx < -max_x || bx > max_x) ==> t.ball_pos.0 == 0 && t.ball_vel.0 == (if bounced {
                s.ball_vel.0 as int
            } else {
                -s.ball_vel.0
            })
            &&& by < -max_y ==> t.ball_pos.1 == -max_y && t.ball_vel.1 == -s.ball_vel.1
            &&& -max_y <= by && by > max_y ==> t.ball_pos.1 == max_y && t.ball_vel.1 == -s.ball_vel.1
        }),
{
}

/// Which paddle is which makes no difference to the ball.
pub proof fn law_tick_treats_paddles_alike(s: PongState)
    requires
        tick_in_range(s),
    ensures
        tick_in_range(paddles_swapped(s)),
        tick_result(paddles_swapped(s)).ball_pos == tick_result(s).ball_pos,
        tick_result(paddles_swapped(s)).ball_vel == tick_result(s).ball_vel,
{
}

/// A rectangle of terminal cells.
#[derive(Debug, Clone, Copy, PartialEq, Eq, Structural)]
pub struct Rect {
    pub x: u16,
    pub y: u16,
    pub width: u16,
    pub height: u16,
}

/// The field `name` of a `PongState` struct value, if there is one.
pub open spec fn pong_field(d: DataModel, name: Seq<char>) -> Option<DataModel> {
    match d {
        DataModel::Struct { name: struct_name, fields } => if struct_name == "PongState"@ {
            field_value(fields, name)
        } else {
            None
        },
        _ => None,
    }
}

/// The first two elements of a tuple of `u16` values, if the value is one.
pub open spec fn u16_pair(m: Option<DataModel>) -> Option<(u16, u16)> {
    match m {
        Some(DataModel::Tuple(t)) => if t.len() >= 2 && t[0] is U16 && t[1] is U16 {
            Some((t[0]->U16_0, t[1]->U16_0))
        } else {
            None
        },
        _ => None,
    }
}

/// The first two elements of a tuple of `i16` values, if the value is one.
pub open spec fn i16_pair(m: Option<DataModel>) -> Option<(i16, i16)> {
    match m {
        Some(DataModel::Tuple(t)) => if t.len() >= 2 && t[0] is I16 && t[1] is I16 {
            Some((t[0]->I16_0, t[1]->I16_0))
        } else {
            None
        },
        _ => None,
    }
}

/// Whether `d` is a `PongState` struct whose positions are pairs of `i16` and whose sizes are
/// pairs of `u16`.
pub open spec fn pong_shaped(d: DataModel) -> bool {
    &&& u16_pair(pong_field(d, "playfield_size"@)) is Some
    &&& i16_pair(pong_field(d, "p1_pos"@)) is Some
    &&& u16_pair(pong_field(d, "p1_size"@)) is Some
    &&& i16_pair(pong_field(d, "p2_pos"@)) is Some
    &&& u16_pair(pong_field(d, "p2_size"@)) is Some
    &&& i16_pair(pong_field(d, "ball_pos"@)) is Some
}

/// The cell count that the pong widget asks for: twice the playfield's half-extents.
pub open spec fn pong_size(d: DataModel) -> (int, int) {
    let p = u16_pair(pong_field(d, "playfield_size"@))->0;
    (p.0 * 2, p.1 * 2)
}

/// The value of the 16-bit pattern of `v` read as unsigned (`v as u16` for an `i16`).
pub open spec fn unsigned(v: int) -> int {
    if v >= 0 {
        v
    } else {
        v + 0x10000
    }
}

/// Whether `v` fits in a `u16`.
pub open spec fn fits_u16(v: int) -> bool {
    0 <= v <= u16::MAX
}

/// The column of a paddle or ball's centre: its position offset by the area and the
/// playfield's half-width.
pub open spec fn cell(area: u16, pos: i16, half_extent: u16) -> int {
    signed(area) + pos + signed(half_extent)
}

/// Whether the pong widget can lay out `d` in an area at `(area_x, area_y)`: `d` has the shape
/// it reads, and every value it computes fits its type.
pub open spec fn pong_layout_ok(d: DataModel, area_x: u16, area_y: u16) -> bool {
    pong_shaped(d) && {
        let pf = u16_pair(pong_field(d, "playfield_size"@))->0;
        let p1 = i16_pair(pong_field(d, "p1_pos"@))->0;
        let s1 = u16_pair(pong_field(d, "p1_size"@))->0;
        let p2 = i16_pair(pong_field(d, "p2_pos"@))->0;
        let s2 = u16_pair(pong_field(d, "p2_size"@))->0;
        let b = i16_pair(pong_field(d, "ball_pos"@))->0;
        &&& fits_u16(pf.0 * 2) && fits_u16(pf.1 * 2)
        &&& fits_u16(area_y + pf.1 * 2) && fits_u16(area_x + pf.0 * 2)
        &&& fits(signed(area_x) + p1.0) && fits(cell(area_x, p1.0, pf.0))
        &&& fits_u16(unsigned(cell(area_x, p1.0, pf.0)) - s1.0)
        &&& fits(signed(area_y) + p1.1) && fits(cell(area_y, p1.1, pf.1))
        &&& fits_u16(unsigned(cell(area_y, p1.1, pf.1)) - s1.1)
        &&& fits_u16(s1.0 * 2) && fits_u16(s1.1 * 2)
        &&& fits(signed(area_x) + p2.0) && fits(cell(area_x, p2.0, pf.0))
        &&& fits_u16(unsigned(cell(area_x, p2.0, pf.0)) - s2.0)
        &&& fits(signed(area_y) + p2.1) && fits(cell(area_y, p2.1, pf.1))
        &&& fits_u16(unsigned(cell(area_y, p2.1, pf.1)) - s2.1)
        &&& fits_u16(s2.0 * 2) && fits_u16(s2.1 * 2)
        &&& fits(signed(area_x) + b.0) && fits(cell(area_x, b.0, pf.0))
        &&& fits(signed(area_y) + b.1) && fits(cell(area_y, b.1, pf.1))
    }
}

/// The rectangle of a paddle of half-extents `size` centred at `pos`.
pub open spec fn paddle_rect(area_x: u16, area_y: u16, pf: (u16, u16), pos: (i16, i16), size: (u16, u16)) -> Rect {
    Rect {
        x: (unsigned(cell(area_x, pos.0, pf.0)) - size.0) as u16,
        y: (unsigned(cell(area_y, pos.1, pf.1)) - size.1) as u16,
        width: (size.0 * 2) as u16,
        height: (size.1 * 2) as u16,
    }
}

/// The cells that the pong widget fills, in drawing order: the top, bottom, left and right
/// walls of the playfield, the two paddles and the ball.
pub open spec fn pong_rects(d: DataModel, area_x: u16, area_y: u16) -> Seq<Rect> {
    let pf = u16_pair(pong_field(d, "playfield_size"@))->0;
    let p1 = i16_pair(pong_field(d, "p1_pos"@))->0;
    let s1 = u16_pair(pong_field(d, "p1_size"@))->0;
    let p2 = i16_pair(pong_field(d, "p2_pos"@))->0;
    let s2 = u16_pair(pong_field(d, "p2_size"@))->0;
    let b = i16_pair(pong_field(d, "ball_pos"@))->0;
    let w = (pf.0 * 2) as u16;
    let h = (pf.1 * 2) as u16;
    seq![
        Rect { x: area_x, y: area_y, width: w, height: 1 },
        Rect { x: area_x, y: (area_y + h) as u16, width: w, height: 1 },
        Rect { x: area_x, y: area_y, width: 1, height: h },
        Rect { x: (area_x + w) as u16, y: area_y, width: 1, height: h },
        paddle_rect(area_x, area_y, pf, p1, s1),
        paddle_rect(area_x, area_y, pf, p2, s2),
        Rect {
            x: unsigned(cell(area_x, b.0, pf.0)) as u16,
            y: unsigned(cell(area_y, b.1, pf.1)) as u16,
            width: 1,
            height: 1,
        },
    ]
}

/// Reinterprets the bits of `v` as an unsigned integer.
fn as_unsigned(v: i16) -> (r: u16)
    ensures
        r == unsigned(v as int),
{
    let r = v as u16;
    assert(r == (if v >= 0 { v as int } else { v + 0x10000 })) by (bit_vector)
        requires
            r == v as u16,
    ;
    r
}

/// The first two elements of the `u16` tuple in the field `name`.
fn read_u16_pair(state: &Data, fields: &Vec<(String, Data)>, name: &str) -> (r: (u16, u16))
    requires
        state@ == (DataModel::Struct { name: "PongState"@, fields: crate::data::field_models(fields@) }),
        u16_pair(pong_field(state@, name@)) is Some,
    ensures
        r == u16_pair(pong_field(state@, name@))->0,
{
    proof {
        crate::index::lemma_field_position(fields@, name@);
    }
    let p = position_of_name(fields, name).unwrap();
    let t = fields[p].1.downcast_tuple().unwrap();
    assert(fields@[p as int].1@ == DataModel::Tuple(crate::data::models(t@)));
    assert(t@[0]@ == t@[0].model() && t@[1]@ == t@[1].model());
    let a = *t[0].downcast_u16().unwrap();
    let b = *t[1].downcast_u16().unwrap();
    (a, b)
}

/// The first two elements of the `i16` tuple in the field `name`.
fn read_i16_pair(state: &Data, fields: &Vec<(String, Data)>, name: &str) -> (r: (i16, i16))
    requires
        state@ == (DataModel::Struct { name: "PongState"@, fields: crate::data::field_models(fields@) }),
        i16_pair(pong_field(state@, name@)) is Some,
    ensures
        r == i16_pair(pong_field(state@, name@))->0,
{
    proof {
        crate::index::lemma_field_position(fields@, name@);
    }
    let p = position_of_name(fields, name).unwrap();
    let t = fields[p].1.downcast_tuple().unwrap();
    assert(fields@[p as int].1@ == DataModel::Tuple(crate::data::models(t@)));
    assert(t@[0]@ == t@[0].model() && t@[1]@ == t@[1].model());
    let a = *t[0].downcast_i16().unwrap();
    let b = *t[1].downcast_i16().unwrap();
    (a, b)
}

/// The first two elements of the `u16` tuple in the field `name` of a `PongState`, if the
/// value has them.
fn field_u16_pair(state: &Data, name: &str) -> (r: Option<(u16, u16)>)
    ensures
        r == u16_pair(pong_field(state@, name@)),
{
    match state {
        Data::Struct { name: struct_name, fields } => {
            if !name_is(struct_name, "PongState") {
                return None;
            }
            proof {
                reveal_strlit("PongState");
                crate::index::lemma_field_position(fields@, name@);
                crate::data::lemma_first_match(fields@, crate::data::has_name::<Data>(name@));
            }
            match position_of_name(fields, name) {
                Some(p) => match &fields[p].1 {
                    Data::Tuple(t) => {
                        assert(fields@[p as int].1@ == DataModel::Tuple(crate::data::models(t@)));
                        if t.len() >= 2 {
                            assert(t@[0]@ == t@[0].model() && t@[1]@ == t@[1].model());
                            match (&t[0], &t[1]) {
                                (Data::U16(a), Data::U16(b)) => Some((*a, *b)),
                                _ => None,
                            }
                        } else {
                            None
                        }
                    },
                    _ => None,
                },
                None => None,
            }
        },
        _ => None,
    }
}

/// The first two elements of the `i16` tuple in the field `name` of a `PongState`, if the
/// value has them.
fn field_i16_pair(state: &Data, name: &str) -> (r: Option<(i16, i16)>)
    ensures
        r == i16_pair(pong_field(state@, name@)),
{
    match state {
        Data::Struct { name: struct_name, fields } => {
            if !name_is(struct_name, "PongState") {
                return None;
            }
            proof {
                reveal_strlit("PongState");
                crate::index::lemma_field_position(fields@, name@);
                crate::data::lemma_first_match(fields@, crate::data::has_name::<Data>(name@));
            }
            match position_of_name(fields, name) {
                Some(p) => match &fields[p].1 {
                    Data::Tuple(t) => {
                        assert(fields@[p as int].1@ == DataModel::Tuple(crate::data::models(t@)));
                        if t.len() >= 2 {
                            assert(t@[0]@ == t@[0].model() && t@[1]@ == t@[1].model());
                            match (&t[0], &t[1]) {
                                (Data::I16(a), Data::I16(b)) => Some((*a, *b)),
                                _ => None,
                            }
                        } else {
                            None
                        }
                    },
                    _ => None,
                },
                None => None,
            }
        },
        _ => None,
    }
}

/// Whether [`size_complex`] can take `state`: it has a `u16` playfield size whose doubles fit
/// in a `u16`.
pub fn pong_size_fits(state: &Data) -> (r: bool)
    ensures
        r == (u16_pair(pong_field(state@, "playfield_size"@)) is Some && fits_u16(pong_size(state@).0)
            && fits_u16(pong_size(state@).1)),
{
    match field_u16_pair(state, "playfield_size") {
        Some((w, h)) => (w as u32) * 2 <= 0xffff && (h as u32) * 2 <= 0xffff,
        None => false,
    }
}

/// Whether `v` fits in an `i16`.
fn fits_i16(v: i64) -> (r: bool)
    ensures
        r == fits(v as int),
{
    -0x8000 <= v && v <= 0x7fff
}

/// Whether `v` fits in a `u16`.
fn fits_u16_exec(v: i64) -> (r: bool)
    ensures
        r == fits_u16(v as int),
{
    0 <= v && v <= 0xffff
}

/// The value of `v`'s 16-bit pattern read as unsigned.
fn unsigned_exec(v: i64) -> (r: i64)
    requires
        fits(v as int),
    ensures
        r == unsigned(v as int),
{
    if v >= 0 {
        v
    } else {
        v + 0x10000
    }
}

/// Whether the cells of a paddle of half-extents `size` centred at `pos` can be laid out.
fn paddle_fits(area_x: u16, area_y: u16, pf: (u16, u16), pos: (i16, i16), size: (u16, u16)) -> (r: bool)
    ensures
        r == ({
            &&& fits(signed(area_x) + pos.0) && fits(cell(area_x, pos.0, pf.0))
            &&& fits_u16(unsigned(cell(area_x, pos.0, pf.0)) - size.0)
            &&& fits(signed(area_y) + pos.1) && fits(cell(area_y, pos.1, pf.1))
            &&& fits_u16(unsigned(cell(area_y, pos.1, pf.1)) - size.1)
            &&& fits_u16(size.0 * 2) && fits_u16(size.1 * 2)
        }),
{
    let ax = as_signed(area_x) as i64;
    let ay = as_signed(area_y) as i64;
    let wx = as_signed(pf.0) as i64;
    let hy = as_signed(pf.1) as i64;
    let cx = ax + pos.0 as i64 + wx;
    let cy = ay + pos.1 as i64 + hy;
    if !(fits_i16(ax + pos.0 as i64) && fits_i16(cx) && fits_i16(ay + pos.1 as i64) && fits_i16(cy)) {
        return false;
    }
    fits_u16_exec(unsigned_exec(cx) - size.0 as i64) && fits_u16_exec(unsigned_exec(cy) - size.1 as i64)
        && fits_u16_exec(size.0 as i64 * 2) && fits_u16_exec(size.1 as i64 * 2)
}

/// Whether [`render_complex_impl`] can lay out `state` in an area at `(area_x, area_y)` (see
/// [`pong_layout_ok`]).
pub fn pong_layout_fits(state: &Data, area_x: u16, area_y: u16) -> (r: bool)
    ensures
        r == pong_layout_ok(state@, area_x, area_y),
{
    let pf = match field_u16_pair(state, "playfield_size") {
        Some(v) => v,
        None => return false,
    };
    let p1 = match field_i16_pair(state, "p1_pos") {
        Some(v) => v,
        None => return false,
    };
    let s1 = match field_u16_pair(state, "p1_size") {
        Some(v) => v,
        None => return false,
    };
    let p2 = match field_i16_pair(state, "p2_pos") {
        Some(v) => v,
        None => return false,
    };
    let s2 = match field_u16_pair(state, "p2_size") {
        Some(v) => v,
        None => return false,
    };
    let b = match field_i16_pair(state, "ball_pos") {
        Some(v) => v,
        None => return false,
    };
    let w = pf.0 as i64 * 2;
    let h = pf.1 as i64 * 2;
    if !(fits_u16_exec(w) && fits_u16_exec(h) && fits_u16_exec(area_y as i64 + h) && fits_u16_exec(area_x as i64 + w)) {
        return false;
    }
    if !(paddle_fits(area_x, area_y, pf, p1, s1) && paddle_fits(area_x, area_y, pf, p2, s2)) {
        return false;
    }
    let ax = as_signed(area_x) as i64;
    let ay = as_signed(area_y) as i64;
    fits_i16(ax + b.0 as i64) && fits_i16(ax + b.0 as i64 + as_signed(pf.0) as i64) && fits_i16(ay + b.1 as i64)
        && fits_i16(ay + b.1 as i64 + as_signed(pf.1) as i64)
}

/// The size that the pong widget asks for (see [`pong_size`]).
pub fn size_complex(state: &Data) -> (r: (u16, u16))
    requires
        u16_pair(pong_field(state@, "playfield_size"@)) is Some,
        fits_u16(pong_size(state@).0),
        fits_u16(pong_size(state@).1),
    ensures
        r.0 == pong_size(state@).0,
        r.1 == pong_size(state@).1,
{
    let fields = state.downcast_struct("PongState").unwrap();
    let (width, height) = read_u16_pair(state, fields, "playfield_size");
    (width * 2, height * 2)
}

/// The cells that the pong widget fills for `state` in an area at `(area_x, area_y)` (see
/// [`pong_rects`]).
pub fn render_complex_impl(state: &Data, area_x: u16, area_y: u16) -> (r: Vec<Rect>)
    requires
        pong_layout_ok(state@, area_x, area_y),
    ensures
        r@ == pong_rects(state@, area_x, area_y),
{
    let fields = state.downcast_struct("PongState").unwrap();

    // Walls
    let (playfield_width, playfield_height) = read_u16_pair(state, fields, "playfield_size");
    let mut rects: Vec<Rect> = Vec::new();
    rects.push(Rect { x: area_x, y: area_y, width: playfield_width * 2, height: 1 });
    rects.push(Rect { x: area_x, y: area_y + playfield_height * 2, width: playfield_width * 2, height: 1 });
    rects.push(Rect { x: area_x, y: area_y, width: 1, height: playfield_height * 2 });
    rects.push(Rect { x: area_x + playfield_width * 2, y: area_y, width: 1, height: playfield_height * 2 });

    let area_x_signed = as_signed(area_x);
    let area_y_signed = as_signed(area_y);
    let width_signed = as_signed(playfield_width);
    let height_signed = as_signed(playfield_height);

    // Players
    let (p1_x, p1_y) = read_i16_pair(state, fields, "p1_pos");
    let (p1_width, p1_height) = read_u16_pair(state, fields, "p1_size");
    rects.push(
        Rect {
            x: as_unsigned(area_x_signed + p1_x + width_signed) - p1_width,
            y: as_unsigned(area_y_signed + p1_y + height_signed) - p1_height,
            width: p1_width * 2,
            height: p1_height * 2,
        },
    );

    let (p2_x, p2_y) = read_i16_pair(state, fields, "p2_pos");
    let (p2_width, p2_height) = read_u16_pair(state, fields, "p2_size");
    rects.push(
        Rect {
            x: as_unsigned(area_x_signed + p2_x + width_signed) - p2_width,
            y: as_unsigned(area_y_signed + p2_y + height_signed) - p2_height,
            width: p2_width * 2,
            height: p2_height * 2,
        },
    );

    // Ball
    let (ball_x, ball_y) = read_i16_pair(state, fields, "ball_pos");
    rects.push(
        Rect {
            x: as_unsigned(area_x_signed + ball_x + width_signed),
            y: as_unsigned(area_y_signed + ball_y + height_signed),
            width: 1,
            height: 1,
        },
    );
    assert(rects@ =~= pong_rects(state@, area_x, area_y));
    rects
}

} // verus!
