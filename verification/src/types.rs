//! Units and component values.
//!
//! Every physical quantity is a fixed-point integer: the stored number is
//! the quantity times [`SCALE`]. Products of two such numbers are divided by
//! [`SCALE`] again, rounding toward zero, and a result that does not fit its
//! type saturates. Times are milliseconds since the server started.

use vstd::prelude::*;

verus! {

/// Stored units per physical unit.
pub const SCALE: i32 = 10_000;

pub type Distance = i32;

pub type Speed = i32;

pub type AccelScalar = i32;

pub type RotationRate = i32;

pub type Energy = i32;

pub type EnergyRegen = i32;

pub type Health = i32;

pub type HealthRegen = i32;

/// Milliseconds since the server started.
pub type Instant = u64;

/// A span of time in milliseconds.
pub type Duration = u64;

/// Quotient rounded toward zero, for a positive divisor.
pub open spec fn trunc_div(a: int, b: int) -> int {
    if a >= 0 {
        a / b
    } else {
        -((-a) / b)
    }
}

/// `v` brought into the range of `i32`.
pub open spec fn saturated(v: int) -> int {
    if v > i32::MAX {
        i32::MAX as int
    } else if v < i32::MIN {
        i32::MIN as int
    } else {
        v
    }
}

/// The product of two fixed-point numbers, as a fixed-point number.
pub open spec fn fx_mul(a: int, b: int) -> int {
    trunc_div(a * b, SCALE as int)
}

/// The time from `then` to `now`; zero where `then` is the later one.
pub open spec fn elapsed(now: Instant, then: Instant) -> Duration {
    if now >= then {
        (now - then) as u64
    } else {
        0
    }
}

/// The wire clock for a time since the server started: hundredths of a
/// millisecond, wrapping at 32 bits.
pub open spec fn clock_of(d: Duration) -> u32 {
    (((d % 0x1_0000_0000) * 100) % 0x1_0000_0000) as u32
}

/// The largest number whose square is at most `n`.
pub open spec fn isqrt(n: nat) -> nat
    decreases n,
{
    if n == 0 {
        0
    } else {
        let r = isqrt((n - 1) as nat);
        if (r + 1) * (r + 1) <= n {
            r + 1
        } else {
            r
        }
    }
}

/// `isqrt(n)` is the floor of the square root of `n`.
pub proof fn lemma_isqrt(n: nat)
    ensures
        isqrt(n) * isqrt(n) <= n < (isqrt(n) + 1) * (isqrt(n) + 1),
    decreases n,
{
    if n > 0 {
        lemma_isqrt((n - 1) as nat);
        let r = isqrt((n - 1) as nat);
        assert((r + 1) * (r + 1) < (r + 2) * (r + 2)) by (nonlinear_arith);
        assert(0 * 0 == 0 && 1 * 1 == 1) by (nonlinear_arith);
    }
}

/// Only one number has its square at most `n` and its successor's above.
pub proof fn lemma_isqrt_unique(n: nat, r: nat)
    requires
        r * r <= n < (r + 1) * (r + 1),
    ensures
        r == isqrt(n),
{
    lemma_isqrt(n);
    let s = isqrt(n);
    if r < s {
        assert((r + 1) * (r + 1) <= s * s) by (nonlinear_arith)
            requires
                r + 1 <= s,
        ;
    } else if s < r {
        assert((s + 1) * (s + 1) <= r * r) by (nonlinear_arith)
            requires
                s + 1 <= r,
        ;
    }
}

/// The square root grows with its argument.
pub proof fn lemma_isqrt_monotone(a: nat, b: nat)
    requires
        a <= b,
    ensures
        isqrt(a) <= isqrt(b),
{
    lemma_isqrt(a);
    lemma_isqrt(b);
    let r = isqrt(a);
    let s = isqrt(b);
    if s < r {
        assert((s + 1) * (s + 1) <= r * r) by (nonlinear_arith)
            requires
                s + 1 <= r,
        ;
    }
}

pub fn time_since(now: Instant, then: Instant) -> (d: Duration)
    ensures
        d == elapsed(now, then),
{
    if now >= then {
        now - then
    } else {
        0
    }
}

pub fn to_clock(d: Duration) -> (c: u32)
    ensures
        c == clock_of(d),
{
    ((d % 0x1_0000_0000) * 100 % 0x1_0000_0000) as u32
}

/// A product is no larger than the product of the bounds of its factors.
pub proof fn lemma_mul_bound(a: int, b: int, m: int, n: int)
    requires
        -m <= a <= m,
        -n <= b <= n,
    ensures
        -(m * n) <= a * b <= m * n,
{
    assert(-(m * n) <= a * b <= m * n) by (nonlinear_arith)
        requires
            -m <= a <= m,
            -n <= b <= n,
    ;
}

/// Dividing by [`SCALE`] brings a number no further from zero.
pub proof fn lemma_trunc_div_bound(a: int, m: int)
    requires
        -m <= a <= m,
    ensures
        -m <= trunc_div(a, SCALE as int) <= m,
{
}

pub fn saturate(v: i128) -> (r: i32)
    ensures
        r == saturated(v as int),
{
    if v > 0x7fff_ffff {
        0x7fff_ffff
    } else if v < -0x8000_0000 {
        -0x8000_0000
    } else {
        v as i32
    }
}

/// Divides by [`SCALE`], rounding toward zero.
pub fn unscale(a: i128) -> (r: i128)
    ensures
        r == trunc_div(a as int, SCALE as int),
{
    a / 10_000
}

/// The floor of the square root of `n`.
pub fn int_sqrt(n: u128) -> (r: u64)
    ensures
        r == isqrt(n as nat),
{
    let mut lo: u128 = 0;
    let mut hi: u128 = 0x1_0000_0000_0000_0000;
    assert(0x1_0000_0000_0000_0000u128 * 0x1_0000_0000_0000_0000u128 > n) by (nonlinear_arith)
        requires
            n <= u128::MAX,
    ;
    while hi - lo > 1
        invariant
            lo < hi <= 0x1_0000_0000_0000_0000,
            lo * lo <= n < hi * hi,
        decreases hi - lo,
    {
        let mid: u128 = lo + (hi - lo) / 2;
        assert(mid * mid <= 0xffff_ffff_ffff_ffff * 0xffff_ffff_ffff_ffff) by (nonlinear_arith)
            requires
                0 <= mid <= 0xffff_ffff_ffff_ffff,
        ;
        if mid * mid <= n {
            lo = mid;
        } else {
            hi = mid;
        }
    }
    proof {
        lemma_isqrt_unique(n as nat, lo as nat);
    }
    lo as u64
}

/// A pair of fixed-point coordinates: a position, a velocity or an
/// acceleration.
#[derive(Clone, Copy, Debug, PartialEq, Eq, Structural)]
pub struct Vector2 {
    pub x: i32,
    pub y: i32,
}

pub type Position = Vector2;

pub type Velocity = Vector2;

pub type Accel = Vector2;

impl Vector2 {
    pub fn new(x: i32, y: i32) -> (r: Self)
        ensures
            r == (Vector2 { x, y }),
    {
        Vector2 { x, y }
    }

    pub fn zero() -> (r: Self)
        ensures
            r == (Vector2 { x: 0, y: 0 }),
    {
        Vector2 { x: 0, y: 0 }
    }

    /// The square of the distance between `self` and `other`.
    pub open spec fn dist2(self, other: Vector2) -> int {
        (self.x - other.x) * (self.x - other.x) + (self.y - other.y) * (self.y - other.y)
    }

    pub fn distance_squared(self, other: Vector2) -> (r: u128)
        ensures
            r == self.dist2(other),
    {
        square_sum(self.x as i64 - other.x as i64, self.y as i64 - other.y as i64)
    }
}

/// `dx * dx + dy * dy`.
pub fn square_sum(dx: i64, dy: i64) -> (r: u128)
    ensures
        r == dx * dx + dy * dy,
{
    let wx: i128 = dx as i128;
    let wy: i128 = dy as i128;
    let ax: u128 = if wx < 0 {
        (-wx) as u128
    } else {
        wx as u128
    };
    let ay: u128 = if wy < 0 {
        (-wy) as u128
    } else {
        wy as u128
    };
    assert(ax * ax == dx * dx) by (nonlinear_arith)
        requires
            ax == dx || ax == -dx,
    ;
    assert(ay * ay == dy * dy) by (nonlinear_arith)
        requires
            ay == dy || ay == -dy,
    ;
    assert(ax * ax <= 0x8000_0000_0000_0000 * 0x8000_0000_0000_0000) by (nonlinear_arith)
        requires
            0 <= ax <= 0x8000_0000_0000_0000,
    ;
    assert(ay * ay <= 0x8000_0000_0000_0000 * 0x8000_0000_0000_0000) by (nonlinear_arith)
        requires
            0 <= ay <= 0x8000_0000_0000_0000,
    ;
    ax * ax + ay * ay
}

/// A heading, held as the sine and cosine of its angle in fixed point.
#[derive(Clone, Copy, Debug, PartialEq, Eq, Structural)]
pub struct Rotation {
    pub sin: i32,
    pub cos: i32,
}

impl Rotation {
    /// The heading of angle zero.
    pub fn zero() -> (r: Self)
        ensures
            r == (Rotation { sin: 0, cos: SCALE }),
    {
        Rotation { sin: 0, cos: SCALE }
    }

    /// `v` turned by this heading: `(x cos - y sin, x sin + y cos)`.
    pub open spec fn turned(self, v: Vector2) -> (int, int) {
        (
            trunc_div(v.x * self.cos - v.y * self.sin, SCALE as int),
            trunc_div(v.x * self.sin + v.y * self.cos, SCALE as int),
        )
    }

    pub fn rotate(self, v: Vector2) -> (r: (i64, i64))
        ensures
            (r.0 as int, r.1 as int) == self.turned(v),
            -0x4_0000_0000_0000 <= r.0 <= 0x4_0000_0000_0000,
            -0x4_0000_0000_0000 <= r.1 <= 0x4_0000_0000_0000,
    {
        let x: i128 = v.x as i128;
        let y: i128 = v.y as i128;
        let s: i128 = self.sin as i128;
        let c: i128 = self.cos as i128;
        proof {
            lemma_product_bound(x as int, c as int);
            lemma_product_bound(y as int, s as int);
            lemma_product_bound(x as int, s as int);
            lemma_product_bound(y as int, c as int);
        }
        let rx: i128 = unscale(x * c - y * s);
        let ry: i128 = unscale(x * s + y * c);
        (rx as i64, ry as i64)
    }
}

/// The product of two `i32` values is at most `2^62` in size.
pub proof fn lemma_product_bound(a: int, b: int)
    requires
        -0x8000_0000 <= a <= 0x8000_0000,
        -0x8000_0000 <= b <= 0x8000_0000,
    ensures
        -0x4000_0000_0000_0000 <= a * b <= 0x4000_0000_0000_0000,
{
    assert(-0x4000_0000_0000_0000 <= a * b <= 0x4000_0000_0000_0000) by (nonlinear_arith)
        requires
            -0x8000_0000 <= a <= 0x8000_0000,
            -0x8000_0000 <= b <= 0x8000_0000,
    ;
}

/// The side a player or a mob is on.
#[derive(Clone, Copy, Debug, PartialEq, Eq, Hash, Structural)]
pub struct Team(pub u16);

/// The kinds of plane.
#[derive(Clone, Copy, Debug, PartialEq, Eq, Hash, Structural)]
pub enum Plane {
    Predator,
    Goliath,
    Mohawk,
    Tornado,
    Prowler,
}

impl Plane {
    /// The number that stands for the plane on the wire.
    pub open spec fn spec_code(self) -> u8 {
        match self {
            Plane::Predator => 1,
            Plane::Goliath => 2,
            Plane::Mohawk => 3,
            Plane::Tornado => 4,
            Plane::Prowler => 5,
        }
    }

    #[verifier::when_used_as_spec(spec_code)]
    pub fn code(self) -> (c: u8)
        ensures
            c == self.spec_code(),
    {
        match self {
            Plane::Predator => 1,
            Plane::Goliath => 2,
            Plane::Mohawk => 3,
            Plane::Tornado => 4,
            Plane::Prowler => 5,
        }
    }

    /// The plane that `code` stands for, if any.
    pub open spec fn of_code(code: u8) -> Option<Plane> {
        if code == 1 {
            Some(Plane::Predator)
        } else if code == 2 {
            Some(Plane::Goliath)
        } else if code == 3 {
            Some(Plane::Mohawk)
        } else if code == 4 {
            Some(Plane::Tornado)
        } else if code == 5 {
            Some(Plane::Prowler)
        } else {
            None
        }
    }

    /// The plane that `code` stands for, if any.
    pub fn try_from(code: u8) -> (r: Option<Plane>)
        ensures
            r == Plane::of_code(code),
    {
        if code == 1 {
            Some(Plane::Predator)
        } else if code == 2 {
            Some(Plane::Goliath)
        } else if code == 3 {
            Some(Plane::Mohawk)
        } else if code == 4 {
            Some(Plane::Tornado)
        } else if code == 5 {
            Some(Plane::Prowler)
        } else {
            None
        }
    }
}

/// The kinds of mob: missiles and pickups.
#[derive(Clone, Copy, Debug, PartialEq, Eq, Hash, Structural)]
pub enum Mob {
    PredatorMissile,
    GoliathMissile,
    MohawkMissile,
    Upgrade,
    TornadoSingleMissile,
    TornadoTripleMissile,
    ProwlerMissile,
    Shield,
    Inferno,
}

impl Mob {
    /// The number that stands for the mob on the wire.
    pub open spec fn spec_code(self) -> u8 {
        match self {
            Mob::PredatorMissile => 1,
            Mob::GoliathMissile => 2,
            Mob::MohawkMissile => 3,
            Mob::Upgrade => 4,
            Mob::TornadoSingleMissile => 5,
            Mob::TornadoTripleMissile => 6,
            Mob::ProwlerMissile => 7,
            Mob::Shield => 8,
            Mob::Inferno => 9,
        }
    }

    #[verifier::when_used_as_spec(spec_code)]
    pub fn code(self) -> (c: u8)
        ensures
            c == self.spec_code(),
    {
        match self {
            Mob::PredatorMissile => 1,
            Mob::GoliathMissile => 2,
            Mob::MohawkMissile => 3,
            Mob::Upgrade => 4,
            Mob::TornadoSingleMissile => 5,
            Mob::TornadoTripleMissile => 6,
            Mob::ProwlerMissile => 7,
            Mob::Shield => 8,
            Mob::Inferno => 9,
        }
    }
}

/// Which keys a player holds down.
#[derive(Clone, Copy, Debug, PartialEq, Eq, Structural)]
pub struct KeyState {
    pub up: bool,
    pub down: bool,
    pub left: bool,
    pub right: bool,
    pub fire: bool,
    pub special: bool,
}

/// A nationality flag, by its number on the wire.
#[derive(Clone, Copy, Debug, PartialEq, Eq, Structural)]
pub struct FlagCode(pub u16);

/// The flag given to a player whose flag code is not known.
pub const UNITED_NATIONS: u16 = 10;

#[derive(Clone, Copy, Debug, PartialEq, Eq, Structural)]
pub struct Level(pub u8);

#[derive(Clone, Copy, Debug, PartialEq, Eq, Structural)]
pub struct Score(pub u32);

#[derive(Clone, Copy, Debug, PartialEq, Eq, Structural)]
pub struct Earnings(pub u32);

#[derive(Clone, Copy, Debug, PartialEq, Eq, Structural)]
pub struct TotalKills(pub u32);

#[derive(Clone, Copy, Debug, PartialEq, Eq, Structural)]
pub struct TotalDeaths(pub u32);

/// Whether a player's plane is in play.
#[derive(Clone, Copy, Debug, PartialEq, Eq, Structural)]
pub enum Status {
    Alive,
    Dead,
}

/// The upgrades a player has applied and has in hand.
#[derive(Clone, Copy, Debug, PartialEq, Eq, Structural)]
pub struct Upgrades {
    pub speed: u8,
    pub defense: u8,
    pub energy: u8,
    pub missile: u8,
    pub unused: u16,
}

/// The powerups a player is under.
#[derive(Clone, Copy, Debug, PartialEq, Eq, Structural)]
pub struct Powerups {
    pub shield: bool,
    pub inferno: bool,
}

/// A player's name.
pub struct Name(pub String);

/// The network connection that a command came over.
#[derive(Clone, Copy, Debug, PartialEq, Eq, Hash, Structural)]
pub struct ConnectionId(pub usize);

/// The instant a player last fired.
#[derive(Clone, Copy, Debug, PartialEq, Eq, Structural)]
pub struct LastShotTime(pub Instant);

/// The instant a mob came into being.
#[derive(Clone, Copy, Debug, PartialEq, Eq, Structural)]
pub struct MobSpawnTime(pub Instant);

/// The instant the current tick began.
#[derive(Clone, Copy, Debug, PartialEq, Eq, Structural)]
pub struct ThisFrame(pub Instant);

/// The instant the server started.
#[derive(Clone, Copy, Debug, PartialEq, Eq, Structural)]
pub struct StartTime(pub Instant);

/// The player that owns a mob.
#[derive(Clone, Copy, Debug, PartialEq, Eq, Structural)]
pub struct PlayerRef(pub crate::entity::Entity);

/// Marks an entity as a player.
#[derive(Clone, Copy, Debug, PartialEq, Eq, Structural)]
pub struct IsPlayer;

/// Marks a player as watching rather than playing.
#[derive(Clone, Copy, Debug, PartialEq, Eq, Structural)]
pub struct IsSpectating;

/// Marks a player whose plane was destroyed.
#[derive(Clone, Copy, Debug, PartialEq, Eq, Structural)]
pub struct IsDead;

/// Marks an entity as a missile.
#[derive(Clone, Copy, Debug, PartialEq, Eq, Structural)]
pub struct IsMissile;

} // verus!
