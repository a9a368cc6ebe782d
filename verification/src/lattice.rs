//! Where steps of two strides lead.

use vstd::arithmetic::div_mod::{
    lemma_fundamental_div_mod, lemma_mod_bound, lemma_mod_equivalence, lemma_mod_multiples_basic,
    lemma_mul_mod_noop_left,
};
use vstd::prelude::*;

verus! {

/// Where `q` steps of stride `a` and `r` steps of stride `b` lead. A step may be backwards.
pub open spec fn steps(a: int, b: int, q: int, r: int) -> int {
    q * a + r * b
}

/// Whether fewer than `w` steps of stride `a`, and fewer than `h` of stride `b`, lead to `t`.
pub open spec fn reaches(a: int, w: int, b: int, h: int, t: int) -> bool {
    exists|q: int, r: int| -w < q < w && -h < r < h && #[trigger] steps(a, b, q, r) == t
}

/// Whether `g` is the greatest common divisor of `a` and `b`, as their combination with the
/// factors `u` and `v`.
pub open spec fn divisor_of(g: int, u: int, v: int, a: int, b: int) -> bool {
    &&& g > 0
    &&& a % g == 0
    &&& b % g == 0
    &&& a * u + b * v == g
}

/// One step of Euclid's algorithm.
proof fn lemma_euclid_step(g: int, u: int, v: int, a: int, b: int)
    requires
        b > 0,
        divisor_of(g, u, v, b, a % b),
    ensures
        divisor_of(g, v, u - (a / b) * v, a, b),
{
    let q = a / b;
    let m = a % b;
    lemma_fundamental_div_mod(a, b);
    lemma_fundamental_div_mod(b, g);
    lemma_fundamental_div_mod(m, g);
    let (i, j) = (b / g, m / g);
    assert(a == (i * q + j) * g) by (nonlinear_arith)
        requires
            a == b * q + m,
            b == g * i,
            m == g * j,
    ;
    lemma_mod_multiples_basic(i * q + j, g);
    assert(a * v + b * (u - q * v) == b * u + m * v) by (nonlinear_arith)
        requires
            a == b * q + m,
    ;
}

/// The greatest common divisor of two numbers, and the factors with which they combine to it.
pub(crate) fn extended_gcd(a: u128, b: u128) -> (gcd: (u128, i128, i128))
    requires
        0 < a <= u64::MAX,
        b <= u64::MAX,
    ensures
        divisor_of(gcd.0 as int, gcd.1 as int, gcd.2 as int, a as int, b as int),
        b == 0 ==> gcd.1 == 1 && gcd.2 == 0,
        b > 0 ==> -b <= gcd.1 <= b,
        -a <= gcd.2 <= a,
    decreases b,
{
    if b == 0 {
        return (a, 1, 0);
    }
    let (g, u, v) = extended_gcd(b, a % b);
    let q: u128 = a / b;
    proof {
        lemma_euclid_step(g as int, u as int, v as int, a as int, b as int);
        lemma_fundamental_div_mod(a as int, b as int);
        assert(-a <= u - q * v <= a) by (nonlinear_arith)
            requires
                a == b * q + a % b,
                0 <= q,
                -b <= v <= b,
                a % b == 0 ==> u == 1 && v == 0,
                a % b > 0 ==> -(a % b) <= u <= a % b,
                a % b >= 0,
                a > 0,
        ;
        assert(-a <= q * v <= a) by (nonlinear_arith)
            requires
                a == b * q + a % b,
                0 <= q,
                -b <= v <= b,
                a % b >= 0,
        ;
    }
    (g, v, u - q as i128 * v)
}

/// Whether some steps, fewer than `w` of stride `a` and fewer than `h` of stride `b`, lead back
/// to where they started.
pub open spec fn comes_back(a: int, w: int, b: int, h: int) -> bool {
    exists|q: int, r: int|
        {
            &&& -w < q < w
            &&& -h < r < h
            &&& (q != 0 || r != 0)
            &&& #[trigger] steps(a, b, q, r) == 0
        }
}

/// A stride of which no step can be taken does not matter.
pub(crate) proof fn lemma_unused_strides(
    a: int,
    a2: int,
    w: int,
    b: int,
    b2: int,
    h: int,
    t: int,
)
    requires
        w == 1 || a == a2,
        h == 1 || b == b2,
    ensures
        reaches(a, w, b, h, t) == reaches(a2, w, b2, h, t),
        comes_back(a, w, b, h) == comes_back(a2, w, b2, h),
{
    assert forall|q: int, r: int|
        #![trigger steps(a, b, q, r)]
        #![trigger steps(a2, b2, q, r)]
        -w < q < w && -h < r < h implies steps(a, b, q, r) == steps(a2, b2, q, r) by {
    }
}

/// All numbers of steps of stride `a` that can be completed by steps of stride `b` to reach `t`
/// are in one residue class, which an inverse `u` of `a` determines.
proof fn lemma_class(a: int, b: int, u: int, t: int, x: int, y: int)
    requires
        b > 0,
        (a * u - 1) % b == 0,
        steps(a, b, x, y) == t,
    ensures
        x % b == (t * u) % b,
{
    let v = (a * u - 1) / b;
    lemma_fundamental_div_mod(a * u - 1, b);
    assert(x - t * u == (-x * v - y * u) * b) by (nonlinear_arith)
        requires
            a * u - 1 == b * v,
            t == x * a + y * b,
    ;
    lemma_mod_multiples_basic(-x * v - y * u, b);
    lemma_mod_equivalence(x, t * u, b);
}

/// Every number of steps of stride `a` in that residue class is completed by steps of stride `b`.
proof fn lemma_class_completed(a: int, b: int, u: int, t: int, x: int) -> (y: int)
    requires
        b > 0,
        (a * u - 1) % b == 0,
        x % b == (t * u) % b,
    ensures
        steps(a, b, x, y) == t,
{
    let v = (a * u - 1) / b;
    lemma_fundamental_div_mod(a * u - 1, b);
    lemma_mod_equivalence(x, t * u, b);
    let k = (x - t * u) / b;
    lemma_fundamental_div_mod(x - t * u, b);
    let y = -t * v - k * a;
    assert(x * a + y * b == t) by (nonlinear_arith)
        requires
            a * u - 1 == b * v,
            x - t * u == b * k,
            y == -t * v - k * a,
    ;
    y
}

/// Two numbers of one residue class that are less than the modulus apart are equal.
proof fn lemma_class_apart(x: int, y: int, b: int)
    requires
        b > 0,
        x % b == y % b,
        -b < x - y < b,
    ensures
        x == y,
{
    lemma_mod_equivalence(x, y, b);
    let k = (x - y) / b;
    lemma_fundamental_div_mod(x - y, b);
    assert(x - y == 0) by (nonlinear_arith)
        requires
            b > 0,
            x - y == b * k,
            -b < x - y < b,
    ;
}

/// A stride that is divided by a divisor stays positive, and its steps stay representable.
proof fn lemma_reduced(g: int, a: int, w: int, stride: int)
    requires
        0 < g,
        0 < w,
        0 < stride,
        stride == g * a,
    ensures
        0 < a <= stride,
        a * w <= stride * w,
{
    assert(0 < a) by (nonlinear_arith)
        requires
            0 < g,
            0 < g * a,
    ;
    assert(a <= g * a) by (nonlinear_arith)
        requires
            0 < g,
            0 < a,
    ;
    assert(a * w <= stride * w) by (nonlinear_arith)
        requires
            a <= stride,
            0 < w,
    ;
}

/// A factor of `a` in the combination to the greatest common divisor is, modulo `b`, an inverse.
proof fn lemma_inverse(g: int, a: int, b: int, u: int, v: int, inverse: int, k: int)
    requires
        0 < g,
        0 < b,
        (g * a) * u + (g * b) * v == g,
        u == b * k + inverse,
    ensures
        (a * inverse - 1) % b == 0,
{
    assert(a * u + b * v == 1) by (nonlinear_arith)
        requires
            0 < g,
            (g * a) * u + (g * b) * v == g,
    ;
    assert(a * inverse - 1 == (-v - a * k) * b) by (nonlinear_arith)
        requires
            a * u + b * v == 1,
            u == b * k + inverse,
    ;
    lemma_mod_multiples_basic(-v - a * k, b);
}

/// Steps of two strides lead to a multiple of their divisor as those of the reduced strides lead
/// to the reduced target.
proof fn lemma_steps_reduced(g: int, a: int, b: int, q: int, r: int, t: int)
    requires
        0 < g,
        steps(g * a, g * b, q, r) == g * t,
    ensures
        steps(a, b, q, r) == t,
{
    assert(q * a + r * b == t) by (nonlinear_arith)
        requires
            0 < g,
            q * (g * a) + r * (g * b) == g * t,
    ;
}

/// The fewest steps of stride `a` that cover `rest`.
proof fn lemma_ceiling(rest: int, a: int)
    requires
        0 <= rest,
        0 < a,
    ensures
        forall|x: int| x >= (rest + (a - 1)) / a <==> #[trigger] (x * a) >= rest,
{
    let f = (rest + (a - 1)) / a;
    lemma_fundamental_div_mod(rest + (a - 1), a);
    lemma_mod_bound(rest + (a - 1), a);
    let m = (rest + (a - 1)) % a;
    assert forall|x: int| x >= f <==> #[trigger] (x * a) >= rest by {
        assert(x >= f <==> x * a >= rest) by (nonlinear_arith)
            requires
                rest + (a - 1) == a * f + m,
                0 <= m < a,
                0 < a,
        ;
    }
}

/// The first number of a residue class from `from` on.
proof fn lemma_first_in_class(from: int, class: int, b: int)
    requires
        0 < b,
    ensures
        (from + (class + (b - from % b)) % b) % b == class % b,
{
    let s = class + (b - from % b);
    lemma_fundamental_div_mod(from, b);
    lemma_fundamental_div_mod(s, b);
    let first = from + s % b;
    let k = from / b + 1 - s / b;
    assert(first - class == k * b) by (nonlinear_arith)
        requires
            from == b * (from / b) + from % b,
            s == b * (s / b) + s % b,
            s == class + (b - from % b),
            first == from + s % b,
            k == from / b + 1 - s / b,
    ;
    lemma_mod_multiples_basic(k, b);
    lemma_mod_equivalence(first, class, b);
}

/// Two strides, divided by their greatest common divisor, with the number of steps in each.
pub(crate) struct Lattice {
    gcd: u128,
    a: u128,
    w: u128,
    b: u128,
    h: u128,
    /// The inverse of `a` modulo `b`.
    inverse: u128,
}

impl Lattice {
    /// The first stride.
    pub(crate) closed spec fn stride_a(&self) -> int {
        self.gcd * self.a
    }

    /// The second stride.
    pub(crate) closed spec fn stride_b(&self) -> int {
        self.gcd * self.b
    }

    /// The limit for steps of the first stride.
    pub(crate) closed spec fn limit_a(&self) -> int {
        self.w as int
    }

    /// The limit for steps of the second stride.
    pub(crate) closed spec fn limit_b(&self) -> int {
        self.h as int
    }

    /// Whether the inverse is one, and all steps together can be represented.
    pub(crate) closed spec fn wf(&self) -> bool {
        &&& self.gcd > 0
        &&& 0 < self.a <= u64::MAX
        &&& 0 < self.b <= u64::MAX
        &&& 0 < self.w <= u64::MAX
        &&& 0 < self.h <= u64::MAX
        &&& self.a * self.w <= u64::MAX
        &&& self.b * self.h <= u64::MAX
        &&& self.inverse < self.b
        &&& (self.a * self.inverse - 1) % (self.b as int) == 0
    }

    /// The strides must be positive, and each must be representable as often as it can be taken.
    pub(crate) fn new(stride_a: usize, w: usize, stride_b: usize, h: usize) -> (lattice: Self)
        requires
            0 < stride_a,
            0 < stride_b,
            0 < w,
            0 < h,
            stride_a * w <= usize::MAX,
            stride_b * h <= usize::MAX,
        ensures
            lattice.wf(),
            lattice.stride_a() == stride_a,
            lattice.stride_b() == stride_b,
            lattice.limit_a() == w,
            lattice.limit_b() == h,
    {
        let (gcd, u, v) = extended_gcd(stride_a as u128, stride_b as u128);
        proof {
            lemma_fundamental_div_mod(stride_a as int, gcd as int);
            lemma_fundamental_div_mod(stride_b as int, gcd as int);
        }
        let a: u128 = stride_a as u128 / gcd;
        let b: u128 = stride_b as u128 / gcd;
        proof {
            lemma_reduced(gcd as int, a as int, w as int, stride_a as int);
            lemma_reduced(gcd as int, b as int, h as int, stride_b as int);
        }
        let inverse: u128 = if u >= 0 {
            u as u128 % b
        } else {
            (b - (-u) as u128 % b) % b
        };
        proof {
            let (iu, iv, ia, ib) = (u as int, v as int, a as int, b as int);
            if u >= 0 {
                lemma_fundamental_div_mod(iu, ib);
                lemma_inverse(gcd as int, ia, ib, iu, iv, inverse as int, iu / ib);
            } else {
                let m = (-iu) % ib;
                lemma_fundamental_div_mod(-iu, ib);
                lemma_mod_bound(-iu, ib);
                lemma_fundamental_div_mod(ib - m, ib);
                let k = -((-iu) / ib) - 1 + (ib - m) / ib;
                assert(iu == ib * k + inverse as int) by (nonlinear_arith)
                    requires
                        -iu == ib * ((-iu) / ib) + m,
                        ib - m == ib * ((ib - m) / ib) + inverse as int,
                        k == -((-iu) / ib) - 1 + (ib - m) / ib,
                ;
                lemma_inverse(gcd as int, ia, ib, iu, iv, inverse as int, k);
            }
        }
        Lattice { gcd, a, w: w as u128, b, h: h as u128, inverse }
    }

    /// Whether steps within the limits, and some of them, lead back to where they started.
    pub(crate) fn comes_back(&self) -> (found: bool)
        requires
            self.wf(),
        ensures
            found == comes_back(self.stride_a(), self.limit_a(), self.stride_b(), self.limit_b()),
    {
        proof {
            let (g, a, b, w, h) = (
                self.gcd as int,
                self.a as int,
                self.b as int,
                self.w as int,
                self.h as int,
            );
            if b < w && a < h {
                assert(b * (g * a) + (-a) * (g * b) == 0) by (nonlinear_arith);
                assert(steps(g * a, g * b, b, -a) == 0);
            }
            if comes_back(g * a, w, g * b, h) {
                let (q, r) = choose|q: int, r: int|
                    {
                        &&& -w < q < w
                        &&& -h < r < h
                        &&& (q != 0 || r != 0)
                        &&& #[trigger] steps(g * a, g * b, q, r) == 0
                    };
                lemma_steps_reduced(g, a, b, q, r, 0);
                lemma_class(a, b, self.inverse as int, 0, q, r);
                lemma_mod_equivalence(q, 0, b);
                let k = q / b;
                lemma_fundamental_div_mod(q, b);
                assert(r == -k * a) by (nonlinear_arith)
                    requires
                        q == b * k,
                        q * a + r * b == 0,
                        b > 0,
                ;
                assert(b < w && a < h) by (nonlinear_arith)
                    requires
                        q == b * k,
                        r == -k * a,
                        q != 0 || r != 0,
                        -w < q < w,
                        -h < r < h,
                        a > 0,
                        b > 0,
                ;
            }
        }
        self.b < self.w && self.a < self.h
    }

    /// Whether steps within the limits lead to `t`.
    pub(crate) fn reaches(&self, t: usize) -> (found: bool)
        requires
            self.wf(),
        ensures
            found == reaches(
                self.stride_a(),
                self.limit_a(),
                self.stride_b(),
                self.limit_b(),
                t as int,
            ),
    {
        let ghost (g, a, b, w, h) = (
            self.gcd as int,
            self.a as int,
            self.b as int,
            self.w as int,
            self.h as int,
        );
        let t: u128 = t as u128;
        if t % self.gcd != 0 {
            proof {
                if reaches(g * a, w, g * b, h, t as int) {
                    let (q, r) = choose|q: int, r: int|
                        -w < q < w && -h < r < h && #[trigger] steps(g * a, g * b, q, r) == t;
                    assert((q * a + r * b) * g == t) by (nonlinear_arith)
                        requires
                            q * (g * a) + r * (g * b) == t,
                    ;
                    lemma_mod_multiples_basic(q * a + r * b, g);
                }
            }
            return false;
        }
        let reduced: u128 = t / self.gcd;
        proof {
            lemma_fundamental_div_mod(t as int, g);
            assert(reduced <= t) by (nonlinear_arith)
                requires
                    t == g * reduced,
                    g > 0,
                    reduced >= 0,
            ;
            assert((w - 1) * a <= a * w && (h - 1) * b <= b * h) by (nonlinear_arith)
                requires
                    a > 0,
                    b > 0,
            ;
            assert(0 <= (w - 1) * a && 0 <= (h - 1) * b) by (nonlinear_arith)
                requires
                    a > 0,
                    b > 0,
                    w > 0,
                    h > 0,
            ;
        }
        // With all steps counted from the limits backwards, no number is negative.
        let total: u128 = reduced + (self.w - 1) * self.a + (self.h - 1) * self.b;
        let found: bool = self.reaches_forwards(total);
        proof {
            if reaches(g * a, w, g * b, h, t as int) {
                let (q, r) = choose|q: int, r: int|
                    -w < q < w && -h < r < h && #[trigger] steps(g * a, g * b, q, r) == t;
                lemma_steps_reduced(g, a, b, q, r, reduced as int);
                let (x, y) = (q + w - 1, r + h - 1);
                assert(x * a + y * b == total) by (nonlinear_arith)
                    requires
                        q * a + r * b == reduced,
                        x == q + w - 1,
                        y == r + h - 1,
                        total == reduced + (w - 1) * a + (h - 1) * b,
                ;
                assert(steps(a, b, x, y) == total);
            }
            if found {
                let (x, y) = choose|x: int, y: int|
                    {
                        &&& 0 <= x <= 2 * (w - 1)
                        &&& 0 <= y <= 2 * (h - 1)
                        &&& #[trigger] steps(a, b, x, y) == total
                    };
                let (q, r) = (x - (w - 1), y - (h - 1));
                assert(q * (g * a) + r * (g * b) == t) by (nonlinear_arith)
                    requires
                        x * a + y * b == total,
                        q == x - (w - 1),
                        r == y - (h - 1),
                        total == reduced + (w - 1) * a + (h - 1) * b,
                        t == g * reduced,
                ;
                assert(steps(g * a, g * b, q, r) == t);
            }
        }
        found
    }

    /// Whether forward steps of the reduced strides, up to twice as many as the limits leave on
    /// either side, lead to `total`.
    fn reaches_forwards(&self, total: u128) -> (found: bool)
        requires
            self.wf(),
            total <= 3 * u64::MAX,
        ensures
            found == exists|x: int, y: int|
                {
                    &&& 0 <= x <= 2 * (self.w - 1)
                    &&& 0 <= y <= 2 * (self.h - 1)
                    &&& #[trigger] steps(self.a as int, self.b as int, x, y) == total
                },
    {
        let ghost (a, b, w, h, u) = (
            self.a as int,
            self.b as int,
            self.w as int,
            self.h as int,
            self.inverse as int,
        );
        proof {
            assert((total % self.b) * u <= u64::MAX * u64::MAX) by (nonlinear_arith)
                requires
                    0 <= total % self.b <= u64::MAX,
                    0 <= u <= u64::MAX,
            ;
            assert(0 <= 2 * (h - 1) * b <= 2 * u64::MAX) by (nonlinear_arith)
                requires
                    0 < b,
                    0 < h,
                    b * h <= u64::MAX,
            ;
        }
        // The residue class of the steps of the first stride.
        let class: u128 = ((total % self.b) * self.inverse) % self.b;
        // What steps of the first stride must cover at least, and the fewest that do.
        let most_b: u128 = 2 * (self.h - 1) * self.b;
        let rest: u128 = if total > most_b {
            total - most_b
        } else {
            0
        };
        let fewest: u128 = (rest + (self.a - 1)) / self.a;
        let most: u128 = total / self.a;
        // The first in the class from there on.
        let first: u128 = fewest + (class + (self.b - fewest % self.b)) % self.b;
        let found: bool = first <= 2 * (self.w - 1) && first <= most;
        proof {
            let (f, m, c) = (fewest as int, most as int, class as int);
            lemma_mul_mod_noop_left(total as int, u, b);
            lemma_ceiling(rest as int, a);
            lemma_fundamental_div_mod(total as int, a);
            lemma_mod_bound(total as int, a);
            lemma_mod_bound(c + (b - f % b), b);
            lemma_first_in_class(f, c, b);
            vstd::arithmetic::div_mod::lemma_mod_twice(total * u, b);
            if found {
                let x = first as int;
                let y = lemma_class_completed(a, b, u, total as int, x);
                assert(0 <= y <= 2 * (h - 1)) by (nonlinear_arith)
                    requires
                        x * a + y * b == total,
                        x <= m,
                        total == a * m + total % self.a,
                        0 <= total % self.a,
                        x * a >= rest,
                        rest >= total - 2 * (h - 1) * b,
                        0 < b,
                        0 < a,
                ;
                assert(steps(a, b, x, y) == total);
            }
            assert forall|x: int, y: int|
                {
                    &&& 0 <= x <= 2 * (w - 1)
                    &&& 0 <= y <= 2 * (h - 1)
                    &&& #[trigger] steps(a, b, x, y) == total
                } implies found by {
                lemma_class(a, b, u, total as int, x, y);
                assert(x * a >= rest) by (nonlinear_arith)
                    requires
                        x * a + y * b == total,
                        y <= 2 * (h - 1),
                        0 <= x,
                        0 < a,
                        0 < b,
                        rest == 0 || rest == total - 2 * (h - 1) * b,
                ;
                assert(x <= m) by (nonlinear_arith)
                    requires
                        x * a + y * b == total,
                        0 <= y,
                        0 < b,
                        0 < a,
                        total == a * m + total % self.a,
                        total % self.a < a,
                ;
                if x < first {
                    lemma_class_apart(x, first as int, b);
                }
            }
        }
        found
    }
}

} // verus!
