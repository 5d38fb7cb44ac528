//! Shamir's secret sharing over the field of 256 elements, byte by byte.

use crate::primitives::{random_bytes, zbase32, zbase32_encode};
use crate::shamir::gf256::{gf_inv, gf_mul, invert, multiply};
use vstd::prelude::*;
use vstd::string::StringExecFns;

pub mod gf256;
pub mod interpolation;

verus! {

/// Error of the secret sharing.
#[derive(Clone, Copy, Debug, PartialEq, Eq, Structural)]
pub enum ShamirError {
    /// The threshold is 0 or above 255.
    InvalidThreshold,
    /// The dealer has handed out all 255 shards.
    Exhausted,
    /// No shard was given.
    NoShards,
    /// A shard lies at 0, where the secret lies.
    InvalidShard,
    /// Two shards lie at the same point.
    DuplicateShard,
    /// The shards do not all have one length.
    LengthMismatch,
    /// The random bytes are not as many as the coefficients to be drawn.
    RandomnessLength,
}

impl ShamirError {
    /// What the error says.
    pub open spec fn text(self) -> Seq<char> {
        match self {
            ShamirError::InvalidThreshold => "the threshold is not between 1 and 255"@,
            ShamirError::Exhausted => "all 255 shards have been dealt"@,
            ShamirError::NoShards => "no shards were given"@,
            ShamirError::InvalidShard => "a shard lies at 0"@,
            ShamirError::DuplicateShard => "two shards lie at one point"@,
            ShamirError::LengthMismatch => "the shards differ in length"@,
            ShamirError::RandomnessLength => "the number of random bytes is wrong"@,
        }
    }

    /// What the error says.
    pub fn message(&self) -> (s: String)
        ensures
            s@ == self.text(),
    {
        match self {
            ShamirError::InvalidThreshold => String::from_str(
                "the threshold is not between 1 and 255",
            ),
            ShamirError::Exhausted => String::from_str("all 255 shards have been dealt"),
            ShamirError::NoShards => String::from_str("no shards were given"),
            ShamirError::InvalidShard => String::from_str("a shard lies at 0"),
            ShamirError::DuplicateShard => String::from_str("two shards lie at one point"),
            ShamirError::LengthMismatch => String::from_str("the shards differ in length"),
            ShamirError::RandomnessLength => String::from_str(
                "the number of random bytes is wrong",
            ),
        }
    }
}

/// One share of a secret: for each byte of the secret the value at `x` of
/// the polynomial that hides the byte at 0.
#[derive(Debug, PartialEq, Eq)]
pub struct Shard {
    pub x: u8,
    pub ys: Vec<u8>,
}

/// A [`Shard`] with its values as a byte sequence.
pub struct ShardView {
    pub x: u8,
    pub ys: Seq<u8>,
}

impl View for Shard {
    type V = ShardView;

    open spec fn view(&self) -> ShardView {
        ShardView { x: self.x, ys: self.ys@ }
    }
}

impl ShardView {
    /// The identifier of the shard: the z-base-32 encoding of its point.
    pub open spec fn id(self) -> Seq<char> {
        zbase32(seq![self.x])
    }

    /// The shard does not lie at 0, and the number of its values is a size.
    pub open spec fn wf(self) -> bool {
        self.x != 0 && self.ys.len() <= usize::MAX
    }
}

impl Shard {
    /// The number of characters of the identifier of a shard.
    pub const ID_LENGTH: usize = 2;

    /// The identifier of the shard.
    pub fn id(&self) -> (id: String)
        ensures
            id@ == self@.id(),
            id@.len() == 2,
    {
        let point = [self.x];
        assert(point@ =~= seq![self.x]);
        zbase32_encode(point.as_slice())
    }
}

impl Clone for Shard {
    fn clone(&self) -> (r: Self)
        ensures
            r@ == self@,
    {
        Shard { x: self.x, ys: self.ys.clone() }
    }
}

/// The shards as values.
pub open spec fn shard_views(shards: Seq<Shard>) -> Seq<ShardView> {
    Seq::new(shards.len(), |j: int| shards[j]@)
}

/// The value at `x` of the polynomial with the coefficients `p`, that of
/// the lowest power first.
pub open spec fn eval(p: Seq<u8>, x: u8) -> u8
    decreases p.len(),
{
    if p.len() == 0 {
        0
    } else {
        p[0] ^ gf_mul(x, eval(p.drop_first(), x))
    }
}

/// What the point `xs[m]` adds to the weight of the point `xs[j]`.
pub open spec fn factor(xs: Seq<u8>, j: int, m: int) -> u8 {
    if m == j {
        1
    } else {
        gf_mul(xs[m], gf_inv(xs[m] ^ xs[j]))
    }
}

/// The product of what the first `n` points add to the weight of the point
/// `xs[j]`.
pub open spec fn weight_upto(xs: Seq<u8>, j: int, n: int) -> u8
    decreases n,
{
    if n <= 0 {
        1
    } else {
        gf_mul(weight_upto(xs, j, n - 1), factor(xs, j, n - 1))
    }
}

/// The weight of the value at `xs[j]` in the value at 0 of the polynomial
/// through values at the points `xs`.
pub open spec fn weight(xs: Seq<u8>, j: int) -> u8 {
    weight_upto(xs, j, xs.len() as int)
}

/// The sum of the first `k` values, each times its weight.
pub open spec fn weighted_sum(xs: Seq<u8>, ys: Seq<u8>, k: int) -> u8
    decreases k,
{
    if k <= 0 {
        0
    } else {
        weighted_sum(xs, ys, k - 1) ^ gf_mul(ys[k - 1], weight(xs, k - 1))
    }
}

/// The value at 0 of the polynomial of lowest degree that has the values
/// `ys` at the points `xs`.
pub open spec fn interpolate(xs: Seq<u8>, ys: Seq<u8>) -> u8 {
    weighted_sum(xs, ys, xs.len() as int)
}

/// The points of the shards.
pub open spec fn points(shards: Seq<ShardView>) -> Seq<u8> {
    Seq::new(shards.len(), |j: int| shards[j].x)
}

/// The values of the shards for byte `i` of the secret.
pub open spec fn values_at(shards: Seq<ShardView>, i: int) -> Seq<u8> {
    Seq::new(shards.len(), |j: int| shards[j].ys[i])
}

/// Whether no two of the points are the same.
pub open spec fn distinct(xs: Seq<u8>) -> bool {
    forall|i: int, j: int| 0 <= i < j < xs.len() ==> xs[i] != xs[j]
}

/// What the shards combine to: for every byte the value at 0 of the
/// polynomial through the values of the shards. Shards are refused where
/// there is none, where one lies at 0, where they differ in length, and where
/// two lie at one point, in this order.
pub open spec fn combined(shards: Seq<ShardView>) -> Result<Seq<u8>, ShamirError> {
    if shards.len() == 0 {
        Err(ShamirError::NoShards)
    } else if exists|j: int| 0 <= j < shards.len() && (#[trigger] shards[j]).x == 0 {
        Err(ShamirError::InvalidShard)
    } else if exists|j: int|
        0 <= j < shards.len() && (#[trigger] shards[j]).ys.len() != shards[0].ys.len() {
        Err(ShamirError::LengthMismatch)
    } else if !distinct(points(shards)) {
        Err(ShamirError::DuplicateShard)
    } else {
        Ok(
            Seq::new(
                shards[0].ys.len(),
                |i: int| interpolate(points(shards), values_at(shards, i)),
            ),
        )
    }
}

/// The shards, each moved from its point x to x + `t`.
pub open spec fn shifted(shards: Seq<ShardView>, t: u8) -> Seq<ShardView> {
    Seq::new(shards.len(), |j: int| ShardView { x: shards[j].x ^ t, ys: shards[j].ys })
}

/// The shard at the point `t` that the shards extend to: for every byte the
/// value at `t` of the polynomial through the values of the shards. It
/// takes shards that combine, and a point other than 0 at which none of
/// them lies.
pub open spec fn extended(shards: Seq<ShardView>, t: u8) -> Result<ShardView, ShamirError> {
    if t == 0 {
        Err(ShamirError::InvalidShard)
    } else {
        match combined(shards) {
            Err(e) => Err(e),
            Ok(_) => match combined(shifted(shards, t)) {
                Err(_) => Err(ShamirError::DuplicateShard),
                Ok(ys) => Ok(ShardView { x: t, ys }),
            },
        }
    }
}

/// The weights of the values of the shards.
fn weights(shards: &[Shard]) -> (ws: Vec<u8>)
    ensures
        ws@.len() == shards@.len(),
        forall|j: int|
            0 <= j < ws@.len() ==> ws@[j] == weight(points(shard_views(shards@)), j),
{
    let ghost xs = points(shard_views(shards@));
    let n = shards.len();
    let mut ws: Vec<u8> = Vec::new();
    let mut j: usize = 0;
    while j < n
        invariant
            j <= n,
            n == shards@.len(),
            xs == points(shard_views(shards@)),
            ws@.len() == j,
            forall|t: int| 0 <= t < j ==> ws@[t] == weight(xs, t),
        decreases n - j,
    {
        let mut w: u8 = 1;
        let mut m: usize = 0;
        while m < n
            invariant
                m <= n,
                j < n,
                n == shards@.len(),
                xs == points(shard_views(shards@)),
                w == weight_upto(xs, j as int, m as int),
            decreases n - m,
        {
            let f = if m == j {
                1
            } else {
                multiply(shards[m].x, invert(shards[m].x ^ shards[j].x))
            };
            w = multiply(w, f);
            m += 1;
        }
        ws.push(w);
        j += 1;
    }
    ws
}

/// Combines shards to the secret that they share.
pub fn combine(shards: &[Shard]) -> (r: Result<Vec<u8>, ShamirError>)
    ensures
        match r {
            Ok(secret) => combined(shard_views(shards@)) == Ok::<_, ShamirError>(secret@),
            Err(e) => combined(shard_views(shards@)) == Err::<Seq<u8>, _>(e),
        },
{
    let ghost views = shard_views(shards@);
    let n = shards.len();
    if n == 0 {
        return Err(ShamirError::NoShards);
    }
    let mut j: usize = 0;
    while j < n
        invariant
            j <= n,
            n == shards@.len(),
            views == shard_views(shards@),
            forall|t: int| 0 <= t < j ==> views[t].x != 0,
        decreases n - j,
    {
        if shards[j].x == 0 {
            assert(views[j as int].x == 0);
            return Err(ShamirError::InvalidShard);
        }
        j += 1;
    }
    let len = shards[0].ys.len();
    let mut j: usize = 0;
    while j < n
        invariant
            j <= n,
            n == shards@.len(),
            views == shard_views(shards@),
            len == views[0].ys.len(),
            forall|t: int| 0 <= t < n ==> views[t].x != 0,
            forall|t: int| 0 <= t < j ==> views[t].ys.len() == len,
        decreases n - j,
    {
        if shards[j].ys.len() != len {
            assert(views[j as int].ys.len() != views[0].ys.len());
            return Err(ShamirError::LengthMismatch);
        }
        j += 1;
    }
    let mut j: usize = 0;
    while j < n
        invariant
            j <= n,
            n == shards@.len(),
            views == shard_views(shards@),
            len == views[0].ys.len(),
            forall|t: int| 0 <= t < n ==> views[t].x != 0,
            forall|t: int| 0 <= t < n ==> views[t].ys.len() == len,
            forall|s: int, t: int| 0 <= s < t < j ==> views[s].x != views[t].x,
        decreases n - j,
    {
        let mut s: usize = 0;
        while s < j
            invariant
                s <= j,
                j < n,
                n == shards@.len(),
                views == shard_views(shards@),
                len == views[0].ys.len(),
                forall|t: int| 0 <= t < n ==> views[t].x != 0,
                forall|t: int| 0 <= t < n ==> views[t].ys.len() == len,
                forall|t: int| 0 <= t < s ==> views[t].x != views[j as int].x,
            decreases j - s,
        {
            if shards[s].x == shards[j].x {
                assert(points(views)[s as int] == points(views)[j as int]);
                return Err(ShamirError::DuplicateShard);
            }
            s += 1;
        }
        j += 1;
    }
    let ws = weights(shards);
    let mut secret: Vec<u8> = Vec::new();
    let mut i: usize = 0;
    while i < len
        invariant
            i <= len,
            n == shards@.len(),
            n > 0,
            views == shard_views(shards@),
            len == views[0].ys.len(),
            forall|t: int| 0 <= t < n ==> views[t].ys.len() == len,
            ws@.len() == n,
            forall|t: int| 0 <= t < n ==> ws@[t] == weight(points(views), t),
            secret@.len() == i,
            forall|b: int|
                0 <= b < i ==> secret@[b] == interpolate(points(views), values_at(views, b)),
        decreases len - i,
    {
        let mut sum: u8 = 0;
        let mut j: usize = 0;
        while j < n
            invariant
                j <= n,
                i < len,
                n == shards@.len(),
                views == shard_views(shards@),
                forall|t: int| 0 <= t < n ==> views[t].ys.len() == len,
                ws@.len() == n,
                forall|t: int| 0 <= t < n ==> ws@[t] == weight(points(views), t),
                sum == weighted_sum(points(views), values_at(views, i as int), j as int),
            decreases n - j,
        {
            assert(views[j as int].ys.len() == len);
            sum = sum ^ multiply(shards[j].ys[i], ws[j]);
            j += 1;
        }
        secret.push(sum);
        i += 1;
    }
    assert(secret@ =~= Seq::new(
        views[0].ys.len(),
        |i: int| interpolate(points(views), values_at(views, i)),
    ));
    Ok(secret)
}

/// Extends shards by the shard at the point `t` that lies on the polynomials
/// through them.
pub fn extend(shards: &[Shard], t: u8) -> (r: Result<Shard, ShamirError>)
    ensures
        match r {
            Ok(shard) => extended(shard_views(shards@), t) == Ok::<_, ShamirError>(shard@),
            Err(e) => extended(shard_views(shards@), t) == Err::<ShardView, _>(e),
        },
{
    if t == 0 {
        return Err(ShamirError::InvalidShard);
    }
    match combine(shards) {
        Ok(_) => {},
        Err(e) => return Err(e),
    }
    let mut moved: Vec<Shard> = Vec::new();
    let mut j: usize = 0;
    while j < shards.len()
        invariant
            j <= shards@.len(),
            moved@.len() == j,
            forall|i: int|
                0 <= i < j ==> (#[trigger] moved@[i])@ == shifted(shard_views(shards@), t)[i],
        decreases shards@.len() - j,
    {
        moved.push(Shard { x: shards[j].x ^ t, ys: shards[j].ys.clone() });
        j += 1;
    }
    assert(shard_views(moved@) =~= shifted(shard_views(shards@), t));
    match combine(moved.as_slice()) {
        Ok(ys) => Ok(Shard { x: t, ys }),
        Err(_) => Err(ShamirError::DuplicateShard),
    }
}

/// Piece `i` of `n` pieces of `extra` bytes lies within them.
proof fn lemma_piece(i: nat, n: nat, extra: nat)
    requires
        i < n,
    ensures
        i * extra + extra == (i + 1) * extra,
        (i + 1) * extra <= n * extra,
        i * extra >= 0,
{
    assert(i * extra + extra == (i + 1) * extra) by (nonlinear_arith);
    assert((i + 1) * extra <= n * extra) by (nonlinear_arith)
        requires
            i + 1 <= n,
    ;
}

/// The polynomials of a dealer: for every byte of the secret the
/// coefficients of a polynomial that has the byte as its value at 0.
pub struct DealerView {
    pub polys: Seq<Seq<u8>>,
    /// The point of the next shard, 0 when all have been dealt.
    pub next_x: u8,
}

impl DealerView {
    /// The secret: the values at 0.
    pub open spec fn secret(self) -> Seq<u8> {
        Seq::new(self.polys.len(), |i: int| self.polys[i][0])
    }

    /// The number of shards that determine the secret: the number of
    /// coefficients of each polynomial.
    pub open spec fn threshold(self) -> nat {
        if self.polys.len() == 0 {
            0
        } else {
            self.polys[0].len()
        }
    }

    /// The shard at the point `x`.
    pub open spec fn shard_at(self, x: u8) -> ShardView {
        ShardView { x, ys: Seq::new(self.polys.len(), |i: int| eval(self.polys[i], x)) }
    }

    /// The dealer for `secret` with threshold `threshold` that takes its
    /// coefficients from `randomness`: for byte `i` the `threshold - 1` bytes
    /// from `i * (threshold - 1)` on.
    pub open spec fn dealt(threshold: nat, secret: Seq<u8>, randomness: Seq<u8>) -> DealerView {
        DealerView {
            polys: Seq::new(
                secret.len(),
                |i: int|
                    seq![secret[i]] + randomness.subrange(
                        i * (threshold - 1),
                        (i + 1) * (threshold - 1),
                    ),
            ),
            next_x: 1,
        }
    }
}

/// Deals the shards of a secret: holds the polynomials, and hands out their
/// values at the points 1, 2 and so on up to 255.
pub struct Dealer {
    threshold: u8,
    polys: Vec<Vec<u8>>,
    next_x: u8,
}

impl Dealer {
    #[verifier::type_invariant]
    spec fn well_formed(self) -> bool {
        &&& self.threshold >= 1
        &&& forall|i: int|
            0 <= i < self.polys@.len() ==> (#[trigger] self.polys@[i])@.len() == self.threshold
    }

    /// The polynomials and the next point.
    pub closed spec fn view(&self) -> DealerView {
        DealerView {
            polys: Seq::new(self.polys@.len(), |i: int| self.polys@[i]@),
            next_x: self.next_x,
        }
    }

    /// The threshold that the dealer was made with.
    pub closed spec fn spec_threshold(&self) -> nat {
        self.threshold as nat
    }

    /// A dealer for `secret` with the given threshold and coefficients. The
    /// threshold has to lie between 1 and 255, and `randomness` has to hold
    /// `threshold - 1` bytes for every byte of the secret.
    pub fn with_coefficients(threshold: u32, secret: &[u8], randomness: &[u8]) -> (r: Result<
        Dealer,
        ShamirError,
    >)
        ensures
            match r {
                Ok(dealer) => {
                    &&& 1 <= threshold <= 255
                    &&& randomness@.len() == secret@.len() * (threshold - 1)
                    &&& dealer@ == DealerView::dealt(threshold as nat, secret@, randomness@)
                    &&& dealer@.polys.len() == secret@.len()
                    &&& forall|i: int|
                        0 <= i < secret@.len() ==> (#[trigger] dealer@.polys[i]).len() == threshold
                    &&& dealer.spec_threshold() == threshold
                },
                Err(e) => if threshold < 1 || threshold > 255 {
                    e == ShamirError::InvalidThreshold
                } else {
                    e == ShamirError::RandomnessLength && randomness@.len() != secret@.len() * (
                    threshold - 1)
                },
            },
    {
        if threshold < 1 || threshold > 255 {
            return Err(ShamirError::InvalidThreshold);
        }
        let extra: usize = (threshold - 1) as usize;
        let n = secret.len();
        let available = randomness.len();
        match n.checked_mul(extra) {
            Some(total) => if total != available {
                return Err(ShamirError::RandomnessLength);
            },
            None => {
                return Err(ShamirError::RandomnessLength);
            },
        }
        let ghost want = DealerView::dealt(threshold as nat, secret@, randomness@);
        let mut polys: Vec<Vec<u8>> = Vec::new();
        let mut i: usize = 0;
        while i < n
            invariant
                i <= n,
                n == secret@.len(),
                extra == threshold - 1,
                1 <= threshold <= 255,
                randomness@.len() == n * extra,
                randomness@.len() <= usize::MAX,
                want == DealerView::dealt(threshold as nat, secret@, randomness@),
                polys@.len() == i,
                forall|t: int| 0 <= t < i ==> (#[trigger] polys@[t])@ == want.polys[t],
                forall|t: int| 0 <= t < i ==> (#[trigger] polys@[t])@.len() == threshold,
            decreases n - i,
        {
            let mut poly: Vec<u8> = Vec::new();
            poly.push(secret[i]);
            proof {
                lemma_piece(i as nat, n as nat, extra as nat);
            }
            let from = i * extra;
            let piece = vstd::slice::slice_subrange(randomness, from, from + extra);
            poly.extend_from_slice(piece);
            polys.push(poly);
            i += 1;
        }
        let dealer = Dealer { threshold: threshold as u8, polys, next_x: 1 };
        assert(dealer@.polys =~= want.polys);
        Ok(dealer)
    }

    /// A dealer for `secret` with the given threshold, which has to lie
    /// between 1 and 255, and random coefficients.
    pub fn new(threshold: u32, secret: &[u8]) -> (r: Result<Dealer, ShamirError>)
        ensures
            match r {
                Ok(dealer) => {
                    &&& 1 <= threshold <= 255
                    &&& dealer@.secret() == secret@
                    &&& dealer@.polys.len() == secret@.len()
                    &&& forall|i: int|
                        0 <= i < secret@.len() ==> (#[trigger] dealer@.polys[i]).len() == threshold
                    &&& dealer@.next_x == 1
                    &&& dealer.spec_threshold() == threshold
                },
                Err(e) => if threshold < 1 || threshold > 255 {
                    e == ShamirError::InvalidThreshold
                } else {
                    e == ShamirError::RandomnessLength && secret@.len() * (threshold - 1)
                        > usize::MAX
                },
            },
    {
        if threshold < 1 || threshold > 255 {
            return Err(ShamirError::InvalidThreshold);
        }
        let extra: usize = (threshold - 1) as usize;
        let total = match secret.len().checked_mul(extra) {
            Some(total) => total,
            None => return Err(ShamirError::RandomnessLength),
        };
        let randomness = random_bytes(total);
        match Self::with_coefficients(threshold, secret, randomness.as_slice()) {
            Ok(dealer) => {
                proof {
                    use_type_invariant(&dealer);
                }
                Ok(dealer)
            },
            Err(e) => Err(e),
        }
    }

    /// The shard at the point `x`, which must not be 0: there lies the
    /// secret.
    pub fn shard_at(&self, x: u8) -> (r: Result<Shard, ShamirError>)
        ensures
            match r {
                Ok(shard) => x != 0 && shard@ == self@.shard_at(x),
                Err(e) => x == 0 && e == ShamirError::InvalidShard,
            },
    {
        proof {
            use_type_invariant(self);
        }
        if x == 0 {
            return Err(ShamirError::InvalidShard);
        }
        let n = self.polys.len();
        let ghost want = self@.shard_at(x);
        let mut ys: Vec<u8> = Vec::new();
        let mut i: usize = 0;
        while i < n
            invariant
                i <= n,
                n == self.polys@.len(),
                want == self@.shard_at(x),
                ys@.len() == i,
                forall|t: int| 0 <= t < i ==> ys@[t] == want.ys[t],
            decreases n - i,
        {
            let poly = &self.polys[i];
            let mut d: usize = poly.len();
            let mut acc: u8 = 0;
            while d > 0
                invariant
                    d <= poly@.len(),
                    acc == eval(poly@.skip(d as int), x),
                decreases d,
            {
                d -= 1;
                assert(poly@.skip(d as int).drop_first() =~= poly@.skip(d + 1));
                acc = poly[d] ^ multiply(x, acc);
            }
            assert(poly@.skip(0) =~= poly@);
            ys.push(acc);
            i += 1;
        }
        assert(ys@ =~= want.ys);
        Ok(Shard { x, ys })
    }

    /// The next shard. There are 255 of them.
    pub fn next_shard(&mut self) -> (r: Result<Shard, ShamirError>)
        ensures
            final(self).spec_threshold() == old(self).spec_threshold(),
            final(self)@.polys == old(self)@.polys,
            match r {
                Ok(shard) => {
                    &&& old(self)@.next_x != 0
                    &&& shard@ == old(self)@.shard_at(old(self)@.next_x)
                    &&& final(self)@.next_x == if old(self)@.next_x == 255 {
                        0u8
                    } else {
                        (old(self)@.next_x + 1) as u8
                    }
                },
                Err(e) => {
                    &&& e == ShamirError::Exhausted
                    &&& old(self)@.next_x == 0
                    &&& final(self)@.next_x == 0
                },
            },
    {
        proof {
            use_type_invariant(&*self);
        }
        let x = self.next_x;
        let shard = match self.shard_at(x) {
            Ok(shard) => shard,
            Err(_) => return Err(ShamirError::Exhausted),
        };
        self.next_x = if x == 255 {
            0
        } else {
            x + 1
        };
        Ok(shard)
    }
}

} // verus!
