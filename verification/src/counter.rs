//! Odometer-style counter: one wheel per decimal digit, each rolling from the
//! digit of the old value to that of the new one.

use vstd::prelude::*;

verus! {

/// How long a wheel rolls, in microseconds.
pub const ANIM_DURATION_US: u64 = 300_000;

/// Decimal digits of `n`, least significant first (zero has the one digit 0).
pub open spec fn dec_digits(n: nat) -> Seq<u8>
    decreases n,
{
    if n < 10 {
        seq![n as u8]
    } else {
        seq![(n % 10) as u8] + dec_digits(n / 10)
    }
}

/// The wheels of a value written out in decimal, least significant first; a
/// minus sign, not being a digit, shows as an extra 0 wheel.
pub open spec fn shown_digits(t: int) -> Seq<u8> {
    if t >= 0 {
        dec_digits(t as nat)
    } else {
        dec_digits((-t) as nat).push(0)
    }
}

/// `d` padded with 0 wheels up to length `n`.
pub open spec fn pad(d: Seq<u8>, n: nat) -> Seq<u8> {
    Seq::new(n, |i: int| if i < d.len() { d[i] } else { 0u8 })
}

/// The number that wheels `d` (least significant first) read as.
pub open spec fn digits_value(d: Seq<u8>) -> int
    decreases d.len(),
{
    if d.len() == 0 {
        0
    } else {
        d[0] + 10 * digits_value(d.drop_first())
    }
}

/// One wheel: rolling from `from` to `to`, `elapsed_us` into its roll.
#[derive(Clone, Copy)]
pub struct DigitAnim {
    pub from: u8,
    pub to: u8,
    pub elapsed_us: u64,
}

/// What the renderer needs of a wheel.
pub struct DigitInfo {
    pub from: u8,
    pub to: u8,
    pub elapsed_us: u64,
}

impl DigitAnim {
    /// A wheel at rest on `digit`.
    pub fn steady(digit: u8) -> (r: DigitAnim)
        ensures
            r == steady_wheel(digit),
    {
        DigitAnim { from: digit, to: digit, elapsed_us: ANIM_DURATION_US }
    }
}

/// A wheel at rest on `d`.
pub open spec fn steady_wheel(d: u8) -> DigitAnim {
    DigitAnim { from: d, to: d, elapsed_us: ANIM_DURATION_US }
}

/// Wheel `i` of a roll from the padded digits `o` to `n`: at rest where they
/// agree, starting to roll where they differ.
pub open spec fn roll_wheel(o: u8, n: u8) -> DigitAnim {
    if o == n {
        steady_wheel(o)
    } else {
        DigitAnim { from: o, to: n, elapsed_us: 0 }
    }
}

/// Mathematical form of a counter.
pub struct CounterView {
    pub digits: Seq<DigitAnim>,
    pub old_value: i64,
    pub target_value: i64,
    pub steady: bool,
}

/// An odometer counter. The first `set_target` after creation or after a
/// `jump_to` jumps; later ones roll the wheels that change.
pub struct AnimatedCounter {
    digits: Vec<DigitAnim>,
    old_value: i64,
    target_value: i64,
    steady: bool,
}

impl View for AnimatedCounter {
    type V = CounterView;

    closed spec fn view(&self) -> CounterView {
        CounterView {
            digits: self.digits@,
            old_value: self.old_value,
            target_value: self.target_value,
            steady: self.steady,
        }
    }
}

/// The wheels at rest on the digits of `t`.
pub open spec fn jumped_wheels(t: int) -> Seq<DigitAnim> {
    shown_digits(t).map_values(|d: u8| steady_wheel(d))
}

/// Number of wheels of a roll from `o` to `t`.
pub open spec fn roll_len(o: nat, t: nat) -> nat {
    if dec_digits(o).len() >= dec_digits(t).len() {
        dec_digits(o).len()
    } else {
        dec_digits(t).len()
    }
}

/// The wheels of a roll from `o` to `t`.
pub open spec fn rolled_wheels(o: nat, t: nat) -> Seq<DigitAnim> {
    let n = roll_len(o, t);
    Seq::new(n, |i: int| roll_wheel(pad(dec_digits(o), n)[i], pad(dec_digits(t), n)[i]))
}

/// A wheel has finished rolling.
pub open spec fn wheel_done(w: DigitAnim) -> bool {
    w.elapsed_us >= ANIM_DURATION_US
}

/// Decimal digits of `u`, least significant first.
fn decimal_digits(u: u64) -> (r: Vec<u8>)
    ensures
        r@ == dec_digits(u as nat),
{
    let mut out: Vec<u8> = Vec::new();
    let mut v: u64 = u;
    while v >= 10
        invariant
            out@ + dec_digits(v as nat) == dec_digits(u as nat),
        decreases v,
    {
        let ghost prev = out@;
        let ghost vv = v;
        out.push((v % 10) as u8);
        v = v / 10;
        assert(out@ + dec_digits(v as nat) =~= prev + dec_digits(vv as nat));
    }
    let ghost prev = out@;
    out.push(v as u8);
    assert(out@ =~= prev + dec_digits(v as nat));
    out
}

/// The wheel digits of `t` as written out in decimal.
fn shown_digits_of(t: i64) -> (r: Vec<u8>)
    ensures
        r@ == shown_digits(t as int),
{
    if t >= 0 {
        decimal_digits(t as u64)
    } else {
        let mag: u64 = if t == i64::MIN { 9_223_372_036_854_775_808u64 } else { (-t) as u64 };
        let mut d = decimal_digits(mag);
        d.push(0);
        d
    }
}

/// The digits a row of wheels shows.
pub open spec fn wheel_tos(ws: Seq<DigitAnim>) -> Seq<u8> {
    ws.map_values(|w: DigitAnim| w.to)
}

/// The digits a row of wheels rolls away from.
pub open spec fn wheel_froms(ws: Seq<DigitAnim>) -> Seq<u8> {
    ws.map_values(|w: DigitAnim| w.from)
}

proof fn lemma_dec_digits_value(n: nat)
    ensures
        digits_value(dec_digits(n)) == n,
    decreases n,
{
    let d = dec_digits(n);
    if n >= 10 {
        lemma_dec_digits_value(n / 10);
        assert(d.drop_first() =~= dec_digits(n / 10));
        assert(d[0] == n % 10);
        assert(n % 10 + 10 * (n / 10) == n);
    } else {
        assert(d.drop_first() =~= seq![]);
        assert(digits_value(d.drop_first()) == 0);
        assert(d[0] == n);
    }
}

proof fn lemma_pad_value(d: Seq<u8>, n: nat)
    requires
        d.len() <= n,
    ensures
        digits_value(pad(d, n)) == digits_value(d),
    decreases n,
{
    if n > 0 {
        if d.len() == 0 {
            lemma_pad_zero_value(n);
            assert(pad(d, n) =~= pad(seq![], n));
        } else {
            lemma_pad_value(d.drop_first(), (n - 1) as nat);
            assert(pad(d, n).drop_first() =~= pad(d.drop_first(), (n - 1) as nat));
            assert(pad(d, n)[0] == d[0]);
        }
    }
}

proof fn lemma_pad_zero_value(n: nat)
    ensures
        digits_value(pad(seq![], n)) == 0,
    decreases n,
{
    if n > 0 {
        lemma_pad_zero_value((n - 1) as nat);
        assert(pad(seq![], n).drop_first() =~= pad(seq![], (n - 1) as nat));
    }
}

/// After a roll from `o` to `t` the wheels read `t` once they stop, and read
/// `o` before they start.
pub proof fn lemma_roll_reads(o: nat, t: nat)
    ensures
        digits_value(wheel_tos(rolled_wheels(o, t))) == t,
        digits_value(wheel_froms(rolled_wheels(o, t))) == o,
{
    let n = roll_len(o, t);
    lemma_dec_digits_value(o);
    lemma_dec_digits_value(t);
    lemma_pad_value(dec_digits(o), n);
    lemma_pad_value(dec_digits(t), n);
    assert(wheel_tos(rolled_wheels(o, t)) =~= pad(dec_digits(t), n));
    assert(wheel_froms(rolled_wheels(o, t)) =~= pad(dec_digits(o), n));
}

/// After a jump to a value that is not negative the wheels read that value.
pub proof fn lemma_jump_reads(t: nat)
    ensures
        digits_value(wheel_tos(jumped_wheels(t as int))) == t,
        digits_value(wheel_froms(jumped_wheels(t as int))) == t,
{
    lemma_dec_digits_value(t);
    assert(wheel_tos(jumped_wheels(t as int)) =~= dec_digits(t));
    assert(wheel_froms(jumped_wheels(t as int)) =~= dec_digits(t));
}

impl AnimatedCounter {
    /// A counter at rest on 0, whose first `set_target` jumps.
    pub fn new() -> (r: AnimatedCounter)
        ensures
            r@.digits == seq![steady_wheel(0)],
            r@.old_value == 0,
            r@.target_value == 0,
            r@.steady,
    {
        AnimatedCounter { digits: vec![DigitAnim::steady(0)], old_value: 0, target_value: 0, steady: true }
    }

    /// Show `target` at once: every wheel at rest on its digit.
    pub fn jump_to(&mut self, target: i64)
        ensures
            final(self)@.digits == jumped_wheels(target as int),
            final(self)@.old_value == target,
            final(self)@.target_value == target,
            final(self)@.steady,
    {
        let ds = shown_digits_of(target);
        let mut digits: Vec<DigitAnim> = Vec::new();
        let mut i: usize = 0;
        while i < ds.len()
            invariant
                0 <= i <= ds@.len(),
                ds@ == shown_digits(target as int),
                digits@ =~= ds@.take(i as int).map_values(|d: u8| steady_wheel(d)),
            decreases ds.len() - i,
        {
            digits.push(DigitAnim::steady(ds[i]));
            i = i + 1;
        }
        assert(ds@.take(i as int) =~= ds@);
        self.digits = digits;
        self.old_value = target;
        self.target_value = target;
        self.steady = true;
    }

    /// Move to `target`: the first call after creation or a jump jumps; a call
    /// with the current target does nothing; otherwise the wheels whose digit
    /// changes start rolling (both values padded with 0 to the same width).
    pub fn set_target(&mut self, target: i64)
        requires
            old(self)@.steady || target == old(self)@.target_value
                || (target >= 0 && old(self)@.target_value >= 0),
        ensures
            old(self)@.steady ==> final(self)@ == (CounterView {
                digits: jumped_wheels(target as int),
                old_value: target,
                target_value: target,
                steady: false,
            }),
            !old(self)@.steady && target == old(self)@.target_value ==> final(self)@ == old(self)@,
            !old(self)@.steady && target != old(self)@.target_value ==> final(self)@ == (CounterView {
                digits: rolled_wheels(old(self)@.target_value as nat, target as nat),
                old_value: old(self)@.target_value,
                target_value: target,
                steady: false,
            }),
    {
        if self.steady {
            self.jump_to(target);
            self.steady = false;
            return;
        }
        if target == self.target_value {
            return;
        }
        let ghost o = self.target_value as nat;
        let ghost t = target as nat;
        let old_digits = decimal_digits(self.target_value as u64);
        let new_digits = decimal_digits(target as u64);
        let max_len: usize = if old_digits.len() >= new_digits.len() { old_digits.len() } else { new_digits.len() };
        let ghost po = pad(dec_digits(o), max_len as nat);
        let ghost pn = pad(dec_digits(t), max_len as nat);
        let mut digits: Vec<DigitAnim> = Vec::new();
        let mut i: usize = 0;
        while i < max_len
            invariant
                0 <= i <= max_len,
                max_len == roll_len(o, t),
                old_digits@ == dec_digits(o),
                new_digits@ == dec_digits(t),
                po == pad(dec_digits(o), max_len as nat),
                pn == pad(dec_digits(t), max_len as nat),
                digits@.len() == i,
                forall|k: int| 0 <= k < i ==> #[trigger] digits@[k] == roll_wheel(po[k], pn[k]),
            decreases max_len - i,
        {
            let od: u8 = if i < old_digits.len() { old_digits[i] } else { 0 };
            let nd: u8 = if i < new_digits.len() { new_digits[i] } else { 0 };
            if od == nd {
                digits.push(DigitAnim::steady(od));
            } else {
                digits.push(DigitAnim { from: od, to: nd, elapsed_us: 0 });
            }
            i = i + 1;
        }
        assert(digits@ =~= rolled_wheels(o, t));
        self.old_value = self.target_value;
        self.digits = digits;
        self.target_value = target;
    }

    /// Advance every rolling wheel by `dt_us` microseconds.
    pub fn update(&mut self, dt_us: u64)
        ensures
            final(self)@.old_value == old(self)@.old_value,
            final(self)@.target_value == old(self)@.target_value,
            final(self)@.steady == old(self)@.steady,
            final(self)@.digits.len() == old(self)@.digits.len(),
            forall|k: int| 0 <= k < old(self)@.digits.len() ==> {
                let w = #[trigger] old(self)@.digits[k];
                let n = final(self)@.digits[k];
                &&& n.from == w.from
                &&& n.to == w.to
                &&& n.elapsed_us == if w.elapsed_us + dt_us >= ANIM_DURATION_US {
                    if w.elapsed_us >= ANIM_DURATION_US { w.elapsed_us as int } else { ANIM_DURATION_US as int }
                } else {
                    w.elapsed_us + dt_us
                }
            },
    {
        let mut i: usize = 0;
        while i < self.digits.len()
            invariant
                0 <= i <= self.digits@.len(),
                self.digits@.len() == old(self).digits@.len(),
                self.old_value == old(self).old_value,
                self.target_value == old(self).target_value,
                self.steady == old(self).steady,
                forall|k: int| i <= k < self.digits@.len() ==> #[trigger] self.digits@[k] == old(self).digits@[k],
                forall|k: int| 0 <= k < i ==> {
                    let w = #[trigger] old(self).digits@[k];
                    let n = self.digits@[k];
                    &&& n.from == w.from
                    &&& n.to == w.to
                    &&& n.elapsed_us == if w.elapsed_us + dt_us >= ANIM_DURATION_US {
                        if w.elapsed_us >= ANIM_DURATION_US { w.elapsed_us as int } else { ANIM_DURATION_US as int }
                    } else {
                        w.elapsed_us + dt_us
                    }
                },
            decreases self.digits.len() - i,
        {
            let mut w = self.digits[i];
            if w.elapsed_us < ANIM_DURATION_US {
                if dt_us >= ANIM_DURATION_US - w.elapsed_us {
                    w.elapsed_us = ANIM_DURATION_US;
                } else {
                    w.elapsed_us = w.elapsed_us + dt_us;
                }
            }
            self.digits.set(i, w);
            i = i + 1;
        }
    }

    /// The target value.
    pub fn value(&self) -> (r: i64)
        ensures
            r == self@.target_value,
    {
        self.target_value
    }

    /// Whether every wheel has finished rolling.
    pub fn is_steady(&self) -> (r: bool)
        ensures
            r == (forall|k: int| 0 <= k < self@.digits.len() ==> wheel_done(#[trigger] self@.digits[k])),
    {
        let mut i: usize = 0;
        while i < self.digits.len()
            invariant
                0 <= i <= self.digits@.len(),
                forall|k: int| 0 <= k < i ==> wheel_done(#[trigger] self.digits@[k]),
            decreases self.digits.len() - i,
        {
            if self.digits[i].elapsed_us < ANIM_DURATION_US {
                assert(!wheel_done(self@.digits[i as int]));
                return false;
            }
            i = i + 1;
        }
        true
    }

    /// What the renderer needs of each wheel, least significant first.
    pub fn digit_info(&self) -> (r: Vec<DigitInfo>)
        ensures
            r@.len() == self@.digits.len(),
            forall|k: int| 0 <= k < r@.len() ==> {
                let w = self@.digits[k];
                &&& (#[trigger] r@[k]).from == w.from
                &&& r@[k].to == w.to
                &&& r@[k].elapsed_us == w.elapsed_us
            },
    {
        let mut out: Vec<DigitInfo> = Vec::new();
        let mut i: usize = 0;
        while i < self.digits.len()
            invariant
                0 <= i <= self.digits@.len(),
                out@.len() == i,
                forall|k: int| 0 <= k < i ==> {
                    let w = self.digits@[k];
                    &&& (#[trigger] out@[k]).from == w.from
                    &&& out@[k].to == w.to
                    &&& out@[k].elapsed_us == w.elapsed_us
                },
            decreases self.digits.len() - i,
        {
            let w = self.digits[i];
            out.push(DigitInfo { from: w.from, to: w.to, elapsed_us: w.elapsed_us });
            i = i + 1;
        }
        out
    }

    /// Number of wheels.
    pub fn digit_count(&self) -> (r: usize)
        ensures
            r == self@.digits.len(),
    {
        self.digits.len()
    }
}

} // verus!
