//! The register bank abstraction: typed selectors, register operations, and
//! the capability trait that concrete register layouts implement.
//!
//! A register bank maps a [`RegisterType`] selector to a numeric value.  The
//! backing storage behind a selector may be narrower than the engine width:
//! writes truncate to the backing width and reads zero-extend back, silently
//! and modulo a power of two, matching real ALU behaviour.

use vstd::prelude::*;
use vstd::arithmetic::power2::pow2;
use crate::instruction::{ProgramCounterChange, pc_moved, pc_target};
use crate::user_ram::UserRam;

verus! {

/// A typed key addressing one register or register-array slot of a bank.
/// Selectors carry no value; they are pure addressing keys.
#[derive(Clone, Copy, Debug)]
pub enum RegisterType {
    /// One of the general-purpose registers.
    General { id: usize },
    /// One timer/counter channel.
    Timer { id: usize },
    /// The status (flag) register.
    Status,
    /// The stack pointer.
    StackPointer,
    /// The program counter.
    ProgramCounter,
    /// One I/O-mapped register.
    Io { id: usize },
}

/// One mutation of a register bank, produced by instruction logic and applied
/// by [`Registers::execute`].  `Add` wraps at the backing width of the target
/// register; `NoOp` changes nothing.
#[derive(Clone, Copy, Debug)]
pub enum RegisterOperation {
    /// Store `value`, truncated to the backing width, at `register_type`.
    Write { register_type: RegisterType, value: usize },
    /// Add `value` to the register behind `register_type`, wrapping at the
    /// backing width.
    Add { register_type: RegisterType, value: usize },
    /// Change nothing.
    NoOp,
}

/// True when bit `i` (counting from the least significant bit) of `v` is set.
pub open spec fn bit_of(v: nat, i: nat) -> bool {
    (v / pow2(i)) % 2 == 1
}

/// `v` with bit `i` forced to the given flag: set for `Some(true)`, cleared
/// for `Some(false)`, and left as it is for `None`.
pub open spec fn with_bit(v: nat, i: nat, flag: Option<bool>) -> nat {
    match flag {
        Option::None => v,
        Option::Some(true) => if bit_of(v, i) {
            v
        } else {
            v + pow2(i)
        },
        Option::Some(false) => if bit_of(v, i) {
            (v - pow2(i)) as nat
        } else {
            v
        },
    }
}

/// `base` with its low bits assigned from `flags`: the last element of
/// `flags` drives bit 0, the first element drives bit `flags.len() - 1`, and
/// a `None` leaves the corresponding bit of `base` untouched.
pub open spec fn apply_flags(base: nat, flags: Seq<Option<bool>>) -> nat
    decreases flags.len(),
{
    if flags.len() == 0 {
        base
    } else {
        with_bit(apply_flags(base, flags.skip(1)), (flags.len() - 1) as nat, flags[0])
    }
}

/// The signed value that the `size`-bit two's-complement pattern `v` denotes.
pub open spec fn complement_value(v: nat, size: nat) -> int {
    if bit_of(v, (size - 1) as nat) {
        v - pow2(size)
    } else {
        v as int
    }
}

/// The `size`-bit two's-complement pattern denoting the signed value `value`.
pub open spec fn complement_pattern(value: int, size: nat) -> nat {
    if value < 0 {
        (value + pow2(size)) as nat
    } else {
        value as nat
    }
}

/// Bit-level utilities used by flag computation in ALU-style instructions.
pub trait BitOperation {
    /// The word this value stands for, as a mathematical natural number.
    spec fn spec_word(&self) -> nat;

    /// Whether bit `id`, counting from the least significant end, is set.
    fn get_bit(&self, id: usize) -> (r: bool)
        requires
            id < usize::BITS,
        ensures
            r == bit_of(self.spec_word(), id as nat),
    ;

    /// This value with its low bits selectively assigned from `flags`: the
    /// last flag drives bit 0, and a `None` leaves the bit untouched.
    fn generate_from_bit(&self, flags: &[Option<bool>]) -> (r: usize)
        requires
            flags@.len() <= usize::BITS,
        ensures
            r as nat == apply_flags(self.spec_word(), flags@),
    ;

    /// The signed value this `size`-bit pattern denotes in two's complement.
    fn generate_as_complement(&self, size: usize) -> (r: isize)
        requires
            0 < size <= usize::BITS,
            self.spec_word() < pow2(size as nat),
        ensures
            r as int == complement_value(self.spec_word(), size as nat),
    ;
}


/// Bit `i` of any `x < pow2(i + 1)` decides whether `x` reaches `pow2(i)`.
proof fn lemma_high_bit(x: nat, i: nat)
    requires
        x < pow2(i + 1),
    ensures
        bit_of(x, i) <==> x >= pow2(i),
{
    vstd::arithmetic::power2::lemma_pow2_pos(i);
    vstd::arithmetic::power2::lemma_pow2_unfold(i + 1);
    let p = pow2(i) as int;
    let q = x as int / p;
    vstd::arithmetic::div_mod::lemma_fundamental_div_mod(x as int, p);
    vstd::arithmetic::div_mod::lemma_mod_bound(x as int, p);
    vstd::arithmetic::div_mod::lemma_div_pos_is_pos(x as int, p);
    if q >= 2 {
        assert(p * q >= 2 * p) by (nonlinear_arith)
            requires
                p > 0,
                q >= 2,
        ;
    }
    assert(0 <= q < 2);
    assert(q == x / pow2(i));
    assert(bit_of(x, i) == (q % 2 == 1));
    if q == 1 {
        assert(p * q == p) by (nonlinear_arith)
            requires
                q == 1,
        ;
        assert(x as int == p + x as int % p);
        assert(x >= p);
    } else {
        assert(p * q == 0) by (nonlinear_arith)
            requires
                q == 0,
        ;
        assert(x as int == x as int % p);
        assert(x < p);
    }
}

/// Testing a bit with a mask agrees with the arithmetic reading of that bit.
proof fn lemma_bit_test(x: usize, i: usize)
    requires
        i < usize::BITS,
    ensures
        (x & (1usize << i) != 0) <==> bit_of(x as nat, i as nat),
{
    vstd::bits::lemma_usize_pow2_no_overflow(i as nat);
    vstd::bits::lemma_usize_shr_is_div(x, i);
    let s = x >> i;
    assert((x & (1usize << i) != 0) == (s & 1 == 1)) by (bit_vector)
        requires
            i < usize::BITS,
            s == x >> i,
    ;
    assert(s & 1 == s % 2) by (bit_vector);
}

/// Setting bit `i` with a mask computes [`with_bit`] with `Some(true)`.
proof fn lemma_set_bit(x: usize, i: usize)
    requires
        i < usize::BITS,
    ensures
        (x | (1usize << i)) as nat == with_bit(x as nat, i as nat, Option::Some(true)),
{
    lemma_bit_test(x, i);
    vstd::bits::lemma_usize_pow2_no_overflow(i as nat);
    vstd::bits::lemma_usize_shl_is_mul(1usize, i);
    if x & (1usize << i) != 0 {
        assert(x & (1usize << i) != 0 ==> x | (1usize << i) == x) by (bit_vector);
    } else {
        assert(x & (1usize << i) == 0 ==> x | (1usize << i) == x + (1usize << i)) by (bit_vector);
    }
}

/// Clearing bit `i` with a mask computes [`with_bit`] with `Some(false)`.
proof fn lemma_clear_bit(x: usize, i: usize)
    requires
        i < usize::BITS,
    ensures
        (x & !(1usize << i)) as nat == with_bit(x as nat, i as nat, Option::Some(false)),
{
    lemma_bit_test(x, i);
    vstd::bits::lemma_usize_pow2_no_overflow(i as nat);
    vstd::bits::lemma_usize_shl_is_mul(1usize, i);
    if x & (1usize << i) != 0 {
        assert(x & (1usize << i) != 0 ==> x & !(1usize << i) == x - (1usize << i)) by (bit_vector);
    } else {
        assert(x & (1usize << i) == 0 ==> x & !(1usize << i) == x) by (bit_vector);
    }
}

impl BitOperation for usize {
    /// A `usize` stands for itself.
    open spec fn spec_word(&self) -> nat {
        *self as nat
    }

    /// Whether bit `id` of this word is set.
    fn get_bit(&self, id: usize) -> (r: bool) {
        proof {
            lemma_bit_test(*self, id);
        }
        (*self & (1usize << id)) != 0
    }

    /// This value with its low bits selectively assigned from `flags`.
    fn generate_from_bit(&self, flags: &[Option<bool>]) -> (r: usize) {
        let length = flags.len();
        let mut result = *self;
        let mut id: usize = 0;
        proof {
            assert(flags@.skip(length as int) =~= Seq::<Option<bool>>::empty());
        }
        while id < length
            invariant
                id <= length,
                length == flags@.len() <= usize::BITS,
                result as nat == apply_flags(*self as nat, flags@.skip(length - id)),
            decreases length - id,
        {
            let ghost rest = flags@.skip(length - id);
            let flag = flags[length - 1 - id];
            proof {
                assert(flags@.skip(length - id - 1).skip(1) =~= rest);
                assert(flags@.skip(length - id - 1)[0] == flags@[length - 1 - id]);
            }
            match flag {
                Option::Some(true) => {
                    proof {
                        lemma_set_bit(result, id);
                    }
                    result = result | (1usize << id);
                },
                Option::Some(false) => {
                    proof {
                        lemma_clear_bit(result, id);
                    }
                    result = result & !(1usize << id);
                },
                Option::None => {},
            }
            id = id + 1;
        }
        proof {
            assert(flags@.skip(0) =~= flags@);
        }
        result
    }

    /// The signed value this `size`-bit pattern denotes in two's complement.
    fn generate_as_complement(&self, size: usize) -> (r: isize) {
        if size as u32 == usize::BITS {
            // At the full word width the pattern cannot be masked with
            // `1 << size`; read it against the word bounds instead.
            proof {
                vstd::layout::unsigned_int_max_values();
                vstd::layout::signed_int_min_max_values();
                vstd::arithmetic::power2::lemma_pow2_unfold(usize::BITS as nat);
                vstd::bits::lemma_usize_pow2_no_overflow((usize::BITS - 1) as nat);
                vstd::bits::lemma_usize_shl_is_mul(1usize, (usize::BITS - 1) as usize);
                lemma_high_bit(*self as nat, (size - 1) as nat);
            }
            let half = 1usize << (usize::BITS as usize - 1);
            if self.get_bit(size - 1) {
                if *self == half {
                    // The most negative value: negating its magnitude would
                    // overflow, so build it from the largest positive one.
                    return -((half - 1) as isize) - 1;
                }
                return -(((usize::MAX - *self) + 1) as isize);
            }
            return *self as isize;
        }
        proof {
            vstd::bits::lemma_usize_pow2_no_overflow(size as nat);
            vstd::bits::lemma_usize_shl_is_mul(1usize, size);
            vstd::arithmetic::power2::lemma_pow2_unfold(size as nat);
            lemma_high_bit(*self as nat, (size - 1) as nat);
        }
        if self.get_bit(size - 1) {
            let mask = (1usize << size) - 1;
            proof {
                assert(*self <= mask ==> (*self ^ mask) == mask - *self) by (bit_vector)
                    requires
                        mask == (1usize << size) - 1,
                        size < usize::BITS,
                ;
            }
            -(((*self ^ mask) + 1) as isize)
        } else {
            *self as isize
        }
    }
}

/// How a pointer register (program counter or stack pointer) moves: by one in
/// either direction, by a signed offset, or to an absolute address.  All
/// movement wraps at the pointer's backing width.
#[derive(Clone, Copy, Debug, PartialEq, Eq, Structural)]
pub enum PointerUpdate {
    /// Advance the pointer by one.
    Increment,
    /// Move the pointer back by one.
    Decrement,
    /// Move the pointer by a signed offset.
    Relative(isize),
    /// Set the pointer to an absolute address.
    Absolute(usize),
}

/// The untruncated target a pointer at `current` moves to under `update`.
pub open spec fn pointer_target(update: PointerUpdate, current: nat) -> int {
    match update {
        PointerUpdate::Increment => current as int + 1,
        PointerUpdate::Decrement => current as int - 1,
        PointerUpdate::Relative(offset) => current + offset as int,
        PointerUpdate::Absolute(address) => address as int,
    }
}

/// The timer counter of one channel after `clocks` further cycles, starting
/// from counter value `counter` with accumulated remainder `interval`, at
/// prescaler threshold `limit` and backing width `width`.
pub open spec fn timer_count_after(
    counter: nat,
    interval: nat,
    clocks: nat,
    limit: nat,
    width: nat,
) -> nat {
    (counter + (interval + clocks) / limit) % pow2(width)
}

/// The accumulated prescaler remainder of one channel after `clocks` further
/// cycles, starting from remainder `interval` at prescaler threshold `limit`.
pub open spec fn timer_interval_after(interval: nat, clocks: nat, limit: nat) -> nat {
    (interval + clocks) % limit
}

/// Relation between a bank before and after feeding `clocks` elapsed cycles
/// to the clock subsystem: every timer channel advances under the prescaler
/// law, and every other register is untouched.
pub open spec fn timer_applied<R: RegisterModel>(pre: R, post: R, clocks: usize) -> bool {
    &&& post.inv()
    &&& forall|id: usize|
        R::spec_valid(RegisterType::Timer { id }) ==> post.spec_value(RegisterType::Timer { id })
            == timer_count_after(
            pre.spec_value(RegisterType::Timer { id }),
            pre.spec_interval(id),
            clocks as nat,
            R::spec_prescale(id),
            R::spec_width(RegisterType::Timer { id }),
        )
    &&& forall|id: usize|
        R::spec_valid(RegisterType::Timer { id }) ==> post.spec_interval(id)
            == timer_interval_after(pre.spec_interval(id), clocks as nat, R::spec_prescale(id))
    &&& forall|u: RegisterType|
        R::spec_valid(u) && !(u is Timer) ==> post.spec_value(u) == pre.spec_value(u)
}

/// Accumulation law of the prescaler: feeding a timer channel `c1` cycles and
/// then `c2` cycles leaves exactly the counter and remainder that feeding it
/// `c1 + c2` cycles at once would leave.  Repeated small updates and one
/// large update are therefore indistinguishable.
pub proof fn lemma_timer_accumulation(
    counter: nat,
    interval: nat,
    c1: nat,
    c2: nat,
    limit: nat,
    width: nat,
)
    requires
        0 < limit,
    ensures
        timer_count_after(
            timer_count_after(counter, interval, c1, limit, width),
            timer_interval_after(interval, c1, limit),
            c2,
            limit,
            width,
        ) == timer_count_after(counter, interval, c1 + c2, limit, width),
        timer_interval_after(timer_interval_after(interval, c1, limit), c2, limit)
            == timer_interval_after(interval, c1 + c2, limit),
{
    let all = interval + c1;
    let l = limit as int;
    let q = all as int / l;
    let r = all as int % l;
    vstd::arithmetic::power2::lemma_pow2_pos(width);
    let m = pow2(width) as int;
    vstd::arithmetic::div_mod::lemma_fundamental_div_mod(all as int, l);
    vstd::arithmetic::div_mod::lemma_mod_bound(all as int, l);
    vstd::arithmetic::div_mod::lemma_div_pos_is_pos(all as int, l);
    // Splitting the elapsed cycles at a threshold boundary changes neither
    // the total number of threshold crossings nor the final remainder.
    vstd::arithmetic::div_mod::lemma_hoist_over_denominator(r + c2, q, limit);
    vstd::arithmetic::div_mod::lemma_mod_multiples_vanish(q, r + c2, l);
    assert((all + c2) as int == q * l + (r + c2));
    assert(l * q == q * l) by (nonlinear_arith);
    assert((all + c2) as int / l == q + (r + c2) / l);
    assert((all + c2) as int % l == (r + c2) % l);
    // The wrap of the counter at its backing width commutes with addition.
    vstd::arithmetic::div_mod::lemma_add_mod_noop_right(
        (r + c2) / l,
        counter + q,
        m,
    );
}

/// Round trip of two's-complement coding: decoding the `size`-bit pattern of
/// any signed value in range returns that value.
pub proof fn lemma_complement_round_trip(value: int, size: nat)
    requires
        0 < size,
        -(pow2((size - 1) as nat) as int) <= value < pow2((size - 1) as nat),
    ensures
        complement_value(complement_pattern(value, size), size) == value,
{
    let h = pow2((size - 1) as nat);
    vstd::arithmetic::power2::lemma_pow2_pos((size - 1) as nat);
    vstd::arithmetic::power2::lemma_pow2_unfold(size);
    let pattern = complement_pattern(value, size);
    lemma_high_bit(pattern, (size - 1) as nat);
}

/// The mathematical model of a register bank: the map from valid selectors to
/// their zero-extended stored values, the prescaler remainder of every timer
/// channel, and the laws relating them to the layout's backing widths.
///
/// This spec-level trait is separated from the executable [`Registers`]
/// capability so that relations such as [`reg_written`] can be stated once,
/// generically over every layout.
pub trait RegisterModel: Sized {
    /// Which selectors this layout provides.  Addressing any other selector
    /// is a configuration error and is excluded by precondition.
    spec fn spec_valid(t: RegisterType) -> bool;

    /// Bit width of the backing storage behind selector `t`.
    spec fn spec_width(t: RegisterType) -> nat;

    /// Prescaler threshold of timer channel `id`: the number of elapsed
    /// clock cycles that advance the timer counter by one.
    spec fn spec_prescale(id: usize) -> nat;

    /// The value currently stored behind `t`, zero-extended to a mathematical
    /// natural number.
    spec fn spec_value(self, t: RegisterType) -> nat;

    /// The accumulated sub-threshold clock remainder of timer channel `id`.
    spec fn spec_interval(self, id: usize) -> nat;

    /// The value each register holds in a freshly configured bank.
    spec fn spec_init_value(t: RegisterType) -> nat;

    /// Well-formedness of the bank's representation.
    spec fn inv(self) -> bool;

    /// The laws every layout obeys: stored values fit their backing width,
    /// backing widths fit the engine word, prescaler thresholds are positive
    /// with remainders strictly below them, and the program counter and stack
    /// pointer always exist.
    proof fn lemma_layout(self)
        requires
            self.inv(),
        ensures
            forall|t: RegisterType|
                Self::spec_valid(t) ==> 0 < #[trigger] Self::spec_width(t) <= usize::BITS,
            forall|t: RegisterType|
                Self::spec_valid(t) ==> #[trigger] self.spec_value(t) < pow2(Self::spec_width(t)),
            forall|id: usize|
                Self::spec_valid(RegisterType::Timer { id }) ==> 0 < Self::spec_prescale(id)
                    && #[trigger] self.spec_interval(id) < Self::spec_prescale(id),
            Self::spec_valid(RegisterType::ProgramCounter),
            Self::spec_valid(RegisterType::StackPointer),
    ;
}

/// True when `op` only addresses selectors that the layout `R` provides.
pub open spec fn op_valid<R: RegisterModel>(op: RegisterOperation) -> bool {
    match op {
        RegisterOperation::Write { register_type, value } => R::spec_valid(register_type),
        RegisterOperation::Add { register_type, value } => R::spec_valid(register_type),
        RegisterOperation::NoOp => true,
    }
}

/// Relation between a bank before and after storing the untruncated value `v`
/// at selector `t`: the target holds `v` modulo the backing width, every
/// other register and all prescaler remainders are untouched.
pub open spec fn reg_written<R: RegisterModel>(pre: R, post: R, t: RegisterType, v: int) -> bool {
    &&& post.inv()
    &&& post.spec_value(t) == v % pow2(R::spec_width(t)) as int
    &&& forall|u: RegisterType| R::spec_valid(u) && u != t ==> post.spec_value(u) == pre.spec_value(u)
    &&& forall|id: usize|
        R::spec_valid(RegisterType::Timer { id }) ==> post.spec_interval(id) == pre.spec_interval(
            id,
        )
}

/// The truncation law: storing the untruncated value `v` behind selector
/// `t` leaves exactly `v` reduced modulo the selector's backing width to be
/// read back — what [`Registers::write_to`] promises to store,
/// [`Registers::read_from`] promises to return.
pub proof fn lemma_write_read_truncation<R: RegisterModel>(pre: R, post: R, t: RegisterType, v: int)
    requires
        reg_written(pre, post, t, v),
    ensures
        post.spec_value(t) == v % pow2(R::spec_width(t)) as int,
{
}

/// Relation between a bank before and after one [`RegisterOperation`].
pub open spec fn op_applied<R: RegisterModel>(pre: R, post: R, op: RegisterOperation) -> bool {
    match op {
        RegisterOperation::Write { register_type, value } => reg_written(
            pre,
            post,
            register_type,
            value as int,
        ),
        RegisterOperation::Add { register_type, value } => reg_written(
            pre,
            post,
            register_type,
            pre.spec_value(register_type) + value,
        ),
        RegisterOperation::NoOp => post == pre,
    }
}

/// Relation between a bank before and after applying every operation of
/// `ops`, in order, non-atomically.
pub open spec fn ops_applied<R: RegisterModel>(pre: R, post: R, ops: Seq<RegisterOperation>) -> bool
    decreases ops.len(),
{
    if ops.len() == 0 {
        post == pre
    } else {
        exists|mid: R|
            #[trigger] op_applied(pre, mid, ops[0]) && ops_applied(mid, post, ops.skip(1))
    }
}

/// Chains grow on the right: a chain for `ops` followed by one more applied
/// operation is a chain for `ops.push(op)`.
pub proof fn lemma_ops_applied_push<R: RegisterModel>(
    pre: R,
    mid: R,
    post: R,
    ops: Seq<RegisterOperation>,
    op: RegisterOperation,
)
    requires
        ops_applied(pre, mid, ops),
        op_applied(mid, post, op),
    ensures
        ops_applied(pre, post, ops.push(op)),
    decreases ops.len(),
{
    if ops.len() == 0 {
        assert(ops.push(op)[0] == op);
        assert(ops.push(op).skip(1) =~= Seq::<RegisterOperation>::empty());
        assert(pre == mid);
        assert(op_applied(pre, post, ops.push(op)[0]) && ops_applied(
            post,
            post,
            ops.push(op).skip(1),
        ));
    } else {
        let step = choose|step: R|
            #[trigger] op_applied(pre, step, ops[0]) && ops_applied(step, mid, ops.skip(1));
        lemma_ops_applied_push(step, mid, post, ops.skip(1), op);
        assert(ops.push(op)[0] == ops[0]);
        assert(ops.push(op).skip(1) =~= ops.skip(1).push(op));
        assert(op_applied(pre, step, ops.push(op)[0]) && ops_applied(
            step,
            post,
            ops.push(op).skip(1),
        ));
    }
}

/// The capability a concrete register layout implements: addressed reads and
/// writes with truncation at per-selector backing widths, plus wrapping
/// arithmetic helpers layered on top of them.
pub trait Registers: RegisterModel {
    /// A freshly configured bank, holding the layout's initial values with
    /// all prescaler remainders cleared.
    fn new() -> (r: Self)
        ensures
            r.inv(),
            forall|t: RegisterType|
                Self::spec_valid(t) ==> #[trigger] r.spec_value(t) == Self::spec_init_value(t),
            forall|id: usize|
                Self::spec_valid(RegisterType::Timer { id }) ==> #[trigger] r.spec_interval(id)
                    == 0,
    ;

    /// Store `value`, truncated to the backing width, at selector `t`.
    fn write_to(&mut self, t: RegisterType, value: usize)
        requires
            old(self).inv(),
            Self::spec_valid(t),
        ensures
            reg_written(*old(self), *final(self), t, value as int),
    ;

    /// The value stored at selector `t`, zero-extended to the engine width.
    fn read_from(&self, t: RegisterType) -> (r: usize)
        requires
            self.inv(),
            Self::spec_valid(t),
        ensures
            r as nat == self.spec_value(t),
    ;

    /// Add `value` to the register behind `t`, wrapping at its backing width.
    fn add_to(&mut self, t: RegisterType, value: usize)
        requires
            old(self).inv(),
            Self::spec_valid(t),
        ensures
            reg_written(*old(self), *final(self), t, old(self).spec_value(t) + value),
    {
        let current = self.read_from(t);
        let next = current.wrapping_add(value);
        proof {
            old(self).lemma_layout();
            lemma_word_wrap(current + value);
            lemma_truncate_in_word(
                old(self).spec_value(t) + value,
                Self::spec_width(t),
            );
        }
        self.write_to(t, next);
    }

    /// Subtract `value` from the register behind `t`, wrapping at its backing
    /// width.
    fn sub_from(&mut self, t: RegisterType, value: usize)
        requires
            old(self).inv(),
            Self::spec_valid(t),
        ensures
            reg_written(*old(self), *final(self), t, old(self).spec_value(t) - value),
    {
        let current = self.read_from(t);
        let next = current.wrapping_sub(value);
        proof {
            old(self).lemma_layout();
            lemma_word_wrap(current - value);
            lemma_truncate_in_word(
                old(self).spec_value(t) - value,
                Self::spec_width(t),
            );
        }
        self.write_to(t, next);
    }

    /// Multiply the register behind `t` by `value`, wrapping at its backing
    /// width.
    fn mul_to(&mut self, t: RegisterType, value: usize)
        requires
            old(self).inv(),
            Self::spec_valid(t),
        ensures
            reg_written(*old(self), *final(self), t, old(self).spec_value(t) * value),
    {
        let current = self.read_from(t);
        let next = current.wrapping_mul(value);
        proof {
            old(self).lemma_layout();
            lemma_truncate_in_word(
                old(self).spec_value(t) * value,
                Self::spec_width(t),
            );
        }
        self.write_to(t, next);
    }

    /// Divide the register behind `t` by `value`.  Division by zero is a
    /// configuration error and is excluded by precondition.
    fn div_from(&mut self, t: RegisterType, value: usize)
        requires
            old(self).inv(),
            Self::spec_valid(t),
            value != 0,
        ensures
            reg_written(
                *old(self),
                *final(self),
                t,
                old(self).spec_value(t) as int / value as int,
            ),
    {
        let current = self.read_from(t);
        let next = current / value;
        proof {
            old(self).lemma_layout();
            lemma_truncate_in_word(
                old(self).spec_value(t) as int / value as int,
                Self::spec_width(t),
            );
        }
        self.write_to(t, next);
    }

    /// The current program counter, read through [`Registers::read_from`].
    fn read_pc(&self) -> (r: usize)
        requires
            self.inv(),
        ensures
            r as nat == self.spec_value(RegisterType::ProgramCounter),
    {
        proof {
            self.lemma_layout();
        }
        self.read_from(RegisterType::ProgramCounter)
    }

    /// The current stack pointer, read through [`Registers::read_from`].
    fn read_sp(&self) -> (r: usize)
        requires
            self.inv(),
        ensures
            r as nat == self.spec_value(RegisterType::StackPointer),
    {
        proof {
            self.lemma_layout();
        }
        self.read_from(RegisterType::StackPointer)
    }

    /// The current program counter, under its full name.
    fn read_program_counter(&self) -> (r: usize)
        requires
            self.inv(),
        ensures
            r as nat == self.spec_value(RegisterType::ProgramCounter),
    {
        self.read_pc()
    }

    /// The current stack pointer, under its full name.
    fn read_stack_pointer(&self) -> (r: usize)
        requires
            self.inv(),
        ensures
            r as nat == self.spec_value(RegisterType::StackPointer),
    {
        self.read_sp()
    }

    /// Move the program counter as `update` directs, wrapping at its backing
    /// width.
    fn update_pc(&mut self, update: PointerUpdate)
        requires
            old(self).inv(),
        ensures
            reg_written(
                *old(self),
                *final(self),
                RegisterType::ProgramCounter,
                pointer_target(update, old(self).spec_value(RegisterType::ProgramCounter)),
            ),
    {
        proof {
            old(self).lemma_layout();
        }
        match update {
            PointerUpdate::Increment => self.add_to(RegisterType::ProgramCounter, 1),
            PointerUpdate::Decrement => self.sub_from(RegisterType::ProgramCounter, 1),
            PointerUpdate::Relative(offset) => {
                let current = self.read_from(RegisterType::ProgramCounter);
                let target = current.wrapping_add_signed(offset);
                proof {
                    lemma_word_wrap(current + offset);
                    lemma_truncate_in_word(
                        old(self).spec_value(RegisterType::ProgramCounter) + offset,
                        Self::spec_width(RegisterType::ProgramCounter),
                    );
                }
                self.write_to(RegisterType::ProgramCounter, target);
            },
            PointerUpdate::Absolute(address) => {
                self.write_to(RegisterType::ProgramCounter, address);
            },
        }
    }

    /// Move the stack pointer as `update` directs, wrapping at its backing
    /// width.
    fn update_sp(&mut self, update: PointerUpdate)
        requires
            old(self).inv(),
        ensures
            reg_written(
                *old(self),
                *final(self),
                RegisterType::StackPointer,
                pointer_target(update, old(self).spec_value(RegisterType::StackPointer)),
            ),
    {
        proof {
            old(self).lemma_layout();
        }
        match update {
            PointerUpdate::Increment => self.add_to(RegisterType::StackPointer, 1),
            PointerUpdate::Decrement => self.sub_from(RegisterType::StackPointer, 1),
            PointerUpdate::Relative(offset) => {
                let current = self.read_from(RegisterType::StackPointer);
                let target = current.wrapping_add_signed(offset);
                proof {
                    lemma_word_wrap(current + offset);
                    lemma_truncate_in_word(
                        old(self).spec_value(RegisterType::StackPointer) + offset,
                        Self::spec_width(RegisterType::StackPointer),
                    );
                }
                self.write_to(RegisterType::StackPointer, target);
            },
            PointerUpdate::Absolute(address) => {
                self.write_to(RegisterType::StackPointer, address);
            },
        }
    }

    /// Translate an instruction's program-counter directive into a register
    /// operation against the program counter and apply it: `Default` adds
    /// one, `Relative` adds the encoded offset, `Absolute` writes the
    /// address, and `Jumped` changes nothing because the instruction already
    /// moved the program counter itself.
    fn update_program_counter(&mut self, change: ProgramCounterChange)
        requires
            old(self).inv(),
        ensures
            pc_moved(*old(self), *final(self), change),
    {
        proof {
            old(self).lemma_layout();
            vstd::arithmetic::power2::lemma_pow2_pos(
                Self::spec_width(RegisterType::ProgramCounter),
            );
            vstd::arithmetic::div_mod::lemma_small_mod(
                old(self).spec_value(RegisterType::ProgramCounter),
                pow2(Self::spec_width(RegisterType::ProgramCounter)),
            );
        }
        match change {
            ProgramCounterChange::Default => {
                self.add_to(RegisterType::ProgramCounter, 1);
            },
            ProgramCounterChange::Absolute(address) => {
                self.write_to(RegisterType::ProgramCounter, address);
            },
            ProgramCounterChange::Relative(offset) => {
                self.add_to(RegisterType::ProgramCounter, offset);
            },
            ProgramCounterChange::Jumped => {},
        }
    }

    /// Apply one [`RegisterOperation`] to the bank, in place.
    fn execute(&mut self, operation: RegisterOperation)
        requires
            old(self).inv(),
            op_valid::<Self>(operation),
        ensures
            op_applied(*old(self), *final(self), operation),
    {
        match operation {
            RegisterOperation::Write { register_type, value } => {
                self.write_to(register_type, value);
            },
            RegisterOperation::Add { register_type, value } => {
                self.add_to(register_type, value);
            },
            RegisterOperation::NoOp => {},
        }
    }

    /// Apply a sequence of operations in order, non-atomically: this is a
    /// simulation primitive, not a transaction.
    fn execute_batch(&mut self, operations: &Vec<RegisterOperation>)
        requires
            old(self).inv(),
            forall|i: int|
                0 <= i < operations@.len() ==> op_valid::<Self>(#[trigger] operations@[i]),
        ensures
            ops_applied(*old(self), *final(self), operations@),
    {
        proof {
            assert(operations@.take(0) =~= Seq::<RegisterOperation>::empty());
        }
        let mut index: usize = 0;
        while index < operations.len()
            invariant
                index <= operations@.len(),
                self.inv(),
                forall|i: int|
                    0 <= i < operations@.len() ==> op_valid::<Self>(#[trigger] operations@[i]),
                ops_applied(*old(self), *self, operations@.take(index as int)),
            decreases operations@.len() - index,
        {
            let ghost before = *self;
            let ghost done = operations@.take(index as int);
            self.execute(operations[index]);
            proof {
                lemma_ops_applied_push(*old(self), before, *self, done, operations@[index as int]);
                assert(operations@.take(index as int + 1) =~= done.push(
                    operations@[index as int],
                ));
            }
            index = index + 1;
        }
        proof {
            assert(operations@.take(operations@.len() as int) =~= operations@);
        }
    }

    /// Advance every timer channel by `clocks` elapsed cycles: the channel's
    /// accumulated remainder plus `clocks` advances the timer counter once
    /// per full prescaler threshold, and what is left below the threshold is
    /// carried as the new remainder.  Every other register is untouched.
    fn update_timer(&mut self, clocks: usize)
        requires
            old(self).inv(),
        ensures
            timer_applied(*old(self), *final(self), clocks),
    ;
}

/// The effect an executed instruction asks the engine to apply to the
/// register bank: the clock cycles it consumed and how the program counter
/// moves next.
#[derive(Clone, Copy, Debug, PartialEq, Eq, Structural)]
pub struct RegisterUpdate {
    cycles: usize,
    pc_update: PointerUpdate,
}

impl RegisterUpdate {
    /// The number of clock cycles the instruction consumed.
    pub closed spec fn spec_cycles(self) -> usize {
        self.cycles
    }

    /// How the program counter moves next.
    pub closed spec fn spec_pc_update(self) -> PointerUpdate {
        self.pc_update
    }

    /// Package a cycle count and a program-counter movement.
    pub fn new(cycles: usize, pc_update: PointerUpdate) -> (r: RegisterUpdate)
        ensures
            r.spec_cycles() == cycles,
            r.spec_pc_update() == pc_update,
    {
        RegisterUpdate { cycles, pc_update }
    }

    /// Apply this update to a register bank: feed the consumed cycles to
    /// every timer channel under the prescaler law, then move the program
    /// counter as the instruction directed.
    pub fn update<R: Registers>(&self, registers: &mut R)
        requires
            old(registers).inv(),
        ensures
            final(registers).inv(),
            forall|id: usize|
                R::spec_valid(RegisterType::Timer { id }) ==> final(registers).spec_value(
                    RegisterType::Timer { id },
                ) == timer_count_after(
                    old(registers).spec_value(RegisterType::Timer { id }),
                    old(registers).spec_interval(id),
                    self.spec_cycles() as nat,
                    R::spec_prescale(id),
                    R::spec_width(RegisterType::Timer { id }),
                ),
            forall|id: usize|
                R::spec_valid(RegisterType::Timer { id }) ==> final(registers).spec_interval(id)
                    == timer_interval_after(
                    old(registers).spec_interval(id),
                    self.spec_cycles() as nat,
                    R::spec_prescale(id),
                ),
            final(registers).spec_value(RegisterType::ProgramCounter) == pointer_target(
                self.spec_pc_update(),
                old(registers).spec_value(RegisterType::ProgramCounter),
            ) % pow2(R::spec_width(RegisterType::ProgramCounter)) as int,
            forall|u: RegisterType|
                R::spec_valid(u) && u != RegisterType::ProgramCounter && !(u is Timer)
                    ==> final(registers).spec_value(u) == old(registers).spec_value(u),
    {
        proof {
            old(registers).lemma_layout();
        }
        registers.update_timer(self.cycles);
        registers.update_pc(self.pc_update);
    }
}

/// The engine word wraps exactly as reduction modulo `usize::MAX + 1`, for
/// any value within one wrap of the representable range.
proof fn lemma_word_wrap(x: int)
    requires
        -(usize::MAX as int + 1) < x <= 2 * (usize::MAX as int),
    ensures
        x % (usize::MAX as int + 1) == if x > usize::MAX as int {
            x - (usize::MAX as int + 1)
        } else if x < 0 {
            x + (usize::MAX as int + 1)
        } else {
            x
        },
{
    let m = usize::MAX as int + 1;
    if x > usize::MAX as int {
        vstd::arithmetic::div_mod::lemma_mod_sub_multiples_vanish(x, m);
        vstd::arithmetic::div_mod::lemma_small_mod((x - m) as nat, m as nat);
    } else if x < 0 {
        vstd::arithmetic::div_mod::lemma_mod_add_multiples_vanish(x, m);
        vstd::arithmetic::div_mod::lemma_small_mod((x + m) as nat, m as nat);
    } else {
        vstd::arithmetic::div_mod::lemma_small_mod(x as nat, m as nat);
    }
}

/// Reducing modulo the engine word and then modulo a backing width no wider
/// than the word is the same as reducing modulo the backing width directly.
proof fn lemma_truncate_in_word(v: int, w: nat)
    requires
        w <= usize::BITS,
    ensures
        (v % (usize::MAX as int + 1)) % pow2(w) as int == v % pow2(w) as int,
{
    vstd::arithmetic::power2::lemma_pow2_adds(w, (usize::BITS - w) as nat);
    vstd::layout::unsigned_int_max_values();
    vstd::arithmetic::power2::lemma_pow2_pos(w);
    vstd::arithmetic::power2::lemma_pow2_pos((usize::BITS - w) as nat);
    vstd::arithmetic::div_mod::lemma_mod_mod(
        v,
        pow2(w) as int,
        pow2((usize::BITS - w) as nat) as int,
    );
}

/// A reference register layout: thirty-two 8-bit general registers, an
/// 8-bit status register, 16-bit stack pointer and program counter, 256
/// 8-bit I/O registers, and one 8-bit timer channel at prescaler 64.
#[derive(Clone, Debug, PartialEq)]
pub struct ExampleRegisters {
    /// The general-purpose registers.
    pub general: Vec<u8>,
    /// The status (flag) register.
    pub status: u8,
    /// The stack pointer.
    pub stack_pointer: u16,
    /// The program counter.
    pub program_counter: u16,
    /// The I/O-mapped registers.
    pub io: Vec<u8>,
    /// The counter of the single timer channel.
    pub timer: u8,
    /// The accumulated prescaler remainder of the timer channel.
    pub timer_interval: u8,
}

impl RegisterModel for ExampleRegisters {
    /// Thirty-two general registers, one timer channel, 256 I/O registers.
    open spec fn spec_valid(t: RegisterType) -> bool {
        match t {
            RegisterType::General { id } => id < 32,
            RegisterType::Timer { id } => id < 1,
            RegisterType::Status => true,
            RegisterType::StackPointer => true,
            RegisterType::ProgramCounter => true,
            RegisterType::Io { id } => id < 256,
        }
    }

    /// Byte-wide registers, except the two 16-bit pointers.
    open spec fn spec_width(t: RegisterType) -> nat {
        match t {
            RegisterType::General { id } => 8,
            RegisterType::Timer { id } => 8,
            RegisterType::Status => 8,
            RegisterType::StackPointer => 16,
            RegisterType::ProgramCounter => 16,
            RegisterType::Io { id } => 8,
        }
    }

    /// The timer advances once per 64 elapsed cycles.
    open spec fn spec_prescale(id: usize) -> nat {
        64
    }

    /// The stored value behind each selector, zero-extended.
    open spec fn spec_value(self, t: RegisterType) -> nat {
        match t {
            RegisterType::General { id } => self.general@[id as int] as nat,
            RegisterType::Timer { id } => self.timer as nat,
            RegisterType::Status => self.status as nat,
            RegisterType::StackPointer => self.stack_pointer as nat,
            RegisterType::ProgramCounter => self.program_counter as nat,
            RegisterType::Io { id } => self.io@[id as int] as nat,
        }
    }

    /// The prescaler remainder of the single timer channel.
    open spec fn spec_interval(self, id: usize) -> nat {
        self.timer_interval as nat
    }

    /// Every register starts at zero, except the stack pointer, which starts
    /// at the end of user RAM.
    open spec fn spec_init_value(t: RegisterType) -> nat {
        match t {
            RegisterType::StackPointer => 0x8FF,
            _ => 0,
        }
    }

    /// The register arrays have their configured lengths and the prescaler
    /// remainder stays below the threshold.
    open spec fn inv(self) -> bool {
        &&& self.general@.len() == 32
        &&& self.io@.len() == 256
        &&& self.timer_interval < 64
    }

    /// The layout laws hold of this layout.
    proof fn lemma_layout(self) {
        vstd::arithmetic::power2::lemma2_to64();
        assert(forall|t: RegisterType|
            Self::spec_valid(t) ==> 0 < #[trigger] Self::spec_width(t) <= usize::BITS);
    }
}

impl Registers for ExampleRegisters {
    /// A zeroed bank whose stack pointer starts at the end of user RAM.
    fn new() -> (r: ExampleRegisters) {
        proof {
            vstd::arithmetic::power2::lemma2_to64();
        }
        let mut registers = ExampleRegisters {
            general: vec![0u8; 32],
            status: 0,
            stack_pointer: 0,
            program_counter: 0,
            io: vec![0u8; 256],
            timer: 0,
            timer_interval: 0,
        };
        proof {
            assert(Self::spec_width(RegisterType::StackPointer) == 16);
        }
        registers.write_to(
            RegisterType::StackPointer,
            crate::user_ram::ExampleUserRam::get_end_address(),
        );
        registers
    }

    /// Store `value`, truncated to the backing width, at selector `t`.
    fn write_to(&mut self, t: RegisterType, value: usize) {
        proof {
            vstd::arithmetic::power2::lemma2_to64();
            lemma_example_truncation(value);
        }
        match t {
            RegisterType::General { id } => {
                self.general[id] = #[verifier::truncate] (value as u8);
            },
            RegisterType::Timer { id } => {
                self.timer = #[verifier::truncate] (value as u8);
            },
            RegisterType::Status => {
                self.status = #[verifier::truncate] (value as u8);
            },
            RegisterType::StackPointer => {
                self.stack_pointer = #[verifier::truncate] (value as u16);
            },
            RegisterType::ProgramCounter => {
                self.program_counter = #[verifier::truncate] (value as u16);
            },
            RegisterType::Io { id } => {
                self.io[id] = #[verifier::truncate] (value as u8);
            },
        }
    }

    /// The value stored at selector `t`, zero-extended.
    fn read_from(&self, t: RegisterType) -> (r: usize) {
        match t {
            RegisterType::General { id } => self.general[id] as usize,
            RegisterType::Timer { id } => self.timer as usize,
            RegisterType::Status => self.status as usize,
            RegisterType::StackPointer => self.stack_pointer as usize,
            RegisterType::ProgramCounter => self.program_counter as usize,
            RegisterType::Io { id } => self.io[id] as usize,
        }
    }

    /// Advance the single timer channel by `clocks` elapsed cycles.
    fn update_timer(&mut self, clocks: usize) {
        let quotient = clocks / 64;
        let remainder = clocks % 64;
        let elapsed = self.timer_interval as usize + remainder;
        let crossings = if elapsed >= 64 {
            quotient + 1
        } else {
            quotient
        };
        proof {
            lemma_example_timer_split(
                old(self).timer_interval as nat,
                clocks as nat,
                quotient as nat,
                remainder as nat,
            );
            vstd::arithmetic::power2::lemma2_to64();
            lemma_word_wrap(old(self).timer + crossings);
            lemma_truncate_in_word(old(self).timer + crossings, 8);
            lemma_example_truncation((old(self).timer as usize).wrapping_add(crossings));
        }
        self.timer = #[verifier::truncate] ((self.timer as usize).wrapping_add(crossings) as u8);
        self.timer_interval = (elapsed % 64) as u8;
    }
}

/// Casting an engine word down to a byte or a 16-bit half keeps its value
/// modulo the corresponding power of two.
proof fn lemma_example_truncation(value: usize)
    ensures
        (value as u8) as nat == value as nat % 256,
        (value as u16) as nat == value as nat % 65536,
{
    assert(value as u8 == value % 256) by (bit_vector);
    assert(value as u16 == value % 65536) by (bit_vector);
}

/// Splitting the elapsed cycles of one timer step at a threshold boundary
/// changes neither the number of threshold crossings nor the remainder.
proof fn lemma_example_timer_split(interval: nat, clocks: nat, quotient: nat, remainder: nat)
    requires
        interval < 64,
        quotient == clocks / 64,
        remainder == clocks % 64,
    ensures
        (interval + clocks) / 64 == if interval + remainder >= 64 {
            quotient + 1
        } else {
            quotient
        },
        (interval + clocks) % 64 == (interval + remainder) % 64,
{
    vstd::arithmetic::div_mod::lemma_fundamental_div_mod(clocks as int, 64);
    vstd::arithmetic::div_mod::lemma_hoist_over_denominator(
        interval as int + remainder as int,
        quotient as int,
        64,
    );
    vstd::arithmetic::div_mod::lemma_mod_multiples_vanish(
        quotient as int,
        interval as int + remainder as int,
        64,
    );
    assert(64 * quotient == quotient * 64) by (nonlinear_arith);
    assert(interval + clocks == quotient * 64 + (interval + remainder));
    if interval + remainder >= 64 {
        assert((interval + remainder) / 64 == 1);
    } else {
        assert((interval + remainder) / 64 == 0);
    }
}

} // verus!
