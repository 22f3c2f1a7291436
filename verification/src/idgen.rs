use vstd::prelude::*;
use vstd::string::StringExecFns;

verus! {

/// A deterministic-when-seeded source of fresh identifiers. The planner
/// takes the generator as a parameter rather than using process-wide
/// state, so edits stay reproducible; implementations must return
/// identifiers that are unique within a session.
///
/// An implementation says what it will hand out through
/// `future_shape_id`: the stream of shape identifiers the generator
/// produces from its current state. `shape` is held to that stream, so a
/// caller of the planner knows exactly which identifiers the planned
/// commands carry.
pub trait IdGenerator {
    /// The shape identifier that the `n`-th next call to `shape` returns
    /// (counting from zero), given the generator's current state.
    spec fn future_shape_id(&self, n: nat) -> Seq<char>;

    /// A fresh identifier carrying the given prefix.
    fn generate_id(&mut self, prefix: &str) -> String;

    /// A fresh shape identifier: the head of the shape-identifier stream.
    /// The stream advances by one.
    fn shape(&mut self) -> (out: String)
        ensures
            out@ == old(self).future_shape_id(0),
            forall|n: nat| #[trigger] final(self).future_shape_id(n) == old(self).future_shape_id(
                n + 1,
            ),
    ;

    /// A fresh field identifier.
    fn field(&mut self) -> String;

    /// A fresh parameter identifier.
    fn parameter(&mut self) -> String;
}

/// The decimal digit character for `d`.
pub open spec fn digit_char(d: nat) -> char
    recommends
        d < 10,
{
    if d == 0 {
        '0'
    } else if d == 1 {
        '1'
    } else if d == 2 {
        '2'
    } else if d == 3 {
        '3'
    } else if d == 4 {
        '4'
    } else if d == 5 {
        '5'
    } else if d == 6 {
        '6'
    } else if d == 7 {
        '7'
    } else if d == 8 {
        '8'
    } else {
        '9'
    }
}

/// The decimal digits of `n`, most significant first.
pub open spec fn dec_digits(n: nat) -> Seq<char>
    decreases n,
{
    if n < 10 {
        seq![digit_char(n)]
    } else {
        dec_digits(n / 10) + seq![digit_char(n % 10)]
    }
}

/// The decimal digit string for `d`.
fn digit_str(d: u64) -> (r: &'static str)
    requires
        d < 10,
    ensures
        r@ == seq![digit_char(d as nat)],
{
    proof {
        reveal_strlit("0");
        reveal_strlit("1");
        reveal_strlit("2");
        reveal_strlit("3");
        reveal_strlit("4");
        reveal_strlit("5");
        reveal_strlit("6");
        reveal_strlit("7");
        reveal_strlit("8");
        reveal_strlit("9");
    }
    let r = if d == 0 {
        "0"
    } else if d == 1 {
        "1"
    } else if d == 2 {
        "2"
    } else if d == 3 {
        "3"
    } else if d == 4 {
        "4"
    } else if d == 5 {
        "5"
    } else if d == 6 {
        "6"
    } else if d == 7 {
        "7"
    } else if d == 8 {
        "8"
    } else {
        "9"
    };
    proof {
        assert(r@ =~= seq![digit_char(d as nat)]);
    }
    r
}

/// Appends the decimal digits of `n` to `out`.
fn push_decimal(n: u64, out: &mut String)
    ensures
        final(out)@ == old(out)@ + dec_digits(n as nat),
    decreases n,
{
    if n >= 10 {
        push_decimal(n / 10, out);
        let ghost mid = out@;
        out.append(digit_str(n % 10));
        proof {
            assert(out@ =~= old(out)@ + dec_digits(n as nat));
        }
    } else {
        out.append(digit_str(n));
        proof {
            assert(out@ =~= old(out)@ + dec_digits(n as nat));
        }
    }
}

/// The counter value after `k` increments from `next`, wrapping at the
/// integer limit.
pub open spec fn counter_after(next: u64, k: nat) -> u64
    decreases k,
{
    if k == 0 {
        next
    } else {
        let previous = counter_after(next, (k - 1) as nat);
        if previous == u64::MAX {
            0u64
        } else {
            (previous + 1) as u64
        }
    }
}

/// Incrementing first and counting after is counting one further.
pub proof fn lemma_counter_after_shift(next: u64, k: nat)
    ensures
        counter_after(counter_after(next, 1), k) == counter_after(next, k + 1),
    decreases k,
{
    if k > 0 {
        lemma_counter_after_shift(next, (k - 1) as nat);
    }
}

/// A session-local generator that hands out consecutive decimal
/// identifiers, deterministically from its seed.
pub struct SequentialIdGenerator {
    pub next_id: u64,
}

impl SequentialIdGenerator {
    /// A generator whose first identifier is `seed + 1`.
    pub fn new(seed: u64) -> (r: SequentialIdGenerator)
        ensures
            r.next_id == seed,
    {
        SequentialIdGenerator { next_id: seed }
    }
}

impl IdGenerator for SequentialIdGenerator {
    /// The decimal digits of the counter after `n + 1` wrapping
    /// increments.
    open spec fn future_shape_id(&self, n: nat) -> Seq<char> {
        dec_digits(counter_after(self.next_id, n + 1) as nat)
    }

    /// The prefix followed by the next counter value. The counter wraps at
    /// the integer limit rather than overflowing.
    fn generate_id(&mut self, prefix: &str) -> (out: String)
        ensures
            final(self).next_id == counter_after(old(self).next_id, 1),
            out@ == prefix@ + dec_digits(final(self).next_id as nat),
    {
        if self.next_id == u64::MAX {
            self.next_id = 0;
        } else {
            self.next_id = self.next_id + 1;
        }
        proof {
            assert(counter_after(old(self).next_id, 0) == old(self).next_id);
        }
        let mut out = String::from_str(prefix);
        push_decimal(self.next_id, &mut out);
        out
    }

    fn shape(&mut self) -> (out: String)
        ensures
            out@ == dec_digits(final(self).next_id as nat),
    {
        let out = self.generate_id("");
        proof {
            reveal_strlit("");
            assert(out@ =~= dec_digits(self.next_id as nat));
            assert(out@ == old(self).future_shape_id(0));
            assert forall|n: nat| #[trigger] self.future_shape_id(n) == old(
                self,
            ).future_shape_id(n + 1) by {
                lemma_counter_after_shift(old(self).next_id, n + 1);
            }
        }
        out
    }

    fn field(&mut self) -> (out: String)
        ensures
            out@ == dec_digits(final(self).next_id as nat),
    {
        let out = self.generate_id("");
        proof {
            reveal_strlit("");
            assert(out@ =~= dec_digits(self.next_id as nat));
        }
        out
    }

    fn parameter(&mut self) -> (out: String)
        ensures
            out@ == dec_digits(final(self).next_id as nat),
    {
        let out = self.generate_id("");
        proof {
            reveal_strlit("");
            assert(out@ =~= dec_digits(self.next_id as nat));
        }
        out
    }
}


/// The decimal digit string of a number is never empty, and has at least
/// two digits from ten upwards.
pub proof fn lemma_dec_digits_len(n: nat)
    ensures
        dec_digits(n).len() >= 1,
        n >= 10 ==> dec_digits(n).len() >= 2,
    decreases n,
{
    if n >= 10 {
        lemma_dec_digits_len(n / 10);
    }
}

/// Distinct digits map to distinct digit characters.
pub proof fn lemma_digit_char_injective(a: nat, b: nat)
    requires
        a < 10,
        b < 10,
        a != b,
    ensures
        digit_char(a) != digit_char(b),
{
}

/// Distinct numbers have distinct decimal digit strings.
pub proof fn lemma_dec_digits_injective(a: nat, b: nat)
    requires
        a != b,
    ensures
        dec_digits(a) != dec_digits(b),
    decreases a + b,
{
    if a < 10 && b < 10 {
        lemma_digit_char_injective(a, b);
        assert(dec_digits(a)[0] == digit_char(a));
        assert(dec_digits(b)[0] == digit_char(b));
    } else if a < 10 {
        lemma_dec_digits_len(b);
        assert(dec_digits(a).len() == 1);
    } else if b < 10 {
        lemma_dec_digits_len(a);
        assert(dec_digits(b).len() == 1);
    } else {
        assert(a == 10 * (a / 10) + a % 10);
        assert(b == 10 * (b / 10) + b % 10);
        if a % 10 != b % 10 {
            lemma_digit_char_injective(a % 10, b % 10);
            assert(dec_digits(a).last() == digit_char(a % 10));
            assert(dec_digits(b).last() == digit_char(b % 10));
        } else {
            assert(a / 10 != b / 10);
            lemma_dec_digits_injective(a / 10, b / 10);
            assert(dec_digits(a).drop_last() =~= dec_digits(a / 10));
            assert(dec_digits(b).drop_last() =~= dec_digits(b / 10));
        }
    }
}

/// Law: the sequential generator never hands out the same identifier twice
/// in a row, so the two wrapper shapes of a planned edit that requests both
/// togglable kinds carry distinct identifiers.
pub proof fn lemma_sequential_adjacent_ids_distinct(g: SequentialIdGenerator, n: nat)
    ensures
        g.future_shape_id(n) != g.future_shape_id(n + 1),
{
    let a = counter_after(g.next_id, n + 1);
    let b = counter_after(g.next_id, n + 2);
    assert(b == if a == u64::MAX {
        0u64
    } else {
        (a + 1) as u64
    });
    assert(a != b);
    lemma_dec_digits_injective(a as nat, b as nat);
}


} // verus!
