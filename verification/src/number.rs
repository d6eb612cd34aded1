//! Decimal numbers: reading them from ASCII and writing them out.
use vstd::arithmetic::power::*;
use vstd::prelude::*;
use vstd::string::*;

verus! {

/// Why a text is no number of the wanted type.
#[derive(Clone, Copy, Debug, PartialEq, Eq, Structural)]
pub enum IntFault {
    /// The text is empty.
    Empty,
    /// A byte is not a digit, or a sign stands alone.
    InvalidDigit,
    /// The number is too large for the type.
    PosOverflow,
    /// The number is too small for the type.
    NegOverflow,
}

pub const PLUS: u8 = 0x2b;

pub const MINUS: u8 = 0x2d;

pub open spec fn is_digit(b: u8) -> bool {
    0x30 <= b <= 0x39
}

/// What a run of ASCII digits denotes in base ten.
pub open spec fn digits_value(digits: Seq<u8>) -> nat
    decreases digits.len(),
{
    if digits.len() == 0 {
        0
    } else {
        digits_value(digits.drop_last()) * 10 + (digits.last() - 0x30) as nat
    }
}

/// The value of a run of digits, read from the left. The reading stops with a fault at the first
/// byte that is not a digit, or that takes the value past `limit`.
pub open spec fn read_digits(digits: Seq<u8>, limit: nat, overflow: IntFault) -> Result<
    nat,
    IntFault,
>
    decreases digits.len(),
{
    if digits.len() == 0 {
        Ok(0)
    } else {
        match read_digits(digits.drop_last(), limit, overflow) {
            Err(fault) => Err(fault),
            Ok(high) => {
                let value = high * 10 + (digits.last() - 0x30) as nat;
                if !is_digit(digits.last()) {
                    Err(IntFault::InvalidDigit)
                } else if value > limit {
                    Err(overflow)
                } else {
                    Ok(value)
                }
            },
        }
    }
}

/// A sign with nothing behind it.
pub open spec fn is_lone_sign(text: Seq<u8>) -> bool {
    text.len() == 1 && (text[0] == PLUS || text[0] == MINUS)
}

/// The `u32` that a text denotes: digits, with an optional plus sign before them.
pub open spec fn u32_of(text: Seq<u8>) -> Result<u32, IntFault> {
    if text.len() == 0 {
        Err(IntFault::Empty)
    } else if is_lone_sign(text) {
        Err(IntFault::InvalidDigit)
    } else {
        let digits = if text[0] == PLUS { text.drop_first() } else { text };
        match read_digits(digits, u32::MAX as nat, IntFault::PosOverflow) {
            Ok(value) => Ok(value as u32),
            Err(fault) => Err(fault),
        }
    }
}

/// The `i16` that a text denotes: digits, with an optional sign before them.
pub open spec fn i16_of(text: Seq<u8>) -> Result<i16, IntFault> {
    if text.len() == 0 {
        Err(IntFault::Empty)
    } else if is_lone_sign(text) {
        Err(IntFault::InvalidDigit)
    } else if text[0] == MINUS {
        match read_digits(text.drop_first(), 0x8000, IntFault::NegOverflow) {
            Ok(value) => Ok((-value) as i16),
            Err(fault) => Err(fault),
        }
    } else {
        let digits = if text[0] == PLUS { text.drop_first() } else { text };
        match read_digits(digits, i16::MAX as nat, IntFault::PosOverflow) {
            Ok(value) => Ok(value as i16),
            Err(fault) => Err(fault),
        }
    }
}

/// Once a reading has met a fault, further bytes do not change it.
proof fn read_digits_fault_stays(digits: Seq<u8>, n: int, limit: nat, overflow: IntFault)
    requires
        0 <= n <= digits.len(),
        read_digits(digits.take(n), limit, overflow) is Err,
    ensures
        read_digits(digits, limit, overflow) == read_digits(digits.take(n), limit, overflow),
    decreases digits.len() - n,
{
    if n < digits.len() {
        assert(digits.take(n + 1).drop_last() =~= digits.take(n));
        read_digits_fault_stays(digits, n + 1, limit, overflow);
    } else {
        assert(digits.take(n) =~= digits);
    }
}

/// A run of bytes reads as a number just where all of them are digits that denote no more than
/// the limit, and it is then the number that they denote in base ten.
pub proof fn read_digits_ok(digits: Seq<u8>, limit: nat, overflow: IntFault)
    ensures
        read_digits(digits, limit, overflow) is Ok <==> {
            &&& forall|i: int| 0 <= i < digits.len() ==> is_digit(#[trigger] digits[i])
            &&& digits_value(digits) <= limit
        },
        read_digits(digits, limit, overflow) matches Ok(value) ==> value == digits_value(digits),
    decreases digits.len(),
{
    if digits.len() > 0 {
        let init = digits.drop_last();
        read_digits_ok(init, limit, overflow);
        if forall|i: int| 0 <= i < digits.len() ==> is_digit(#[trigger] digits[i]) {
            assert forall|i: int| 0 <= i < init.len() implies is_digit(#[trigger] init[i]) by {
                assert(is_digit(digits[i]));
            }
            assert(is_digit(digits[digits.len() - 1]));
            assert(digits_value(init) <= digits_value(digits));
        }
        if read_digits(digits, limit, overflow) is Ok {
            assert forall|i: int| 0 <= i < digits.len() implies is_digit(#[trigger] digits[i]) by {
                if i < init.len() {
                    assert(is_digit(init[i]));
                }
            }
        }
    }
}

/// Reads the digits from index `from` on, as [`read_digits`] says.
fn parse_digits(text: &[u8], from: usize, limit: u32, overflow: IntFault) -> (r: Result<
    u32,
    IntFault,
>)
    requires
        from <= text@.len(),
    ensures
        match r {
            Ok(value) => read_digits(text@.skip(from as int), limit as nat, overflow) == Ok::<
                nat,
                IntFault,
            >(value as nat) && value <= limit,
            Err(fault) => read_digits(text@.skip(from as int), limit as nat, overflow) == Err::<
                nat,
                IntFault,
            >(fault),
        },
{
    let ghost digits = text@.skip(from as int);
    let mut value: u64 = 0;
    let mut i: usize = from;
    proof {
        assert(digits.take(0) =~= Seq::<u8>::empty());
    }
    while i < text.len()
        invariant
            from <= i <= text@.len(),
            digits == text@.skip(from as int),
            value <= limit,
            read_digits(digits.take(i - from), limit as nat, overflow) == Ok::<nat, IntFault>(
                value as nat,
            ),
        decreases text@.len() - i,
    {
        let byte: u8 = text[i];
        proof {
            assert(digits.take(i - from + 1).drop_last() =~= digits.take(i - from));
            assert(digits.take(i - from + 1).last() == byte);
        }
        if byte < 0x30 || byte > 0x39 {
            proof {
                read_digits_fault_stays(digits, i - from + 1, limit as nat, overflow);
            }
            return Err(IntFault::InvalidDigit);
        }
        let next: u64 = value * 10 + (byte - 0x30) as u64;
        if next > limit as u64 {
            proof {
                read_digits_fault_stays(digits, i - from + 1, limit as nat, overflow);
            }
            return Err(overflow);
        }
        value = next;
        i = i + 1;
    }
    proof {
        assert(digits.take(i - from) =~= digits);
    }
    Ok(value as u32)
}

/// Reads an unsigned number.
pub fn parse_u32(text: &[u8]) -> (r: Result<u32, IntFault>)
    ensures
        r == u32_of(text@),
{
    if text.len() == 0 {
        return Err(IntFault::Empty);
    }
    let first: u8 = text[0];
    if text.len() == 1 && (first == PLUS || first == MINUS) {
        return Err(IntFault::InvalidDigit);
    }
    proof {
        assert(text@.skip(1) =~= text@.drop_first());
        assert(text@.skip(0) =~= text@);
    }
    let from: usize = if first == PLUS { 1 } else { 0 };
    parse_digits(text, from, u32::MAX, IntFault::PosOverflow)
}

/// Reads a signed number.
pub fn parse_i16(text: &[u8]) -> (r: Result<i16, IntFault>)
    ensures
        r == i16_of(text@),
{
    if text.len() == 0 {
        return Err(IntFault::Empty);
    }
    let first: u8 = text[0];
    if text.len() == 1 && (first == PLUS || first == MINUS) {
        return Err(IntFault::InvalidDigit);
    }
    proof {
        assert(text@.skip(1) =~= text@.drop_first());
        assert(text@.skip(0) =~= text@);
    }
    if first == MINUS {
        match parse_digits(text, 1, 0x8000, IntFault::NegOverflow) {
            Ok(value) => {
                let negated: i32 = 0 - value as i32;
                Ok(negated as i16)
            },
            Err(fault) => Err(fault),
        }
    } else {
        let from: usize = if first == PLUS { 1 } else { 0 };
        match parse_digits(text, from, 0x7fff, IntFault::PosOverflow) {
            Ok(value) => Ok(value as i16),
            Err(fault) => Err(fault),
        }
    }
}

/// The character of a digit.
pub open spec fn digit_char(digit: nat) -> char
    recommends
        digit < 10,
{
    (0x30 + digit) as char
}

/// A number written in base ten, without leading zeros.
pub open spec fn decimal(n: nat) -> Seq<char>
    decreases n,
{
    if n < 10 {
        seq![digit_char(n)]
    } else {
        decimal(n / 10).push(digit_char(n % 10))
    }
}

/// Appends one digit.
fn push_digit(out: &mut String, digit: u64)
    requires
        digit < 10,
    ensures
        final(out)@ == old(out)@.push(digit_char(digit as nat)),
{
    proof {
        reveal_strlit("0");
        reveal_strlit("1");
        reveal_strlit("2");
        reveal_strlit("3");
        reveal_strlit("4");
        reveal_strlit("5");
        reveal_strlit("6");
        reveal_strlit("7");
        reveal_strlit("8");
        reveal_strlit("9");
    }
    let text = match digit {
        0 => "0",
        1 => "1",
        2 => "2",
        3 => "3",
        4 => "4",
        5 => "5",
        6 => "6",
        7 => "7",
        8 => "8",
        _ => "9",
    };
    out.append(text);
    proof {
        assert(text@ =~= seq![digit_char(digit as nat)]);
        assert(old(out)@ + text@ =~= old(out)@.push(digit_char(digit as nat)));
    }
}

/// Appends a number in base ten.
pub fn push_decimal(out: &mut String, n: u64)
    ensures
        final(out)@ == old(out)@ + decimal(n as nat),
    decreases n,
{
    if n < 10 {
        push_digit(out, n);
        proof {
            assert(old(out)@ + decimal(n as nat) =~= old(out)@.push(digit_char(n as nat)));
        }
    } else {
        push_decimal(out, n / 10);
        push_digit(out, n % 10);
        proof {
            assert(old(out)@ + decimal(n as nat) =~= (old(out)@ + decimal(n as nat / 10)).push(
                digit_char(n as nat % 10),
            ));
        }
    }
}

/// Every digit counts by its place: digits before others count for as many powers of ten as there
/// are others.
pub proof fn digits_count_by_place(high: Seq<u8>, low: Seq<u8>)
    ensures
        digits_value(high + low) == digits_value(high) * pow(10, low.len()) + digits_value(low),
    decreases low.len(),
{
    if low.len() == 0 {
        assert(high + low =~= high);
        lemma_pow0(10);
    } else {
        let init = low.drop_last();
        digits_count_by_place(high, init);
        assert((high + low).drop_last() =~= high + init);
        assert((high + low).last() == low.last());
        assert(pow(10, low.len()) == 10 * pow(10, init.len())) by {
            reveal(pow);
        }
        let h = digits_value(high) as int;
        let p = pow(10, init.len());
        assert((h * p) * 10 == h * (10 * p)) by (nonlinear_arith);
    }
}

/// A digit alone is worth what it says.
pub proof fn digit_is_worth_itself(digit: u8)
    requires
        0x30 <= digit <= 0x39,
    ensures
        digits_value(seq![digit]) == digit - 0x30,
{
    assert(seq![digit].drop_last() =~= Seq::<u8>::empty());
    assert(digits_value(seq![digit].drop_last()) == 0);
}

/// Digits alone can only be too large.
proof fn digits_only_overflow(digits: Seq<u8>, limit: nat, overflow: IntFault)
    requires
        forall|i: int| 0 <= i < digits.len() ==> 0x30 <= #[trigger] digits[i] <= 0x39,
        read_digits(digits, limit, overflow) is Err,
    ensures
        read_digits(digits, limit, overflow) == Err::<nat, IntFault>(overflow),
    decreases digits.len(),
{
    let init = digits.drop_last();
    assert(forall|i: int| 0 <= i < init.len() ==> init[i] == digits[i]);
    assert(0x30 <= digits[digits.len() - 1] <= 0x39);
    if read_digits(init, limit, overflow) is Err {
        digits_only_overflow(init, limit, overflow);
    }
}

/// What a reading gives where the first `k` bytes are all the digits there are at the start: the
/// overflow if those are too large, else the fault of the byte behind them, else their value.
proof fn reading_of(digits: Seq<u8>, k: int, limit: nat, overflow: IntFault)
    requires
        0 <= k <= digits.len(),
        forall|i: int| 0 <= i < k ==> 0x30 <= #[trigger] digits[i] <= 0x39,
        k < digits.len() ==> !(0x30 <= digits[k] <= 0x39),
    ensures
        read_digits(digits, limit, overflow) == if digits_value(digits.take(k)) > limit {
            Err::<nat, IntFault>(overflow)
        } else if k < digits.len() {
            Err(IntFault::InvalidDigit)
        } else {
            Ok(digits_value(digits))
        },
{
    let head = digits.take(k);
    assert forall|i: int| 0 <= i < head.len() implies is_digit(#[trigger] head[i]) by {
        assert(head[i] == digits[i]);
    }
    read_digits_ok(head, limit, overflow);
    if digits_value(head) > limit {
        digits_only_overflow(head, limit, overflow);
        read_digits_fault_stays(digits, k, limit, overflow);
    } else if k < digits.len() {
        assert(digits.take(k + 1).drop_last() =~= head);
        assert(digits.take(k + 1).last() == digits[k]);
        read_digits_fault_stays(digits, k + 1, limit, overflow);
    } else {
        assert(head =~= digits);
    }
}

/// The `u32` that a text denotes, or the fault in it. Behind an optional plus sign come `digits`,
/// of which the first `k` are digits: too large a number of them is an overflow, anything behind
/// them is no digit, and without either they are the number.
pub proof fn unsigned_text_denotes(text: Seq<u8>, digits: Seq<u8>, k: int)
    requires
        digits == if text.len() > 0 && text[0] == 0x2b {
            text.skip(1)
        } else {
            text
        },
        0 <= k <= digits.len(),
        forall|i: int| 0 <= i < k ==> 0x30 <= #[trigger] digits[i] <= 0x39,
        k < digits.len() ==> !(0x30 <= digits[k] <= 0x39),
    ensures
        match u32_of(text) {
            Ok(value) => k == digits.len() && k > 0 && value == digits_value(digits),
            Err(IntFault::Empty) => text.len() == 0,
            Err(IntFault::InvalidDigit) => text.len() > 0 && digits_value(digits.take(k))
                <= 0xffff_ffff && (k < digits.len() || digits.len() == 0),
            Err(IntFault::PosOverflow) => digits_value(digits.take(k)) > 0xffff_ffff,
            Err(IntFault::NegOverflow) => false,
        },
{
    if text.len() > 0 {
        assert(text.skip(1) =~= text.drop_first());
        reading_of(digits, k, u32::MAX as nat, IntFault::PosOverflow);
        if k == digits.len() {
            assert(digits.take(k) =~= digits);
        }
        if is_lone_sign(text) {
            assert(k == 0);
            assert(digits.take(k) =~= Seq::<u8>::empty());
        }
    }
}

/// The `i16` that a text denotes, or the fault in it. Behind an optional sign come `digits`, of
/// which the first `k` are digits: too large a number of them is an overflow to the side of the
/// sign, anything behind them is no digit, and without either they are the number, or its negative
/// behind a minus sign.
pub proof fn signed_text_denotes(text: Seq<u8>, digits: Seq<u8>, k: int)
    requires
        digits == if text.len() > 0 && (text[0] == 0x2b || text[0] == 0x2d) {
            text.skip(1)
        } else {
            text
        },
        0 <= k <= digits.len(),
        forall|i: int| 0 <= i < k ==> 0x30 <= #[trigger] digits[i] <= 0x39,
        k < digits.len() ==> !(0x30 <= digits[k] <= 0x39),
    ensures
        ({
            let negative = text.len() > 0 && text[0] == 0x2d;
            let size = digits_value(digits.take(k)) as int;
            match i16_of(text) {
                Ok(value) => k == digits.len() && k > 0 && value == if negative {
                    -size
                } else {
                    size
                },
                Err(IntFault::Empty) => text.len() == 0,
                Err(IntFault::InvalidDigit) => text.len() > 0 && size <= (if negative {
                    32768int
                } else {
                    32767int
                }) && (k < digits.len() || digits.len() == 0),
                Err(IntFault::PosOverflow) => !negative && size > 32767,
                Err(IntFault::NegOverflow) => negative && size > 32768,
            }
        }),
{
    if text.len() > 0 {
        assert(text.skip(1) =~= text.drop_first());
        if text[0] == 0x2d {
            reading_of(digits, k, 0x8000, IntFault::NegOverflow);
        } else {
            reading_of(digits, k, i16::MAX as nat, IntFault::PosOverflow);
        }
        if k == digits.len() {
            assert(digits.take(k) =~= digits);
        }
        if is_lone_sign(text) {
            assert(digits.take(k) =~= Seq::<u8>::empty());
        }
    }
}

/// A number is written with digits alone, without a zero before the others, and the digits denote
/// the number.
pub proof fn decimal_denotes_its_number(n: nat)
    ensures
        decimal(n).len() > 0,
        forall|i: int| 0 <= i < decimal(n).len() ==> '0' <= #[trigger] decimal(n)[i] <= '9',
        decimal(n).len() > 1 ==> decimal(n)[0] != '0',
        digits_value(Seq::new(decimal(n).len(), |i: int| decimal(n)[i] as u8)) == n,
    decreases n,
{
    let text = decimal(n);
    let bytes = Seq::new(text.len(), |i: int| text[i] as u8);
    if n < 10 {
        assert(bytes.drop_last() =~= Seq::<u8>::empty());
        assert(digits_value(bytes.drop_last()) == 0);
        assert(bytes.last() == 0x30 + n);
    } else {
        decimal_denotes_its_number(n / 10);
        let high = decimal(n / 10);
        assert(text =~= high.push(digit_char(n % 10)));
        assert(bytes.drop_last() =~= Seq::new(high.len(), |i: int| high[i] as u8));
        assert(bytes.last() == 0x30 + n % 10);
        assert(text[0] == high[0]);
        assert forall|i: int| 0 <= i < text.len() implies '0' <= #[trigger] text[i] <= '9' by {
            if i < high.len() {
                assert(text[i] == high[i]);
            }
        }
        if n / 10 < 10 {
            assert(high[0] == digit_char(n / 10));
        } else {
            assert(high.len() > 1) by {
                assert(decimal((n / 10) / 10).len() > 0) by {
                    decimal_denotes_its_number((n / 10) / 10);
                }
            }
        }
    }
}

/// A number that was written out is read back.
pub proof fn decimal_reads_back(n: u32)
    ensures
        u32_of(Seq::new(decimal(n as nat).len(), |i: int| decimal(n as nat)[i] as u8)) == Ok::<
            u32,
            IntFault,
        >(n),
{
    let text = decimal(n as nat);
    let bytes = Seq::new(text.len(), |i: int| text[i] as u8);
    decimal_denotes_its_number(n as nat);
    assert forall|i: int| 0 <= i < bytes.len() implies 0x30 <= #[trigger] bytes[i] <= 0x39 by {
        assert('0' <= text[i] <= '9');
    }
    assert(0x30 <= bytes[0]);
    unsigned_text_denotes(bytes, bytes, bytes.len() as int);
    assert(bytes.take(bytes.len() as int) =~= bytes);
}

} // verus!
