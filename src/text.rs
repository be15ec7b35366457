//! An owned, immutable buffer of code points.
use vstd::prelude::*;
use vstd::arithmetic::div_mod::lemma_small_mod;
use vstd::std_specs::iter::IteratorSpec;

verus! {

/// The character that stands for digit `d`: `0`-`9`, then `A`-`Z`.
pub open spec fn digit_char(d: nat) -> char {
    if d < 10 {
        ((d + 48) as u8) as char
    } else {
        ((d + 55) as u8) as char
    }
}

/// The digit that character `c` stands for, the inverse of `digit_char`.
pub open spec fn digit_value(c: char) -> int {
    if '0' <= c <= '9' {
        (c as int) - 48
    } else {
        (c as int) - 55
    }
}

/// The digits of `n` in base `radix`, most significant first, without
/// leading zeros (a single `0` for zero).
pub open spec fn digits(n: nat, radix: nat) -> Seq<char>
    recommends
        radix >= 2,
    decreases n
    via digits_decreases
{
    if radix < 2 || n < radix {
        seq![digit_char(n)]
    } else {
        digits(n / radix, radix).push(digit_char(n % radix))
    }
}

#[via_fn]
proof fn digits_decreases(n: nat, radix: nat) {
    if !(radix < 2 || n < radix) {
        assert(n / radix < n) by (nonlinear_arith)
            requires
                radix >= 2,
                n >= radix,
        ;
    }
}

/// A digit sequence has one digit for a value below the radix, one more
/// than the value's quotient by the radix otherwise, and never more digits
/// than the value (or one, for zero).
proof fn lemma_digits_len(n: nat, radix: nat)
    requires
        radix >= 2,
    ensures
        digits(n, radix).len() >= 1,
        n < radix ==> digits(n, radix).len() == 1,
        n >= radix ==> digits(n, radix).len() == digits(n / radix, radix).len() + 1,
        digits(n, radix).len() <= if n == 0 { 1 } else { n },
    decreases n,
{
    if n >= radix {
        assert(n / radix < n && n / radix >= 1 && n / radix + 1 <= n) by (nonlinear_arith)
            requires
                radix >= 2,
                n >= radix,
        ;
        lemma_digits_len(n / radix, radix);
    }
}

/// The number that the digit sequence `s` stands for in base `radix`.
pub open spec fn digits_value(s: Seq<char>, radix: nat) -> int
    decreases s.len(),
{
    if s.len() == 0 {
        0
    } else {
        digits_value(s.drop_last(), radix) * radix + digit_value(s.last())
    }
}

/// The number of bytes of `b` before its first zero byte (all of them
/// where it has none).
pub open spec fn c_len(b: Seq<u8>) -> nat
    decreases b.len(),
{
    if b.len() == 0 || b[0] == 0 {
        0
    } else {
        1 + c_len(b.drop_first())
    }
}

/// The code points of `b` up to, not including, its first zero byte,
/// each byte taken as the code point of the same value.
pub open spec fn c_text(b: Seq<u8>) -> Seq<char> {
    b.take(c_len(b) as int).map_values(|x: u8| x as char)
}

/// `c_len` is the index of the first zero byte, or the length where there
/// is none.
proof fn lemma_c_len(b: Seq<u8>, k: int)
    requires
        0 <= k <= b.len(),
        forall|j: int| 0 <= j < k ==> b[j] != 0,
        k == b.len() || b[k] == 0,
    ensures
        c_len(b) == k,
    decreases k,
{
    if k > 0 {
        lemma_c_len(b.drop_first(), k - 1);
    }
}

/// The part of `s` that a substring from `start` of `len` code points keeps,
/// both ends clamped to the end of `s`.
pub open spec fn clamped(s: Seq<char>, start: int, len: int) -> Seq<char> {
    let i = if start > s.len() { s.len() as int } else { start };
    let j = if i + len > s.len() { s.len() as int } else { i + len };
    s.subrange(i, j)
}

/// An owned sequence of code points. Every operation that yields new
/// content builds a fresh buffer; an empty buffer holds no allocation.
pub struct String {
    data: Vec<char>,
}

impl View for String {
    type V = Seq<char>;

    closed spec fn view(&self) -> Seq<char> {
        self.data@
    }
}

impl String {
    /// The empty buffer.
    pub fn new() -> (r: String)
        ensures
            r@ == Seq::<char>::empty(),
    {
        String { data: Vec::new() }
    }

    /// A buffer holding the code points of `s`, in order.
    pub fn from_slice(s: &[char]) -> (r: String)
        ensures
            r@ == s@,
    {
        let mut data: Vec<char> = Vec::new();
        let mut i: usize = 0;
        while i < s.len()
            invariant
                i <= s@.len(),
                data@ == s@.subrange(0, i as int),
            decreases s@.len() - i,
        {
            data.push(s[i]);
            i = i + 1;
        }
        assert(data@ =~= s@);
        String { data }
    }

    /// A buffer holding the code points of the text `s`, in order.
    pub fn from_str(s: &str) -> (r: String)
        ensures
            r@ == s@,
    {
        let mut data: Vec<char> = Vec::new();
        let mut it = s.chars();
        loop
            invariant
                data@ + it.remaining() == s@,
                it.decrease() is Some,
            ensures
                data@ == s@,
            decreases it.decrease()->0,
        {
            match it.next() {
                Some(c) => {
                    data.push(c);
                },
                None => {
                    assert(data@ + it.remaining() =~= data@);
                    break;
                },
            }
        }
        String { data }
    }

    /// The digits of `num` in base `radix`, most significant first, with
    /// `A`-`Z` for the digits above nine; the empty buffer for radix zero.
    pub fn from_num_radix(num: usize, radix: usize) -> (r: String)
        requires
            radix == 0 || 2 <= radix <= 36,
        ensures
            radix == 0 ==> r@ == Seq::<char>::empty(),
            radix != 0 ==> r@ == digits(num as nat, radix as nat),
    {
        if radix == 0 {
            return String::new();
        }
        let ghost total = digits(num as nat, radix as nat).len();
        proof {
            lemma_digits_len(num as nat, radix as nat);
        }
        let mut length: usize = 1;
        let mut length_num: usize = num;
        while length_num >= radix
            invariant
                2 <= radix <= 36,
                1 <= length,
                total == digits(length_num as nat, radix as nat).len() + length - 1,
                total <= usize::MAX,
            decreases length_num,
        {
            proof {
                lemma_digits_len(length_num as nat, radix as nat);
                lemma_digits_len((length_num / radix) as nat, radix as nat);
            }
            length_num = length_num / radix;
            length = length + 1;
        }
        proof {
            lemma_digits_len(length_num as nat, radix as nat);
        }
        let mut data: Vec<char> = Vec::new();
        while data.len() < length
            invariant
                data@.len() <= length,
            decreases length - data@.len(),
        {
            data.push('0');
        }
        let mut digit_num: usize = num;
        let mut i: usize = 0;
        while i < length
            invariant
                2 <= radix <= 36,
                i <= length,
                length == total,
                data@.len() == length,
                i < length ==> digits(digit_num as nat, radix as nat).len() == length - i,
                i < length ==> digits(num as nat, radix as nat) == digits(
                    digit_num as nat,
                    radix as nat,
                ) + data@.subrange(length - i, length as int),
                i == length ==> digits(num as nat, radix as nat) == data@,
            decreases length - i,
        {
            let ghost before = data@;
            let d: u8 = (digit_num % radix) as u8;
            let c: char = if d > 9 {
                (d + 55) as char
            } else {
                (d + 48) as char
            };
            assert(c == digit_char((digit_num % radix) as nat));
            data.set(length - 1 - i, c);
            proof {
                lemma_digits_len(digit_num as nat, radix as nat);
                let tail = before.subrange(length - i, length as int);
                assert(data@.subrange(length - i - 1, length as int) =~= seq![c] + tail);
                if digit_num >= radix {
                    assert(digits(num as nat, radix as nat) =~= digits(
                        (digit_num / radix) as nat,
                        radix as nat,
                    ) + data@.subrange(length - i - 1, length as int));
                } else {
                    lemma_small_mod(digit_num as nat, radix as nat);
                    assert(data@ =~= data@.subrange(0, length as int));
                    assert(digits(num as nat, radix as nat) =~= data@);
                }
            }
            digit_num = digit_num / radix;
            i = i + 1;
        }
        String { data }
    }

    /// A buffer holding the bytes of `s` before its first zero byte, each
    /// widened to the code point of the same value.
    pub fn from_c_slice(s: &[u8]) -> (r: String)
        ensures
            r@ == c_text(s@),
    {
        let mut length: usize = 0;
        while length < s.len() && s[length] != 0
            invariant
                length <= s@.len(),
                forall|j: int| 0 <= j < length ==> s@[j] != 0,
            decreases s@.len() - length,
        {
            length = length + 1;
        }
        proof {
            lemma_c_len(s@, length as int);
        }
        let mut data: Vec<char> = Vec::new();
        let mut i: usize = 0;
        while i < length
            invariant
                length == c_len(s@),
                length <= s@.len(),
                i <= length,
                data@ == s@.take(i as int).map_values(|x: u8| x as char),
            decreases length - i,
        {
            data.push(s[i] as char);
            i = i + 1;
            assert(data@ =~= s@.take(i as int).map_values(|x: u8| x as char));
        }
        String { data }
    }

    /// A buffer of the one code point `c`; the empty buffer for the null
    /// character.
    pub fn from_char(c: char) -> (r: String)
        ensures
            c == '\0' ==> r@ == Seq::<char>::empty(),
            c != '\0' ==> r@ == seq![c],
    {
        if c == '\0' {
            return String::new();
        }
        let mut data: Vec<char> = Vec::new();
        data.push(c);
        assert(data@ =~= seq![c]);
        String { data }
    }

    /// The decimal digits of `num`, most significant first.
    pub fn from_num(num: usize) -> (r: String)
        ensures
            r@ == digits(num as nat, 10),
    {
        String::from_num_radix(num, 10)
    }

    /// The code points from `start`, at most `len` of them; both ends are
    /// clamped to the end of the buffer, so the result may be shorter or
    /// empty.
    pub fn substr(&self, start: usize, len: usize) -> (r: String)
        ensures
            r@ == clamped(self@, start as int, len as int),
    {
        let n: usize = self.data.len();
        let i: usize = if start > n {
            n
        } else {
            start
        };
        let j: usize = if len > n - i {
            n
        } else {
            i + len
        };
        let mut data: Vec<char> = Vec::new();
        let mut k: usize = i;
        while k < j
            invariant
                n == self@.len(),
                i <= k <= j <= n,
                data@ == self@.subrange(i as int, k as int),
            decreases j - k,
        {
            data.push(self.data[k]);
            k = k + 1;
            assert(data@ =~= self@.subrange(i as int, k as int));
        }
        String { data }
    }

    /// A buffer holding the code points of `self` followed by those of
    /// `other`; both operands are consumed.
    pub fn concat(self, other: String) -> (r: String)
        ensures
            r@ == self@ + other@,
    {
        let mut data: Vec<char> = Vec::new();
        let mut k: usize = 0;
        while k < self.data.len()
            invariant
                data@ == self@.take(k as int),
                k <= self@.len(),
            decreases self@.len() - k,
        {
            data.push(self.data[k]);
            k = k + 1;
            assert(data@ =~= self@.take(k as int));
        }
        assert(data@ =~= self@);
        k = 0;
        while k < other.data.len()
            invariant
                data@ == self@ + other@.take(k as int),
                k <= other@.len(),
            decreases other@.len() - k,
        {
            data.push(other.data[k]);
            k = k + 1;
            assert(data@ =~= self@ + other@.take(k as int));
        }
        assert(other@.take(k as int) =~= other@);
        String { data }
    }

    /// The number of code points held.
    pub fn len(&self) -> (r: usize)
        ensures
            r == self@.len(),
    {
        self.data.len()
    }

    /// A read-only view of the code points held.
    pub fn as_slice(&self) -> (r: &[char])
        ensures
            r@ == self@,
    {
        self.data.as_slice()
    }
}

/// `digit_value` undoes `digit_char` on the digits below 36, and only zero
/// is written `0`.
proof fn lemma_digit_char(d: nat)
    requires
        d < 36,
    ensures
        digit_value(digit_char(d)) == d,
        digit_char(d) == '0' <==> d == 0,
{
}

/// Reading back the digits of `n` in any radix from 2 to 36 gives `n`, and
/// the first digit is a zero only where `n` is zero.
pub proof fn digits_round_trip(n: nat, radix: nat)
    requires
        2 <= radix <= 36,
    ensures
        digits_value(digits(n, radix), radix) == n,
        digits(n, radix)[0] == '0' ==> n == 0,
    decreases n,
{
    lemma_digits_len(n, radix);
    if n < radix {
        lemma_digit_char(n);
        assert(digits(n, radix).drop_last() =~= Seq::<char>::empty());
        assert(digits(n, radix).last() == digit_char(n));
        assert(digits_value(Seq::<char>::empty(), radix) == 0);
    } else {
        let q = n / radix;
        let m = n % radix;
        assert(q * radix + m == n && 0 <= m < radix && q >= 1) by (nonlinear_arith)
            requires
                q == n / radix,
                m == n % radix,
                radix >= 2,
                n >= radix,
        ;
        digits_round_trip(q, radix);
        lemma_digits_len(q, radix);
        lemma_digit_char(m);
        assert(digits(n, radix).drop_last() =~= digits(q, radix));
        assert(digits(n, radix)[0] == digits(q, radix)[0]);
        assert(digits(n, radix).last() == digit_char(m));
        assert(digits_value(digits(n, radix), radix) == q * radix + m);
    }
}

/// Concatenation is associative in content: `(a + b) + c` and `a + (b + c)`
/// hold the same code points.
pub proof fn concat_associative(a: String, b: String, c: String)
    ensures
        (a@ + b@) + c@ == a@ + (b@ + c@),
{
    assert((a@ + b@) + c@ =~= a@ + (b@ + c@));
}

/// The length of a concatenation is the sum of the operands' lengths.
pub proof fn concat_length(a: String, b: String)
    ensures
        (a@ + b@).len() == a@.len() + b@.len(),
{
}

/// A substring that starts at or past the end is empty; one that would run
/// past the end is the tail from its start.
pub proof fn substr_clamps(s: String, start: int, len: int)
    requires
        start >= 0,
        len >= 0,
    ensures
        start >= s@.len() ==> clamped(s@, start, len) == Seq::<char>::empty(),
        start < s@.len() && start + len > s@.len() ==> clamped(s@, start, len)
            == s@.subrange(start, s@.len() as int),
{
    if start >= s@.len() {
        assert(clamped(s@, start, len) =~= Seq::<char>::empty());
    }
}

// Two buffers with the same code points need not be the same value, so
// `add_spec` cannot name the result; each `add` states it in its `ensures`.
impl vstd::std_specs::ops::AddSpecImpl for String {
    open spec fn obeys_add_spec() -> bool {
        false
    }

    open spec fn add_req(self, rhs: String) -> bool {
        true
    }

    open spec fn add_spec(self, rhs: String) -> String {
        arbitrary()
    }
}

impl core::ops::Add for String {
    type Output = String;

    fn add(self, other: String) -> (r: String)
        ensures
            r@ == self@ + other@,
    {
        self.concat(other)
    }
}

impl vstd::std_specs::ops::AddSpecImpl<&'static str> for String {
    open spec fn obeys_add_spec() -> bool {
        false
    }

    open spec fn add_req(self, rhs: &'static str) -> bool {
        true
    }

    open spec fn add_spec(self, rhs: &'static str) -> String {
        arbitrary()
    }
}

impl core::ops::Add<&'static str> for String {
    type Output = String;

    fn add(self, other: &'static str) -> (r: String)
        ensures
            r@ == self@ + other@,
    {
        self.concat(String::from_str(other))
    }
}

impl vstd::std_specs::ops::AddSpecImpl<char> for String {
    open spec fn obeys_add_spec() -> bool {
        false
    }

    open spec fn add_req(self, rhs: char) -> bool {
        true
    }

    open spec fn add_spec(self, rhs: char) -> String {
        arbitrary()
    }
}

impl core::ops::Add<char> for String {
    type Output = String;

    fn add(self, other: char) -> (r: String)
        ensures
            other == '\0' ==> r@ == self@,
            other != '\0' ==> r@ == self@.push(other),
    {
        self.concat(String::from_char(other))
    }
}

impl vstd::std_specs::ops::AddSpecImpl<usize> for String {
    open spec fn obeys_add_spec() -> bool {
        false
    }

    open spec fn add_req(self, rhs: usize) -> bool {
        true
    }

    open spec fn add_spec(self, rhs: usize) -> String {
        arbitrary()
    }
}

impl core::ops::Add<usize> for String {
    type Output = String;

    fn add(self, other: usize) -> (r: String)
        ensures
            r@ == self@ + digits(other as nat, 10),
    {
        self.concat(String::from_num(other))
    }
}

} // verus!
