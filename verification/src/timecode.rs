use vstd::prelude::*;

verus! {

/// Largest whole-second value a [`Timestamp`] may carry: the largest value
/// writable with eighteen decimal digits. Keeping whole seconds under this
/// bound makes the small additive safety margins of the trim stage free of
/// overflow.
pub const MAX_WHOLE_SECONDS: u64 = 999_999_999_999_999_999;

/// A non-negative number of seconds with an exact decimal fraction, as the
/// detection tool prints them: a whole part and the fraction's decimal digits
/// kept verbatim (so `1.50` keeps both digits and no precision is lost).
#[derive(Debug)]
pub struct Timestamp {
    /// Whole seconds.
    pub whole: u64,
    /// The decimal digits after the point, in print order; empty when the
    /// printed number had no fractional digits.
    pub frac: Vec<u8>,
}

pub open spec fn is_digit_byte(b: u8) -> bool {
    48 <= b && b <= 57
}

/// Bytes the numeric fields of a diagnostic line are drawn from: decimal
/// digits and the point.
pub open spec fn is_number_byte(b: u8) -> bool {
    is_digit_byte(b) || b == 46
}

pub open spec fn all_digit_bytes(s: Seq<u8>) -> bool {
    forall|i: int| 0 <= i < s.len() ==> is_digit_byte(s[i])
}

/// The value of a string of decimal digit bytes, most significant first.
pub open spec fn digits_val(s: Seq<u8>) -> int
    decreases s.len(),
{
    if s.len() == 0 {
        0
    } else {
        digits_val(s.drop_last()) * 10 + (s.last() - 48)
    }
}

pub open spec fn pow10(n: nat) -> int
    decreases n,
{
    if n == 0 {
        1
    } else {
        10 * pow10((n - 1) as nat)
    }
}

/// Index of the first point in `s`, or `s.len()` if there is none.
pub open spec fn dot_pos(s: Seq<u8>) -> int
    decreases s.len(),
{
    if s.len() == 0 {
        0
    } else if s[0] == 46 {
        0
    } else {
        1 + dot_pos(s.drop_first())
    }
}

pub open spec fn dot_count(s: Seq<u8>) -> nat
    decreases s.len(),
{
    if s.len() == 0 {
        0
    } else {
        dot_count(s.drop_last()) + if s.last() == 46 { 1nat } else { 0nat }
    }
}

/// The digits before the first point (the whole string when there is no
/// point).
pub open spec fn int_part(s: Seq<u8>) -> Seq<u8> {
    s.take(dot_pos(s))
}

/// The digits after the first point; empty when there is no point.
pub open spec fn frac_part(s: Seq<u8>) -> Seq<u8> {
    if dot_pos(s) < s.len() {
        s.skip(dot_pos(s) + 1)
    } else {
        Seq::<u8>::empty()
    }
}

/// A well-formed decimal number as the detection tool prints one: digits and
/// at most one point, with at least one digit somewhere.
pub open spec fn valid_number(s: Seq<u8>) -> bool {
    &&& s.len() > 0
    &&& forall|i: int| 0 <= i < s.len() ==> is_number_byte(s[i])
    &&& dot_count(s) <= 1
    &&& s.len() - dot_count(s) >= 1
}

/// A valid number whose whole part also fits the machine representation
/// (at most eighteen whole-second digits).
pub open spec fn parseable_number(s: Seq<u8>) -> bool {
    valid_number(s) && int_part(s).len() <= 18
}

impl Timestamp {
    /// Machine-representation bound plus digits-only fraction.
    pub open spec fn wf(self) -> bool {
        self.whole <= MAX_WHOLE_SECONDS && all_digit_bytes(self.frac@)
    }

    /// `self` is exactly the number the byte string `s` spells out.
    pub open spec fn matches_text(self, s: Seq<u8>) -> bool {
        &&& parseable_number(s)
        &&& self.whole == digits_val(int_part(s))
        &&& self.frac@ == frac_part(s)
    }

    /// Decimal rendering: whole part, then the point and the fraction digits
    /// verbatim if there are any.
    pub open spec fn rendered(self) -> Seq<u8> {
        if self.frac@.len() == 0 {
            dec_rep(self.whole as nat)
        } else {
            dec_rep(self.whole as nat) + seq![46u8] + self.frac@
        }
    }

    /// Adds whole seconds, leaving the fraction untouched.
    pub fn plus_seconds(&self, extra: u64) -> (r: Timestamp)
        requires
            self.whole + extra <= u64::MAX,
        ensures
            r.whole == self.whole + extra,
            r.frac@ == self.frac@,
    {
        let mut frac: Vec<u8> = Vec::new();
        append_bytes(&mut frac, &self.frac);
        Timestamp { whole: self.whole + extra, frac }
    }
}

/// Decimal representation of `n`, most significant digit first, no leading
/// zeros (a lone zero for 0).
pub open spec fn dec_rep(n: nat) -> Seq<u8>
    decreases n,
{
    if n < 10 {
        seq![(n + 48) as u8]
    } else {
        dec_rep(n / 10).push((n % 10 + 48) as u8)
    }
}

/// Appends the bytes of `src` to `dst`.
pub fn append_bytes(dst: &mut Vec<u8>, src: &Vec<u8>)
    ensures
        final(dst)@ == old(dst)@ + src@,
{
    let mut i: usize = 0;
    while i < src.len()
        invariant
            0 <= i <= src.len(),
            dst@ == old(dst)@ + src@.take(i as int),
        decreases src.len() - i,
    {
        dst.push(src[i]);
        proof {
            assert(src@.take(i + 1) =~= src@.take(i as int).push(src@[i as int]));
        }
        i = i + 1;
    }
    proof {
        assert(src@.take(src@.len() as int) =~= src@);
    }
}

/// Appends the decimal representation of `n` to `out`.
pub fn push_decimal(out: &mut Vec<u8>, n: u64)
    ensures
        final(out)@ == old(out)@ + dec_rep(n as nat),
    decreases n,
{
    if n < 10 {
        out.push((n as u8) + 48);
    } else {
        push_decimal(out, n / 10);
        out.push(((n % 10) as u8) + 48);
        proof {
            assert(out@ =~= old(out)@ + dec_rep(n as nat));
        }
    }
}

/// The decimal representation of `n` as bytes.
pub fn u64_to_decimal(n: u64) -> (r: Vec<u8>)
    ensures
        r@ == dec_rep(n as nat),
{
    let mut out: Vec<u8> = Vec::new();
    push_decimal(&mut out, n);
    out
}

/// Renders a timestamp the way the trim stage hands it to the media tool:
/// `whole` or `whole.frac`.
pub fn render_timestamp(t: &Timestamp) -> (r: Vec<u8>)
    ensures
        r@ == t.rendered(),
{
    let mut out: Vec<u8> = u64_to_decimal(t.whole);
    if t.frac.len() > 0 {
        out.push(46);
        append_bytes(&mut out, &t.frac);
        proof {
            assert(out@ =~= t.rendered());
        }
    }
    out
}

proof fn lemma_pow10_mono(a: nat, b: nat)
    requires
        a <= b,
    ensures
        pow10(a) <= pow10(b),
        pow10(a) >= 1,
    decreases b,
{
    if b > 0 {
        if a == b {
            lemma_pow10_mono((b - 1) as nat, (b - 1) as nat);
        } else {
            lemma_pow10_mono(a, (b - 1) as nat);
        }
    }
}

proof fn lemma_digits_val_bound(s: Seq<u8>)
    requires
        all_digit_bytes(s),
    ensures
        0 <= digits_val(s) < pow10(s.len()),
    decreases s.len(),
{
    if s.len() > 0 {
        assert(all_digit_bytes(s.drop_last()));
        lemma_digits_val_bound(s.drop_last());
    }
}

proof fn lemma_pow10_18()
    ensures
        pow10(18) == 1_000_000_000_000_000_000,
{
    reveal_with_fuel(pow10, 19);
}

/// First-point characterization: if nothing before `i` is a point, and `i`
/// is either a point or the end, then `i` is where the first point is.
proof fn lemma_dot_pos_at(s: Seq<u8>, i: int)
    requires
        0 <= i <= s.len(),
        forall|j: int| 0 <= j < i ==> s[j] != 46,
        i < s.len() ==> s[i] == 46,
        i == s.len() ==> forall|j: int| 0 <= j < s.len() ==> s[j] != 46,
    ensures
        dot_pos(s) == i,
    decreases s.len(),
{
    if s.len() == 0 {
    } else if i == 0 {
    } else {
        assert(s[0] != 46);
        let t = s.drop_first();
        assert(forall|j: int| 0 <= j < i - 1 ==> t[j] != 46);
        lemma_dot_pos_at(t, i - 1);
    }
}

/// Counting points from the front: a point at `p` with none before it means
/// the total count is one more than the count in the rest.
proof fn lemma_dot_count_split(s: Seq<u8>, p: int)
    requires
        0 <= p < s.len(),
        s[p] == 46,
        forall|j: int| 0 <= j < p ==> s[j] != 46,
    ensures
        dot_count(s) == 1 + dot_count(s.skip(p + 1)),
    decreases s.len(),
{
    if s.len() == p + 1 {
        assert(s.drop_last() =~= s.take(p));
        lemma_dot_count_none(s.take(p));
        assert(s.skip(p + 1) =~= Seq::<u8>::empty());
    } else {
        let t = s.drop_last();
        assert(forall|j: int| 0 <= j < p ==> t[j] != 46);
        lemma_dot_count_split(t, p);
        assert(t.skip(p + 1) =~= s.skip(p + 1).drop_last());
        assert(dot_count(s) == dot_count(t) + if s.last() == 46 { 1nat } else { 0nat });
        assert(dot_count(s.skip(p + 1)) == dot_count(s.skip(p + 1).drop_last())
            + if s.skip(p + 1).last() == 46 { 1nat } else { 0nat });
        assert(s.skip(p + 1).last() == s.last());
    }
}

/// A string with no point in it has a point count of zero.
proof fn lemma_dot_count_none(s: Seq<u8>)
    requires
        forall|j: int| 0 <= j < s.len() ==> s[j] != 46,
    ensures
        dot_count(s) == 0,
    decreases s.len(),
{
    if s.len() > 0 {
        lemma_dot_count_none(s.drop_last());
    }
}

/// Zero or one point and all bytes numeric puts only digits after the first
/// point.
proof fn lemma_frac_digits(s: Seq<u8>)
    requires
        forall|i: int| 0 <= i < s.len() ==> is_number_byte(s[i]),
        dot_count(s) <= 1,
    ensures
        all_digit_bytes(frac_part(s)),
        all_digit_bytes(int_part(s)),
        0 <= dot_pos(s) <= s.len(),
    decreases s.len(),
{
    lemma_dot_pos_range(s);
    let p = dot_pos(s);
    lemma_dot_pos_no_dot_before(s);
    if p < s.len() {
        lemma_dot_count_split(s, p);
        let t = s.skip(p + 1);
        assert(dot_count(t) == 0);
        assert forall|i: int| 0 <= i < t.len() implies is_digit_byte(t[i]) by {
            assert(t[i] == s[p + 1 + i]);
            assert(is_number_byte(t[i]));
            if t[i] == 46 {
                lemma_dot_count_pos(t, i);
            }
        }
    }
    assert forall|i: int| 0 <= i < int_part(s).len() implies is_digit_byte(int_part(s)[i]) by {
        assert(int_part(s)[i] == s[i]);
    }
}

/// A point somewhere makes the point count positive.
proof fn lemma_dot_count_pos(s: Seq<u8>, i: int)
    requires
        0 <= i < s.len(),
        s[i] == 46,
    ensures
        dot_count(s) >= 1,
    decreases s.len(),
{
    if i < s.len() - 1 {
        lemma_dot_count_pos(s.drop_last(), i);
    }
}

proof fn lemma_dot_pos_range(s: Seq<u8>)
    ensures
        0 <= dot_pos(s) <= s.len(),
        dot_pos(s) < s.len() ==> s[dot_pos(s)] == 46,
    decreases s.len(),
{
    if s.len() > 0 && s[0] != 46 {
        lemma_dot_pos_range(s.drop_first());
    }
}

proof fn lemma_dot_pos_no_dot_before(s: Seq<u8>)
    ensures
        forall|j: int| 0 <= j < dot_pos(s) && j < s.len() ==> s[j] != 46,
    decreases s.len(),
{
    if s.len() > 0 && s[0] != 46 {
        lemma_dot_pos_no_dot_before(s.drop_first());
        assert forall|j: int| 0 <= j < dot_pos(s) && j < s.len() implies s[j] != 46 by {
            if j > 0 {
                assert(s.drop_first()[j - 1] == s[j]);
            }
        }
    }
}

/// A parsed timestamp is well formed: eighteen whole digits stay under the
/// bound, and the fraction holds only digits.
pub proof fn lemma_parsed_wf(t: Timestamp, s: Seq<u8>)
    requires
        t.matches_text(s),
    ensures
        t.wf(),
{
    lemma_frac_digits(s);
    lemma_digits_val_bound(int_part(s));
    lemma_pow10_mono(int_part(s).len() as nat, 18);
    lemma_pow10_18();
}

/// Reads the digit bytes of `s` from `from` (inclusive) to `to` (exclusive)
/// as a decimal value.
fn digits_to_u64(s: &Vec<u8>, from: usize, to: usize) -> (r: u64)
    requires
        from <= to <= s.len(),
        to - from <= 18,
        all_digit_bytes(s@.subrange(from as int, to as int)),
    ensures
        r == digits_val(s@.subrange(from as int, to as int)),
        r <= MAX_WHOLE_SECONDS,
{
    proof {
        lemma_pow10_18();
    }
    let ghost part = s@.subrange(from as int, to as int);
    let mut val: u64 = 0;
    let mut i: usize = from;
    while i < to
        invariant
            from <= i <= to <= s.len(),
            to - from <= 18,
            all_digit_bytes(part),
            part == s@.subrange(from as int, to as int),
            val == digits_val(part.take(i - from)),
            val < pow10((i - from) as nat),
            pow10(18) == 1_000_000_000_000_000_000,
        decreases to - i,
    {
        proof {
            lemma_digits_val_bound(part.take(i - from));
            lemma_pow10_mono((i - from) as nat, 17);
            assert(pow10(17) * 10 == pow10(18));
            assert(part.take(i + 1 - from).drop_last() =~= part.take(i - from));
            assert(part.take(i + 1 - from).last() == s@[i as int]);
        }
        let d = s[i];
        assert(is_digit_byte(d));
        val = val * 10 + ((d - 48) as u64);
        i = i + 1;
        proof {
            lemma_digits_val_bound(part.take(i - from));
        }
    }
    proof {
        assert(part.take(to - from) =~= part);
        lemma_pow10_mono((to - from) as nat, 18);
    }
    val
}

/// Copies `s[from..to]` out as a fresh vector.
pub fn copy_range(s: &Vec<u8>, from: usize, to: usize) -> (r: Vec<u8>)
    requires
        from <= to <= s.len(),
    ensures
        r@ == s@.subrange(from as int, to as int),
{
    let mut out: Vec<u8> = Vec::new();
    let mut i: usize = from;
    while i < to
        invariant
            from <= i <= to <= s.len(),
            out@ == s@.subrange(from as int, i as int),
        decreases to - i,
    {
        out.push(s[i]);
        proof {
            assert(s@.subrange(from as int, i + 1) =~= s@.subrange(from as int, i as int).push(
                s@[i as int],
            ));
        }
        i = i + 1;
    }
    out
}

/// Parses one numeric field of a diagnostic line. Returns `None` exactly when
/// the text is not a decimal number the pipeline can represent: no digits,
/// more than one point, a stray byte, or more than eighteen whole-part
/// digits.
pub fn parse_timestamp(text: &Vec<u8>) -> (r: Option<Timestamp>)
    ensures
        match r {
            Some(t) => t.matches_text(text@) && t.wf(),
            None => !parseable_number(text@),
        },
{
    let n = text.len();
    if n == 0 {
        return None;
    }
    // Find the first point, checking byte classes and counting points along
    // the way.
    let mut i: usize = 0;
    let mut dots: usize = 0;
    let mut first_dot: usize = n;
    while i < n
        invariant
            0 <= i <= n,
            n == text@.len(),
            forall|j: int| 0 <= j < i ==> is_number_byte(text@[j]),
            dots == dot_count(text@.take(i as int)),
            dots <= i,
            first_dot == if dots == 0 { n as int } else { dot_pos(text@) },
            dots == 0 ==> forall|j: int| 0 <= j < i ==> text@[j] != 46,
            dots > 0 ==> first_dot < i && text@[first_dot as int] == 46,
        decreases n - i,
    {
        let b = text[i];
        if !(48 <= b && b <= 57 || b == 46) {
            proof {
                assert(!is_number_byte(text@[i as int]));
            }
            return None;
        }
        if b == 46 {
            if dots == 0 {
                first_dot = i;
                proof {
                    lemma_dot_pos_at(text@, i as int);
                }
            }
            dots = dots + 1;
        }
        proof {
            assert(text@.take(i + 1).drop_last() =~= text@.take(i as int));
            assert(text@.take(i + 1).last() == text@[i as int]);
        }
        i = i + 1;
    }
    proof {
        assert(text@.take(n as int) =~= text@);
        if dots == 0 {
            lemma_dot_pos_at(text@, n as int);
        }
    }
    if dots > 1 {
        return None;
    }
    if n - dots < 1 {
        return None;
    }
    // The whole string is now a valid number; split it at the point.
    proof {
        assert(valid_number(text@));
        lemma_frac_digits(text@);
        assert(int_part(text@) =~= text@.subrange(0, first_dot as int));
    }
    if first_dot > 18 {
        proof {
            assert(int_part(text@).len() > 18);
        }
        return None;
    }
    let whole = digits_to_u64(text, 0, first_dot);
    let frac: Vec<u8> = if first_dot < n {
        let f = copy_range(text, first_dot + 1, n);
        proof {
            assert(f@ =~= frac_part(text@));
        }
        f
    } else {
        proof {
            assert(frac_part(text@) =~= Seq::<u8>::empty());
        }
        Vec::new()
    };
    let t = Timestamp { whole, frac };
    proof {
        assert(t.matches_text(text@));
        lemma_parsed_wf(t, text@);
    }
    Some(t)
}

} // verus!
