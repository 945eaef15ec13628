use vstd::prelude::*;
use vstd::string::*;

verus! {

/// Whether `s` is a non-empty run of ASCII decimal digits.
pub open spec fn is_decimal_digits(s: Seq<char>) -> bool {
    s.len() > 0 && forall|i: int| 0 <= i < s.len() ==> '0' <= #[trigger] s[i] <= '9'
}

/// The number that a run of ASCII decimal digits denotes.
pub open spec fn digits_number(s: Seq<char>) -> int
    decreases s.len(),
{
    if s.len() == 0 {
        0
    } else {
        digits_number(s.drop_last()) * 10 + (s.last() as int - '0' as int)
    }
}

/// What a `WholeNumber` holds: whether it carries a minus sign, and its digits.
pub type WholeView = (bool, Seq<char>);

/// The value of a whole number (a minus zero is zero).
pub open spec fn whole_value(w: WholeView) -> int {
    if w.0 {
        -digits_number(w.1)
    } else {
        digits_number(w.1)
    }
}

/// The text of a whole number: its sign, when it has one, then its digits.
pub open spec fn whole_text(w: WholeView) -> Seq<char> {
    if w.0 {
        seq!['-'] + w.1
    } else {
        w.1
    }
}

/// The whole number that `text` writes: an optional `-` and then at least one
/// ASCII digit, nothing else.
pub open spec fn spec_whole_from_text(text: Seq<char>) -> Option<WholeView> {
    if text.len() > 0 && text[0] == '-' {
        if is_decimal_digits(text.drop_first()) {
            Some((true, text.drop_first()))
        } else {
            None
        }
    } else if is_decimal_digits(text) {
        Some((false, text))
    } else {
        None
    }
}

/// A whole number of any size, as it is written: a sign and decimal digits.
/// A minus zero keeps its sign.
#[derive(Debug, PartialEq)]
pub struct WholeNumber {
    negative: bool,
    digits: String,
}

impl View for WholeNumber {
    type V = WholeView;

    closed spec fn view(&self) -> WholeView {
        (self.negative, self.digits@)
    }
}

impl WholeNumber {
    #[verifier::type_invariant]
    spec fn well_formed(self) -> bool {
        is_decimal_digits(self.digits@)
    }

    /// The number written as an optional `-` followed by ASCII digits.
    pub fn from_text(text: &str) -> (r: Option<WholeNumber>)
        ensures
            match r {
                Some(w) => spec_whole_from_text(text@) == Some(w@),
                None => spec_whole_from_text(text@) is None,
            },
    {
        let chars = crate::text::chars_of(text);
        let n = chars.len();
        let negative = n > 0 && chars[0] == '-';
        let start: usize = if negative {
            1
        } else {
            0
        };
        if start >= n {
            assert(!is_decimal_digits(text@.skip(start as int)));
            assert(negative ==> text@.drop_first() =~= text@.skip(1));
            return None;
        }
        let mut i = start;
        while i < n
            invariant
                chars@ == text@,
                n == text@.len(),
                start <= i <= n,
                start < n,
                negative == (text@[0] == '-'),
                start == (if negative { 1usize } else { 0usize }),
                forall|k: int| start <= k < i ==> '0' <= #[trigger] text@[k] <= '9',
            decreases n - i,
        {
            if !('0' <= chars[i] && chars[i] <= '9') {
                assert(!is_decimal_digits(text@.skip(start as int))) by {
                    assert(text@.skip(start as int)[i - start] == text@[i as int]);
                }
                assert(negative ==> text@.drop_first() =~= text@.skip(1));
                assert(!negative ==> text@ =~= text@.skip(0));
                return None;
            }
            i = i + 1;
        }
        let digits = text.substring_char(start, n).to_owned();
        assert(digits@ =~= text@.skip(start as int));
        assert(negative ==> text@.drop_first() =~= text@.skip(1));
        assert(!negative ==> text@ =~= text@.skip(0));
        Some(WholeNumber { negative, digits })
    }

    /// Whether the sign is minus.
    pub fn is_negative(&self) -> (r: bool)
        ensures
            r == self@.0,
    {
        self.negative
    }

    /// Whether the value is at most `bound`.
    pub fn at_most(&self, bound: u64) -> (r: bool)
        requires
            bound < 1000,
        ensures
            r == (whole_value(self@) <= bound),
    {
        proof {
            use_type_invariant(self);
        }
        if self.negative {
            proof {
                lemma_digits_number_nonnegative(self.digits@);
            }
            return true;
        }
        let chars = crate::text::chars_of(self.digits.as_str());
        let n = chars.len();
        let mut capped: u64 = 0;
        let mut i: usize = 0;
        assert(self.digits@.subrange(0, 0) =~= Seq::<char>::empty());
        while i < n
            invariant
                chars@ == self.digits@,
                n == self.digits@.len(),
                is_decimal_digits(self.digits@),
                i <= n,
                capped == (if digits_number(self.digits@.subrange(0, i as int)) < 1000 {
                    digits_number(self.digits@.subrange(0, i as int))
                } else {
                    1000
                }),
                digits_number(self.digits@.subrange(0, i as int)) >= 0,
            decreases n - i,
        {
            let ghost prev = self.digits@.subrange(0, i as int);
            let ghost next = self.digits@.subrange(0, i + 1);
            assert(next.drop_last() =~= prev);
            assert(next.last() == chars@[i as int]);
            let d = (chars[i] as u32 - '0' as u32) as u64;
            assert('0' <= chars@[i as int] <= '9');
            capped = capped * 10 + d;
            if capped > 1000 {
                capped = 1000;
            }
            i = i + 1;
        }
        assert(self.digits@.subrange(0, n as int) =~= self.digits@);
        capped <= bound
    }

    /// The same number.
    pub fn copy(&self) -> (r: WholeNumber)
        ensures
            r@ == self@,
    {
        proof {
            use_type_invariant(self);
        }
        WholeNumber { negative: self.negative, digits: self.digits.as_str().to_owned() }
    }

    /// Appends the number's text.
    pub fn append_to(&self, s: &mut String)
        ensures
            final(s)@ == old(s)@ + whole_text(self@),
    {
        if self.negative {
            s.append("-");
            proof {
                reveal_strlit("-");
            }
        }
        s.append(self.digits.as_str());
        assert(s@ =~= old(s)@ + whole_text(self@));
    }
}

proof fn lemma_digits_number_nonnegative(s: Seq<char>)
    requires
        forall|i: int| 0 <= i < s.len() ==> '0' <= #[trigger] s[i] <= '9',
    ensures
        digits_number(s) >= 0,
    decreases s.len(),
{
    if s.len() > 0 {
        assert(forall|i: int| 0 <= i < s.drop_last().len() ==> s.drop_last()[i] == s[i]);
        lemma_digits_number_nonnegative(s.drop_last());
        assert('0' <= s[s.len() - 1] <= '9');
    }
}

} // verus!
