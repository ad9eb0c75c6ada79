//! Multiplicity bounds of references, attributes, parameters and operations.
use vstd::prelude::*;

use crate::error::{BoundSide, Error, Res};
use crate::text::{
    chars_eq_str, chars_of, decimal_string, is_digit, law_parse_usize_of_decimal,
    lemma_decimal_string, parse_usize, push_decimal, push_str, spec_parse_usize, string_from,
};

verus! {

/// The shape of a collection with a bounded number of elements: a mandatory
/// prefix of `pref` elements, then, when `tail` holds, optional elements up to
/// `tail_bound` elements in all (no limit when `tail_bound` is `None`).
#[derive(Debug, Clone, Copy)]
pub struct BoundedColl {
    pub pref: usize,
    pub tail: bool,
    pub tail_bound: Option<usize>,
}

impl BoundedColl {
    /// A collection of exactly `len` elements.
    pub fn exact(len: usize) -> (res: Self)
        ensures
            res.pref == len,
            !res.tail,
            res.tail_bound is None,
    {
        Self { pref: len, tail: false, tail_bound: None }
    }

    /// The same prefix, followed by a tail bounded by `ubound`.
    pub fn with_tail(self, ubound: Option<usize>) -> (res: Self)
        ensures
            res.pref == self.pref,
            res.tail,
            res.tail_bound == ubound,
    {
        let mut res = self;
        res.tail = true;
        res.tail_bound = ubound;
        res
    }
}

/// Reference bounds: at least `lbound`, at most `ubound` (no limit when
/// `ubound` is `None`).
///
/// # Invariants
///
/// - if `let Some(ubound) = self.ubound`, then `lbound ≤ ubound`
#[derive(Debug, Clone, Copy)]
pub struct Bounds {
    pub lbound: usize,
    pub ubound: Option<usize>,
}

/// The characters of an optional string slice.
pub open spec fn opt_str_view(s: Option<&str>) -> Option<Seq<char>> {
    match s {
        Some(s) => Some(s@),
        None => None,
    }
}

/// What `Bounds::new` gives for `lbound` and `ubound`.
pub open spec fn new_result(lbound: usize, ubound: Option<usize>) -> Res<Bounds> {
    match ubound {
        Some(u) => if u < lbound {
            Err(Error::IllegalBounds { lbound, ubound: u })
        } else {
            Ok(Bounds { lbound, ubound })
        },
        None => Ok(Bounds { lbound, ubound }),
    }
}

/// The lower bound that a textual lower bound stands for: `1` when absent,
/// `None` when the text is not an unsigned integer.
pub open spec fn spec_lower_bound(lbound: Option<Seq<char>>) -> Option<usize> {
    match lbound {
        None => Some(1),
        Some(s) => spec_parse_usize(s),
    }
}

/// The upper bound that a textual upper bound stands for, given the lower
/// bound `lbound`: `max(lbound, 1)` when absent, no limit for `-1`, and `None`
/// when the text is neither `-1` nor an unsigned integer.
pub open spec fn spec_upper_bound(ubound: Option<Seq<char>>, lbound: usize) -> Option<
    Option<usize>,
> {
    match ubound {
        None => Some(Some(if lbound == 0 { 1 } else { lbound })),
        Some(s) => if s == "-1"@ {
            Some(None)
        } else {
            match spec_parse_usize(s) {
                Some(u) => Some(Some(u)),
                None => None,
            }
        },
    }
}

/// What `Bounds::from_str` gives on the textual bounds `lbound` and
/// `ubound`: an error naming the first bound that is not a number, else the
/// result of `Bounds::new` on the numbers.
pub open spec fn from_str_result(
    lbound: Option<Seq<char>>,
    ubound: Option<Seq<char>>,
    res: Res<Bounds>,
) -> bool {
    match spec_lower_bound(lbound) {
        None => res matches Err(Error::UnexpectedBound { side: BoundSide::Lower, found })
            && lbound == Some(found@),
        Some(lb) => match spec_upper_bound(ubound, lb) {
            None => res matches Err(Error::UnexpectedBound { side: BoundSide::Upper, found })
                && ubound == Some(found@),
            Some(ub) => res == new_result(lb, ub),
        },
    }
}

/// The number of elements that bounds allow, when they allow exactly one.
pub open spec fn spec_get_exact(b: Bounds) -> Option<usize> {
    if b.ubound == Some(b.lbound) {
        Some(b.lbound)
    } else {
        None
    }
}

/// The collection shape of bounds: `lbound` mandatory elements, then, unless
/// the bounds are exact, a tail bounded by `ubound`.
pub open spec fn spec_to_coll(b: Bounds) -> BoundedColl {
    if b.ubound == Some(b.lbound) {
        BoundedColl { pref: b.lbound, tail: false, tail_bound: None }
    } else {
        BoundedColl { pref: b.lbound, tail: true, tail_bound: b.ubound }
    }
}

/// The text that `Bounds::to_string` gives for the bounds `b`.
pub open spec fn bounds_text(b: Bounds) -> Seq<char> {
    "["@ + decimal_string(b.lbound as nat) + ", "@ + match b.ubound {
        Some(u) => decimal_string(u as nat) + "]"@,
        None => "∞["@,
    }
}

impl Bounds {
    /// The invariant of bounds: the lower bound does not exceed the upper one.
    pub open spec fn wf(self) -> bool {
        self.ubound matches Some(u) ==> self.lbound <= u
    }

    /// Bounds from `lbound` to `ubound`; fails when `ubound < lbound`.
    pub fn new(lbound: usize, ubound: Option<usize>) -> (res: Res<Self>)
        ensures
            res == new_result(lbound, ubound),
            res matches Ok(b) ==> b.wf(),
    {
        if let Some(u) = ubound {
            if u < lbound {
                return Err(Error::IllegalBounds { lbound, ubound: u });
            }
        }
        Ok(Self { lbound, ubound })
    }

    /// The bounds of an operation when none are given: `[0, 1]`.
    pub fn default_operation() -> (res: Res<Self>)
        ensures
            res == Res::<Bounds>::Ok(Bounds { lbound: 0, ubound: Some(1) }),
    {
        Self::new(0, Some(1))
    }

    /// Parses some bounds.
    ///
    /// The default for `lbound` is `1`, and the default for `ubound` is
    /// `max(lbound, 1)`; an upper bound of `-1` means no limit.
    pub fn from_str(lbound: Option<&str>, ubound: Option<&str>) -> (res: Res<Self>)
        ensures
            from_str_result(opt_str_view(lbound), opt_str_view(ubound), res),
            res matches Ok(b) ==> b.wf(),
    {
        let lb: usize = match lbound {
            None => 1,
            Some(l) => match parse_usize(l) {
                Some(n) => n,
                None => {
                    return Err(
                        Error::UnexpectedBound { side: BoundSide::Lower, found: string_from(l) },
                    );
                },
            },
        };
        let ub: Option<usize> = match ubound {
            None => Some(
                if lb == 0 {
                    1
                } else {
                    lb
                },
            ),
            Some(u) => {
                let uv = chars_of(u);
                if chars_eq_str(&uv, "-1") {
                    None
                } else {
                    match parse_usize(u) {
                        Some(n) => Some(n),
                        None => {
                            return Err(
                                Error::UnexpectedBound {
                                    side: BoundSide::Upper,
                                    found: string_from(u),
                                },
                            );
                        },
                    }
                }
            },
        };
        Self::new(lb, ub)
    }

    /// The number of elements, when the bounds allow exactly one number.
    pub fn get_exact(self) -> (res: Option<usize>)
        ensures
            res == spec_get_exact(self),
            res is Some <==> self.ubound == Some(self.lbound),
            res matches Some(n) ==> n == self.lbound,
    {
        match self.ubound {
            Some(u) => if u == self.lbound {
                Some(u)
            } else {
                None
            },
            None => None,
        }
    }

    /// Whether the bounds allow no element at all: exactly zero.
    pub fn is_empty(self) -> (res: bool)
        ensures
            res == (self.lbound == 0 && self.ubound == Some(0usize)),
    {
        match self.get_exact() {
            Some(n) => n == 0,
            None => false,
        }
    }

    /// The collection shape of these bounds: `lbound` mandatory elements, and
    /// a tail bounded by `ubound` unless the bounds are exact.
    pub fn to_coll(self) -> (res: BoundedColl)
        ensures
            res == spec_to_coll(self),
            res.pref == self.lbound,
            res.tail <==> self.ubound != Some(self.lbound),
            res.tail ==> res.tail_bound == self.ubound,
            !res.tail ==> res.tail_bound is None,
    {
        let mut coll = BoundedColl::exact(self.lbound);
        let exact = match self.ubound {
            Some(u) => u == self.lbound,
            None => false,
        };
        if !exact {
            coll = coll.with_tail(self.ubound)
        }
        coll
    }

    /// The bounds as text: `[lbound, ubound]`, or `[lbound, ∞[` without an
    /// upper bound.
    pub fn to_string(&self) -> (res: String)
        ensures
            res@ == bounds_text(*self),
            self.ubound matches Some(u) ==> res@ == "["@ + decimal_string(self.lbound as nat)
                + ", "@ + decimal_string(u as nat) + "]"@,
            self.ubound is None ==> res@ == "["@ + decimal_string(self.lbound as nat) + ", "@
                + "∞["@,
    {
        let mut s = String::new();
        push_str(&mut s, "[");
        push_decimal(&mut s, self.lbound);
        push_str(&mut s, ", ");
        match self.ubound {
            Some(u) => {
                push_decimal(&mut s, u);
                push_str(&mut s, "]");
            },
            None => {
                push_str(&mut s, "∞[");
            },
        }
        assert(s@ =~= bounds_text(*self));
        s
    }
}

/// A collection shape has a tail exactly when its bounds are not exact, and
/// then the tail is bounded by the upper bound; the mandatory prefix is the
/// lower bound either way.
pub proof fn law_to_coll_matches_get_exact(b: Bounds)
    ensures
        spec_to_coll(b).tail <==> spec_get_exact(b) is None,
        spec_to_coll(b).pref == b.lbound,
        spec_get_exact(b) matches Some(n) ==> n == b.lbound && spec_to_coll(b).tail_bound is None,
        spec_to_coll(b).tail ==> spec_to_coll(b).tail_bound == b.ubound,
{
}

/// Bounds are empty exactly when they are exactly zero.
pub proof fn law_is_empty_is_exact_zero(b: Bounds)
    ensures
        (b.lbound == 0 && b.ubound == Some(0usize)) <==> spec_get_exact(b) == Some(0usize),
{
}

/// Whatever the text, the bounds that `Bounds::from_str` accepts keep the
/// invariant, and without any text they are `[1, 1]`.
pub proof fn law_from_str_defaults_and_invariant(
    lbound: Option<Seq<char>>,
    ubound: Option<Seq<char>>,
    res: Res<Bounds>,
)
    requires
        from_str_result(lbound, ubound, res),
    ensures
        res matches Ok(b) ==> b.wf(),
        (lbound is None && ubound is None) ==> res == Res::<Bounds>::Ok(
            Bounds { lbound: 1, ubound: Some(1) },
        ),
        lbound is None ==> (res matches Ok(b) ==> b.lbound == 1),
        ubound is None ==> (res matches Ok(b) ==> b.ubound == Some(
            if b.lbound == 0 {
                1
            } else {
                b.lbound
            },
        )),
{
}

/// Bounds read back from the decimal writing of their numbers (with `-1`
/// for no upper bound) are the bounds written.
pub proof fn law_bounds_text_roundtrip(b: Bounds)
    requires
        b.wf(),
    ensures
        from_str_result(
            Some(decimal_string(b.lbound as nat)),
            Some(
                match b.ubound {
                    Some(u) => decimal_string(u as nat),
                    None => "-1"@,
                },
            ),
            Res::<Bounds>::Ok(b),
        ),
{
    law_parse_usize_of_decimal(b.lbound);
    if let Some(u) = b.ubound {
        law_parse_usize_of_decimal(u);
        lemma_decimal_string(u as nat);
        reveal_strlit("-1");
        assert(is_digit(decimal_string(u as nat)[0]));
        assert(decimal_string(u as nat) != "-1"@);
    }
}

/// Bounds are exact, that is allow a single number of elements, exactly when
/// the upper bound is present and equals the lower bound; that number is the
/// lower bound. Bounds without an upper bound are never exact and their
/// collection shape always has an unbounded tail.
pub proof fn law_exact_iff_upper_equals_lower(b: Bounds)
    ensures
        spec_get_exact(b) is Some <==> b.ubound == Some(b.lbound),
        spec_get_exact(b) matches Some(n) ==> n == b.lbound,
        b.ubound is None ==> spec_get_exact(b) is None,
        b.ubound is None ==> spec_to_coll(b).tail && spec_to_coll(b).tail_bound is None,
        spec_to_coll(b).pref == b.lbound,
        spec_to_coll(b).tail <==> b.ubound != Some(b.lbound),
{
}

/// The text of bounds with an upper bound `u` is `[`, the lower bound in
/// decimal, `, `, `u` in decimal and `]`; the sign `∞` appears in the text
/// exactly when there is no upper bound.
pub proof fn law_bounds_text_shape(b: Bounds)
    ensures
        b.ubound matches Some(u) ==> bounds_text(b) == "["@ + decimal_string(b.lbound as nat)
            + ", "@ + decimal_string(u as nat) + "]"@,
        (exists|i: int| 0 <= i < bounds_text(b).len() && bounds_text(b)[i] == '∞') <==> b.ubound
            is None,
{
    reveal_strlit("[");
    reveal_strlit(", ");
    reveal_strlit("]");
    reveal_strlit("∞[");
    lemma_decimal_string(b.lbound as nat);
    let t = bounds_text(b);
    let l = decimal_string(b.lbound as nat);
    match b.ubound {
        Some(u) => {
            lemma_decimal_string(u as nat);
            let d = decimal_string(u as nat);
            assert(t =~= "["@ + l + ", "@ + d + "]"@);
            assert forall|i: int| 0 <= i < t.len() implies t[i] != '∞' by {
                if i == 0 {
                } else if i < 1 + l.len() {
                    assert(t[i] == l[i - 1]);
                    assert(is_digit(l[i - 1]));
                } else if i < 3 + l.len() {
                } else if i < 3 + l.len() + d.len() {
                    assert(t[i] == d[i - 3 - l.len()]);
                    assert(is_digit(d[i - 3 - l.len()]));
                } else {
                }
            }
        },
        None => {
            assert(t =~= "["@ + l + ", "@ + "∞["@);
            assert(t[3 + l.len() as int] == '∞');
        },
    }
}

} // verus!
