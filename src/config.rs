//! The run configuration: cell width and end-of-input policy.
use std::str::FromStr;
use vstd::prelude::*;

verus! {

/// What `,` stores when the input is exhausted.
#[derive(Debug, Clone, Copy, PartialEq, Eq, Structural)]
pub enum EofBehavior {
    /// Store zero.
    Zero,
    /// Store the cell's all-bits-set value.
    Neg1,
    /// Leave the cell as it is.
    NoChange,
}

/// The width of every cell of a run.
#[derive(Debug, Clone, Copy, PartialEq, Eq, Structural)]
pub enum CellSize {
    U8,
    U16,
    U32,
    U64,
}

/// The configuration of one run.
#[derive(Debug, Clone, Copy, PartialEq, Eq, Structural)]
pub struct Specifications {
    pub cell_bits: CellSize,
    pub eof_behavior: EofBehavior,
}

/// Names the result of `str::to_lowercase`.
pub uninterp spec fn lowercase_of(s: Seq<char>) -> Seq<char>;

/// Relies on `str::to_lowercase`: the lowercase form of the string, which
/// depends on its characters alone.
#[verifier::external_body]
fn lowercase(s: &str) -> (r: String)
    ensures
        r@ == lowercase_of(s@),
{
    s.to_lowercase()
}

/// The policy that a lowercase word names: `zero`, `neg1` or `nc`.
pub open spec fn eof_from_word(w: Seq<char>) -> Option<EofBehavior> {
    if w == seq!['z', 'e', 'r', 'o'] {
        Some(EofBehavior::Zero)
    } else if w == seq!['n', 'e', 'g', '1'] {
        Some(EofBehavior::Neg1)
    } else if w == seq!['n', 'c'] {
        Some(EofBehavior::NoChange)
    } else {
        None
    }
}

impl EofBehavior {
    /// The policy that an already lowercased word names.
    pub fn from_lowercase(w: &str) -> (r: Option<EofBehavior>)
        ensures
            r == eof_from_word(w@),
    {
        proof {
            reveal_strlit("zero");
            reveal_strlit("neg1");
            reveal_strlit("nc");
            assert("zero"@ =~= seq!['z', 'e', 'r', 'o']);
            assert("neg1"@ =~= seq!['n', 'e', 'g', '1']);
            assert("nc"@ =~= seq!['n', 'c']);
        }
        let w = w.to_owned();
        if w == "zero".to_owned() {
            Some(EofBehavior::Zero)
        } else if w == "neg1".to_owned() {
            Some(EofBehavior::Neg1)
        } else if w == "nc".to_owned() {
            Some(EofBehavior::NoChange)
        } else {
            None
        }
    }

    /// The policy that a word names, in any case.
    pub fn parse(s: &str) -> (r: Option<EofBehavior>)
        ensures
            r == eof_from_word(lowercase_of(s@)),
    {
        let w = lowercase(s);
        EofBehavior::from_lowercase(w.as_str())
    }
}

impl FromStr for EofBehavior {
    type Err = ();

    fn from_str(s: &str) -> Result<EofBehavior, ()> {
        match EofBehavior::parse(s) {
            Some(e) => Ok(e),
            None => Err(()),
        }
    }
}

/// The value of a sequence of decimal digits.
pub open spec fn digits_value(d: Seq<char>) -> nat
    decreases d.len(),
{
    if d.len() == 0 {
        0
    } else {
        digits_value(d.drop_last()) * 10 + (d.last() as nat - '0' as nat) as nat
    }
}

/// A non-empty sequence of ASCII decimal digits.
pub open spec fn is_digits(d: Seq<char>) -> bool {
    d.len() > 0 && forall|i: int| 0 <= i < d.len() ==> '0' <= #[trigger] d[i] <= '9'
}

/// What `u32::from_str` accepts: an optional `+`, then decimal digits whose
/// value fits in 32 bits.
pub open spec fn decimal_u32(s: Seq<char>) -> Option<u32> {
    let d = if s.len() > 0 && s[0] == '+' {
        s.drop_first()
    } else {
        s
    };
    if is_digits(d) && digits_value(d) <= u32::MAX {
        Some(digits_value(d) as u32)
    } else {
        None
    }
}

/// Relies on `u32::from_str`: an optional `+` followed by one or more ASCII
/// digits is read as a decimal number, and is refused when its value does
/// not fit; every other string is refused.
#[verifier::external_body]
fn parse_u32(s: &str) -> (r: Option<u32>)
    ensures
        r == decimal_u32(s@),
{
    s.parse::<u32>().ok()
}

/// The cell size of a width in bits, if it is one of 8, 16, 32 and 64.
pub open spec fn size_of_bits(bits: u32) -> Option<CellSize> {
    if bits == 8 {
        Some(CellSize::U8)
    } else if bits == 16 {
        Some(CellSize::U16)
    } else if bits == 32 {
        Some(CellSize::U32)
    } else if bits == 64 {
        Some(CellSize::U64)
    } else {
        None
    }
}

impl CellSize {
    /// The width in bits.
    pub open spec fn bits_spec(&self) -> nat {
        match self {
            CellSize::U8 => 8,
            CellSize::U16 => 16,
            CellSize::U32 => 32,
            CellSize::U64 => 64,
        }
    }

    /// The width in bits.
    pub fn bits_size(&self) -> (r: u32)
        ensures
            r == self.bits_spec(),
    {
        match self {
            CellSize::U8 => 8,
            CellSize::U16 => 16,
            CellSize::U32 => 32,
            CellSize::U64 => 64,
        }
    }

    /// The cell size of a width in bits.
    pub fn from_size(bits: u32) -> (r: Option<CellSize>)
        ensures
            r == size_of_bits(bits),
            r matches Some(c) ==> c.bits_spec() == bits,
    {
        match bits {
            8 => Some(CellSize::U8),
            16 => Some(CellSize::U16),
            32 => Some(CellSize::U32),
            64 => Some(CellSize::U64),
            _ => None,
        }
    }

    /// The cell size that a decimal width names.
    pub fn parse(s: &str) -> (r: Option<CellSize>)
        ensures
            r == (match decimal_u32(s@) {
                Some(bits) => size_of_bits(bits),
                None => None,
            }),
    {
        match parse_u32(s) {
            Some(bits) => CellSize::from_size(bits),
            None => None,
        }
    }
}

impl FromStr for CellSize {
    type Err = ();

    fn from_str(s: &str) -> Result<CellSize, ()> {
        match CellSize::parse(s) {
            Some(c) => Ok(c),
            None => Err(()),
        }
    }
}

} // verus!
