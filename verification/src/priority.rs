//! Task priorities: the letters A through Z, ordered inverse-alphabetically.

use core::cmp::Ordering;
use vstd::prelude::*;
use vstd::std_specs::cmp::PartialOrdSpec;

verus! {

/// The priority of an incomplete task.
///
/// Ordering is inverse-alphabetical: `A` is the greatest priority and `Z`
/// the least, so `Priority::A > Priority::B` holds. Equal letters compare
/// equal.
#[derive(Clone, Copy, Debug, Eq, Hash, PartialEq, Structural)]
#[allow(missing_docs)]
pub enum Priority {
    A,
    B,
    C,
    D,
    E,
    F,
    G,
    H,
    I,
    J,
    K,
    L,
    M,
    N,
    O,
    P,
    Q,
    R,
    S,
    T,
    U,
    V,
    W,
    X,
    Y,
    Z,
}

impl Priority {
    /// The letter's place in the alphabet: 0 for `A` up to 25 for `Z`.
    /// A smaller rank means a greater priority.
    pub open spec fn rank(self) -> int {
        match self {
            Priority::A => 0,
            Priority::B => 1,
            Priority::C => 2,
            Priority::D => 3,
            Priority::E => 4,
            Priority::F => 5,
            Priority::G => 6,
            Priority::H => 7,
            Priority::I => 8,
            Priority::J => 9,
            Priority::K => 10,
            Priority::L => 11,
            Priority::M => 12,
            Priority::N => 13,
            Priority::O => 14,
            Priority::P => 15,
            Priority::Q => 16,
            Priority::R => 17,
            Priority::S => 18,
            Priority::T => 19,
            Priority::U => 20,
            Priority::V => 21,
            Priority::W => 22,
            Priority::X => 23,
            Priority::Y => 24,
            Priority::Z => 25,
        }
    }

    /// The upper-case letter that names this priority.
    pub open spec fn letter_spec(self) -> char {
        match self {
            Priority::A => 'A',
            Priority::B => 'B',
            Priority::C => 'C',
            Priority::D => 'D',
            Priority::E => 'E',
            Priority::F => 'F',
            Priority::G => 'G',
            Priority::H => 'H',
            Priority::I => 'I',
            Priority::J => 'J',
            Priority::K => 'K',
            Priority::L => 'L',
            Priority::M => 'M',
            Priority::N => 'N',
            Priority::O => 'O',
            Priority::P => 'P',
            Priority::Q => 'Q',
            Priority::R => 'R',
            Priority::S => 'S',
            Priority::T => 'T',
            Priority::U => 'U',
            Priority::V => 'V',
            Priority::W => 'W',
            Priority::X => 'X',
            Priority::Y => 'Y',
            Priority::Z => 'Z',
        }
    }

    /// Returns the upper-case letter that names this priority.
    pub fn letter(self) -> (c: char)
        ensures
            c == self.letter_spec(),
    {
        match self {
            Priority::A => 'A',
            Priority::B => 'B',
            Priority::C => 'C',
            Priority::D => 'D',
            Priority::E => 'E',
            Priority::F => 'F',
            Priority::G => 'G',
            Priority::H => 'H',
            Priority::I => 'I',
            Priority::J => 'J',
            Priority::K => 'K',
            Priority::L => 'L',
            Priority::M => 'M',
            Priority::N => 'N',
            Priority::O => 'O',
            Priority::P => 'P',
            Priority::Q => 'Q',
            Priority::R => 'R',
            Priority::S => 'S',
            Priority::T => 'T',
            Priority::U => 'U',
            Priority::V => 'V',
            Priority::W => 'W',
            Priority::X => 'X',
            Priority::Y => 'Y',
            Priority::Z => 'Z',
        }
    }

    /// Reads the `(X)` marker at position `i` of `s`, per
    /// [`parse_priority_at`]: the priority and the position just past the
    /// closing parenthesis, or `None` on a grammar non-match.
    pub fn parse(s: &str, i: usize) -> (r: Option<(Priority, usize)>)
        requires
            i <= s@.len(),
        ensures
            match r {
                Some((p, j)) => parse_priority_at(s@, i as int) == Some((p, j as int)) && j == i
                    + 3 && j <= s@.len(),
                None => parse_priority_at(s@, i as int) is None,
            },
    {
        let n = s.unicode_len();
        if n - i < 3 {
            return None;
        }
        if s.get_char(i) != '(' || s.get_char(i + 2) != ')' {
            return None;
        }
        match priority_of_letter(s.get_char(i + 1)) {
            Some(p) => Some((p, i + 3)),
            None => None,
        }
    }
}

/// The priority named by an upper-case letter, or `None` for any other
/// character.
pub open spec fn priority_from_char(c: char) -> Option<Priority> {
    if c == 'A' {
        Some(Priority::A)
    } else if c == 'B' {
        Some(Priority::B)
    } else if c == 'C' {
        Some(Priority::C)
    } else if c == 'D' {
        Some(Priority::D)
    } else if c == 'E' {
        Some(Priority::E)
    } else if c == 'F' {
        Some(Priority::F)
    } else if c == 'G' {
        Some(Priority::G)
    } else if c == 'H' {
        Some(Priority::H)
    } else if c == 'I' {
        Some(Priority::I)
    } else if c == 'J' {
        Some(Priority::J)
    } else if c == 'K' {
        Some(Priority::K)
    } else if c == 'L' {
        Some(Priority::L)
    } else if c == 'M' {
        Some(Priority::M)
    } else if c == 'N' {
        Some(Priority::N)
    } else if c == 'O' {
        Some(Priority::O)
    } else if c == 'P' {
        Some(Priority::P)
    } else if c == 'Q' {
        Some(Priority::Q)
    } else if c == 'R' {
        Some(Priority::R)
    } else if c == 'S' {
        Some(Priority::S)
    } else if c == 'T' {
        Some(Priority::T)
    } else if c == 'U' {
        Some(Priority::U)
    } else if c == 'V' {
        Some(Priority::V)
    } else if c == 'W' {
        Some(Priority::W)
    } else if c == 'X' {
        Some(Priority::X)
    } else if c == 'Y' {
        Some(Priority::Y)
    } else if c == 'Z' {
        Some(Priority::Z)
    } else {
        None
    }
}

/// The priority named by `c`, or `None` when `c` is not an upper-case
/// letter.
fn priority_of_letter(c: char) -> (r: Option<Priority>)
    ensures
        r == priority_from_char(c),
{
    match c {
        'A' => Some(Priority::A),
        'B' => Some(Priority::B),
        'C' => Some(Priority::C),
        'D' => Some(Priority::D),
        'E' => Some(Priority::E),
        'F' => Some(Priority::F),
        'G' => Some(Priority::G),
        'H' => Some(Priority::H),
        'I' => Some(Priority::I),
        'J' => Some(Priority::J),
        'K' => Some(Priority::K),
        'L' => Some(Priority::L),
        'M' => Some(Priority::M),
        'N' => Some(Priority::N),
        'O' => Some(Priority::O),
        'P' => Some(Priority::P),
        'Q' => Some(Priority::Q),
        'R' => Some(Priority::R),
        'S' => Some(Priority::S),
        'T' => Some(Priority::T),
        'U' => Some(Priority::U),
        'V' => Some(Priority::V),
        'W' => Some(Priority::W),
        'X' => Some(Priority::X),
        'Y' => Some(Priority::Y),
        'Z' => Some(Priority::Z),
        _ => None,
    }
}

/// The result of reading a `(X)` priority marker at position `i` of `s`:
/// the priority and the position just past it, or `None` when the three
/// characters are not an open parenthesis, an upper-case letter and a
/// close parenthesis.
pub open spec fn parse_priority_at(s: Seq<char>, i: int) -> Option<(Priority, int)> {
    if 0 <= i && i + 3 <= s.len() && s[i] == '(' && s[i + 2] == ')' && priority_from_char(
        s[i + 1],
    ) is Some {
        Some((priority_from_char(s[i + 1]).unwrap(), i + 3))
    } else {
        None
    }
}

impl PartialOrd for Priority {
    fn partial_cmp(&self, other: &Priority) -> (r: Option<Ordering>) {
        let lhs = self.rank_value();
        let rhs = other.rank_value();
        if lhs == rhs {
            Some(Ordering::Equal)
        } else if lhs < rhs {
            Some(Ordering::Greater)
        } else {
            Some(Ordering::Less)
        }
    }
}

impl vstd::std_specs::cmp::PartialOrdSpecImpl for Priority {
    open spec fn obeys_partial_cmp_spec() -> bool {
        true
    }

    open spec fn partial_cmp_spec(&self, other: &Priority) -> Option<Ordering> {
        if self.rank() == other.rank() {
            Some(Ordering::Equal)
        } else if self.rank() < other.rank() {
            Some(Ordering::Greater)
        } else {
            Some(Ordering::Less)
        }
    }
}

impl Priority {
    /// The letter's alphabet place as a machine integer.
    fn rank_value(self) -> (r: u32)
        ensures
            r == self.rank(),
    {
        match self {
            Priority::A => 0,
            Priority::B => 1,
            Priority::C => 2,
            Priority::D => 3,
            Priority::E => 4,
            Priority::F => 5,
            Priority::G => 6,
            Priority::H => 7,
            Priority::I => 8,
            Priority::J => 9,
            Priority::K => 10,
            Priority::L => 11,
            Priority::M => 12,
            Priority::N => 13,
            Priority::O => 14,
            Priority::P => 15,
            Priority::Q => 16,
            Priority::R => 17,
            Priority::S => 18,
            Priority::T => 19,
            Priority::U => 20,
            Priority::V => 21,
            Priority::W => 22,
            Priority::X => 23,
            Priority::Y => 24,
            Priority::Z => 25,
        }
    }
}

/// Comparing two priorities orders them inverse-alphabetically: the
/// earlier letter is the greater priority, so `A` exceeds `Z`, and equal
/// letters are equal.
pub proof fn lemma_priority_inverse_alphabetical(p: Priority, q: Priority)
    ensures
        p.partial_cmp_spec(&q) == Some(Ordering::Equal) <==> p == q,
        p.partial_cmp_spec(&q) == Some(Ordering::Greater) <==> p.rank() < q.rank(),
        p.partial_cmp_spec(&q) == Some(Ordering::Less) <==> p.rank() > q.rank(),
        Priority::A.partial_cmp_spec(&Priority::Z) == Some(Ordering::Greater),
        Priority::A.partial_cmp_spec(&Priority::A) == Some(Ordering::Equal),
{
}

} // verus!
