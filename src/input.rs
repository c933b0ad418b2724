use crate::cube::Move;
use vstd::prelude::*;

verus! {

/// The move named by a lower-case face letter, given whether a prime or a
/// double marker applies; a double marker wins over a prime.
pub open spec fn move_for_letter(letter: char, prime: bool, double: bool) -> Option<Move> {
    let base = if letter == 'u' {
        Some((Move::U, Move::UPrime, Move::U2))
    } else if letter == 'd' {
        Some((Move::D, Move::DPrime, Move::D2))
    } else if letter == 'r' {
        Some((Move::R, Move::RPrime, Move::R2))
    } else if letter == 'l' {
        Some((Move::L, Move::LPrime, Move::L2))
    } else if letter == 'f' {
        Some((Move::F, Move::FPrime, Move::F2))
    } else if letter == 'b' {
        Some((Move::B, Move::BPrime, Move::B2))
    } else {
        None
    };
    match base {
        Some((quarter, prime_move, half)) => Some(
            if double {
                half
            } else if prime {
                prime_move
            } else {
                quarter
            },
        ),
        None => None,
    }
}

/// `ch` is an ASCII upper-case letter.
pub open spec fn is_upper(ch: char) -> bool {
    'A' <= ch <= 'Z'
}

/// The lower-case face letter for `ch`, or `ch` itself when it is none.
pub open spec fn face_letter(ch: char) -> char {
    if ch == 'U' {
        'u'
    } else if ch == 'D' {
        'd'
    } else if ch == 'R' {
        'r'
    } else if ch == 'L' {
        'l'
    } else if ch == 'F' {
        'f'
    } else if ch == 'B' {
        'b'
    } else {
        ch
    }
}

fn parse_move_letter(letter: char, prime: bool, double: bool) -> (r: Option<Move>)
    ensures
        r == move_for_letter(letter, prime, double),
{
    let (quarter, prime_move, half) = match letter {
        'u' => (Move::U, Move::UPrime, Move::U2),
        'd' => (Move::D, Move::DPrime, Move::D2),
        'r' => (Move::R, Move::RPrime, Move::R2),
        'l' => (Move::L, Move::LPrime, Move::L2),
        'f' => (Move::F, Move::FPrime, Move::F2),
        'b' => (Move::B, Move::BPrime, Move::B2),
        _ => {
            return None;
        },
    };
    if double {
        Some(half)
    } else if prime {
        Some(prime_move)
    } else {
        Some(quarter)
    }
}

fn lower_face_letter(ch: char) -> (r: char)
    ensures
        r == face_letter(ch),
{
    match ch {
        'U' => 'u',
        'D' => 'd',
        'R' => 'r',
        'L' => 'l',
        'F' => 'f',
        'B' => 'b',
        _ => ch,
    }
}

/// Turns typed characters into moves. A `'` before a face letter makes it
/// a prime move, a `2` a half turn; an upper-case face letter is a prime move.
pub struct InputHandler {
    pending_prime: bool,
    pending_double: bool,
}

impl InputHandler {
    pub closed spec fn prime_pending(&self) -> bool {
        self.pending_prime
    }

    pub closed spec fn double_pending(&self) -> bool {
        self.pending_double
    }

    pub fn new() -> (r: Self)
        ensures
            !r.prime_pending(),
            !r.double_pending(),
    {
        Self { pending_prime: false, pending_double: false }
    }

    /// Handles a typed character: `'` and `2` mark the next face letter;
    /// any other character is read as a face letter, which clears the marks.
    pub fn handle_char(&mut self, ch: char) -> (r: Option<Move>)
        ensures
            ch == '\'' ==> (r is None) && final(self).prime_pending()
                && final(self).double_pending() == old(self).double_pending(),
            ch == '2' ==> (r is None) && final(self).double_pending()
                && final(self).prime_pending() == old(self).prime_pending(),
            ch != '\'' && ch != '2' ==> r == move_for_letter(
                face_letter(ch),
                old(self).prime_pending() || is_upper(ch),
                old(self).double_pending(),
            ) && !final(self).prime_pending() && !final(self).double_pending(),
    {
        if ch == '\'' {
            self.pending_prime = true;
            None
        } else if ch == '2' {
            self.pending_double = true;
            None
        } else {
            self.handle_move_char(ch)
        }
    }

    /// Reads `ch` as a face letter with the pending marks, then clears them.
    pub fn handle_move_char(&mut self, ch: char) -> (r: Option<Move>)
        ensures
            r == move_for_letter(
                face_letter(ch),
                old(self).prime_pending() || is_upper(ch),
                old(self).double_pending(),
            ),
            !final(self).prime_pending(),
            !final(self).double_pending(),
    {
        let mut prime = self.pending_prime;
        let double = self.pending_double;
        if 'A' <= ch && ch <= 'Z' {
            prime = true;
        }
        let normalized = lower_face_letter(ch);
        self.pending_prime = false;
        self.pending_double = false;
        parse_move_letter(normalized, prime, double)
    }
}

} // verus!
