//! Normalizing raw command lines into the core's signal alphabet.
//!
//! A command line is accepted in either of two spellings: the arrow-glyph
//! alphabet `< > ^ v A`, which is rewritten to the signal letters, or the
//! signal alphabet `L R U D A` itself, which is kept as it is. Anything
//! else is rejected; the caller decides what to do with rejected lines.

use vstd::prelude::*;

verus! {

/// True for the five characters of the arrow-glyph alphabet.
pub open spec fn spec_is_arrow(c: char) -> bool {
    c == '<' || c == '>' || c == '^' || c == 'v' || c == 'A'
}

/// True for the five characters of the core's signal alphabet.
pub open spec fn spec_is_signal_char(c: char) -> bool {
    c == 'L' || c == 'R' || c == 'U' || c == 'D' || c == 'A'
}

/// The signal letter an arrow glyph stands for; other characters are kept.
pub open spec fn spec_arrow_signal(c: char) -> char {
    if c == '<' {
        'L'
    } else if c == '>' {
        'R'
    } else if c == '^' {
        'U'
    } else if c == 'v' {
        'D'
    } else {
        c
    }
}

/// The normal form of a raw command line: an all-arrow line is rewritten
/// glyph by glyph, an all-signal line is kept unchanged, and every other
/// line is rejected.
pub open spec fn spec_normalize(line: Seq<char>) -> Option<Seq<char>> {
    if forall|i: int| 0 <= i < line.len() ==> spec_is_arrow(#[trigger] line[i]) {
        Some(line.map_values(|c: char| spec_arrow_signal(c)))
    } else if forall|i: int| 0 <= i < line.len() ==> spec_is_signal_char(#[trigger] line[i]) {
        Some(line)
    } else {
        None
    }
}

/// Rewrites a raw command line to the signal alphabet, exactly as
/// `spec_normalize` describes, or rejects it.
pub fn normalize_command(line: &Vec<char>) -> (r: Option<Vec<char>>)
    ensures
        (match r {
            Some(v) => spec_normalize(line@) matches Some(s) && v@ == s,
            None => spec_normalize(line@) is None,
        }),
{
    let n = line.len();
    let mut all_arrow = true;
    let mut i: usize = 0;
    while i < n
        invariant
            0 <= i <= n,
            n == line@.len(),
            all_arrow == (forall|j: int| 0 <= j < i ==> spec_is_arrow(#[trigger] line@[j])),
        decreases n - i,
    {
        let c = line[i];
        let arrow = c == '<' || c == '>' || c == '^' || c == 'v' || c == 'A';
        all_arrow = all_arrow && arrow;
        i += 1;
    }
    if all_arrow {
        let mut out: Vec<char> = Vec::new();
        let mut i: usize = 0;
        while i < n
            invariant
                0 <= i <= n,
                n == line@.len(),
                out@.len() == i,
                forall|j: int| 0 <= j < i ==> out@[j] == spec_arrow_signal(#[trigger] line@[j]),
            decreases n - i,
        {
            let c = line[i];
            let mapped = if c == '<' {
                'L'
            } else if c == '>' {
                'R'
            } else if c == '^' {
                'U'
            } else if c == 'v' {
                'D'
            } else {
                c
            };
            out.push(mapped);
            i += 1;
        }
        proof {
            assert(out@ =~= line@.map_values(|c: char| spec_arrow_signal(c)));
        }
        return Some(out);
    }
    let mut all_signal = true;
    let mut i: usize = 0;
    while i < n
        invariant
            0 <= i <= n,
            n == line@.len(),
            all_signal == (forall|j: int| 0 <= j < i ==> spec_is_signal_char(#[trigger] line@[j])),
        decreases n - i,
    {
        let c = line[i];
        let sig = c == 'L' || c == 'R' || c == 'U' || c == 'D' || c == 'A';
        all_signal = all_signal && sig;
        i += 1;
    }
    if all_signal {
        let mut out: Vec<char> = Vec::new();
        let mut i: usize = 0;
        while i < n
            invariant
                0 <= i <= n,
                n == line@.len(),
                out@ == line@.take(i as int),
            decreases n - i,
        {
            out.push(line[i]);
            proof {
                assert(out@ =~= line@.take(i + 1));
            }
            i += 1;
        }
        proof {
            assert(line@.take(n as int) =~= line@);
        }
        return Some(out);
    }
    None
}

} // verus!
