//! Decoding the remote reaction-data document: a JSON object with an
//! `"energy"` and a `"cross section"` key, in either order, each holding an
//! array of numbers. The numbers pass through as their number text; what
//! the document means is fixed by a specification-level parser, and the
//! decoder returns exactly what that parser accepts.

use vstd::prelude::*;
use crate::cache::SeriesData;
use crate::text::{strs, eq_str};

verus! {

/// A JSON whitespace character.
pub open spec fn is_ws(c: char) -> bool {
    c == ' ' || c == '\n' || c == '\t' || c == '\r'
}

/// A character that can occur in a number token.
pub open spec fn is_num_char(c: char) -> bool {
    ('0' <= c && c <= '9') || c == '-' || c == '+' || c == '.' || c == 'e' || c == 'E'
}

/// The first position at or after `i` that does not hold whitespace.
pub open spec fn skip_ws(s: Seq<char>, i: int) -> int
    decreases s.len() - i,
{
    if 0 <= i && i < s.len() && is_ws(s[i]) {
        skip_ws(s, i + 1)
    } else {
        i
    }
}

/// The first position at or after `i` that does not hold a number
/// character.
pub open spec fn scan_num(s: Seq<char>, i: int) -> int
    decreases s.len() - i,
{
    if 0 <= i && i < s.len() && is_num_char(s[i]) {
        scan_num(s, i + 1)
    } else {
        i
    }
}

/// The position of the first double quote at or after `i`, if any.
pub open spec fn scan_quote(s: Seq<char>, i: int) -> Option<int>
    decreases s.len() - i,
{
    if i < 0 || i >= s.len() {
        None
    } else if s[i] == '"' {
        Some(i)
    } else {
        scan_quote(s, i + 1)
    }
}

/// Where `scan_quote` finds a quote, the position is inside the text.
proof fn lemma_scan_quote_bounds(s: Seq<char>, i: int)
    ensures
        scan_quote(s, i) matches Some(q) ==> i <= q < s.len(),
    decreases s.len() - i,
{
    if 0 <= i && i < s.len() && s[i] != '"' {
        lemma_scan_quote_bounds(s, i + 1);
    }
}

/// One step of the number-shape automaton. The states: 0 start, 1 after a
/// leading minus, 2 a lone integer zero, 3 integer digits, 4 after the
/// decimal point, 5 fraction digits, 6 after the exponent mark, 7 after an
/// exponent sign, 8 exponent digits, 9 rejected.
pub open spec fn num_state(st: int, c: char) -> int {
    let digit = '0' <= c && c <= '9';
    if st == 0 {
        if c == '-' {
            1
        } else if c == '0' {
            2
        } else if digit {
            3
        } else {
            9
        }
    } else if st == 1 {
        if c == '0' {
            2
        } else if digit {
            3
        } else {
            9
        }
    } else if st == 2 {
        if c == '.' {
            4
        } else if c == 'e' || c == 'E' {
            6
        } else {
            9
        }
    } else if st == 3 {
        if digit {
            3
        } else if c == '.' {
            4
        } else if c == 'e' || c == 'E' {
            6
        } else {
            9
        }
    } else if st == 4 {
        if digit {
            5
        } else {
            9
        }
    } else if st == 5 {
        if digit {
            5
        } else if c == 'e' || c == 'E' {
            6
        } else {
            9
        }
    } else if st == 6 {
        if c == '+' || c == '-' {
            7
        } else if digit {
            8
        } else {
            9
        }
    } else if st == 7 {
        if digit {
            8
        } else {
            9
        }
    } else if st == 8 {
        if digit {
            8
        } else {
            9
        }
    } else {
        9
    }
}

/// Runs the number-shape automaton over the rest of a token.
pub open spec fn run_num(t: Seq<char>, i: int, st: int) -> int
    decreases t.len() - i,
{
    if 0 <= i && i < t.len() {
        run_num(t, i + 1, num_state(st, t[i]))
    } else {
        st
    }
}

/// The token has the shape of a JSON number.
pub open spec fn is_json_number(t: Seq<char>) -> bool {
    let st = run_num(t, 0, 0);
    st == 2 || st == 3 || st == 5 || st == 8
}

/// The elements of a number array from position `i` (after the opening
/// bracket, knowing the array is not empty): the number tokens and the
/// position just past the closing bracket.
pub open spec fn parse_elems(s: Seq<char>, i: int) -> Option<(Seq<Seq<char>>, int)>
    decreases s.len() - i,
{
    let j = skip_ws(s, i);
    let k = scan_num(s, j);
    if j < i || k <= j || k > s.len() {
        None
    } else {
        let tok = s.subrange(j, k);
        if !is_json_number(tok) {
            None
        } else {
            let m = skip_ws(s, k);
            if m < k || m >= s.len() {
                None
            } else if s[m] == ']' {
                Some((seq![tok], m + 1))
            } else if s[m] == ',' {
                match parse_elems(s, m + 1) {
                    Some((rest, p)) => Some((seq![tok] + rest, p)),
                    None => None,
                }
            } else {
                None
            }
        }
    }
}

/// A number array at position `i`: its tokens and the position just past
/// its closing bracket.
pub open spec fn parse_array(s: Seq<char>, i: int) -> Option<(Seq<Seq<char>>, int)> {
    if 0 <= i && i < s.len() && s[i] == '[' {
        let j = skip_ws(s, i + 1);
        if 0 <= j && j < s.len() && s[j] == ']' {
            Some((Seq::empty(), j + 1))
        } else {
            parse_elems(s, i + 1)
        }
    } else {
        None
    }
}

/// One `"key": [numbers]` pair starting at position `i` (whitespace
/// allowed): the key text, the tokens, and the position just past the
/// array.
pub open spec fn parse_pair(s: Seq<char>, i: int) -> Option<(Seq<char>, Seq<Seq<char>>, int)> {
    let j = skip_ws(s, i);
    if !(0 <= j && j < s.len() && s[j] == '"') {
        None
    } else {
        match scan_quote(s, j + 1) {
            None => None,
            Some(q) => {
                let key = s.subrange(j + 1, q);
                let c = skip_ws(s, q + 1);
                if !(c < s.len() && s[c] == ':') {
                    None
                } else {
                    match parse_array(s, skip_ws(s, c + 1)) {
                        None => None,
                        Some((arr, p)) => Some((key, arr, p)),
                    }
                }
            },
        }
    }
}

/// The two series of a reaction-data document.
pub struct DocView {
    pub energy_values: Seq<Seq<char>>,
    pub cross_section_values: Seq<Seq<char>>,
}

/// The whole document: an object holding exactly an `"energy"` and a
/// `"cross section"` array, in either order, and nothing else.
pub open spec fn parse_doc(s: Seq<char>) -> Option<DocView> {
    let i = skip_ws(s, 0);
    if !(i < s.len() && s[i] == '{') {
        None
    } else {
        match parse_pair(s, i + 1) {
            None => None,
            Some((k1, a1, p1)) => {
                let c = skip_ws(s, p1);
                if !(c < s.len() && s[c] == ',') {
                    None
                } else {
                    match parse_pair(s, c + 1) {
                        None => None,
                        Some((k2, a2, p2)) => {
                            let e = skip_ws(s, p2);
                            if !(e < s.len() && s[e] == '}') {
                                None
                            } else if skip_ws(s, e + 1) != s.len() {
                                None
                            } else if k1 == "energy"@ && k2 == "cross section"@ {
                                Some(
                                    DocView {
                                        energy_values: a1,
                                        cross_section_values: a2,
                                    },
                                )
                            } else if k1 == "cross section"@ && k2 == "energy"@ {
                                Some(
                                    DocView {
                                        energy_values: a2,
                                        cross_section_values: a1,
                                    },
                                )
                            } else {
                                None
                            }
                        },
                    }
                }
            },
        }
    }
}

/// Why decoding fails: the text is not a document of the expected shape, or
/// its two series do not correspond pointwise.
#[derive(Clone, Copy, Debug, PartialEq, Eq, Structural)]
pub enum DecodeError {
    Malformed,
    MisalignedSeries,
}

fn is_ws_char(c: char) -> (b: bool)
    ensures
        b == is_ws(c),
{
    c == ' ' || c == '\n' || c == '\t' || c == '\r'
}

fn is_num_char_exec(c: char) -> (b: bool)
    ensures
        b == is_num_char(c),
{
    ('0' <= c && c <= '9') || c == '-' || c == '+' || c == '.' || c == 'e' || c == 'E'
}

fn skip_ws_exec(s: &str, i: usize) -> (r: usize)
    requires
        i <= s@.len(),
    ensures
        r == skip_ws(s@, i as int),
        i <= r <= s@.len(),
    decreases s@.len() - i,
{
    let n = s.unicode_len();
    if i < n && is_ws_char(s.get_char(i)) {
        skip_ws_exec(s, i + 1)
    } else {
        i
    }
}

fn scan_num_exec(s: &str, i: usize) -> (r: usize)
    requires
        i <= s@.len(),
    ensures
        r == scan_num(s@, i as int),
        i <= r <= s@.len(),
    decreases s@.len() - i,
{
    let n = s.unicode_len();
    if i < n && is_num_char_exec(s.get_char(i)) {
        scan_num_exec(s, i + 1)
    } else {
        i
    }
}

fn scan_quote_exec(s: &str, i: usize) -> (r: Option<usize>)
    requires
        i <= s@.len(),
    ensures
        r == match scan_quote(s@, i as int) {
            Some(q) => Some(q as usize),
            None => None::<usize>,
        },
        r matches Some(q) ==> i <= q < s@.len(),
    decreases s@.len() - i,
{
    let n = s.unicode_len();
    if i >= n {
        None
    } else if s.get_char(i) == '"' {
        Some(i)
    } else {
        scan_quote_exec(s, i + 1)
    }
}

fn num_state_exec(st: u32, c: char) -> (r: u32)
    requires
        st <= 9,
    ensures
        r == num_state(st as int, c),
        r <= 9,
{
    let digit = '0' <= c && c <= '9';
    if st == 0 {
        if c == '-' {
            1
        } else if c == '0' {
            2
        } else if digit {
            3
        } else {
            9
        }
    } else if st == 1 {
        if c == '0' {
            2
        } else if digit {
            3
        } else {
            9
        }
    } else if st == 2 {
        if c == '.' {
            4
        } else if c == 'e' || c == 'E' {
            6
        } else {
            9
        }
    } else if st == 3 {
        if digit {
            3
        } else if c == '.' {
            4
        } else if c == 'e' || c == 'E' {
            6
        } else {
            9
        }
    } else if st == 4 {
        if digit {
            5
        } else {
            9
        }
    } else if st == 5 {
        if digit {
            5
        } else if c == 'e' || c == 'E' {
            6
        } else {
            9
        }
    } else if st == 6 {
        if c == '+' || c == '-' {
            7
        } else if digit {
            8
        } else {
            9
        }
    } else if st == 7 {
        if digit {
            8
        } else {
            9
        }
    } else if st == 8 {
        if digit {
            8
        } else {
            9
        }
    } else {
        9
    }
}

/// Checks that a token has the shape of a JSON number.
pub fn check_number(t: &str) -> (b: bool)
    ensures
        b == is_json_number(t@),
{
    let n = t.unicode_len();
    let mut st: u32 = 0;
    let mut i: usize = 0;
    while i < n
        invariant
            n == t@.len(),
            i <= n,
            st <= 9,
            run_num(t@, 0, 0) == run_num(t@, i as int, st as int),
        decreases n - i,
    {
        st = num_state_exec(st, t.get_char(i));
        i += 1;
    }
    st == 2 || st == 3 || st == 5 || st == 8
}

fn parse_elems_exec(s: &str, i: usize) -> (r: Option<(Vec<String>, usize)>)
    requires
        i <= s@.len(),
    ensures
        match parse_elems(s@, i as int) {
            None => r is None,
            Some((toks, p)) => r matches Some((vt, pe)) && strs(vt@) == toks && pe == p && i < pe
                <= s@.len(),
        },
    decreases s@.len() - i,
{
    let j = skip_ws_exec(s, i);
    let k = scan_num_exec(s, j);
    if k <= j {
        return None;
    }
    let tok = s.substring_char(j, k).to_owned();
    if !check_number(tok.as_str()) {
        return None;
    }
    let m = skip_ws_exec(s, k);
    let n = s.unicode_len();
    if m >= n {
        return None;
    }
    let c = s.get_char(m);
    if c == ']' {
        let mut v: Vec<String> = Vec::new();
        v.push(tok);
        proof {
            if let Some((toks, p)) = parse_elems(s@, i as int) {
                assert(strs(v@) =~= toks);
            }
        }
        Some((v, m + 1))
    } else if c == ',' {
        match parse_elems_exec(s, m + 1) {
            None => None,
            Some((mut rest, p)) => {
                rest.insert(0, tok);
                proof {
                    if let Some((toks, pp)) = parse_elems(s@, i as int) {
                        assert(strs(rest@) =~= toks);
                    }
                }
                Some((rest, p))
            },
        }
    } else {
        None
    }
}

fn parse_array_exec(s: &str, i: usize) -> (r: Option<(Vec<String>, usize)>)
    requires
        i <= s@.len(),
    ensures
        match parse_array(s@, i as int) {
            None => r is None,
            Some((toks, p)) => r matches Some((vt, pe)) && strs(vt@) == toks && pe == p && i < pe
                <= s@.len(),
        },
{
    let n = s.unicode_len();
    if i < n && s.get_char(i) == '[' {
        let j = skip_ws_exec(s, i + 1);
        if j < n && s.get_char(j) == ']' {
            proof {
                if let Some((toks, p)) = parse_array(s@, i as int) {
                    assert(strs(Seq::<String>::empty()) =~= toks);
                }
            }
            let v: Vec<String> = Vec::new();
            proof {
                assert(strs(v@) =~= Seq::<Seq<char>>::empty());
            }
            Some((v, j + 1))
        } else {
            parse_elems_exec(s, i + 1)
        }
    } else {
        None
    }
}

fn parse_pair_exec(s: &str, i: usize) -> (r: Option<(String, Vec<String>, usize)>)
    requires
        i <= s@.len(),
    ensures
        match parse_pair(s@, i as int) {
            None => r is None,
            Some((key, toks, p)) => r matches Some((ke, vt, pe)) && ke@ == key && strs(vt@) == toks
                && pe == p && i <= pe <= s@.len(),
        },
{
    let n = s.unicode_len();
    let j = skip_ws_exec(s, i);
    if !(j < n && s.get_char(j) == '"') {
        return None;
    }
    match scan_quote_exec(s, j + 1) {
        None => None,
        Some(q) => {
            let key = s.substring_char(j + 1, q).to_owned();
            let c = skip_ws_exec(s, q + 1);
            proof {
                lemma_scan_quote_bounds(s@, j + 1);
            }
            if !(c < n && s.get_char(c) == ':') {
                return None;
            }
            let a = skip_ws_exec(s, c + 1);
            match parse_array_exec(s, a) {
                None => None,
                Some((vt, pe)) => Some((key, vt, pe)),
            }
        },
    }
}

fn parse_doc_exec(s: &str) -> (r: Option<(Vec<String>, Vec<String>)>)
    ensures
        match parse_doc(s@) {
            None => r is None,
            Some(doc) => r matches Some((energy, cross)) && strs(energy@) == doc.energy_values
                && strs(cross@) == doc.cross_section_values,
        },
{
    let n = s.unicode_len();
    let i = skip_ws_exec(s, 0);
    if !(i < n && s.get_char(i) == '{') {
        return None;
    }
    match parse_pair_exec(s, i + 1) {
        None => None,
        Some((k1, a1, p1)) => {
            let c = skip_ws_exec(s, p1);
            if !(c < n && s.get_char(c) == ',') {
                return None;
            }
            match parse_pair_exec(s, c + 1) {
                None => None,
                Some((k2, a2, p2)) => {
                    let e = skip_ws_exec(s, p2);
                    if !(e < n && s.get_char(e) == '}') {
                        return None;
                    }
                    if skip_ws_exec(s, e + 1) != n {
                        return None;
                    }
                    let k1_energy = eq_str(k1.as_str(), "energy");
                    let k1_cross = eq_str(k1.as_str(), "cross section");
                    let k2_energy = eq_str(k2.as_str(), "energy");
                    let k2_cross = eq_str(k2.as_str(), "cross section");
                    if k1_energy && k2_cross {
                        Some((a1, a2))
                    } else if k1_cross && k2_energy {
                        Some((a2, a1))
                    } else {
                        None
                    }
                },
            }
        },
    }
}

/// Decodes a remote reaction-data document into one entry's series: the
/// text must parse as the expected object shape, and the two series must
/// have the same length.
pub fn decode_reaction_data(s: &str) -> (r: Result<SeriesData, DecodeError>)
    ensures
        match r {
            Ok(d) => parse_doc(s@) matches Some(doc) && d@.energy_values == doc.energy_values
                && d@.cross_section_values == doc.cross_section_values && d@.aligned(),
            Err(e) => match e {
                DecodeError::Malformed => parse_doc(s@) is None,
                DecodeError::MisalignedSeries => parse_doc(s@) matches Some(doc)
                    && doc.energy_values.len() != doc.cross_section_values.len(),
            },
        },
{
    match parse_doc_exec(s) {
        None => Err(DecodeError::Malformed),
        Some((energy_values, cross_section_values)) => {
            if energy_values.len() != cross_section_values.len() {
                return Err(DecodeError::MisalignedSeries);
            }
            Ok(SeriesData { energy_values, cross_section_values })
        },
    }
}

} // verus!
