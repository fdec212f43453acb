//! The export: the aggregated series as a pretty-printed JSON document with
//! the schema `{"energy_values": [[number]], "cross_section_values":
//! [[number]], "labels": [string]}`, aligned by entry index. The per-entry
//! visibility flag is a UI-only field and is not exported. Handing the text
//! to the user as a download is a collaborator's job.

use vstd::prelude::*;
use crate::cache::XsCache;
use crate::text::{digit_char, strs};
use crate::cache::token_lists;

verus! {

/// The hexadecimal digit character for `d` (`0 <= d <= 15`).
pub open spec fn hex_char(d: nat) -> char {
    if d < 10 {
        digit_char(d)
    } else {
        ((87 + d) as u32) as char
    }
}

/// How one character appears inside a JSON string literal: quotes and
/// backslashes are escaped, control characters become `\u00..` escapes,
/// everything else stands as itself.
pub open spec fn escape_char(c: char) -> Seq<char> {
    if c == '"' {
        seq!['\\', '"']
    } else if c == '\\' {
        seq!['\\', '\\']
    } else if (c as u32) < 32 {
        seq!['\\', 'u', '0', '0', hex_char((c as u32 / 16) as nat), hex_char((c as u32 % 16) as nat)]
    } else {
        seq![c]
    }
}

/// A string escaped for a JSON string literal.
pub open spec fn escape_chars(s: Seq<char>) -> Seq<char>
    decreases s.len(),
{
    if s.len() == 0 {
        Seq::empty()
    } else {
        escape_chars(s.drop_last()) + escape_char(s.last())
    }
}

/// The first `k` number lines of an innermost array, each indented under
/// two enclosing arrays and separated by commas.
pub open spec fn number_items_upto(toks: Seq<Seq<char>>, k: int) -> Seq<char>
    decreases k,
{
    if k <= 0 {
        Seq::empty()
    } else {
        number_items_upto(toks, k - 1) + "      "@ + toks[k - 1] + if k == toks.len() {
            "\n"@
        } else {
            ",\n"@
        }
    }
}

/// One entry's series as a JSON array of numbers.
pub open spec fn number_array_chars(toks: Seq<Seq<char>>) -> Seq<char> {
    if toks.len() == 0 {
        "[]"@
    } else {
        "[\n"@ + number_items_upto(toks, toks.len() as int) + "    ]"@
    }
}

/// The first `k` series of an array of series, each indented under the
/// document object and separated by commas.
pub open spec fn series_items_upto(lists: Seq<Seq<Seq<char>>>, k: int) -> Seq<char>
    decreases k,
{
    if k <= 0 {
        Seq::empty()
    } else {
        series_items_upto(lists, k - 1) + "    "@ + number_array_chars(lists[k - 1]) + if k
            == lists.len() {
            "\n"@
        } else {
            ",\n"@
        }
    }
}

/// All entries' series as a JSON array of arrays of numbers.
pub open spec fn series_array_chars(lists: Seq<Seq<Seq<char>>>) -> Seq<char> {
    if lists.len() == 0 {
        "[]"@
    } else {
        "[\n"@ + series_items_upto(lists, lists.len() as int) + "  ]"@
    }
}

/// The first `k` label lines, each a JSON string literal.
pub open spec fn label_items_upto(labels: Seq<Seq<char>>, k: int) -> Seq<char>
    decreases k,
{
    if k <= 0 {
        Seq::empty()
    } else {
        label_items_upto(labels, k - 1) + "    \""@ + escape_chars(labels[k - 1]) + "\""@ + if k
            == labels.len() {
            "\n"@
        } else {
            ",\n"@
        }
    }
}

/// All labels as a JSON array of strings.
pub open spec fn label_array_chars(labels: Seq<Seq<char>>) -> Seq<char> {
    if labels.len() == 0 {
        "[]"@
    } else {
        "[\n"@ + label_items_upto(labels, labels.len() as int) + "  ]"@
    }
}

/// The whole exported document: the three aligned arrays under their keys,
/// pretty-printed; no visibility field appears.
pub open spec fn export_chars(
    energy: Seq<Seq<Seq<char>>>,
    cross: Seq<Seq<Seq<char>>>,
    labels: Seq<Seq<char>>,
) -> Seq<char> {
    "{\n  \"energy_values\": "@ + series_array_chars(energy) + ",\n  \"cross_section_values\": "@
        + series_array_chars(cross) + ",\n  \"labels\": "@ + label_array_chars(labels) + "\n}"@
}

/// The name the exported file is offered under.
pub fn export_file_name() -> (r: String)
    ensures
        r@ == "cross_sections_from_xsplot.json"@,
{
    String::from_str("cross_sections_from_xsplot.json")
}

/// The hexadecimal digit string for `d`.
fn hex_str(d: u32) -> (r: &'static str)
    requires
        d < 16,
    ensures
        r@ =~= seq![hex_char(d as nat)],
{
    proof {
        reveal_strlit("0");
        reveal_strlit("1");
        reveal_strlit("2");
        reveal_strlit("3");
        reveal_strlit("4");
        reveal_strlit("5");
        reveal_strlit("6");
        reveal_strlit("7");
        reveal_strlit("8");
        reveal_strlit("9");
        reveal_strlit("a");
        reveal_strlit("b");
        reveal_strlit("c");
        reveal_strlit("d");
        reveal_strlit("e");
        reveal_strlit("f");
    }
    match d {
        0 => "0",
        1 => "1",
        2 => "2",
        3 => "3",
        4 => "4",
        5 => "5",
        6 => "6",
        7 => "7",
        8 => "8",
        9 => "9",
        10 => "a",
        11 => "b",
        12 => "c",
        13 => "d",
        14 => "e",
        _ => "f",
    }
}

/// Appends a label, escaped for a JSON string literal.
fn append_escaped(out: &mut String, s: &str)
    ensures
        final(out)@ == old(out)@ + escape_chars(s@),
{
    let n = s.unicode_len();
    let mut i: usize = 0;
    while i < n
        invariant
            n == s@.len(),
            i <= n,
            out@ == old(out)@ + escape_chars(s@.take(i as int)),
        decreases n - i,
    {
        let c = s.get_char(i);
        if c == '"' {
            out.append("\\\"");
            proof {
                reveal_strlit("\\\"");
            }
        } else if c == '\\' {
            out.append("\\\\");
            proof {
                reveal_strlit("\\\\");
            }
        } else if (c as u32) < 32 {
            let code: u32 = c as u32;
            out.append("\\u00");
            out.append(hex_str(code / 16));
            out.append(hex_str(code % 16));
            proof {
                reveal_strlit("\\u00");
            }
        } else {
            out.append(s.substring_char(i, i + 1));
        }
        proof {
            assert(s@.take(i + 1).drop_last() =~= s@.take(i as int));
            assert(s@.take(i + 1).last() == s@[i as int]);
            assert(escape_chars(s@.take(i + 1)) == escape_chars(s@.take(i as int)) + escape_char(
                s@[i as int],
            ));
            assert(s@.subrange(i as int, i + 1) =~= seq![s@[i as int]]);
            assert(out@ =~= old(out)@ + escape_chars(s@.take(i + 1)));
        }
        i += 1;
    }
    proof {
        assert(s@.take(n as int) =~= s@);
    }
}

/// Appends one entry's series as a JSON array of numbers.
fn append_number_array(out: &mut String, toks: &Vec<String>)
    ensures
        final(out)@ == old(out)@ + number_array_chars(strs(toks@)),
{
    let n = toks.len();
    if n == 0 {
        out.append("[]");
        return ;
    }
    out.append("[\n");
    let mut k: usize = 0;
    while k < n
        invariant
            n == toks@.len(),
            0 < n,
            k <= n,
            out@ == old(out)@ + "[\n"@ + number_items_upto(strs(toks@), k as int),
        decreases n - k,
    {
        out.append("      ");
        out.append(toks[k].as_str());
        if k + 1 == n {
            out.append("\n");
        } else {
            out.append(",\n");
        }
        proof {
            assert(strs(toks@)[k as int] == toks@[k as int]@);
            assert(out@ =~= old(out)@ + "[\n"@ + number_items_upto(strs(toks@), k + 1));
        }
        k += 1;
    }
    out.append("    ]");
    proof {
        assert(out@ =~= old(out)@ + number_array_chars(strs(toks@)));
    }
}

/// Appends all entries' series as a JSON array of arrays.
fn append_series_array(out: &mut String, lists: &Vec<Vec<String>>)
    ensures
        final(out)@ == old(out)@ + series_array_chars(token_lists(lists@)),
{
    let n = lists.len();
    if n == 0 {
        out.append("[]");
        return ;
    }
    out.append("[\n");
    let mut k: usize = 0;
    while k < n
        invariant
            n == lists@.len(),
            0 < n,
            k <= n,
            out@ == old(out)@ + "[\n"@ + series_items_upto(token_lists(lists@), k as int),
        decreases n - k,
    {
        out.append("    ");
        append_number_array(out, &lists[k]);
        if k + 1 == n {
            out.append("\n");
        } else {
            out.append(",\n");
        }
        proof {
            assert(token_lists(lists@)[k as int] == strs(lists@[k as int]@));
            assert(out@ =~= old(out)@ + "[\n"@ + series_items_upto(token_lists(lists@), k + 1));
        }
        k += 1;
    }
    out.append("  ]");
    proof {
        assert(out@ =~= old(out)@ + series_array_chars(token_lists(lists@)));
    }
}

/// Appends all labels as a JSON array of strings.
fn append_label_array(out: &mut String, labels: &Vec<String>)
    ensures
        final(out)@ == old(out)@ + label_array_chars(strs(labels@)),
{
    let n = labels.len();
    if n == 0 {
        out.append("[]");
        return ;
    }
    out.append("[\n");
    let mut k: usize = 0;
    while k < n
        invariant
            n == labels@.len(),
            0 < n,
            k <= n,
            out@ == old(out)@ + "[\n"@ + label_items_upto(strs(labels@), k as int),
        decreases n - k,
    {
        out.append("    \"");
        append_escaped(out, labels[k].as_str());
        out.append("\"");
        if k + 1 == n {
            out.append("\n");
        } else {
            out.append(",\n");
        }
        proof {
            assert(strs(labels@)[k as int] == labels@[k as int]@);
            assert(out@ =~= old(out)@ + "[\n"@ + label_items_upto(strs(labels@), k + 1));
        }
        k += 1;
    }
    out.append("  ]");
    proof {
        assert(out@ =~= old(out)@ + label_array_chars(strs(labels@)));
    }
}

/// Serializes the cache for download: the three aligned arrays, pretty-
/// printed, with the per-entry visibility flags left out.
pub fn export_json(cache: &XsCache) -> (r: String)
    ensures
        r@ == export_chars(
            token_lists(cache.energy_values@),
            token_lists(cache.cross_section_values@),
            strs(cache.labels@),
        ),
{
    let mut out = String::from_str("{\n  \"energy_values\": ");
    append_series_array(&mut out, &cache.energy_values);
    out.append(",\n  \"cross_section_values\": ");
    append_series_array(&mut out, &cache.cross_section_values);
    out.append(",\n  \"labels\": ");
    append_label_array(&mut out, &cache.labels);
    out.append("\n}");
    proof {
        assert(out@ =~= export_chars(
            token_lists(cache.energy_values@),
            token_lists(cache.cross_section_values@),
            strs(cache.labels@),
        ));
    }
    out
}

} // verus!
