//! The names that the translator gives to what it emits: basic blocks,
//! locals, and the control-flow-graph files that it can write on request.

use vstd::prelude::*;
use vstd::string::{StrSliceExecFns, StringExecFns, StringSliceAdditionalSpecFns};
use vstd::utf8::{decode_utf8, is_char_boundary};

verus! {

/// The decimal digit of a number below 10.
pub open spec fn digit_char(d: nat) -> char {
    if d == 0 {
        '0'
    } else if d == 1 {
        '1'
    } else if d == 2 {
        '2'
    } else if d == 3 {
        '3'
    } else if d == 4 {
        '4'
    } else if d == 5 {
        '5'
    } else if d == 6 {
        '6'
    } else if d == 7 {
        '7'
    } else if d == 8 {
        '8'
    } else {
        '9'
    }
}

/// The decimal notation of a number, without leading zeros.
pub open spec fn decimal(n: nat) -> Seq<char>
    decreases n,
{
    if n < 10 {
        seq![digit_char(n)]
    } else {
        decimal(n / 10).push(digit_char(n % 10))
    }
}

/// Whether the character is one of the decimal digits `0` to `9`.
pub open spec fn is_decimal_digit(c: char) -> bool {
    48 <= (c as int) <= 57
}

/// The number that a text of decimal digits denotes, most significant
/// first, each digit counting for its character code less that of `0`.
pub open spec fn decimal_value(s: Seq<char>) -> int
    decreases s.len(),
{
    if s.len() == 0 {
        0
    } else {
        decimal_value(s.drop_last()) * 10 + ((s.last() as int) - 48)
    }
}

/// The decimal notation of a number reads back as that number: it is a
/// non-empty text of decimal digits, without a leading `0` (but for zero
/// itself), that denotes the number. So the names `bb_n` and `local_n`
/// carry the number `n` itself.
pub proof fn decimal_reads_back(n: nat)
    ensures
        decimal(n).len() > 0,
        forall|i: int| 0 <= i < decimal(n).len() ==> is_decimal_digit(#[trigger] decimal(n)[i]),
        decimal_value(decimal(n)) == n,
        n > 0 ==> decimal(n)[0] != '0',
    decreases n,
{
    let s = decimal(n);
    digit_char_code(n % 10);
    assert(s.last() == digit_char(n % 10));
    assert(decimal_value(s) == decimal_value(s.drop_last()) * 10 + ((s.last() as int) - 48));
    if n < 10 {
        assert(s.drop_last() =~= Seq::<char>::empty());
        assert(n % 10 == n);
    } else {
        decimal_reads_back(n / 10);
        assert(s.drop_last() =~= decimal(n / 10));
        assert(s[0] == decimal(n / 10)[0]);
        assert(n == (n / 10) * 10 + n % 10);
    }
}

/// The character of a digit has the code of `0` plus the digit.
proof fn digit_char_code(d: nat)
    requires
        d < 10,
    ensures
        digit_char(d) as int == 48 + d,
        is_decimal_digit(digit_char(d)),
{
}

/// The one-character text of a decimal digit.
fn digit_str(d: u64) -> (r: &'static str)
    requires
        d < 10,
    ensures
        r@ == seq![digit_char(d as nat)],
{
    if d == 0 {
        proof {
            reveal_strlit("0");
        }
        "0"
    } else if d == 1 {
        proof {
            reveal_strlit("1");
        }
        "1"
    } else if d == 2 {
        proof {
            reveal_strlit("2");
        }
        "2"
    } else if d == 3 {
        proof {
            reveal_strlit("3");
        }
        "3"
    } else if d == 4 {
        proof {
            reveal_strlit("4");
        }
        "4"
    } else if d == 5 {
        proof {
            reveal_strlit("5");
        }
        "5"
    } else if d == 6 {
        proof {
            reveal_strlit("6");
        }
        "6"
    } else if d == 7 {
        proof {
            reveal_strlit("7");
        }
        "7"
    } else if d == 8 {
        proof {
            reveal_strlit("8");
        }
        "8"
    } else {
        proof {
            reveal_strlit("9");
        }
        "9"
    }
}

/// Appends the decimal notation of `n`.
fn push_decimal(s: &mut String, n: u64)
    ensures
        final(s)@ == old(s)@ + decimal(n as nat),
    decreases n,
{
    if n < 10 {
        s.append(digit_str(n));
    } else {
        push_decimal(s, n / 10);
        s.append(digit_str(n % 10));
        assert(decimal(n as nat) == decimal((n / 10) as nat).push(digit_char((n % 10) as nat)));
    }
}

/// The name of the basic block of a label: `bb_` and the label's number.
pub fn block_name(label: usize) -> (r: String)
    ensures
        r@ == "bb_"@ + decimal(label as nat),
        decimal_value(r@.subrange(3, r@.len() as int)) == label,
{
    let mut s = String::from_str("bb_");
    push_decimal(&mut s, label as u64);
    proof {
        reveal_strlit("bb_");
        decimal_reads_back(label as nat);
        assert(s@.subrange(3, s@.len() as int) =~= decimal(label as nat));
    }
    s
}

/// The name of the stack slot of a local: `local_` and its index.
pub fn local_name(index: usize) -> (r: String)
    ensures
        r@ == "local_"@ + decimal(index as nat),
        decimal_value(r@.subrange(6, r@.len() as int)) == index,
{
    let mut s = String::from_str("local_");
    push_decimal(&mut s, index as u64);
    proof {
        reveal_strlit("local_");
        decimal_reads_back(index as nat);
        assert(s@.subrange(6, s@.len() as int) =~= decimal(index as nat));
    }
    s
}

/// A request to write control-flow graphs is a string of at least two
/// bytes whose first two bytes are whole characters.
pub open spec fn valid_dot_request(dot_info: &str) -> bool {
    dot_info.spec_bytes().len() >= 2 && is_char_boundary(dot_info.spec_bytes(), 2)
}

/// The action of a request: its first two bytes.
pub open spec fn dot_action(dot_info: &str) -> Seq<char> {
    decode_utf8(dot_info.spec_bytes().subrange(0, 2))
}

/// The output directory of a request: what follows its first two bytes.
pub open spec fn dot_directory(dot_info: &str) -> Seq<char> {
    decode_utf8(dot_info.spec_bytes().subrange(2, dot_info.spec_bytes().len() as int))
}

/// The file that the control-flow graph of a function is written to: the
/// request's output directory, a `/` unless that directory is empty, the
/// function's name, and `_cfg.dot`.
pub open spec fn dot_file_path(dot_info: &str, function_name: Seq<char>) -> Seq<char> {
    let dir = dot_directory(dot_info);
    dir + (if dir.len() == 0 {
        Seq::<char>::empty()
    } else {
        seq!['/']
    }) + function_name + "_cfg.dot"@
}

/// Splits a request at its second byte.
fn split_dot_request(dot_info: &str) -> (r: (&str, &str))
    requires
        valid_dot_request(dot_info),
    ensures
        r.0@ == dot_action(dot_info),
        r.1@ == dot_directory(dot_info),
{
    let r = dot_info.split_at(2);
    proof {
        vstd::utf8::encode_utf8_decode_utf8(r.0@);
        vstd::utf8::encode_utf8_decode_utf8(r.1@);
    }
    r
}

/// The file that the control-flow graph of function `function_name` is
/// written to, for the request `dot_info`.
pub fn cfg_dot_file(dot_info: &str, function_name: &str) -> (r: String)
    requires
        valid_dot_request(dot_info),
    ensures
        r@ == dot_file_path(dot_info, function_name@),
{
    let (_, dir) = split_dot_request(dot_info);
    let mut s = String::from_str(dir);
    if dir.unicode_len() != 0 {
        s.append("/");
        proof {
            reveal_strlit("/");
        }
    }
    s.append(function_name);
    s.append("_cfg.dot");
    s
}

/// Whether the request asks to open the written graph in a viewer: its
/// action is `v:`.
pub fn dot_view_requested(dot_info: &str) -> (r: bool)
    requires
        valid_dot_request(dot_info),
    ensures
        r == (dot_action(dot_info) == "v:"@),
{
    let (action, _) = split_dot_request(dot_info);
    proof {
        reveal_strlit("v:");
    }
    if action.unicode_len() != 2 {
        return false;
    }
    let c0 = action.get_char(0);
    let c1 = action.get_char(1);
    let r = c0 == 'v' && c1 == ':';
    proof {
        if r {
            assert(action@ =~= "v:"@);
        }
    }
    r
}

/// The header that names the graph of a function:
/// `digraph { label="Function: <name>"` and a line break.
pub open spec fn graph_header(function_name: Seq<char>) -> Seq<char> {
    "digraph { label=\"Function: "@ + function_name + "\"\n"@
}

/// The text occurs in `s` at position `i`.
pub open spec fn occurs_at(s: Seq<char>, pat: Seq<char>, i: int) -> bool {
    0 <= i && i + pat.len() <= s.len() && s.subrange(i, i + pat.len()) == pat
}

/// The text with its first occurrence of `pat` (if any) replaced by `by`.
pub open spec fn replace_first(s: Seq<char>, pat: Seq<char>, by: Seq<char>) -> Seq<char> {
    if exists|i: int| occurs_at(s, pat, i) {
        let i = choose|i: int| occurs_at(s, pat, i) && forall|j: int| 0 <= j < i ==> !occurs_at(s, pat, j);
        s.subrange(0, i) + by + s.subrange(i + pat.len(), s.len() as int)
    } else {
        s
    }
}


/// The text with its first occurrence of `pat` (if any) replaced by `by`.
pub fn replace_first_occurrence(s: &str, pat: &str, by: &str) -> (r: String)
    ensures
        r@ == replace_first(s@, pat@, by@),
{
    let n = s.unicode_len();
    let m = pat.unicode_len();
    let pat_owned = pat.to_owned();
    if m == 0 {
        proof {
            assert(s@.subrange(0, 0) =~= pat@);
            assert(occurs_at(s@, pat@, 0));
            let c = choose|k: int| occurs_at(s@, pat@, k) && forall|j: int| 0 <= j < k ==> !occurs_at(s@, pat@, j);
            assert(occurs_at(s@, pat@, 0) && forall|j: int| 0 <= j < 0 ==> !occurs_at(s@, pat@, j));
            if c > 0 {
                assert(!occurs_at(s@, pat@, 0));
            }
            assert(s@.subrange(0, 0) + by@ + s@.subrange(0, s@.len() as int) =~= by@ + s@);
        }
        let mut r = String::from_str(by);
        r.append(s);
        return r;
    }
    let mut i: usize = 0;
    while m <= n && i <= n - m
        invariant
            n == s@.len(),
            m == pat@.len(),
            m >= 1,
            pat_owned@ == pat@,
            m <= n ==> i <= n - m + 1,
            forall|j: int| 0 <= j < i ==> !occurs_at(s@, pat@, j),
        decreases n + 1 - i,
    {
        let candidate = s.substring_char(i, i + m).to_owned();
        if candidate == pat_owned {
            proof {
                assert(occurs_at(s@, pat@, i as int));
                let p = |k: int| occurs_at(s@, pat@, k) && forall|j: int| 0 <= j < k ==> !occurs_at(s@, pat@, j);
                assert(p(i as int));
                let c = choose|k: int| occurs_at(s@, pat@, k) && forall|j: int| 0 <= j < k ==> !occurs_at(s@, pat@, j);
                assert(p(c));
                if c < i {
                    assert(!occurs_at(s@, pat@, c));
                } else if c > i {
                    assert(!occurs_at(s@, pat@, i as int));
                }
                assert(c == i);
            }
            let mut r = String::from_str(s.substring_char(0, i));
            r.append(by);
            r.append(s.substring_char(i + m, n));
            return r;
        }
        i = i + 1;
    }
    proof {
        assert forall|k: int| !occurs_at(s@, pat@, k) by {
            if occurs_at(s@, pat@, k) {
                assert(k < i);
            }
        }
    }
    String::from_str(s)
}

/// The control-flow graph of a function, labeled with the function's
/// name: the first `digraph {` of the graph becomes the header of
/// `graph_header`.
pub fn label_cfg_graph(dot_graph: &str, function_name: &str) -> (r: String)
    ensures
        r@ == replace_first(dot_graph@, "digraph {"@, graph_header(function_name@)),
{
    let mut header = String::from_str("digraph { label=\"Function: ");
    header.append(function_name);
    header.append("\"\n");
    replace_first_occurrence(dot_graph, "digraph {", header.as_str())
}

} // verus!
