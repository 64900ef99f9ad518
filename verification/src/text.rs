//! Quoted and plain attribute lines of the structured output.
//!
//! Caller-supplied metadata is inserted into double-quoted fields. So that
//! a field can never break out of its quotes, embedded double quotes and
//! backslashes are escaped with a backslash; every other character passes
//! through unchanged.

use vstd::prelude::*;

verus! {

/// The character sequences of a list of lines.
pub open spec fn strings_view(v: Seq<String>) -> Seq<Seq<char>> {
    v.map_values(|s: String| s@)
}

/// How one character of a quoted field is rendered.
pub open spec fn esc_char(c: char) -> Seq<char> {
    if c == '"' || c == '\\' {
        seq!['\\', c]
    } else {
        seq![c]
    }
}

/// The escaped form of a whole field.
pub open spec fn escape_spec(s: Seq<char>) -> Seq<char>
    decreases s.len(),
{
    if s.len() == 0 {
        Seq::empty()
    } else {
        esc_char(s[0]) + escape_spec(s.drop_first())
    }
}

/// A quoted attribute line: ` (key "value")` with the value escaped.
pub open spec fn quoted_line(key: Seq<char>, value: Seq<char>) -> Seq<char> {
    " ("@ + key + " \""@ + escape_spec(value) + "\")"@
}

/// A plain attribute line: ` (key value)`, nothing quoted.
pub open spec fn plain_line(key: Seq<char>, value: Seq<char>) -> Seq<char> {
    " ("@ + key + " "@ + value + ")"@
}

proof fn lemma_escape_snoc(s: Seq<char>, c: char)
    ensures
        escape_spec(s.push(c)) == escape_spec(s) + esc_char(c),
    decreases s.len(),
{
    if s.len() == 0 {
        assert(s.push(c)[0] == c);
        assert(s.push(c).drop_first() =~= Seq::<char>::empty());
        assert(escape_spec(Seq::<char>::empty()) =~= Seq::<char>::empty());
        assert(escape_spec(s.push(c)) == esc_char(c) + escape_spec(s.push(c).drop_first()));
        assert(escape_spec(s.push(c)) =~= escape_spec(s) + esc_char(c));
    } else {
        assert(s.push(c).drop_first() =~= s.drop_first().push(c));
        lemma_escape_snoc(s.drop_first(), c);
        assert(escape_spec(s.push(c)) =~= escape_spec(s) + esc_char(c));
    }
}

/// Escape a metadata field for insertion between double quotes.
pub fn escape_text(s: &str) -> (r: String)
    ensures
        r@ == escape_spec(s@),
{
    let n = s.unicode_len();
    let mut r = String::new();
    let mut i: usize = 0;
    proof {
        assert(s@.take(0) =~= Seq::<char>::empty());
    }
    while i < n
        invariant
            0 <= i <= n,
            n == s@.len(),
            r@ == escape_spec(s@.take(i as int)),
        decreases n - i,
    {
        let c = s.get_char(i);
        if c == '"' {
            r.append("\\\"");
            proof {
                reveal_strlit("\\\"");
                assert("\\\""@ =~= esc_char(c));
            }
        } else if c == '\\' {
            r.append("\\\\");
            proof {
                reveal_strlit("\\\\");
                assert("\\\\"@ =~= esc_char(c));
            }
        } else {
            let piece = s.substring_char(i, i + 1);
            r.append(piece);
            proof {
                assert(piece@ =~= esc_char(c));
            }
        }
        proof {
            lemma_escape_snoc(s@.take(i as int), s@[i as int]);
            assert(s@.take(i + 1) =~= s@.take(i as int).push(s@[i as int]));
        }
        i += 1;
    }
    proof {
        assert(s@.take(n as int) =~= s@);
    }
    r
}

/// The view of an optional borrowed text.
pub open spec fn opt_view(s: Option<&str>) -> Option<Seq<char>> {
    match s {
        Some(x) => Some(x@),
        None => None,
    }
}

/// Append one line to a document under construction.
pub fn push_line(lines: &mut Vec<String>, s: String)
    ensures
        strings_view(final(lines)@) == strings_view(old(lines)@).push(s@),
{
    let ghost prev = lines@;
    lines.push(s);
    proof {
        assert(strings_view(lines@) =~= strings_view(prev).push(lines@.last()@));
    }
}

/// Build the quoted attribute line ` (key "value")`, escaping the value.
pub fn quoted_field(key: &str, value: &str) -> (r: String)
    ensures
        r@ == quoted_line(key@, value@),
{
    let mut r = " (".to_owned();
    r.append(key);
    r.append(" \"");
    let esc = escape_text(value);
    r.append(esc.as_str());
    r.append("\")");
    r
}

/// Build the plain attribute line ` (key value)`.
pub fn plain_field(key: &str, value: &str) -> (r: String)
    ensures
        r@ == plain_line(key@, value@),
{
    let mut r = " (".to_owned();
    r.append(key);
    r.append(" ");
    r.append(value);
    r.append(")");
    r
}

} // verus!
