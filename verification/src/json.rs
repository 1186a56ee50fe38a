//! Stateless JSON command surface: validate, format, compress, and the
//! size estimate. The document is treated as opaque text; parsing and
//! re-serialization are delegated to serde_json behind trusted wrappers,
//! and everything around the calls — error labeling, the custom-indent
//! re-scaling, the size arithmetic — is verified.
use vstd::prelude::*;
use vstd::string::StrSliceExecFns;
use vstd::string::StringExecFns;
use vstd::string::StringSliceAdditionalSpecFns;

verus! {

/// The identity of the JSON value a text parses to: `None` when the
/// text is not valid JSON, and otherwise a token equal across any two
/// texts that parse to equal values. Named, not defined: what
/// `serde_json::from_str::<Value>` accepts and returns takes the whole
/// JSON grammar to state.
pub uninterp spec fn json_parse(s: Seq<char>) -> Option<int>;

/// The compact (minimal) serialization of a parsed JSON value.
pub uninterp spec fn json_compact_of(v: int) -> Seq<char>;

/// The two-space pretty serialization of a parsed JSON value.
pub uninterp spec fn json_pretty_of(v: int) -> Seq<char>;

/// A malformed-input failure from a JSON operation; the message wraps
/// the parser's own text.
#[derive(Debug)]
pub struct ParseError {
    pub message: String,
}

/// Relies on serde_json::from_str::<Value>: whether a text parses is a
/// function of the text alone; on error, the parser's message is
/// returned.
#[verifier::external_body]
fn parse_check(content: &str) -> (r: Result<(), String>)
    ensures
        r is Ok <==> json_parse(content@) is Some,
{
    match serde_json::from_str::<serde_json::Value>(content) {
        Ok(_) => Ok(()),
        Err(e) => Err(e.to_string()),
    }
}

/// Relies on serde_json::from_str::<Value> and serde_json::to_string.
/// The parsed value is a function of the text alone and its compact
/// serialization a function of the value alone. Serializing a `Value`
/// cannot fail (its maps carry string keys and the writer is a vector),
/// so the call succeeds exactly on valid input; and the printed text
/// parses back to an equal value (numbers are printed exactly: integers
/// verbatim, doubles in shortest round-trip form).
#[verifier::external_body]
fn reserialize_compact(content: &str) -> (r: Result<String, String>)
    ensures
        r is Ok <==> json_parse(content@) is Some,
        r matches Ok(t) ==> t@ == json_compact_of(json_parse(content@)->0),
        r matches Ok(t) ==> json_parse(t@) == json_parse(content@),
{
    match serde_json::from_str::<serde_json::Value>(content) {
        Ok(v) => match serde_json::to_string(&v) {
            Ok(t) => Ok(t),
            Err(e) => Err(e.to_string()),
        },
        Err(e) => Err(e.to_string()),
    }
}

/// Relies on serde_json::from_str::<Value> and
/// serde_json::to_string_pretty: the two-space pretty form is a
/// function of the parsed value alone, and serializing a `Value`
/// cannot fail.
#[verifier::external_body]
fn reserialize_pretty(content: &str) -> (r: Result<String, String>)
    ensures
        r is Ok <==> json_parse(content@) is Some,
        r matches Ok(t) ==> t@ == json_pretty_of(json_parse(content@)->0),
{
    match serde_json::from_str::<serde_json::Value>(content) {
        Ok(v) => match serde_json::to_string_pretty(&v) {
            Ok(t) => Ok(t),
            Err(e) => Err(e.to_string()),
        },
        Err(e) => Err(e.to_string()),
    }
}

/// Relies on String::from_iter: builds the text whose characters are
/// exactly `cs`.
#[verifier::external_body]
fn chars_to_string(cs: &Vec<char>) -> (r: String)
    ensures
        r@ == cs@,
{
    cs.iter().collect()
}

fn str_to_chars(s: &str) -> (r: Vec<char>)
    ensures
        r@ == s@,
{
    let n: usize = s.unicode_len();
    let mut r: Vec<char> = Vec::new();
    let mut i: usize = 0;
    while i < n
        invariant
            i <= n == s@.len(),
            r@ == s@.take(i as int),
        decreases n - i,
    {
        r.push(s.get_char(i));
        proof {
            assert(r@ =~= s@.take(i + 1));
        }
        i += 1;
    }
    proof {
        assert(s@.take(n as int) =~= s@);
    }
    r
}

fn labeled(label: &str, msg: String) -> (r: String)
    ensures
        r@ == label@ + msg@,
{
    let mut s = label.to_owned();
    s.append(msg.as_str());
    s
}

/// Validates a text as JSON. Returns `Ok(true)` exactly when the text
/// parses; otherwise a `ParseError` labeled with the parser's message.
pub fn validate_json(content: &str) -> (r: Result<bool, ParseError>)
    ensures
        r is Ok <==> json_parse(content@) is Some,
        r matches Ok(b) ==> b == true,
        r matches Err(e) ==> exists|m: Seq<char>| e.message@ == "Invalid JSON: "@ + m,
{
    match parse_check(content) {
        Ok(()) => Ok(true),
        Err(m) => {
            let ghost raw = m@;
            let message = labeled("Invalid JSON: ", m);
            proof {
                assert(message@ == "Invalid JSON: "@ + raw);
            }
            Err(ParseError { message })
        },
    }
}

/// Compresses a JSON text to its canonical minimal serialization.
/// Succeeds exactly on valid input; the output is itself valid and
/// parses to the same value, so formatting the output equals
/// formatting the input.
pub fn compress_json(content: &str) -> (r: Result<String, ParseError>)
    ensures
        r is Ok <==> json_parse(content@) is Some,
        r matches Ok(t) ==> t@ == json_compact_of(json_parse(content@)->0),
        r matches Ok(t) ==> json_parse(t@) == json_parse(content@),
        r matches Ok(t) ==> spec_format(t@, 2) == spec_format(content@, 2),
        r matches Err(e) ==> exists|m: Seq<char>| e.message@ == "Invalid JSON: "@ + m,
{
    match reserialize_compact(content) {
        Ok(t) => Ok(t),
        Err(m) => {
            let ghost raw = m@;
            let message = labeled("Invalid JSON: ", m);
            proof {
                assert(message@ == "Invalid JSON: "@ + raw);
            }
            Err(ParseError { message })
        },
    }
}

/// The number of spaces at the front of a line.
pub open spec fn leading_spaces(l: Seq<char>) -> int
    decreases l.len(),
{
    if l.len() == 0 || l[0] != ' ' {
        0
    } else {
        1 + leading_spaces(l.drop_first())
    }
}

/// One line re-scaled: every two leading spaces become `indent` spaces;
/// the rest of the line is kept.
pub open spec fn rescale_line(l: Seq<char>, indent: nat) -> Seq<char> {
    let k = leading_spaces(l);
    Seq::new(indent * (k / 2) as nat, |i: int| ' ') + l.skip(k)
}

/// The lines of a text, split at every newline.
pub open spec fn split_lines(s: Seq<char>) -> Seq<Seq<char>>
    decreases s.len(),
{
    if s.len() == 0 {
        seq![Seq::<char>::empty()]
    } else if s.last() == '\n' {
        split_lines(s.drop_last()).push(Seq::<char>::empty())
    } else {
        let r = split_lines(s.drop_last());
        r.update(r.len() - 1, r.last().push(s.last()))
    }
}

/// Lines joined back with newlines.
pub open spec fn join_lines(ls: Seq<Seq<char>>) -> Seq<char>
    decreases ls.len(),
{
    if ls.len() == 0 {
        Seq::<char>::empty()
    } else if ls.len() == 1 {
        ls[0]
    } else {
        join_lines(ls.drop_last()) + seq!['\n'] + ls.last()
    }
}

/// Every line of `ls` re-scaled, in order.
pub open spec fn rescale_all(ls: Seq<Seq<char>>, indent: nat) -> Seq<Seq<char>>
    decreases ls.len(),
{
    if ls.len() == 0 {
        Seq::<Seq<char>>::empty()
    } else {
        rescale_all(ls.drop_last(), indent).push(rescale_line(ls.last(), indent))
    }
}

/// A whole text re-scaled line by line.
pub open spec fn rescale_text(t: Seq<char>, indent: nat) -> Seq<char> {
    join_lines(rescale_all(split_lines(t), indent))
}

/// What `format_json` returns: the two-space pretty form for the
/// native width, and the re-scaled pretty form for any other width —
/// whitespace runs are re-scaled, not re-laid-out.
pub open spec fn spec_format(s: Seq<char>, indent: nat) -> Option<Seq<char>> {
    match json_parse(s) {
        Some(v) => if indent == 2 {
            Some(json_pretty_of(v))
        } else {
            Some(rescale_text(json_pretty_of(v), indent))
        },
        None => None,
    }
}

pub open spec fn char_lines_views(ls: Seq<Vec<char>>) -> Seq<Seq<char>> {
    ls.map_values(|l: Vec<char>| l@)
}

fn split_lines_exec(s: &Vec<char>) -> (r: Vec<Vec<char>>)
    ensures
        char_lines_views(r@) == split_lines(s@),
{
    let mut r: Vec<Vec<char>> = Vec::new();
    r.push(Vec::new());
    proof {
        assert(char_lines_views(r@) =~= split_lines(s@.take(0)));
    }
    let mut i: usize = 0;
    while i < s.len()
        invariant
            i <= s@.len(),
            r@.len() >= 1,
            char_lines_views(r@) == split_lines(s@.take(i as int)),
        decreases s@.len() - i,
    {
        proof {
            assert(s@.take(i + 1).drop_last() =~= s@.take(i as int));
            assert(s@.take(i + 1).last() == s@[i as int]);
        }
        let c = s[i];
        if c == '\n' {
            r.push(Vec::new());
            proof {
                assert(char_lines_views(r@) =~= split_lines(s@.take(i + 1)));
            }
        } else {
            let mut line = r.pop().unwrap();
            line.push(c);
            r.push(line);
            proof {
                assert(char_lines_views(r@) =~= split_lines(s@.take(i + 1)));
            }
        }
        i += 1;
    }
    proof {
        assert(s@.take(s@.len() as int) =~= s@);
    }
    r
}

fn join_lines_exec(ls: &Vec<Vec<char>>) -> (r: Vec<char>)
    ensures
        r@ == join_lines(char_lines_views(ls@)),
{
    let mut out: Vec<char> = Vec::new();
    let mut i: usize = 0;
    while i < ls.len()
        invariant
            i <= ls@.len(),
            out@ == join_lines(char_lines_views(ls@).take(i as int)),
        decreases ls@.len() - i,
    {
        proof {
            assert(char_lines_views(ls@).take(i + 1).drop_last() =~= char_lines_views(
                ls@,
            ).take(i as int));
            assert(char_lines_views(ls@).take(i + 1).last() == ls@[i as int]@);
        }
        if i > 0 {
            out.push('\n');
        }
        let ghost before = out@;
        let line = &ls[i];
        let mut j: usize = 0;
        while j < line.len()
            invariant
                j <= line@.len(),
                out@ == before + line@.take(j as int),
        decreases line@.len() - j,
        {
            out.push(line[j]);
            proof {
                assert(out@ =~= before + line@.take(j + 1));
            }
            j += 1;
        }
        proof {
            assert(line@.take(line@.len() as int) =~= line@);
            if i == 0 {
                assert(char_lines_views(ls@).take(1).len() == 1);
                assert(out@ =~= join_lines(char_lines_views(ls@).take(1)));
            } else {
                assert(out@ =~= join_lines(char_lines_views(ls@).take(i + 1)));
            }
        }
        i += 1;
    }
    proof {
        assert(char_lines_views(ls@).take(ls@.len() as int) =~= char_lines_views(ls@));
    }
    out
}

proof fn lemma_leading_spaces(l: Seq<char>, k: int)
    requires
        0 <= k <= l.len(),
        forall|j: int| 0 <= j < k ==> l[j] == ' ',
        k == l.len() || l[k] != ' ',
    ensures
        leading_spaces(l) == k,
    decreases l.len(),
{
    if k == 0 {
    } else {
        lemma_leading_spaces(l.drop_first(), k - 1);
    }
}

fn rescale_line_exec(line: &Vec<char>, indent: usize) -> (r: Vec<char>)
    ensures
        r@ == rescale_line(line@, indent as nat),
{
    let n: usize = line.len();
    let mut k: usize = 0;
    while k < n && line[k] == ' '
        invariant
            k <= n == line@.len(),
            forall|j: int| 0 <= j < k ==> line@[j] == ' ',
        decreases n - k,
    {
        k += 1;
    }
    proof {
        lemma_leading_spaces(line@, k as int);
    }
    let half: usize = k / 2;
    let mut out: Vec<char> = Vec::new();
    let mut a: usize = 0;
    while a < half
        invariant
            a <= half,
            out@.len() == a * indent,
            forall|j: int| 0 <= j < out@.len() ==> out@[j] == ' ',
        decreases half - a,
    {
        let mut b: usize = 0;
        while b < indent
            invariant
                b <= indent,
                out@.len() == a * indent + b,
                forall|j: int| 0 <= j < out@.len() ==> out@[j] == ' ',
            decreases indent - b,
        {
            out.push(' ');
            b += 1;
        }
        proof {
            assert((a + 1) * indent == a * indent + indent) by (nonlinear_arith);
        }
        a += 1;
    }
    proof {
        assert(half * indent == indent * ((k as int) / 2)) by (nonlinear_arith)
            requires
                half == (k as int) / 2,
        ;
        assert(out@ =~= Seq::new((indent * ((k as int) / 2)) as nat, |i: int| ' '));
    }
    let ghost spaces = out@;
    let mut j: usize = k;
    while j < n
        invariant
            k <= j <= n == line@.len(),
            out@ == spaces + line@.subrange(k as int, j as int),
        decreases n - j,
    {
        out.push(line[j]);
        proof {
            assert(out@ =~= spaces + line@.subrange(k as int, j + 1));
        }
        j += 1;
    }
    proof {
        assert(line@.subrange(k as int, n as int) =~= line@.skip(k as int));
        assert(out@ =~= rescale_line(line@, indent as nat));
    }
    out
}

/// Formats a JSON text at the requested indent width (two when not
/// given). The native width is the pretty printer's own; any other
/// width is approximated by re-scaling the two-space runs, a documented
/// quirk. Succeeds exactly on valid input.
pub fn format_json(content: &str, indent: Option<usize>) -> (r: Result<String, ParseError>)
    ensures
        r is Ok <==> json_parse(content@) is Some,
        r matches Ok(t) ==> Some(t@) == spec_format(
            content@,
            (match indent {
                Some(n) => n as nat,
                None => 2,
            }),
        ),
        r matches Err(e) ==> exists|m: Seq<char>| e.message@ == "Invalid JSON: "@ + m,
{
    let ind: usize = match indent {
        Some(n) => n,
        None => 2,
    };
    match reserialize_pretty(content) {
        Ok(t) => {
            if ind == 2 {
                Ok(t)
            } else {
                let cs = str_to_chars(t.as_str());
                let lines = split_lines_exec(&cs);
                let mut scaled: Vec<Vec<char>> = Vec::new();
                let mut i: usize = 0;
                while i < lines.len()
                    invariant
                        i <= lines@.len(),
                        char_lines_views(scaled@) == rescale_all(
                            char_lines_views(lines@).take(i as int),
                            ind as nat,
                        ),
                    decreases lines@.len() - i,
                {
                    proof {
                        assert(char_lines_views(lines@).take(i + 1).drop_last()
                            =~= char_lines_views(lines@).take(i as int));
                        assert(char_lines_views(lines@).take(i + 1).last() == lines@[
                            i as int
                        ]@);
                    }
                    let rl = rescale_line_exec(&lines[i], ind);
                    scaled.push(rl);
                    proof {
                        assert(char_lines_views(scaled@) =~= rescale_all(
                            char_lines_views(lines@).take(i + 1),
                            ind as nat,
                        ));
                    }
                    i += 1;
                }
                proof {
                    assert(char_lines_views(lines@).take(lines@.len() as int)
                        =~= char_lines_views(lines@));
                }
                let joined = join_lines_exec(&scaled);
                let s = chars_to_string(&joined);
                Ok(s)
            }
        },
        Err(m) => {
            let ghost raw = m@;
            let message = labeled("Invalid JSON: ", m);
            proof {
                assert(message@ == "Invalid JSON: "@ + raw);
            }
            Err(ParseError { message })
        },
    }
}

/// The sizes reported for a document: the exact byte length and two
/// fixed-ratio estimates (0.70 and 0.60 of raw) — documented
/// approximations, not measurements.
pub struct SizeEstimate {
    pub raw: usize,
    pub gzip_estimate: usize,
    pub brotli_estimate: usize,
}

/// Estimates the stored sizes of a text: `raw` is the exact byte
/// length; the gzip and brotli figures are seven and six tenths of it,
/// rounded down.
pub fn estimate_size(content: &str) -> (r: SizeEstimate)
    ensures
        r.raw == content.spec_bytes().len() as usize,
        r.gzip_estimate == (r.raw * 7) / 10,
        r.brotli_estimate == (r.raw * 6) / 10,
{
    let raw: usize = content.len();
    let q: usize = raw / 10;
    let rem: usize = raw % 10;
    proof {
        assert(raw == 10 * q + rem && rem < 10) by (nonlinear_arith)
            requires
                q == raw / 10,
                rem == raw % 10,
        ;
        assert(q <= usize::MAX / 10);
        assert((10 * q + rem) * 7 / 10 == 7 * q + (rem * 7) / 10) by (nonlinear_arith)
            requires
                rem < 10,
                q >= 0,
        ;
        assert((10 * q + rem) * 6 / 10 == 6 * q + (rem * 6) / 10) by (nonlinear_arith)
            requires
                rem < 10,
                q >= 0,
        ;
    }
    let gzip_estimate: usize = 7 * q + (rem * 7) / 10;
    let brotli_estimate: usize = 6 * q + (rem * 6) / 10;
    SizeEstimate { raw, gzip_estimate, brotli_estimate }
}

} // verus!
