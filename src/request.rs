use vstd::prelude::*;
use crate::error::HttpError;
use crate::text::{chars_of, same_text};
use crate::verb::{is_verb_name, verb_name, HttpVerb};

verus! {

/// A request: its verb and path, the header lines as read, and the body.
pub struct Request {
    pub verb: HttpVerb,
    pub path: String,
    pub headers: Vec<String>,
    pub body: String,
}

/// The protocol token that a request line must end with.
pub open spec fn version_token() -> Seq<char> {
    "HTTP/1.1"@
}

/// Whether `s` holds no space.
pub open spec fn no_space(s: Seq<char>) -> bool {
    forall|i: int| 0 <= i < s.len() ==> s[i] != ' '
}

/// Three tokens joined by single spaces.
pub open spec fn join3(a: Seq<char>, b: Seq<char>, c: Seq<char>) -> Seq<char> {
    a + seq![' '] + b + seq![' '] + c
}

/// The request line that asks for `path` with verb `v`.
pub open spec fn request_line(v: HttpVerb, path: Seq<char>) -> Seq<char> {
    join3(verb_name(v), path, version_token())
}

/// Whether `line` is a well-formed request line: three tokens split by single
/// spaces, a recognised verb, any path, and the version `HTTP/1.1`.
pub open spec fn is_request_line(line: Seq<char>) -> bool {
    exists|v: HttpVerb, p: Seq<char>| no_space(p) && line == #[trigger] request_line(v, p)
}

proof fn lemma_verb_no_space(v: HttpVerb)
    ensures
        no_space(verb_name(v)),
{
}

proof fn lemma_version_no_space()
    ensures
        no_space(version_token()),
{
    reveal_strlit("HTTP/1.1");
}

/// In three space-free tokens joined by single spaces, the spaces stand
/// exactly at the two joins.
proof fn lemma_join3_spaces(a: Seq<char>, b: Seq<char>, c: Seq<char>)
    requires
        no_space(a),
        no_space(b),
        no_space(c),
    ensures
        forall|k: int|
            0 <= k < join3(a, b, c).len() ==> ((#[trigger] join3(a, b, c)[k] == ' ') <==> (k
                == a.len() || k == a.len() as int + 1 + b.len())),
        join3(a, b, c).subrange(0, a.len() as int) == a,
        join3(a, b, c).subrange(a.len() as int + 1, a.len() as int + 1 + b.len()) == b,
        join3(a, b, c).subrange(a.len() as int + 2 + b.len(), join3(a, b, c).len() as int) == c,
{
    let s = join3(a, b, c);
    assert forall|k: int| 0 <= k < s.len() implies ((#[trigger] s[k] == ' ') <==> (k == a.len()
        || k == a.len() as int + 1 + b.len())) by {
        if k < a.len() {
            assert(s[k] == a[k]);
        } else if k == a.len() {
        } else if k < a.len() as int + 1 + b.len() {
            assert(s[k] == b[k - a.len() - 1]);
        } else if k == a.len() as int + 1 + b.len() {
        } else {
            assert(s[k] == c[k - a.len() - 2 - b.len()]);
        }
    }
    assert(s.subrange(0, a.len() as int) =~= a);
    assert(s.subrange(a.len() as int + 1, a.len() as int + 1 + b.len()) =~= b);
    assert(s.subrange(a.len() as int + 2 + b.len(), s.len() as int) =~= c);
}

/// Two request lines are equal only for equal verbs and paths.
pub proof fn lemma_request_line_unique(v1: HttpVerb, p1: Seq<char>, v2: HttpVerb, p2: Seq<char>)
    requires
        no_space(p1),
        no_space(p2),
        request_line(v1, p1) == request_line(v2, p2),
    ensures
        v1 == v2,
        p1 == p2,
{
    lemma_verb_no_space(v1);
    lemma_verb_no_space(v2);
    lemma_version_no_space();
    lemma_join3_spaces(verb_name(v1), p1, version_token());
    lemma_join3_spaces(verb_name(v2), p2, version_token());
    let s = request_line(v1, p1);
    let n1 = verb_name(v1).len();
    let n2 = verb_name(v2).len();
    assert(s[n1 as int] == ' ');
    assert(s[n2 as int] == ' ');
    assert(n1 == n2);
    assert(s[n1 as int + 1 + p1.len()] == ' ');
    assert(s[n1 as int + 1 + p2.len()] == ' ');
    assert(p1.len() == p2.len());
    assert(verb_name(v1) == verb_name(v2));
}

/// A request line built from a verb and a space-free path is well formed,
/// and no other verb and path give the same line: parsing it yields exactly
/// them.
pub proof fn lemma_valid_line_parses(v: HttpVerb, p: Seq<char>)
    requires
        no_space(p),
    ensures
        is_request_line(request_line(v, p)),
        forall|v2: HttpVerb, p2: Seq<char>|
            no_space(p2) && #[trigger] request_line(v2, p2) == request_line(v, p) ==> v2 == v && p2
                == p,
{
    assert forall|v2: HttpVerb, p2: Seq<char>|
        no_space(p2) && #[trigger] request_line(v2, p2) == request_line(v, p) implies v2 == v && p2
        == p by {
        lemma_request_line_unique(v2, p2, v, p);
    }
}

/// A line of three space-free tokens is refused where the first is not a
/// recognised verb or the last is not `HTTP/1.1`.
pub proof fn lemma_bad_verb_or_version_refused(verb: Seq<char>, path: Seq<char>, version: Seq<char>)
    requires
        no_space(verb),
        no_space(path),
        no_space(version),
        !is_verb_name(verb) || version != version_token(),
    ensures
        !is_request_line(join3(verb, path, version)),
{
    let line = join3(verb, path, version);
    assert forall|v: HttpVerb, p: Seq<char>| no_space(p) implies line != #[trigger] request_line(v, p) by {
        if line == request_line(v, p) {
            lemma_verb_no_space(v);
            lemma_version_no_space();
            lemma_join3_spaces(verb, path, version);
            lemma_join3_spaces(verb_name(v), p, version_token());
            let a = verb.len() as int;
            let b = verb_name(v).len() as int;
            if a < b {
                assert(line[a] == ' ');
            } else if a > b {
                assert(line[b] == ' ');
            }
            let k1 = a + 1 + path.len();
            let k2 = b + 1 + p.len();
            if k1 < k2 {
                assert(line[k1] == ' ');
            } else if k1 > k2 {
                assert(line[k2] == ' ');
            }
            assert(verb_name(v) == verb);
        }
    }
}

/// `r` is the first space at or after `from` in `s`, or the end of `s`.
pub open spec fn first_space_from(s: Seq<char>, from: int, r: int) -> bool {
    &&& from <= r <= s.len()
    &&& forall|j: int| from <= j < r ==> s[j] != ' '
    &&& r < s.len() ==> s[r] == ' '
}

/// `line` is the tokens `a`, `b` and `c`, each free of spaces, joined by
/// single spaces.
pub open spec fn splits_into(line: Seq<char>, a: Seq<char>, b: Seq<char>, c: Seq<char>) -> bool {
    no_space(a) && no_space(b) && no_space(c) && line == join3(a, b, c)
}

/// Whether `line` is three tokens joined by single spaces.
pub open spec fn has_three_tokens(line: Seq<char>) -> bool {
    exists|a: Seq<char>, b: Seq<char>, c: Seq<char>| #[trigger] splits_into(line, a, b, c)
}

/// How a scan for spaces splits a line of three tokens.
proof fn lemma_split_positions(
    line: Seq<char>,
    a: Seq<char>,
    b: Seq<char>,
    c: Seq<char>,
    i1: int,
    i2: int,
    i3: int,
)
    requires
        splits_into(line, a, b, c),
        first_space_from(line, 0, i1),
        i1 < line.len() ==> first_space_from(line, i1 + 1, i2),
        i1 < line.len() && i2 < line.len() ==> first_space_from(line, i2 + 1, i3),
    ensures
        i1 == a.len(),
        i2 == a.len() + 1 + b.len(),
        i3 == line.len(),
        line.subrange(0, i1) == a,
        line.subrange(i1 + 1, i2) == b,
        line.subrange(i2 + 1, line.len() as int) == c,
{
    lemma_join3_spaces(a, b, c);
    let la = a.len() as int;
    let k = la + 1 + b.len();
    if i1 < la {
        assert(line[i1] == ' ');
    } else if i1 > la {
        assert(line[la] == ' ');
    }
    if i2 < k {
        assert(line[i2] == ' ');
    } else if i2 > k {
        assert(line[k] == ' ');
    }
    if i3 < line.len() {
        assert(line[i3] == ' ');
    }
}

/// A well-formed request line is three tokens.
proof fn lemma_request_line_splits(v: HttpVerb, p: Seq<char>)
    requires
        no_space(p),
    ensures
        splits_into(request_line(v, p), verb_name(v), p, version_token()),
{
    lemma_verb_no_space(v);
    lemma_version_no_space();
}

/// The first space at or after `from`, or the end.
fn find_space(cs: &Vec<char>, from: usize) -> (r: usize)
    requires
        from <= cs@.len(),
    ensures
        first_space_from(cs@, from as int, r as int),
{
    let mut i = from;
    while i < cs.len()
        invariant
            from <= i <= cs@.len(),
            forall|j: int| from <= j < i ==> cs@[j] != ' ',
        decreases cs@.len() - i,
    {
        if cs[i] == ' ' {
            return i;
        }
        i = i + 1;
    }
    i
}

/// Reads the verb and the path from a request line. It fails unless the line
/// is three tokens split by single spaces, the first a recognised verb and
/// the last `HTTP/1.1`; the message says which of these does not hold.
pub fn get_request_info(line: &str) -> (r: Result<(HttpVerb, String), HttpError>)
    ensures
        match r {
            Ok((v, p)) => no_space(p@) && line@ == request_line(v, p@),
            Err(e) => {
                &&& !is_request_line(line@)
                &&& !has_three_tokens(line@) ==> e.message@ == "Malformed request line"@
                &&& forall|a: Seq<char>, b: Seq<char>, c: Seq<char>|
                    #[trigger] splits_into(line@, a, b, c) ==> if !is_verb_name(a) {
                        e.message@ == "Failed to find matching verb"@
                    } else {
                        c != version_token() && e.message@ == "Invalid HTTP version"@
                    }
            },
        },
{
    let cs = chars_of(line);
    let n = cs.len();
    let i1 = find_space(&cs, 0);
    let i2 = if i1 < n {
        find_space(&cs, i1 + 1)
    } else {
        n
    };
    let i3 = if i1 < n && i2 < n {
        find_space(&cs, i2 + 1)
    } else {
        n
    };
    if i1 >= n || i2 >= n || i3 < n {
        proof {
            assert forall|a: Seq<char>, b: Seq<char>, c: Seq<char>| !#[trigger] splits_into(
                line@,
                a,
                b,
                c,
            ) by {
                if splits_into(line@, a, b, c) {
                    lemma_split_positions(line@, a, b, c, i1 as int, i2 as int, i3 as int);
                }
            }
            assert forall|v: HttpVerb, p: Seq<char>| no_space(p) implies line@
                != #[trigger] request_line(v, p) by {
                lemma_request_line_splits(v, p);
            }
        }
        return Err(HttpError::new(String::from_str("Malformed request line")));
    }
    let verb_tok = line.substring_char(0, i1);
    let path = line.substring_char(i1 + 1, i2);
    let version = line.substring_char(i2 + 1, n);
    proof {
        assert(line@ =~= join3(verb_tok@, path@, version@));
        assert(splits_into(line@, verb_tok@, path@, version@));
        assert forall|a: Seq<char>, b: Seq<char>, c: Seq<char>| #[trigger] splits_into(
            line@,
            a,
            b,
            c,
        ) implies a == verb_tok@ && b == path@ && c == version@ by {
            lemma_split_positions(line@, a, b, c, i1 as int, i2 as int, i3 as int);
        }
        assert forall|v: HttpVerb, p: Seq<char>| no_space(p) && line@ == #[trigger] request_line(
            v,
            p,
        ) implies verb_name(v) == verb_tok@ && p == path@ && version_token() == version@ by {
            lemma_request_line_splits(v, p);
        }
    }
    let verb = match HttpVerb::from(verb_tok) {
        Ok(v) => v,
        Err(_) => {
            proof {
                reveal_strlit("Failed to find matching verb");
            }
            return Err(HttpError::new(String::from_str("Failed to find matching verb")));
        },
    };
    if !same_text(version, "HTTP/1.1") {
        proof {
            reveal_strlit("HTTP/1.1");
        }
        return Err(HttpError::new(String::from_str("Invalid HTTP version")));
    }
    proof {
        lemma_version_no_space();
    }
    Ok((verb, String::from_str(path)))
}

} // verus!
