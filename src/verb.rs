use vstd::prelude::*;
use crate::text::same_text;

verus! {

/// The request methods the server recognises.
#[derive(Debug, Clone, Copy, PartialEq, Eq, Structural, Hash)]
pub enum HttpVerb {
    Get,
    Put,
    Post,
    Patch,
    Delete,
    Option,
}

/// The token that names a verb on a request line.
pub open spec fn verb_name(v: HttpVerb) -> Seq<char> {
    match v {
        HttpVerb::Get => seq!['G', 'E', 'T'],
        HttpVerb::Put => seq!['P', 'U', 'T'],
        HttpVerb::Post => seq!['P', 'O', 'S', 'T'],
        HttpVerb::Patch => seq!['P', 'A', 'T', 'C', 'H'],
        HttpVerb::Delete => seq!['D', 'E', 'L', 'E', 'T', 'E'],
        HttpVerb::Option => seq!['O', 'P', 'T', 'I', 'O', 'N'],
    }
}

/// Whether some verb is named by `s`.
pub open spec fn is_verb_name(s: Seq<char>) -> bool {
    exists|v: HttpVerb| verb_name(v) == s
}

impl HttpVerb {
    /// Reads a verb from its token; any other token is refused.
    pub fn from(val: &str) -> (r: Result<HttpVerb, &'static str>)
        ensures
            match r {
                Ok(v) => verb_name(v) == val@,
                Err(_) => !is_verb_name(val@),
            },
    {
        let all = [
            HttpVerb::Get,
            HttpVerb::Put,
            HttpVerb::Patch,
            HttpVerb::Post,
            HttpVerb::Delete,
            HttpVerb::Option,
        ];
        let mut i: usize = 0;
        while i < 6
            invariant
                0 <= i <= 6,
                all@ == seq![
                    HttpVerb::Get,
                    HttpVerb::Put,
                    HttpVerb::Patch,
                    HttpVerb::Post,
                    HttpVerb::Delete,
                    HttpVerb::Option,
                ],
                forall|k: int| 0 <= k < i ==> verb_name(#[trigger] all@[k]) != val@,
            decreases 6 - i,
        {
            let v = all[i];
            if same_text(v.name(), val) {
                return Ok(v);
            }
            i = i + 1;
        }
        assert forall|v: HttpVerb| verb_name(v) != val@ by {
            match v {
                HttpVerb::Get => assert(all@[0] == v),
                HttpVerb::Put => assert(all@[1] == v),
                HttpVerb::Patch => assert(all@[2] == v),
                HttpVerb::Post => assert(all@[3] == v),
                HttpVerb::Delete => assert(all@[4] == v),
                HttpVerb::Option => assert(all@[5] == v),
            }
        }
        Err("Failed to find matching verb")
    }

    /// The token that names this verb.
    pub fn name(&self) -> (r: &'static str)
        ensures
            r@ == verb_name(*self),
    {
        proof {
            reveal_strlit("GET");
            reveal_strlit("PUT");
            reveal_strlit("POST");
            reveal_strlit("PATCH");
            reveal_strlit("DELETE");
            reveal_strlit("OPTION");
        }
        match self {
            HttpVerb::Get => "GET",
            HttpVerb::Put => "PUT",
            HttpVerb::Post => "POST",
            HttpVerb::Patch => "PATCH",
            HttpVerb::Delete => "DELETE",
            HttpVerb::Option => "OPTION",
        }
    }
}

} // verus!
