use vstd::prelude::*;
use crate::error::HttpError;
use crate::request::{get_request_info, is_request_line, no_space, request_line, Request};
use crate::response::{head_text, placeholder, substitute, Kvp, Response};
use crate::routes::{first_match, verb_index, RequestMatcherMap};
use crate::text::replace_all;
use crate::verb::HttpVerb;

verus! {

/// The error page template with its `#msg#` and `#description#`
/// placeholders filled in.
pub open spec fn error_page(template: Seq<char>, msg: Seq<char>, desc: Seq<char>) -> Seq<char> {
    replace_all(
        replace_all(template, placeholder("msg"@), msg),
        placeholder("description"@),
        desc,
    )
}

/// The description that the generic error page gives for a cause.
pub open spec fn error_description(cause: Seq<char>) -> Seq<char> {
    "Encountered "@ + cause + " error while executing the request"@
}

/// `r` is the text response that the error page template gives for a code,
/// a title and a description.
pub open spec fn is_error_page(
    r: Response,
    code: u16,
    template: Seq<char>,
    msg: Seq<char>,
    desc: Seq<char>,
) -> bool {
    &&& r.wf()
    &&& r.code == code
    &&& !r.binary
    &&& r.headers@.len() == 0
    &&& r.content@ == error_page(template, msg, desc)
}

/// The response that the error page template gives, with code, title and
/// description.
fn error_page_response(code: u16, template: &str, msg: &str, desc: String) -> (r: Response)
    ensures
        is_error_page(r, code, template@, msg@, desc@),
{
    let ghost d = desc@;
    let mut keys: Vec<Kvp> = Vec::new();
    keys.push(Kvp { key: String::from_str("msg"), value: String::from_str(msg) });
    keys.push(Kvp { key: String::from_str("description"), value: desc });
    let r = Response::build(code, template, keys);
    proof {
        let ks = keys@;
        assert(ks.drop_last().drop_last().len() == 0);
        assert(ks.drop_last().last() == ks[0]);
        assert(ks.last() == ks[1]);
        assert(substitute(template@, ks.drop_last()) == replace_all(
            substitute(template@, ks.drop_last().drop_last()),
            placeholder(ks[0].key@),
            ks[0].value@,
        ));
    }
    r
}

/// The page for a resource that was not found (code 404).
pub fn get_not_found(template: &str) -> (r: Response)
    ensures
        is_error_page(
            r,
            404,
            template@,
            "NOT FOUND"@,
            "The resource was not found on the server"@,
        ),
{
    error_page_response(
        404,
        template,
        "NOT FOUND",
        String::from_str("The resource was not found on the server"),
    )
}

/// The page for a request that was not authorised (code 401).
pub fn get_not_authorized(template: &str) -> (r: Response)
    ensures
        is_error_page(
            r,
            401,
            template@,
            "NOT AUTHORIZED"@,
            "You are not authorized to access the requested resource"@,
        ),
{
    error_page_response(
        401,
        template,
        "NOT AUTHORIZED",
        String::from_str("You are not authorized to access the requested resource"),
    )
}

/// The generic error page, which names its cause in the description (code 404).
pub fn get_error(template: &str, err: &HttpError) -> (r: Response)
    ensures
        is_error_page(
            r,
            404,
            template@,
            "ERROR EXECUTING REQUEST"@,
            error_description(err.message@),
        ),
{
    let mut desc = String::from_str("Encountered ");
    desc.append(err.message.as_str());
    desc.append(" error while executing the request");
    error_page_response(404, template, "ERROR EXECUTING REQUEST", desc)
}

/// The style sheet, served as `text/css`.
pub fn get_css(css: &str) -> (r: Response)
    ensures
        r.wf(),
        r.code == 200,
        !r.binary,
        r.content@ == css@,
        r.headers@.len() == 1,
        r.headers@[0].key@ == "Content-Type"@,
        r.headers@[0].value@ == "text/css"@,
{
    let mut response = Response::build(200, css, Vec::new());
    response.add_header("Content-Type", "text/css");
    response
}

/// The image, served as `image/png`.
pub fn get_img(img: &[u8]) -> (r: Response)
    ensures
        r.wf(),
        r.code == 200,
        r.binary,
        r.content@ == crate::response::base64_text(img@),
        r.length == img@.len(),
        r.headers@.len() == 1,
        r.headers@[0].key@ == "Content-Type"@,
        r.headers@[0].value@ == "image/png"@,
{
    let mut response = Response::build_binary(200, img);
    response.add_header("Content-Type", "image/png");
    response
}

/// The response sent in place of what a handler returned: a success passes
/// unchanged; 404 and 401 become their pages; any other code becomes the
/// generic error page, which names the handler's response as its cause.
pub fn normalize_response(response: Response, template: &str) -> (r: Response)
    requires
        response.wf(),
    ensures
        200 <= response.code <= 299 ==> r == response,
        response.code == 404 ==> is_error_page(
            r,
            404,
            template@,
            "NOT FOUND"@,
            "The resource was not found on the server"@,
        ),
        response.code == 401 ==> is_error_page(
            r,
            401,
            template@,
            "NOT AUTHORIZED"@,
            "You are not authorized to access the requested resource"@,
        ),
        !(200 <= response.code <= 299) && response.code != 404 && response.code != 401
            ==> is_error_page(
            r,
            404,
            template@,
            "ERROR EXECUTING REQUEST"@,
            error_description(head_text(response) + response.content@),
        ),
{
    let code = response.get_code();
    if 200 <= code && code <= 299 {
        response
    } else if code == 404 {
        get_not_found(template)
    } else if code == 401 {
        get_not_authorized(template)
    } else {
        let err = HttpError::new(response.to_string());
        get_error(template, &err)
    }
}

/// What is to be done with a request line: send a response at once, or
/// call the handler of the route that matched, on the request.
pub enum Dispatch<'a, H> {
    Reply(Response),
    Invoke(Request, &'a H),
}

/// Decides what answers a request line. A line that does not parse gets the
/// generic error page, naming the parse failure; a request that no route of
/// its verb matches gets the not-found page; otherwise the handler of the
/// first matching route is to be called on the request.
pub fn dispatch<'a, H>(line: &str, map: &'a RequestMatcherMap<H>, template: &str) -> (r: Dispatch<'a, H>)
    requires
        map.wf(),
    ensures
        !is_request_line(line@) ==> (r matches Dispatch::Reply(resp) && exists|m: Seq<char>|
            is_error_page(
                resp,
                404,
                template@,
                "ERROR EXECUTING REQUEST"@,
                #[trigger] error_description(m),
            )),
        forall|v: HttpVerb, p: Seq<char>|
            no_space(p) && line@ == #[trigger] request_line(v, p) ==> match first_match(
                map@[verb_index(v)],
                p,
            ) {
                None => r matches Dispatch::Reply(resp) && is_error_page(
                    resp,
                    404,
                    template@,
                    "NOT FOUND"@,
                    "The resource was not found on the server"@,
                ),
                Some(h) => r matches Dispatch::Invoke(req, hh) && req.verb == v && req.path@ == p
                    && *hh == h,
            },
{
    match get_request_info(line) {
        Err(e) => {
            Dispatch::Reply(get_error(template, &e))
        },
        Ok((verb, path)) => {
            proof {
                assert forall|v: HttpVerb, p: Seq<char>|
                    no_space(p) && line@ == #[trigger] request_line(v, p) implies v == verb && p
                    == path@ by {
                    crate::request::lemma_request_line_unique(v, p, verb, path@);
                }
                assert(is_request_line(line@));
            }
            let request = Request { verb, path, headers: Vec::new(), body: String::new() };
            match map.match_request(&request) {
                Some(h) => Dispatch::Invoke(request, h),
                None => Dispatch::Reply(get_not_found(template)),
            }
        },
    }
}

} // verus!
