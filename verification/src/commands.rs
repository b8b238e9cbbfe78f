use vstd::prelude::*;
use crate::registry::Registry;
use crate::ident::webview_id_seq;
use crate::ident::fresh_webview_id;

verus! {

/// What `url::Url::parse` makes of a string: `Ok` when it parses as an
/// absolute URL, otherwise the display text of its parse error.  Both depend
/// on the string alone.
pub uninterp spec fn url_parse_outcome(s: Seq<char>) -> Result<(), Seq<char>>;

/// Relies on `url::Url::parse`, which parses an absolute URL from a string
/// and otherwise returns a parse error; the error's display text is handed
/// back.
#[verifier::external_body]
fn check_url(s: &str) -> (r: Result<(), String>)
    ensures
        r is Ok <==> url_parse_outcome(s@) is Ok,
        r matches Err(e) ==> url_parse_outcome(s@) matches Err(t) && e@ == t,
{
    match url::Url::parse(s) {
        Ok(_) => Ok(()),
        Err(e) => Err(format!("{}", e)),
    }
}

/// The error reported when no webview is registered under `id`.
pub open spec fn not_found_message(id: Seq<char>) -> Seq<char> {
    "Webview "@ + id + " not found"@
}

/// The error reported when a string is not an absolute URL.
pub open spec fn invalid_url_message(err: Seq<char>) -> Seq<char> {
    "Invalid URL: "@ + err
}

/// What a command that only looks its webview up decides: the registered
/// slot, or the not-found error.
pub open spec fn lookup_decision(m: Map<Seq<char>, usize>, id: Seq<char>) -> Result<
    usize,
    Seq<char>,
> {
    if m.dom().contains(id) {
        Ok(m[id])
    } else {
        Err(not_found_message(id))
    }
}

/// What the navigate command decides: the webview is looked up first, then
/// the URL is checked.
pub open spec fn navigate_decision(
    m: Map<Seq<char>, usize>,
    id: Seq<char>,
    url: Seq<char>,
) -> Result<usize, Seq<char>> {
    if !m.dom().contains(id) {
        Err(not_found_message(id))
    } else {
        match url_parse_outcome(url) {
            Ok(_) => Ok(m[id]),
            Err(t) => Err(invalid_url_message(t)),
        }
    }
}

/// Build the not-found error for `id`.
fn not_found_error(id: &String) -> (r: String)
    ensures
        r@ == not_found_message(id@),
{
    let r = String::from_str("Webview ").concat(id.as_str()).concat(" not found");
    proof {
        assert(r@ =~= not_found_message(id@));
    }
    r
}

/// Look `webview_id` up for a command that then acts on the live webview:
/// reload, history, fullscreen and devtools work all start here.  Hands back
/// the slot of the registered window, or the not-found error.
pub fn lookup_webview(reg: &Registry, webview_id: &String) -> (r: Result<usize, String>)
    requires
        reg.wf(),
    ensures
        lookup_decision(reg@, webview_id@) matches Ok(s) ==> r == Ok::<usize, String>(s),
        lookup_decision(reg@, webview_id@) matches Err(m) ==> r matches Err(e) && e@ == m,
{
    match reg.get(webview_id) {
        Some(slot) => Ok(slot),
        None => Err(not_found_error(webview_id)),
    }
}

/// Decide the navigate command: the slot to navigate when `webview_id` is
/// registered and `url` is an absolute URL, otherwise the exact error the
/// front end is shown.
pub fn webview_navigate_command(reg: &Registry, webview_id: &String, url: &String) -> (r: Result<
    usize,
    String,
>)
    requires
        reg.wf(),
    ensures
        navigate_decision(reg@, webview_id@, url@) matches Ok(s) ==> r == Ok::<usize, String>(s),
        navigate_decision(reg@, webview_id@, url@) matches Err(m) ==> r matches Err(e) && e@ == m,
{
    match reg.get(webview_id) {
        Some(slot) => match check_url(url.as_str()) {
            Ok(()) => Ok(slot),
            Err(e) => {
                let msg = String::from_str("Invalid URL: ").concat(e.as_str());
                proof {
                    assert(msg@ =~= invalid_url_message(e@));
                }
                Err(msg)
            },
        },
        None => Err(not_found_error(webview_id)),
    }
}

/// Prepare the create command: check that `url` is an absolute URL and, when
/// it is, generate the identifier for the new webview from the clock.  The
/// host toolkit then builds the window; `register_webview` records it.
pub fn prepare_webview(url: &String) -> (r: Result<String, String>)
    ensures
        url_parse_outcome(url@) is Ok ==> (r matches Ok(id) && (exists|t: i64|
            id@ == webview_id_seq(t))),
        url_parse_outcome(url@) matches Err(t) ==> r matches Err(e) && e@ == invalid_url_message(t),
{
    let id = fresh_webview_id();
    match check_url(url.as_str()) {
        Ok(()) => Ok(id),
        Err(e) => {
            let msg = String::from_str("Invalid URL: ").concat(e.as_str());
            proof {
                assert(msg@ =~= invalid_url_message(e@));
            }
            Err(msg)
        },
    }
}

/// Record a newly built webview: `slot` is registered under `id`, exactly as
/// a map insertion.
pub fn register_webview(reg: &mut Registry, id: String, slot: usize)
    requires
        old(reg).wf(),
    ensures
        final(reg).wf(),
        final(reg)@ == old(reg)@.insert(id@, slot),
{
    reg.insert(id, slot);
}

/// The script a webview is handed to go back in its history.
pub fn history_back_script() -> (r: &'static str)
    ensures
        r@ == "window.history.back()"@,
{
    "window.history.back()"
}

/// The script a webview is handed to go forward in its history.
pub fn history_forward_script() -> (r: &'static str)
    ensures
        r@ == "window.history.forward()"@,
{
    "window.history.forward()"
}

/// The fullscreen state a webview is switched to when it currently reports
/// `is_fullscreen`.
pub fn fullscreen_target(is_fullscreen: bool) -> (r: bool)
    ensures
        r == !is_fullscreen,
{
    !is_fullscreen
}

/// Decide the destroy command: when `webview_id` is registered its entry is
/// removed and its slot handed back so the host toolkit can close the
/// window; otherwise the registry is untouched and the not-found error is
/// reported.
pub fn destroy_webview_command(reg: &mut Registry, webview_id: &String) -> (r: Result<
    usize,
    String,
>)
    requires
        old(reg).wf(),
    ensures
        final(reg).wf(),
        old(reg)@.dom().contains(webview_id@) ==> r == Ok::<usize, String>(
            old(reg)@[webview_id@],
        ) && final(reg)@ == old(reg)@.remove(webview_id@),
        !old(reg)@.dom().contains(webview_id@) ==> (r matches Err(e) && e@ == not_found_message(
            webview_id@,
        )) && final(reg)@ == old(reg)@,
{
    match reg.remove(webview_id) {
        Some(slot) => Ok(slot),
        None => Err(not_found_error(webview_id)),
    }
}

} // verus!
