//! Who is logged in, and how that is told.

use crate::model::{opt_view, views};
use crate::text::{
    chars_of, concat, concat3, join, join_of, lemma_texts_push, list_contains, string_of, texts,
};
use vstd::prelude::*;
use vstd::string::*;

verus! {

/// What the arguments ask for.
pub enum WhoamiRequest {
    /// How the command is used.
    Help,
    /// How the command is used, after a complaint.
    Refuse(String),
    /// Who is logged in.
    Show,
}

/// Whether some argument asks for help.
pub open spec fn asks_for_help(args: Seq<Seq<char>>) -> bool {
    args.contains("--help"@) || args.contains("-h"@) || args.contains("help"@)
}

/// What the arguments ask for. The command takes none but those for help.
pub fn whoami_request(args: &[String]) -> (r: WhoamiRequest)
    ensures
        match r {
            WhoamiRequest::Help => asks_for_help(texts(args@)),
            WhoamiRequest::Refuse(message) => !asks_for_help(texts(args@)) && args@.len() > 0
                && message@ == "Error: unknown whoami argument(s): "@ + join_of(
                texts(args@),
                " "@,
            ),
            WhoamiRequest::Show => args@.len() == 0,
        },
{
    if list_contains(args, "--help") || list_contains(args, "-h") || list_contains(args, "help") {
        return WhoamiRequest::Help;
    }
    if args.len() > 0 {
        let all = join(args, " ");
        return WhoamiRequest::Refuse(concat("Error: unknown whoami argument(s): ", all.as_str()));
    }
    WhoamiRequest::Show
}

/// A key that can be shown: a short one by as many stars, a longer one by its
/// first and last four characters.
pub open spec fn masked_of(key: Seq<char>) -> Seq<char> {
    if key.len() <= 8 {
        Seq::new(key.len(), |i: int| '*')
    } else {
        key.take(4) + "..."@ + key.skip(key.len() - 4)
    }
}

/// A key that can be shown.
pub fn mask_api_key(key: &str) -> (r: String)
    ensures
        r@ == masked_of(key@),
{
    let v = chars_of(key);
    let n: usize = v.len();
    if n <= 8 {
        let mut r = String::new();
        let mut i: usize = 0;
        while i < n
            invariant
                i <= n,
                r@ == Seq::new(i as nat, |j: int| '*'),
            decreases n - i,
        {
            r.push('*');
            i += 1;
            assert(r@ =~= Seq::new(i as nat, |j: int| '*'));
        }
        return r;
    }
    let first = string_of(&v, 0, 4);
    let last = string_of(&v, n - 4, n);
    proof {
        assert(first@ =~= key@.take(4));
        assert(last@ =~= key@.skip(key@.len() - 4));
    }
    concat3(first.as_str(), "...", last.as_str())
}

/// Whether someone is logged in.
pub enum AuthState {
    LoggedOut,
    LoggedIn,
    RefreshExpired,
    Error(String),
}

/// Whether someone is logged in, as it is told.
pub open spec fn auth_state_line(state: AuthState) -> Seq<char> {
    match state {
        AuthState::LoggedOut => "Auth state: logged out"@,
        AuthState::LoggedIn => "Auth state: logged in"@,
        AuthState::RefreshExpired => {
            "Auth state: credentials expired (refresh token expired)"@
        },
        AuthState::Error(cause) => "Auth state: error ("@ + cause@ + ")"@,
    }
}

/// An organization of the one who is logged in.
pub struct Org {
    pub org_id: Option<String>,
    pub org_slug: Option<String>,
    pub org_name: Option<String>,
    pub role: Option<String>,
}

/// The texts of an organization.
pub struct OrgView {
    pub org_id: Option<Seq<char>>,
    pub org_slug: Option<Seq<char>>,
    pub org_name: Option<Seq<char>>,
    pub role: Option<Seq<char>>,
}

impl View for Org {
    type V = OrgView;

    open spec fn view(&self) -> OrgView {
        OrgView {
            org_id: opt_view(self.org_id),
            org_slug: opt_view(self.org_slug),
            org_name: opt_view(self.org_name),
            role: opt_view(self.role),
        }
    }
}

/// What is known of the one who is logged in. The times are texts already.
pub struct WhoamiFacts {
    pub api_base_url: String,
    pub backend: String,
    pub api_key: Option<String>,
    pub state: AuthState,
    pub access_token_expires_at: Option<String>,
    pub refresh_token_expires_at: Option<String>,
    pub user_id: Option<String>,
    pub email: Option<String>,
    pub name: Option<String>,
    pub personal_org_id: Option<String>,
    pub orgs: Vec<Org>,
}

/// A text, or another in its place.
pub open spec fn text_or(text: Option<Seq<char>>, other: Seq<char>) -> Seq<char> {
    match text {
        Some(t) => t,
        None => other,
    }
}

/// The line of an organization.
pub open spec fn org_line(org: OrgView) -> Seq<char> {
    "  - "@ + text_or(org.org_slug, "<unknown-slug>"@) + " ("@ + text_or(
        org.org_name,
        "<unknown-name>"@,
    ) + ") ["@ + text_or(org.org_id, "<unknown-id>"@) + "] role="@ + text_or(
        org.role,
        "<unknown-role>"@,
    )
}

/// Whether nobody can be told of, and the command ends without success: no
/// one is logged in, and there is no key either.
pub open spec fn ends_early(f: WhoamiFacts) -> bool {
    !(f.state is LoggedIn) && f.api_key is None
}

/// The lines up to the state of the login.
pub open spec fn head_lines(f: WhoamiFacts) -> Seq<Seq<char>> {
    let start = seq![
        "API Base URL: "@ + f.api_base_url@,
        "Credential backend: "@ + f.backend@,
    ];
    let key = match f.api_key {
        Some(key) => seq!["API key: "@ + masked_of(key@)],
        None => Seq::empty(),
    };
    (start + key).push(auth_state_line(f.state))
}

/// A line that is there only if its text is.
pub open spec fn optional_line(label: Seq<char>, text: Option<String>) -> Seq<Seq<char>> {
    match text {
        Some(t) => seq![label + t@],
        None => Seq::empty(),
    }
}

/// The lines of the first organizations.
pub open spec fn org_lines(orgs: Seq<OrgView>) -> Seq<Seq<char>>
    decreases orgs.len(),
{
    if orgs.len() == 0 {
        Seq::empty()
    } else {
        org_lines(orgs.drop_last()).push(org_line(orgs.last()))
    }
}

/// The lines of the one who is logged in.
pub open spec fn person_lines(f: WhoamiFacts) -> Seq<Seq<char>> {
    seq![
        "User ID: "@ + text_or(opt_view(f.user_id), "<unavailable>"@),
        "Email: "@ + text_or(opt_view(f.email), "<unavailable>"@),
        "Name: "@ + text_or(opt_view(f.name), "<unavailable>"@),
        "Personal org ID: "@ + text_or(opt_view(f.personal_org_id), "<unavailable>"@),
    ]
}

/// The lines of the organizations, with what stands above them.
pub open spec fn org_section(orgs: Seq<OrgView>) -> Seq<Seq<char>> {
    if orgs.len() == 0 {
        seq!["Organizations: <none>"@]
    } else {
        seq!["Organizations:"@] + org_lines(orgs)
    }
}

/// The lines that are told.
pub open spec fn whoami_lines(f: WhoamiFacts) -> Seq<Seq<char>> {
    if ends_early(f) {
        head_lines(f)
    } else {
        head_lines(f) + optional_line("Access token expires at: "@, f.access_token_expires_at)
            + optional_line("Refresh token expires at: "@, f.refresh_token_expires_at)
            + person_lines(f) + org_section(views(f.orgs@))
    }
}

fn push_text(out: &mut Vec<String>, text: String)
    ensures
        texts(final(out)@) == texts(old(out)@).push(text@),
{
    let ghost before = out@;
    let ghost added = text;
    out.push(text);
    proof {
        lemma_texts_push(before, added);
    }
}

fn text_or_else<'a>(text: &'a Option<String>, other: &'a str) -> (r: &'a str)
    ensures
        r@ == text_or(opt_view(*text), other@),
{
    match text {
        Some(t) => t.as_str(),
        None => other,
    }
}

fn org_text(org: &Org) -> (r: String)
    ensures
        r@ == org_line(org@),
{
    let mut line = concat("  - ", text_or_else(&org.org_slug, "<unknown-slug>"));
    line.append(" (");
    line.append(text_or_else(&org.org_name, "<unknown-name>"));
    line.append(") [");
    line.append(text_or_else(&org.org_id, "<unknown-id>"));
    line.append("] role=");
    line.append(text_or_else(&org.role, "<unknown-role>"));
    line
}

fn head(f: &WhoamiFacts) -> (r: Vec<String>)
    ensures
        texts(r@) == head_lines(*f),
{
    let mut out: Vec<String> = Vec::new();
    assert(texts(out@) =~= Seq::empty());
    push_text(&mut out, concat("API Base URL: ", f.api_base_url.as_str()));
    push_text(&mut out, concat("Credential backend: ", f.backend.as_str()));
    if let Some(key) = &f.api_key {
        push_text(&mut out, concat("API key: ", mask_api_key(key.as_str()).as_str()));
    }
    let state = match &f.state {
        AuthState::LoggedOut => "Auth state: logged out".to_owned(),
        AuthState::LoggedIn => "Auth state: logged in".to_owned(),
        AuthState::RefreshExpired => {
            "Auth state: credentials expired (refresh token expired)".to_owned()
        },
        AuthState::Error(cause) => concat3("Auth state: error (", cause.as_str(), ")"),
    };
    push_text(&mut out, state);
    assert(texts(out@) =~= head_lines(*f));
    out
}

fn push_optional(out: &mut Vec<String>, label: &str, text: &Option<String>)
    ensures
        texts(final(out)@) == texts(old(out)@) + optional_line(label@, *text),
{
    let ghost before = texts(out@);
    if let Some(t) = text {
        push_text(out, concat(label, t.as_str()));
    }
    assert(texts(out@) =~= before + optional_line(label@, *text));
}

fn push_person(out: &mut Vec<String>, f: &WhoamiFacts)
    ensures
        texts(final(out)@) == texts(old(out)@) + person_lines(*f),
{
    let ghost before = texts(out@);
    push_text(out, concat("User ID: ", text_or_else(&f.user_id, "<unavailable>")));
    push_text(out, concat("Email: ", text_or_else(&f.email, "<unavailable>")));
    push_text(out, concat("Name: ", text_or_else(&f.name, "<unavailable>")));
    push_text(
        out,
        concat("Personal org ID: ", text_or_else(&f.personal_org_id, "<unavailable>")),
    );
    assert(texts(out@) =~= before + person_lines(*f));
}

fn push_orgs(out: &mut Vec<String>, orgs: &Vec<Org>)
    ensures
        texts(final(out)@) == texts(old(out)@) + org_section(views(orgs@)),
{
    let ghost before = texts(out@);
    let ghost all = views(orgs@);
    if orgs.len() == 0 {
        push_text(out, "Organizations: <none>".to_owned());
        assert(texts(out@) =~= before + org_section(all));
        return;
    }
    push_text(out, "Organizations:".to_owned());
    let ghost start = texts(out@);
    let mut i: usize = 0;
    assert(all.take(0) =~= Seq::empty());
    assert(start + org_lines(all.take(0)) =~= start);
    while i < orgs.len()
        invariant
            i <= orgs@.len(),
            all == views(orgs@),
            texts(out@) == start + org_lines(all.take(i as int)),
        decreases orgs.len() - i,
    {
        proof {
            assert(all.take(i + 1).drop_last() =~= all.take(i as int));
            assert(all.take(i + 1).last() == orgs@[i as int]@);
            assert((start + org_lines(all.take(i as int))).push(org_line(all[i as int])) =~= start
                + org_lines(all.take(i as int)).push(org_line(all[i as int])));
        }
        push_text(out, org_text(&orgs[i]));
        i += 1;
    }
    proof {
        assert(all.take(all.len() as int) =~= all);
        assert(texts(out@) =~= before + org_section(all));
    }
}

/// What is told of the one who is logged in, line by line, and the exit code.
pub fn whoami_report(f: &WhoamiFacts) -> (r: (Vec<String>, i32))
    ensures
        texts(r.0@) == whoami_lines(*f),
        r.1 == (if ends_early(*f) {
            1int
        } else {
            0int
        }),
{
    let mut out = head(f);
    let logged_in = match &f.state {
        AuthState::LoggedIn => true,
        _ => false,
    };
    if !logged_in && f.api_key.is_none() {
        return (out, 1);
    }
    push_optional(&mut out, "Access token expires at: ", &f.access_token_expires_at);
    push_optional(&mut out, "Refresh token expires at: ", &f.refresh_token_expires_at);
    push_person(&mut out, f);
    push_orgs(&mut out, &f.orgs);
    (out, 0)
}

/// No more than eight characters of a key are ever shown, and of a key of up
/// to eight none.
pub proof fn law_keys_stay_hidden(key: Seq<char>)
    ensures
        key.len() <= 8 ==> forall|i: int|
            0 <= i < masked_of(key).len() ==> #[trigger] masked_of(key)[i] == '*',
        key.len() > 8 ==> masked_of(key).len() == 11,
{
    reveal_strlit("...");
}

} // verus!
