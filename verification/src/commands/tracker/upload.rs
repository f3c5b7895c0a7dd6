//! The report of one commit: what is sent, and what the answer means.

use crate::commands::tracker::config::TrackerConfig;
use crate::file_tree::{lossy_text, utf8_lossy};
use crate::model::opt_view;
use crate::text::{
    concat, decimal, decimal_of, lines, lines_of, parse_i64, prefix_within, signed_of, take_bytes,
    texts, trim, trimmed,
};
use vstd::prelude::*;
use vstd::string::*;

verus! {

/// Where reports are sent to, behind the tracker's address.
pub const API_PATH: &'static str = "/ai-code-boost/open/report/stats";

// ------------------------------------------------------------------ base 64

/// The character of a digit to the base of 64.
pub open spec fn base64_char(d: int) -> char {
    if d < 26 {
        ('A' as int + d) as char
    } else if d < 52 {
        ('a' as int + (d - 26)) as char
    } else if d < 62 {
        ('0' as int + (d - 52)) as char
    } else if d == 62 {
        '+'
    } else {
        '/'
    }
}

/// The digit that a character stands for.
pub open spec fn base64_digit(c: char) -> int {
    if 'A' <= c && c <= 'Z' {
        c as int - 'A' as int
    } else if 'a' <= c && c <= 'z' {
        c as int - 'a' as int + 26
    } else if '0' <= c && c <= '9' {
        c as int - '0' as int + 52
    } else if c == '+' {
        62
    } else {
        63
    }
}

/// The four characters of up to three bytes: the 24 bits in groups of six,
/// with an equals sign for each byte that is missing.
pub open spec fn base64_group(bytes: Seq<u8>) -> Seq<char> {
    let b0 = bytes[0] as int;
    let b1 = if bytes.len() > 1 {
        bytes[1] as int
    } else {
        0
    };
    let b2 = if bytes.len() > 2 {
        bytes[2] as int
    } else {
        0
    };
    seq![
        base64_char(b0 / 4),
        base64_char((b0 % 4) * 16 + b1 / 16),
        if bytes.len() > 1 {
            base64_char((b1 % 16) * 4 + b2 / 64)
        } else {
            '='
        },
        if bytes.len() > 2 {
            base64_char(b2 % 64)
        } else {
            '='
        },
    ]
}

/// The text of some bytes to the base of 64.
pub open spec fn base64_of(data: Seq<u8>) -> Seq<char>
    decreases data.len(),
{
    if data.len() == 0 {
        Seq::empty()
    } else if data.len() <= 3 {
        base64_group(data)
    } else {
        base64_group(data.take(3)) + base64_of(data.skip(3))
    }
}

/// The bytes that four characters stand for.
pub open spec fn base64_bytes(group: Seq<char>) -> Seq<u8> {
    let d0 = base64_digit(group[0]);
    let d1 = base64_digit(group[1]);
    let d2 = base64_digit(group[2]);
    let d3 = base64_digit(group[3]);
    let first = (d0 * 4 + d1 / 16) as u8;
    let second = ((d1 % 16) * 16 + d2 / 4) as u8;
    let third = ((d2 % 4) * 64 + d3) as u8;
    if group[2] == '=' {
        seq![first]
    } else if group[3] == '=' {
        seq![first, second]
    } else {
        seq![first, second, third]
    }
}

/// The bytes that a text to the base of 64 stands for.
pub open spec fn base64_read(text: Seq<char>) -> Seq<u8>
    decreases text.len(),
{
    if text.len() < 4 {
        Seq::empty()
    } else {
        base64_bytes(text.take(4)) + base64_read(text.skip(4))
    }
}

fn base64_symbol(d: u8) -> (r: char)
    requires
        d < 64,
    ensures
        r == base64_char(d as int),
{
    if d < 26 {
        (65 + d) as char
    } else if d < 52 {
        (97 + (d - 26)) as char
    } else if d < 62 {
        (48 + (d - 52)) as char
    } else if d == 62 {
        '+'
    } else {
        '/'
    }
}

/// The text of some bytes to the base of 64.
pub fn encode_base64(data: &[u8]) -> (r: String)
    ensures
        r@ == base64_of(data@),
{
    let mut out = String::new();
    let mut i: usize = 0;
    proof {
        assert(data@.skip(0) =~= data@);
        assert(out@ + base64_of(data@) =~= base64_of(data@));
    }
    while i < data.len()
        invariant
            i <= data@.len(),
            base64_of(data@) == out@ + base64_of(data@.skip(i as int)),
        decreases data.len() - i,
    {
        let left: usize = data.len() - i;
        let b0: u8 = data[i];
        let b1: u8 = if left > 1 {
            data[i + 1]
        } else {
            0
        };
        let b2: u8 = if left > 2 {
            data[i + 2]
        } else {
            0
        };
        let ghost before = out@;
        let ghost rest = data@.skip(i as int);
        out.push(base64_symbol(b0 / 4));
        out.push(base64_symbol((b0 % 4) * 16 + b1 / 16));
        if left > 1 {
            out.push(base64_symbol((b1 % 16) * 4 + b2 / 64));
        } else {
            out.push('=');
        }
        if left > 2 {
            out.push(base64_symbol(b2 % 64));
        } else {
            out.push('=');
        }
        if left > 3 {
            proof {
                assert(out@ =~= before + base64_group(rest.take(3)));
                assert(rest.skip(3) =~= data@.skip(i + 3));
                assert(before + (base64_group(rest.take(3)) + base64_of(data@.skip(i + 3)))
                    =~= out@ + base64_of(data@.skip(i + 3)));
            }
            i += 3;
        } else {
            proof {
                assert(out@ =~= before + base64_group(rest));
                assert(data@.skip(data@.len() as int) =~= Seq::empty());
                assert(out@ + Seq::<char>::empty() =~= out@);
            }
            i = data.len();
        }
    }
    proof {
        assert(data@.skip(i as int) =~= Seq::empty());
        assert(out@ + Seq::<char>::empty() =~= out@);
    }
    out
}

proof fn lemma_base64_digit(d: int)
    requires
        0 <= d < 64,
    ensures
        base64_digit(base64_char(d)) == d,
        base64_char(d) != '=',
{
}

proof fn lemma_base64_group(bytes: Seq<u8>)
    requires
        1 <= bytes.len() <= 3,
    ensures
        base64_bytes(base64_group(bytes)) == bytes,
{
    let b0 = bytes[0] as int;
    let b1 = if bytes.len() > 1 {
        bytes[1] as int
    } else {
        0
    };
    let b2 = if bytes.len() > 2 {
        bytes[2] as int
    } else {
        0
    };
    lemma_base64_digit(b0 / 4);
    lemma_base64_digit((b0 % 4) * 16 + b1 / 16);
    lemma_base64_digit((b1 % 16) * 4 + b2 / 64);
    lemma_base64_digit(b2 % 64);
    assert(base64_bytes(base64_group(bytes)) =~= bytes);
}

/// Bytes that were written to the base of 64 read back, and the text has four
/// characters for three bytes, the last group filled up.
pub proof fn law_base64_reads_back(data: Seq<u8>)
    ensures
        base64_read(base64_of(data)) == data,
        base64_of(data).len() == (data.len() + 2) / 3 * 4,
    decreases data.len(),
{
    if data.len() == 0 {
    } else if data.len() <= 3 {
        let text = base64_of(data);
        lemma_base64_group(data);
        assert(text.take(4) =~= text);
        assert(base64_read(text.skip(4)) =~= Seq::empty());
        assert(data + Seq::<u8>::empty() =~= data);
    } else {
        law_base64_reads_back(data.skip(3));
        let head = data.take(3);
        let tail = base64_of(data.skip(3));
        lemma_base64_group(head);
        let text = base64_of(data);
        assert(text.take(4) =~= base64_group(head));
        assert(text.skip(4) =~= tail);
        assert(head + data.skip(3) =~= data);
    }
}

// ------------------------------------------------------------------ the commit

/// What chrono makes of a time: the same time in UTC, or nothing.
pub uninterp spec fn utc_time_of(text: Seq<char>) -> Option<Seq<char>>;

/// `chrono::DateTime::parse_from_rfc3339`, `with_timezone` for UTC and
/// `to_rfc3339`: a time of RFC 3339 as the same time in UTC; nothing where the
/// text is no such time.
#[verifier::external_body]
fn utc_time(text: &str) -> (r: Option<String>)
    ensures
        opt_view(r) == utc_time_of(text@),
{
    let time = chrono::DateTime::parse_from_rfc3339(text).ok()?;
    Some(time.with_timezone(&chrono::Utc).to_rfc3339())
}

/// The message of a commit and when it was made.
pub struct CommitMeta {
    pub message: String,
    pub committer_timestamp: String,
}

/// A line of some lines, or an empty one.
pub open spec fn line_or_empty(lines: Seq<Seq<char>>, i: int) -> Seq<char> {
    if 0 <= i < lines.len() {
        lines[i]
    } else {
        Seq::empty()
    }
}

/// When a commit was made, in UTC where the text could be read.
pub open spec fn timestamp_of(raw: Seq<char>, utc: Option<Seq<char>>) -> Seq<char> {
    match utc {
        Some(text) => text,
        None => raw,
    }
}

fn line_at(all: &Vec<String>, i: usize) -> (r: String)
    ensures
        r@ == line_or_empty(texts(all@), i as int),
{
    if i < all.len() {
        assert(texts(all@)[i as int] == all@[i as int]@);
        all[i].clone()
    } else {
        let r = String::new();
        assert(r@ =~= Seq::empty());
        r
    }
}

/// When a commit was made, in UTC where the text could be read.
pub fn chosen_timestamp(raw: String, utc: Option<String>) -> (r: String)
    ensures
        r@ == timestamp_of(raw@, opt_view(utc)),
{
    match utc {
        Some(text) => text,
        None => raw,
    }
}

/// The message of a commit and when it was made, as `git show` printed them in
/// two lines; where the command failed, what it complained of.
pub fn gather_commit_info(success: bool, stdout: &[u8], stderr: &[u8]) -> (r: Result<
    CommitMeta,
    String,
>)
    ensures
        match r {
            Ok(meta) => {
                let all = lines_of(utf8_lossy(stdout@));
                let raw = line_or_empty(all, 1);
                &&& success
                &&& meta.message@ == line_or_empty(all, 0)
                &&& meta.committer_timestamp@ == timestamp_of(raw, utc_time_of(raw))
            },
            Err(e) => !success && e@ == utf8_lossy(stderr@),
        },
{
    if !success {
        return Err(lossy_text(stderr));
    }
    let text = lossy_text(stdout);
    let all = lines(text.as_str());
    let message = line_at(&all, 0);
    let raw = line_at(&all, 1);
    let utc = utc_time(raw.as_str());
    Ok(CommitMeta { message, committer_timestamp: chosen_timestamp(raw, utc) })
}

// ------------------------------------------------------------------ who pushed

/// Who pushed.
pub struct Identity {
    pub email: String,
    pub name: String,
}

/// The texts of who pushed.
pub struct IdentityView {
    pub email: Seq<char>,
    pub name: Seq<char>,
}

impl View for Identity {
    type V = IdentityView;

    open spec fn view(&self) -> IdentityView {
        IdentityView { email: self.email@, name: self.name@ }
    }
}

/// What a command printed, trimmed; nothing where it failed or printed
/// nothing.
pub open spec fn answer_of(success: bool, stdout: Seq<u8>) -> Option<Seq<char>> {
    if success && trimmed(utf8_lossy(stdout)).len() > 0 {
        Some(trimmed(utf8_lossy(stdout)))
    } else {
        None
    }
}

/// What a command printed, trimmed; nothing where it failed or printed
/// nothing.
pub fn command_answer(success: bool, stdout: &[u8]) -> (r: Option<String>)
    ensures
        opt_view(r) == answer_of(success, stdout@),
{
    if !success {
        return None;
    }
    let text = lossy_text(stdout);
    let answer = trim(text.as_str());
    if answer.as_str().is_empty() {
        None
    } else {
        Some(answer)
    }
}

/// Someone with an address and perhaps a name; no one without an address.
pub open spec fn identity_of(email: Option<Seq<char>>, name: Option<Seq<char>>) -> Option<
    IdentityView,
> {
    match email {
        Some(email) => Some(
            IdentityView {
                email,
                name: match name {
                    Some(name) => name,
                    None => Seq::empty(),
                },
            },
        ),
        None => None,
    }
}

/// What git and the machine say of who pushed: the address and the name in
/// the repository's configuration, in the user's, and of the commit's author,
/// and the machine's name.
pub struct IdentitySources {
    pub local_email: Option<String>,
    pub local_name: Option<String>,
    pub global_email: Option<String>,
    pub global_name: Option<String>,
    pub author_email: Option<String>,
    pub author_name: Option<String>,
    pub hostname: Option<String>,
}

/// Who pushed: the first of the sources that has an address, then the machine,
/// then no one.
pub open spec fn pusher_of(s: IdentitySources) -> IdentityView {
    let local = identity_of(opt_view(s.local_email), opt_view(s.local_name));
    let global = identity_of(opt_view(s.global_email), opt_view(s.global_name));
    let author = identity_of(opt_view(s.author_email), opt_view(s.author_name));
    if let Some(id) = local {
        id
    } else if let Some(id) = global {
        id
    } else if let Some(id) = author {
        id
    } else if let Some(host) = s.hostname {
        IdentityView { email: host@ + "@localhost"@, name: host@ }
    } else {
        IdentityView { email: Seq::empty(), name: Seq::empty() }
    }
}

fn or_empty(text: Option<String>) -> (r: String)
    ensures
        r@ == (match text {
            Some(t) => t@,
            None => Seq::empty(),
        }),
{
    match text {
        Some(t) => t,
        None => {
            let r = String::new();
            assert(r@ =~= Seq::empty());
            r
        },
    }
}

/// Who pushed.
pub fn get_pusher_identity(s: IdentitySources) -> (r: Identity)
    ensures
        r@ == pusher_of(s),
{
    if let Some(email) = s.local_email {
        return Identity { email, name: or_empty(s.local_name) };
    }
    if let Some(email) = s.global_email {
        return Identity { email, name: or_empty(s.global_name) };
    }
    if let Some(email) = s.author_email {
        return Identity { email, name: or_empty(s.author_name) };
    }
    if let Some(host) = s.hostname {
        return Identity { email: concat(host.as_str(), "@localhost"), name: host };
    }
    Identity { email: or_empty(None), name: or_empty(None) }
}

// ------------------------------------------------------------------ the report

/// What is sent of a commit, but for the time of the push and what the
/// application itself knows of the commit.
pub struct UploadPayload {
    pub team_id: i64,
    pub team_key: String,
    pub repo_url: String,
    pub pusher_email: String,
    pub pusher_name: String,
    pub local_ref: String,
    pub remote_ref: String,
    pub commit_sha: String,
    pub commit_message: String,
    pub commit_timestamp: String,
    /// The compressed changes to the base of 64, if there are any.
    pub diff_gz: Option<String>,
}

/// What is sent of a commit. The team's identifier has to be a number.
pub fn upload_payload(
    config: &TrackerConfig,
    repo_path: &str,
    repo_url: &Option<String>,
    commit_sha: &str,
    meta: CommitMeta,
    pusher: Identity,
    diff_gz: &[u8],
    branch: &str,
) -> (r: Result<UploadPayload, String>)
    ensures
        match r {
            Err(e) => signed_of(config.team_id@) is None && e@ == "invalid team_id"@,
            Ok(p) => {
                &&& signed_of(config.team_id@) == Some(p.team_id as int)
                &&& p.team_key@ == config.team_key@
                &&& p.repo_url@ == (match *repo_url {
                    Some(url) => url@,
                    None => repo_path@,
                })
                &&& p.pusher_email@ == pusher.email@
                &&& p.pusher_name@ == pusher.name@
                &&& p.local_ref@ == branch@
                &&& p.remote_ref@ == branch@
                &&& p.commit_sha@ == commit_sha@
                &&& p.commit_message@ == meta.message@
                &&& p.commit_timestamp@ == meta.committer_timestamp@
                &&& opt_view(p.diff_gz) == (if diff_gz@.len() == 0 {
                    None
                } else {
                    Some(base64_of(diff_gz@))
                })
            },
        },
{
    let team_id: i64 = match parse_i64(config.team_id.as_str()) {
        Some(n) => n,
        None => {
            return Err("invalid team_id".to_owned());
        },
    };
    let encoded = if diff_gz.len() == 0 {
        None
    } else {
        Some(encode_base64(diff_gz))
    };
    let url = match repo_url {
        Some(url) => url.clone(),
        None => repo_path.to_owned(),
    };
    Ok(
        UploadPayload {
            team_id,
            team_key: config.team_key.clone(),
            repo_url: url,
            pusher_email: pusher.email,
            pusher_name: pusher.name,
            local_ref: branch.to_owned(),
            remote_ref: branch.to_owned(),
            commit_sha: commit_sha.to_owned(),
            commit_message: meta.message,
            commit_timestamp: meta.committer_timestamp,
            diff_gz: encoded,
        },
    )
}

/// Where a report is sent to.
pub fn upload_url(config: &TrackerConfig) -> (r: String)
    ensures
        r@ == config.tracker_url@ + API_PATH@,
{
    concat(config.tracker_url.as_str(), API_PATH)
}

/// What the answer to a report means: it was taken, or it failed.
pub fn upload_outcome(status_code: u16) -> (r: Result<(), String>)
    ensures
        match r {
            Ok(_) => 200 <= status_code < 300,
            Err(e) => !(200 <= status_code < 300) && e@ == "tracker upload failed: HTTP "@
                + decimal_of(status_code as nat),
        },
{
    if status_code >= 200 && status_code < 300 {
        Ok(())
    } else {
        Err(concat("tracker upload failed: HTTP ", decimal(status_code as u64).as_str()))
    }
}

/// What is printed of a commit that was reported.
pub fn uploaded_message(commit_sha: &str) -> (r: String)
    ensures
        r@ == "[git-ai tracker] uploaded "@ + prefix_within(commit_sha@, 8),
{
    concat("[git-ai tracker] uploaded ", take_bytes(commit_sha, 8).as_str())
}

/// The repository's own configuration decides who pushed; without an address
/// there the user's does.
pub proof fn law_nearest_identity_decides(s: IdentitySources)
    ensures
        s.local_email matches Some(email) ==> pusher_of(s).email == email@,
        s.local_email is None && s.global_email is Some ==> pusher_of(s).email
            == s.global_email->0@,
{
}

} // verus!
