//! Publishing to Yuque: the stored connection settings, the addresses of
//! its API, and what is read from its JSON replies.
use vstd::prelude::*;
use crate::errors::PlannerError;
use crate::text::{
    CharClass, chars_to_string, ends_with_chars, str_chars, str_eq, strip_end_chars, strip_trailing,
    trim, trim_str,
};

verus! {

/// The Yuque host used when none is stored.
pub const DEFAULT_HOST: &'static str = "https://www.yuque.com";

/// A JSON value as a reply carries it; numbers are kept as their text.
pub enum Json {
    Null,
    Bool(bool),
    Number(String),
    Str(String),
    Array(Vec<Json>),
    Object(Vec<(String, Json)>),
}

/// The value of the first member named `key`.
pub open spec fn lookup(fields: Seq<(String, Json)>, key: Seq<char>) -> Option<Json>
    decreases fields.len(),
{
    if fields.len() == 0 {
        None
    } else if fields[0].0@ == key {
        Some(fields[0].1)
    } else {
        lookup(fields.drop_first(), key)
    }
}

/// `Value::get` with a member name: the member's value when `v` is an
/// object that has it.
pub open spec fn json_get(v: Json, key: Seq<char>) -> Option<Json> {
    match v {
        Json::Object(fields) => lookup(fields@, key),
        _ => None,
    }
}

proof fn lemma_lookup_remove(fields: Seq<(String, Json)>, i: int, key: Seq<char>)
    requires
        0 <= i < fields.len(),
        fields[i].0@ != key,
        forall|m: int| 0 <= m < i ==> (#[trigger] fields[m]).0@ != fields[i].0@,
    ensures
        lookup(fields.remove(i), key) == lookup(fields, key),
    decreases i,
{
    if i > 0 {
        if fields[0].0@ != key {
            assert(fields.remove(i).drop_first() =~= fields.drop_first().remove(i - 1));
            assert forall|m: int| 0 <= m < i - 1 implies (#[trigger] fields.drop_first()[m]).0@
                != fields.drop_first()[i - 1].0@ by {
                assert(fields.drop_first()[m] == fields[m + 1]);
            }
            lemma_lookup_remove(fields.drop_first(), i - 1, key);
        }
        assert(fields.remove(i)[0] == fields[0]);
    } else {
        assert(fields.remove(0) =~= fields.drop_first());
    }
}

proof fn lemma_lookup_at(fields: Seq<(String, Json)>, i: int)
    requires
        0 <= i < fields.len(),
        forall|m: int| 0 <= m < i ==> (#[trigger] fields[m]).0@ != fields[i].0@,
    ensures
        lookup(fields, fields[i].0@) == Some(fields[i].1),
    decreases i,
{
    if i > 0 {
        assert forall|m: int| 0 <= m < i - 1 implies (#[trigger] fields.drop_first()[m]).0@
            != fields.drop_first()[i - 1].0@ by {
            assert(fields.drop_first()[m] == fields[m + 1]);
        }
        lemma_lookup_at(fields.drop_first(), i - 1);
    }
}

proof fn lemma_lookup_absent(fields: Seq<(String, Json)>, key: Seq<char>)
    requires
        forall|m: int| 0 <= m < fields.len() ==> (#[trigger] fields[m]).0@ != key,
    ensures
        lookup(fields, key) is None,
    decreases fields.len(),
{
    if fields.len() > 0 {
        assert forall|m: int| 0 <= m < fields.len() - 1 implies (#[trigger] fields.drop_first()[m]).0@
            != key by {
            assert(fields.drop_first()[m] == fields[m + 1]);
        }
        lemma_lookup_absent(fields.drop_first(), key);
    }
}

/// Takes out the first member named `key`; the other names keep their values.
fn take_field(fields: &mut Vec<(String, Json)>, key: &str) -> (v: Option<Json>)
    ensures
        v == lookup(old(fields)@, key@),
        forall|other: Seq<char>|
            other != key@ ==> lookup(final(fields)@, other) == #[trigger] lookup(old(fields)@, other),
{
    let ghost orig = fields@;
    let mut i: usize = 0;
    while i < fields.len()
        invariant
            fields@ == orig,
            orig == old(fields)@,
            i <= fields.len(),
            forall|m: int| 0 <= m < i ==> (#[trigger] fields@[m]).0@ != key@,
        decreases fields.len() - i,
    {
        if str_eq(fields[i].0.as_str(), key) {
            let ghost before = fields@;
            proof {
                lemma_lookup_at(before, i as int);
                assert forall|other: Seq<char>| other != key@ implies lookup(before.remove(i as int), other)
                    == #[trigger] lookup(before, other) by {
                    lemma_lookup_remove(before, i as int, other);
                }
            }
            let (_, value) = fields.remove(i);
            return Some(value);
        }
        i = i + 1;
    }
    proof {
        lemma_lookup_absent(fields@, key@);
    }
    None
}

/// What the document list keeps of one listed document.
pub struct YuqueDoc {
    pub id: Option<Json>,
    pub title: Option<Json>,
    pub slug: Option<Json>,
    /// `content_updated_at`, or `updated_at` when the former is missing.
    pub updated_at: Option<Json>,
}

pub open spec fn doc_summary(item: Json) -> YuqueDoc {
    YuqueDoc {
        id: json_get(item, "id"@),
        title: json_get(item, "title"@),
        slug: json_get(item, "slug"@),
        updated_at: match json_get(item, "content_updated_at"@) {
            Some(v) => Some(v),
            None => json_get(item, "updated_at"@),
        },
    }
}

/// The documents a list reply holds: its `data` array (none when it is
/// missing or not an array), each summarized.
pub open spec fn doc_list(reply: Json) -> Seq<YuqueDoc> {
    match json_get(reply, "data"@) {
        Some(Json::Array(items)) => items@.map_values(|x: Json| doc_summary(x)),
        _ => Seq::empty(),
    }
}

fn summarize_doc(item: Json) -> (d: YuqueDoc)
    ensures
        d == doc_summary(item),
{
    proof {
        reveal_strlit("id");
        reveal_strlit("title");
        reveal_strlit("slug");
        reveal_strlit("content_updated_at");
        reveal_strlit("updated_at");
    }
    match item {
        Json::Object(fields) => {
            let mut fields = fields;
            let ghost f0 = fields@;
            assert("id"@.len() == 2 && "slug"@.len() == 4 && "title"@.len() == 5);
            assert("updated_at"@.len() == 10 && "content_updated_at"@.len() == 18);
            let id = take_field(&mut fields, "id");
            let ghost f1 = fields@;
            assert(lookup(f1, "title"@) == lookup(f0, "title"@));
            assert(lookup(f1, "slug"@) == lookup(f0, "slug"@));
            assert(lookup(f1, "content_updated_at"@) == lookup(f0, "content_updated_at"@));
            assert(lookup(f1, "updated_at"@) == lookup(f0, "updated_at"@));
            let title = take_field(&mut fields, "title");
            let ghost f2 = fields@;
            assert(lookup(f2, "slug"@) == lookup(f1, "slug"@));
            assert(lookup(f2, "content_updated_at"@) == lookup(f1, "content_updated_at"@));
            assert(lookup(f2, "updated_at"@) == lookup(f1, "updated_at"@));
            let slug = take_field(&mut fields, "slug");
            let ghost f3 = fields@;
            assert(lookup(f3, "content_updated_at"@) == lookup(f2, "content_updated_at"@));
            assert(lookup(f3, "updated_at"@) == lookup(f2, "updated_at"@));
            let content_updated = take_field(&mut fields, "content_updated_at");
            let ghost f4 = fields@;
            assert(lookup(f4, "updated_at"@) == lookup(f3, "updated_at"@));
            let updated = take_field(&mut fields, "updated_at");
            let updated_at = match content_updated {
                Some(v) => Some(v),
                None => updated,
            };
            YuqueDoc { id, title, slug, updated_at }
        },
        _ => YuqueDoc { id: None, title: None, slug: None, updated_at: None },
    }
}

/// The documents of a reply to the document-list request.
pub fn yuque_docs(reply: Json) -> (docs: Vec<YuqueDoc>)
    ensures
        docs@ == doc_list(reply),
{
    let data = match reply {
        Json::Object(fields) => {
            let mut fields = fields;
            take_field(&mut fields, "data")
        },
        _ => None,
    };
    match data {
        Some(Json::Array(items)) => {
            let ghost all = items@;
            let mut items = items;
            let mut docs: Vec<YuqueDoc> = Vec::new();
            while items.len() > 0
                invariant
                    docs.len() + items.len() == all.len(),
                    items@ == all.skip(docs.len() as int),
                    docs@ == all.take(docs.len() as int).map_values(|x: Json| doc_summary(x)),
                decreases items.len(),
            {
                let ghost k = docs.len();
                let item = items.remove(0);
                assert(items@ =~= all.skip(k + 1));
                docs.push(summarize_doc(item));
                assert(docs@ =~= all.take(k + 1).map_values(|x: Json| doc_summary(x)));
            }
            assert(all.take(all.len() as int) =~= all);
            docs
        },
        _ => Vec::new(),
    }
}

/// The slug of the document a create request made: `/data/slug` of the
/// reply when it is a string, otherwise empty.
pub open spec fn created_slug(reply: Json) -> Seq<char> {
    match json_get(reply, "data"@) {
        Some(data) => match json_get(data, "slug"@) {
            Some(Json::Str(s)) => s@,
            _ => Seq::empty(),
        },
        None => Seq::empty(),
    }
}

fn reply_slug(reply: Json) -> (slug: String)
    ensures
        slug@ == created_slug(reply),
{
    let data = match reply {
        Json::Object(fields) => {
            let mut fields = fields;
            take_field(&mut fields, "data")
        },
        _ => None,
    };
    let slug = match data {
        Some(Json::Object(fields)) => {
            let mut fields = fields;
            take_field(&mut fields, "slug")
        },
        _ => None,
    };
    match slug {
        Some(Json::Str(s)) => s,
        _ => String::new(),
    }
}

/// The Yuque settings in force: the stored ones, with the default host and
/// empty account and repository when none are stored.
pub struct YuqueConfig {
    pub host: String,
    pub login: String,
    pub repo: String,
    pub token_configured: bool,
}

pub open spec fn setting_or(o: Option<String>, default: Seq<char>) -> Seq<char> {
    match o {
        Some(s) => s@,
        None => default,
    }
}

fn setting_or_default(o: Option<String>, default: &str) -> (s: String)
    ensures
        s@ == setting_or(o, default@),
{
    match o {
        Some(s) => s,
        None => default.to_owned(),
    }
}

/// The settings page shows the host, account, repository, and only whether a
/// token is stored.
pub fn yuque_config(host: Option<String>, login: Option<String>, repo: Option<String>, token: Option<
    String,
>) -> (c: YuqueConfig)
    ensures
        c.host@ == setting_or(host, DEFAULT_HOST@),
        c.login@ == setting_or(login, seq![]),
        c.repo@ == setting_or(repo, seq![]),
        c.token_configured == token is Some,
{
    proof {
        reveal_strlit("");
    }
    assert(""@ =~= Seq::<char>::empty());
    YuqueConfig {
        host: setting_or_default(host, DEFAULT_HOST),
        login: setting_or_default(login, ""),
        repo: setting_or_default(repo, ""),
        token_configured: token.is_some(),
    }
}

/// What saving the Yuque settings stores.
pub struct YuqueSettings {
    pub host: String,
    pub login: String,
    pub repo: String,
    /// The token, kept only when it is not blank; otherwise the stored one stays.
    pub token: Option<String>,
}

/// The settings as stored: the host without trailing slashes, account and
/// repository trimmed, and the trimmed token when it is not blank.
pub fn yuque_settings(host: &str, login: &str, repo: &str, token: &str) -> (s: YuqueSettings)
    ensures
        s.host@ == strip_trailing(host@, CharClass::Exactly('/')),
        s.login@ == trim(login@),
        s.repo@ == trim(repo@),
        trim(token@).len() == 0 ==> s.token is None,
        trim(token@).len() > 0 ==> (s.token matches Some(t) && t@ == trim(token@)),
{
    let host_chars = str_chars(host);
    let stripped = strip_end_chars(&host_chars, CharClass::Exactly('/'));
    let token_text = trim_str(token);
    let token = if token_text.as_str().is_empty() {
        None
    } else {
        Some(token_text)
    };
    YuqueSettings {
        host: chars_to_string(&stripped, 0, stripped.len()),
        login: trim_str(login),
        repo: trim_str(repo),
        token,
    }
}

/// The repository a Yuque request goes to, and the token it is made with.
pub struct YuqueTarget {
    pub host: String,
    pub login: String,
    pub repo: String,
    pub token: String,
}

/// A request needs a stored token, then a non-empty account and repository.
pub fn yuque_target(host: Option<String>, login: Option<String>, repo: Option<String>, token: Option<
    String,
>) -> (r: Result<YuqueTarget, PlannerError>)
    ensures
        token is None ==> r == Err::<YuqueTarget, PlannerError>(PlannerError::YuqueTokenMissing),
        token is Some && (setting_or(login, seq![]).len() == 0 || setting_or(repo, seq![]).len()
            == 0) ==> r == Err::<YuqueTarget, PlannerError>(PlannerError::YuqueTargetIncomplete),
        token is Some && setting_or(login, seq![]).len() > 0 && setting_or(repo, seq![]).len() > 0
            ==> (r matches Ok(t) && t.host@ == setting_or(host, DEFAULT_HOST@) && t.login@
            == setting_or(login, seq![]) && t.repo@ == setting_or(repo, seq![]) && token
            == Some(t.token)),
{
    proof {
        reveal_strlit("");
    }
    assert(""@ =~= Seq::<char>::empty());
    let host = setting_or_default(host, DEFAULT_HOST);
    let login = setting_or_default(login, "");
    let repo = setting_or_default(repo, "");
    let token = match token {
        Some(t) => t,
        None => {
            return Err(PlannerError::YuqueTokenMissing);
        },
    };
    if login.as_str().is_empty() || repo.as_str().is_empty() {
        return Err(PlannerError::YuqueTargetIncomplete);
    }
    Ok(YuqueTarget { host, login, repo, token })
}

/// The API's base address: the host, with `/api/v2` added unless it ends so.
pub open spec fn api_base_of(host: Seq<char>) -> Seq<char> {
    if "/api/v2"@.is_suffix_of(host) {
        host
    } else {
        host + "/api/v2"@
    }
}

pub fn api_base(host: &str) -> (base: String)
    ensures
        base@ == api_base_of(host@),
{
    let h = str_chars(host);
    let suffix = str_chars("/api/v2");
    if ends_with_chars(&h, &suffix) {
        host.to_owned()
    } else {
        let mut b = host.to_owned();
        b.append("/api/v2");
        b
    }
}

/// Taking the base address of a base address changes nothing.
pub proof fn lemma_api_base_idempotent(host: Seq<char>)
    ensures
        api_base_of(api_base_of(host)) == api_base_of(host),
{
    let s = "/api/v2"@;
    if !s.is_suffix_of(host) {
        let b = host + s;
        assert forall|i: int| 0 <= i < s.len() implies s[i] == b[b.len() - s.len() + i] by {
            assert(b[host.len() + i] == s[i]);
        }
    }
}

/// The address that lists a repository's documents (at most 100).
pub fn docs_list_url(target: &YuqueTarget) -> (url: String)
    ensures
        url@ == api_base_of(target.host@) + "/repos/"@ + target.login@ + "/"@ + target.repo@
            + "/docs?limit=100"@,
{
    let mut url = api_base(target.host.as_str());
    url.append("/repos/");
    url.append(target.login.as_str());
    url.append("/");
    url.append(target.repo.as_str());
    url.append("/docs?limit=100");
    url
}

/// The address that creates a document in a repository.
pub fn docs_create_url(target: &YuqueTarget) -> (url: String)
    ensures
        url@ == api_base_of(target.host@) + "/repos/"@ + target.login@ + "/"@ + target.repo@
            + "/docs"@,
{
    let mut url = api_base(target.host.as_str());
    url.append("/repos/");
    url.append(target.login.as_str());
    url.append("/");
    url.append(target.repo.as_str());
    url.append("/docs");
    url
}

/// The address of a document just created: the host, account, repository
/// and the slug the reply gives.
pub fn created_doc_url(target: &YuqueTarget, reply: Json) -> (url: String)
    ensures
        url@ == target.host@ + "/"@ + target.login@ + "/"@ + target.repo@ + "/"@ + created_slug(
            reply,
        ),
{
    let slug = reply_slug(reply);
    let mut url = target.host.clone();
    url.append("/");
    url.append(target.login.as_str());
    url.append("/");
    url.append(target.repo.as_str());
    url.append("/");
    url.append(slug.as_str());
    url
}

/// Whether an HTTP status says the request succeeded (200 to 299).
pub fn status_is_success(status: u16) -> (ok: bool)
    ensures
        ok == (200 <= status < 300),
{
    200 <= status && status < 300
}

/// The message shown when a Yuque request fails with the given status
/// (written as its code and reason).
pub fn request_failure_message(listing: bool, status: &str) -> (m: String)
    ensures
        m@ == (if listing {
            "语雀连接失败："@
        } else {
            "创建语雀文档失败："@
        }) + status@,
{
    let mut m = if listing {
        "语雀连接失败：".to_owned()
    } else {
        "创建语雀文档失败：".to_owned()
    };
    m.append(status);
    m
}

} // verus!
