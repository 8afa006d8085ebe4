//! The synchronisation settings of a sync root and the document they are
//! stored as.
//!
//! The settings are kept beside the notes, in a JSON document with the
//! members `provider`, `enabled`, `credentials` and `last_sync`. Reading
//! and writing the file is left to the caller; what the document holds is
//! decided here.

use crate::error::{SyncError, SyncErrorView};
use crate::json::{member_of, Json, Member};
use vstd::prelude::*;

verus! {

/// Which store a sync root is synchronised with, and how.
#[derive(Debug, PartialEq, Eq)]
pub struct SyncConfig {
    pub provider: String,
    pub enabled: bool,
    /// What the provider needs to accept a request. The value is stored
    /// and handed back as it is.
    pub credentials: Json,
    /// When the root was last synchronised, if it ever was.
    pub last_sync: Option<String>,
}

pub ghost struct SyncConfigView {
    pub provider: Seq<char>,
    pub enabled: bool,
    pub credentials: Json,
    pub last_sync: Option<Seq<char>>,
}

impl View for SyncConfig {
    type V = SyncConfigView;

    open spec fn view(&self) -> SyncConfigView {
        SyncConfigView {
            provider: self.provider@,
            enabled: self.enabled,
            credentials: self.credentials,
            last_sync: match self.last_sync {
                Some(t) => Some(t@),
                None => None,
            },
        }
    }
}

/// The name of the file that holds the settings, in the sync root.
pub open spec fn file_name() -> Seq<char> {
    ".sync_config.json"@
}

/// The name of the file that holds the settings.
pub fn config_file_name() -> (name: &'static str)
    ensures
        name@ == file_name(),
{
    ".sync_config.json"
}

/// How the time of the last synchronisation is written: as a string, or as
/// `null` if there was none.
pub open spec fn last_sync_json(last_sync: Option<Seq<char>>, value: Json) -> bool {
    match last_sync {
        Some(t) => value.text() == Some(t),
        None => value is Null,
    }
}

/// Whether `document` is the document that `config` is stored as.
pub open spec fn stores(document: Json, config: SyncConfigView) -> bool {
    &&& document matches Json::Object(members)
    &&& members@.len() == 4
    &&& members@[0].name@ == "provider"@
    &&& members@[0].value.text() == Some(config.provider)
    &&& members@[1].name@ == "enabled"@
    &&& members@[1].value == Json::Bool(config.enabled)
    &&& members@[2].name@ == "credentials"@
    &&& members@[2].value == config.credentials
    &&& members@[3].name@ == "last_sync"@
    &&& last_sync_json(config.last_sync, members@[3].value)
}

/// The document that `config` is stored as.
pub fn into_document(config: SyncConfig) -> (document: Json)
    ensures
        stores(document, config@),
{
    let mut members: Vec<Member> = Vec::new();
    members.push(Member { name: "provider".to_owned(), value: Json::Text(config.provider) });
    members.push(Member { name: "enabled".to_owned(), value: Json::Bool(config.enabled) });
    members.push(Member { name: "credentials".to_owned(), value: config.credentials });
    let last_sync = match config.last_sync {
        Some(t) => Json::Text(t),
        None => Json::Null,
    };
    members.push(Member { name: "last_sync".to_owned(), value: last_sync });
    Json::Object(members)
}

/// What a document says about the time of the last synchronisation: a
/// string member gives the time, a `null` member or none says that there
/// was no synchronisation, and any other member is malformed.
pub open spec fn last_sync_of(member: Option<Json>) -> Option<Option<Seq<char>>> {
    match member {
        None => Some(None),
        Some(Json::Null) => Some(None),
        Some(Json::Text(t)) => Some(Some(t@)),
        Some(_) => None,
    }
}

/// Whether a member is called `name`.
pub open spec fn named(name: Seq<char>) -> spec_fn(Member) -> bool {
    |m: Member| m.name@ == name
}

/// How many of `members` are called `name`.
pub open spec fn times_named(members: Seq<Member>, name: Seq<char>) -> nat {
    members.filter(named(name)).len()
}

/// Whether none of the four members of a settings document stands twice
/// in `document`.
pub open spec fn unrepeated(document: Json) -> bool {
    match document {
        Json::Object(members) => {
            &&& times_named(members@, "provider"@) <= 1
            &&& times_named(members@, "enabled"@) <= 1
            &&& times_named(members@, "credentials"@) <= 1
            &&& times_named(members@, "last_sync"@) <= 1
        },
        _ => true,
    }
}

/// The settings that `document` holds, if it is a well-formed settings
/// document: an object whose member `provider` is a string, whose member
/// `enabled` is a boolean, which has a member `credentials`, and whose
/// member `last_sync`, if it has one, is a string or `null`, none of them
/// standing twice. Other members are passed over.
pub open spec fn config_of(document: Json) -> Option<SyncConfigView> {
    if unrepeated(document) && document.text_member("provider"@) is Some && document.member(
        "enabled"@,
    ) is Some
        && document.member("enabled"@)->0 is Bool && document.member("credentials"@) is Some
        && last_sync_of(document.member("last_sync"@)) is Some {
        Some(
            SyncConfigView {
                provider: document.text_member("provider"@)->0,
                enabled: document.member("enabled"@)->0->Bool_0,
                credentials: document.member("credentials"@)->0,
                last_sync: last_sync_of(document.member("last_sync"@))->0,
            },
        )
    } else {
        None
    }
}

/// What reading `document` gives: the settings it holds, or the failure
/// that a malformed document is reported with.
pub open spec fn read_of(document: Json) -> Result<SyncConfigView, SyncErrorView> {
    match config_of(document) {
        Some(config) => Ok(config),
        None => Err(SyncErrorView::Io("The sync configuration is malformed"@)),
    }
}

/// The view of what `from_document` returns.
pub open spec fn read_view(result: Result<SyncConfig, SyncError>) -> Result<
    SyncConfigView,
    SyncErrorView,
> {
    match result {
        Ok(config) => Ok(config@),
        Err(e) => Err(e@),
    }
}

/// The four member names are pairwise different.
proof fn lemma_member_names_differ()
    ensures
        "provider"@ != "enabled"@,
        "provider"@ != "credentials"@,
        "provider"@ != "last_sync"@,
        "enabled"@ != "credentials"@,
        "enabled"@ != "last_sync"@,
        "credentials"@ != "last_sync"@,
{
    reveal_strlit("provider");
    reveal_strlit("enabled");
    reveal_strlit("credentials");
    reveal_strlit("last_sync");
    assert("provider"@[0] != "enabled"@[0]);
    assert("provider"@[0] != "credentials"@[0]);
    assert("provider"@[0] != "last_sync"@[0]);
    assert("enabled"@[0] != "credentials"@[0]);
    assert("enabled"@[0] != "last_sync"@[0]);
    assert("credentials"@[0] != "last_sync"@[0]);
}

/// What has been found of a member while the document is taken apart:
/// the member's value once it was seen, and otherwise what the members
/// not yet looked at say.
spec fn found(slot: Option<Json>, rest: Seq<Member>, name: Seq<char>) -> Option<Json> {
    match slot {
        Some(value) => Some(value),
        None => member_of(rest, name),
    }
}

/// Counts how many of `members` are called `name`.
fn count_named(members: &Vec<Member>, name: &str) -> (n: usize)
    ensures
        n == times_named(members@, name@),
{
    let ghost keep = named(name@);
    let mut n: usize = 0;
    let mut i: usize = 0;
    assert(members@.take(0) =~= Seq::empty());
    assert(Seq::<Member>::empty().filter(keep) =~= Seq::empty()) by {
        reveal(Seq::filter);
    }
    while i < members.len()
        invariant
            i <= members.len(),
            n <= i,
            keep == named(name@),
            n == members@.take(i as int).filter(keep).len(),
        decreases members.len() - i,
    {
        proof {
            let before = members@.take(i as int);
            assert(members@.take(i + 1) =~= before.push(members@[i as int]));
            before.lemma_filter_push(members@[i as int], keep);
        }
        if members[i].name.as_str().eq(name) {
            n += 1;
        }
        i += 1;
    }
    assert(members@.take(members.len() as int) =~= members@);
    n
}

/// Reads the settings that `document` holds.
pub fn from_document(document: Json) -> (result: Result<SyncConfig, SyncError>)
    ensures
        read_view(result) == read_of(document),
{
    let mut members = match document {
        Json::Object(members) => members,
        _ => {
            return Err(SyncError::Io("The sync configuration is malformed".to_owned()));
        },
    };
    if count_named(&members, "provider") > 1 || count_named(&members, "enabled") > 1
        || count_named(&members, "credentials") > 1 || count_named(&members, "last_sync") > 1 {
        return Err(SyncError::Io("The sync configuration is malformed".to_owned()));
    }
    let ghost all = members@;
    let mut provider: Option<Json> = None;
    let mut enabled: Option<Json> = None;
    let mut credentials: Option<Json> = None;
    let mut last_sync: Option<Json> = None;
    while members.len() > 0
        invariant
            member_of(all, "provider"@) == found(provider, members@, "provider"@),
            member_of(all, "enabled"@) == found(enabled, members@, "enabled"@),
            member_of(all, "credentials"@) == found(credentials, members@, "credentials"@),
            member_of(all, "last_sync"@) == found(last_sync, members@, "last_sync"@),
        decreases members.len(),
    {
        let ghost before = members@;
        let member = members.pop().unwrap();
        assert(before.last() == member);
        assert(before.drop_last() =~= members@);
        proof {
            lemma_member_names_differ();
        }
        let name = member.name.as_str();
        if name.eq("provider") {
            if provider.is_none() {
                provider = Some(member.value);
            }
        } else if name.eq("enabled") {
            if enabled.is_none() {
                enabled = Some(member.value);
            }
        } else if name.eq("credentials") {
            if credentials.is_none() {
                credentials = Some(member.value);
            }
        } else if name.eq("last_sync") {
            if last_sync.is_none() {
                last_sync = Some(member.value);
            }
        }
    }
    let last_sync = match last_sync {
        None => Some(None),
        Some(Json::Null) => Some(None),
        Some(Json::Text(t)) => Some(Some(t)),
        Some(_) => None,
    };
    match (provider, enabled, credentials, last_sync) {
        (Some(Json::Text(provider)), Some(Json::Bool(enabled)), Some(credentials), Some(last_sync)) => Ok(
            SyncConfig { provider, enabled, credentials, last_sync },
        ),
        _ => Err(SyncError::Io("The sync configuration is malformed".to_owned())),
    }
}

/// How often a name stands among four members.
proof fn lemma_times_named_of_four(members: Seq<Member>, name: Seq<char>)
    requires
        members.len() == 4,
    ensures
        times_named(members, name) == (if members[0].name@ == name {
            1nat
        } else {
            0nat
        }) + (if members[1].name@ == name {
            1nat
        } else {
            0nat
        }) + (if members[2].name@ == name {
            1nat
        } else {
            0nat
        }) + (if members[3].name@ == name {
            1nat
        } else {
            0nat
        }),
{
    let keep = named(name);
    let s0 = Seq::<Member>::empty();
    let s1 = s0.push(members[0]);
    let s2 = s1.push(members[1]);
    let s3 = s2.push(members[2]);
    let s4 = s3.push(members[3]);
    assert(members =~= s4);
    assert(s0.filter(keep) =~= s0) by {
        reveal(Seq::filter);
    }
    s0.lemma_filter_push(members[0], keep);
    s1.lemma_filter_push(members[1], keep);
    s2.lemma_filter_push(members[2], keep);
    s3.lemma_filter_push(members[3], keep);
    assert(s0.filter(keep).len() == 0);
    assert(s1.filter(keep).len() == s0.filter(keep).len() + (if keep(members[0]) {
        1nat
    } else {
        0nat
    }));
    assert(s2.filter(keep).len() == s1.filter(keep).len() + (if keep(members[1]) {
        1nat
    } else {
        0nat
    }));
    assert(s3.filter(keep).len() == s2.filter(keep).len() + (if keep(members[2]) {
        1nat
    } else {
        0nat
    }));
    assert(s4.filter(keep).len() == s3.filter(keep).len() + (if keep(members[3]) {
        1nat
    } else {
        0nat
    }));
    assert(times_named(members, name) == s4.filter(keep).len());
}

/// What is stored is what is read back: the document that settings are
/// stored as holds these settings, equal in every field.
pub proof fn lemma_stored_config_reads_back(document: Json, config: SyncConfigView)
    requires
        stores(document, config),
    ensures
        read_of(document) == Ok::<SyncConfigView, SyncErrorView>(config),
{
    let members = document->Object_0@;
    lemma_member_names_differ();
    lemma_times_named_of_four(members, "provider"@);
    lemma_times_named_of_four(members, "enabled"@);
    lemma_times_named_of_four(members, "credentials"@);
    lemma_times_named_of_four(members, "last_sync"@);
    assert(unrepeated(document));
    let m3 = members.drop_last();
    let m2 = m3.drop_last();
    let m1 = m2.drop_last();
    assert(members.last() == members[3]);
    assert(m3.last() == members[2]);
    assert(m2.last() == members[1]);
    assert(m1.last() == members[0]);
    reveal_with_fuel(member_of, 5);
    assert(member_of(members, "last_sync"@) == Some(members[3].value));
    assert(member_of(members, "credentials"@) == Some(members[2].value));
    assert(member_of(members, "enabled"@) == Some(members[1].value));
    assert(member_of(members, "provider"@) == Some(members[0].value));
    let read = config_of(document)->0;
    assert(read.last_sync == config.last_sync);
}

} // verus!
