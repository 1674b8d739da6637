//! Completing a directory lookup: the caller of a password or group query
//! hands over what the call left behind — the raw entry, if one came back,
//! and the error channel's value — and these functions decide between
//! absence, success, and failure, exactly as the error policy states:
//! no entry with a zero code is absence, never an error; no entry with a
//! non-zero code is a lookup failure carrying that code; an entry is
//! decoded into an owned record.

use vstd::prelude::*;

verus! {

use crate::error::{IdError, LookupCall};
use crate::records::{Passwd, Group, RawPasswd, RawGroup, passwd_matches, group_matches};
use crate::attrs::{UserAttr, attrs_of};

/// Decide a password lookup. Absence (no entry, zero code) is `Ok(None)`;
/// a non-zero code with no entry surfaces as a lookup error carrying the
/// originating call and that code; an entry that decodes comes back whole,
/// and one that does not fails with a decode error.
pub fn finish_passwd_lookup(entry: Option<RawPasswd>, err: i32, call: LookupCall) -> (r: Result<
    Option<Passwd>,
    IdError,
>)
    ensures
        entry is None && err == 0 ==> r == Ok::<Option<Passwd>, IdError>(None),
        entry is None && err != 0 ==> r == Err::<Option<Passwd>, IdError>(
            IdError::Lookup { call, code: err },
        ),
        entry matches Some(f) ==> (f.all_text_ok() ==> (r matches Ok(p) && p matches Some(pw)
            && passwd_matches(pw, f))),
        entry matches Some(f) ==> (!f.all_text_ok() ==> r == Err::<Option<Passwd>, IdError>(
            IdError::Decode,
        )),
{
    match entry {
        None => {
            if err == 0 {
                Ok(None)
            } else {
                Err(IdError::Lookup { call, code: err })
            }
        },
        Some(f) => {
            match Passwd::from_raw(&f) {
                Ok(p) => Ok(Some(p)),
                Err(e) => Err(e),
            }
        },
    }
}

/// Decide a group lookup, under the same policy as a password lookup.
pub fn finish_group_lookup(entry: Option<RawGroup>, err: i32, call: LookupCall) -> (r: Result<
    Option<Group>,
    IdError,
>)
    ensures
        entry is None && err == 0 ==> r == Ok::<Option<Group>, IdError>(None),
        entry is None && err != 0 ==> r == Err::<Option<Group>, IdError>(
            IdError::Lookup { call, code: err },
        ),
        entry matches Some(f) ==> (f.all_text_ok() ==> (r matches Ok(g) && g matches Some(gr)
            && group_matches(gr, f))),
        entry matches Some(f) ==> (!f.all_text_ok() ==> r == Err::<Option<Group>, IdError>(
            IdError::Decode,
        )),
{
    match entry {
        None => {
            if err == 0 {
                Ok(None)
            } else {
                Err(IdError::Lookup { call, code: err })
            }
        },
        Some(f) => {
            match Group::from_raw(&f) {
                Ok(g) => Ok(Some(g)),
                Err(e) => Err(e),
            }
        },
    }
}

/// Decide a user-attribute lookup: the attribute database reports absence
/// by returning no entry at all, and an entry becomes a record whose
/// mapping binds every pair that decodes, later pairs overriding earlier
/// ones.
pub fn finish_user_attr_lookup(name: String, entry: Option<Vec<(Vec<u8>, Vec<u8>)>>) -> (r: Option<
    UserAttr,
>)
    ensures
        entry is None ==> r is None,
        entry matches Some(pairs) ==> (r matches Some(ua) && ua.name@ == name@ && ua.attr_map()
            == attrs_of(pairs.deep_view())),
{
    match entry {
        None => None,
        Some(pairs) => Some(UserAttr::from_pairs(name, &pairs)),
    }
}

/// Law: a password record's contents are a function of the raw entry
/// alone. Two lookups that hand over equal raw entries yield records equal
/// in every field, whatever ran between the two calls: nothing from a
/// prior result can appear in the next one.
pub proof fn lemma_passwd_lookup_no_state_leak(p1: Passwd, p2: Passwd, f: RawPasswd)
    requires
        passwd_matches(p1, f),
        passwd_matches(p2, f),
    ensures
        p1.name.deep_view() == p2.name.deep_view(),
        p1.passwd.deep_view() == p2.passwd.deep_view(),
        p1.uid == p2.uid,
        p1.gid == p2.gid,
        p1.age.deep_view() == p2.age.deep_view(),
        p1.comment.deep_view() == p2.comment.deep_view(),
        p1.gecos.deep_view() == p2.gecos.deep_view(),
        p1.dir.deep_view() == p2.dir.deep_view(),
        p1.shell.deep_view() == p2.shell.deep_view(),
{
}

/// Law: a group record's contents, member list included, are a function of
/// the raw entry alone, as `lemma_passwd_lookup_no_state_leak` states for
/// password records.
pub proof fn lemma_group_lookup_no_state_leak(g1: Group, g2: Group, f: RawGroup)
    requires
        group_matches(g1, f),
        group_matches(g2, f),
    ensures
        g1.name.deep_view() == g2.name.deep_view(),
        g1.passwd.deep_view() == g2.passwd.deep_view(),
        g1.gid == g2.gid,
        g1.members.deep_view() == g2.members.deep_view(),
{
}

} // verus!
