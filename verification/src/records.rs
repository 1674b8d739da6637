//! Password and group records, and their construction from the raw bytes a
//! directory entry hands over: each C-string field is decoded exactly once
//! into an owned string, absent pointers stay absent, and a field that is
//! not valid text fails the whole record.

use vstd::prelude::*;

verus! {

use vstd::utf8::{valid_utf8, decode_utf8};
use crate::text::try_decode;
use crate::error::IdError;

/// A password-database entry: optional text fields exactly as the database
/// stores them, plus the mandatory numeric ids.
#[derive(Debug, Clone, PartialEq)]
pub struct Passwd {
    pub name: Option<String>,
    pub passwd: Option<String>,
    pub uid: u32,
    pub gid: u32,
    pub age: Option<String>,
    pub comment: Option<String>,
    pub gecos: Option<String>,
    pub dir: Option<String>,
    pub shell: Option<String>,
}

/// A group-database entry: optional text fields, the mandatory numeric id,
/// and the member list converted once from its null-terminated source.
#[derive(Debug, Clone, PartialEq)]
pub struct Group {
    pub name: Option<String>,
    pub passwd: Option<String>,
    pub gid: u32,
    pub members: Option<Vec<String>>,
}

/// The raw material of a password entry: each text field as the bytes of
/// its C string, absent where the entry held a null pointer.
#[derive(Debug, Clone, PartialEq)]
pub struct RawPasswd {
    pub name: Option<Vec<u8>>,
    pub passwd: Option<Vec<u8>>,
    pub uid: u32,
    pub gid: u32,
    pub age: Option<Vec<u8>>,
    pub comment: Option<Vec<u8>>,
    pub gecos: Option<Vec<u8>>,
    pub dir: Option<Vec<u8>>,
    pub shell: Option<Vec<u8>>,
}

/// The raw material of a group entry. The member list is absent where the
/// entry held no array at all, and otherwise holds the bytes of each member
/// name in order, however many there were.
#[derive(Debug, Clone, PartialEq)]
pub struct RawGroup {
    pub name: Option<Vec<u8>>,
    pub passwd: Option<Vec<u8>>,
    pub gid: u32,
    pub members: Option<Vec<Vec<u8>>>,
}

/// An optional raw field decodes when it is absent or holds valid UTF-8.
pub open spec fn field_ok(f: Option<Seq<u8>>) -> bool {
    f matches Some(b) ==> valid_utf8(b)
}

/// The text of an optional raw field: absent stays absent, present bytes
/// decode.
pub open spec fn field_text(f: Option<Seq<u8>>) -> Option<Seq<char>> {
    match f {
        Option::None => None,
        Option::Some(b) => Some(decode_utf8(b)),
    }
}

impl RawPasswd {
    /// Every present text field holds valid UTF-8.
    pub open spec fn all_text_ok(self) -> bool {
        &&& field_ok(self.name.deep_view())
        &&& field_ok(self.passwd.deep_view())
        &&& field_ok(self.age.deep_view())
        &&& field_ok(self.comment.deep_view())
        &&& field_ok(self.gecos.deep_view())
        &&& field_ok(self.dir.deep_view())
        &&& field_ok(self.shell.deep_view())
    }
}

/// The record is the raw entry, field for field: text fields are the
/// decoding of the raw bytes and are absent exactly where the raw field
/// was, and the numeric ids are copied unchanged.
pub open spec fn passwd_matches(p: Passwd, f: RawPasswd) -> bool {
    &&& p.name.deep_view() == field_text(f.name.deep_view())
    &&& p.passwd.deep_view() == field_text(f.passwd.deep_view())
    &&& p.uid == f.uid
    &&& p.gid == f.gid
    &&& p.age.deep_view() == field_text(f.age.deep_view())
    &&& p.comment.deep_view() == field_text(f.comment.deep_view())
    &&& p.gecos.deep_view() == field_text(f.gecos.deep_view())
    &&& p.dir.deep_view() == field_text(f.dir.deep_view())
    &&& p.shell.deep_view() == field_text(f.shell.deep_view())
}

/// Decode one optional field: `None` reports a field that was present but
/// not valid text.
fn decode_field(f: &Option<Vec<u8>>) -> (r: Option<Option<String>>)
    ensures
        r is Some <==> field_ok(f.deep_view()),
        r matches Some(o) ==> o.deep_view() == field_text(f.deep_view()),
{
    match f {
        None => Some(None),
        Some(b) => {
            proof {
                assert(b.deep_view() =~= b@);
            }
            match try_decode(b.as_slice()) {
                Some(s) => Some(Some(s)),
                None => None,
            }
        },
    }
}

impl Passwd {
    /// Build the owned record from a raw entry. Succeeds exactly when every
    /// present text field is valid UTF-8; the record then mirrors the raw
    /// entry field for field, nothing coerced to an empty string. Any
    /// undecodable field fails the whole record with a decode error.
    pub fn from_raw(f: &RawPasswd) -> (r: Result<Passwd, IdError>)
        ensures
            r is Ok <==> f.all_text_ok(),
            r matches Ok(p) ==> passwd_matches(p, *f),
            !f.all_text_ok() ==> r == Err::<Passwd, IdError>(IdError::Decode),
    {
        let name = match decode_field(&f.name) {
            Some(o) => o,
            None => {
                return Err(IdError::Decode);
            },
        };
        let passwd = match decode_field(&f.passwd) {
            Some(o) => o,
            None => {
                return Err(IdError::Decode);
            },
        };
        let age = match decode_field(&f.age) {
            Some(o) => o,
            None => {
                return Err(IdError::Decode);
            },
        };
        let comment = match decode_field(&f.comment) {
            Some(o) => o,
            None => {
                return Err(IdError::Decode);
            },
        };
        let gecos = match decode_field(&f.gecos) {
            Some(o) => o,
            None => {
                return Err(IdError::Decode);
            },
        };
        let dir = match decode_field(&f.dir) {
            Some(o) => o,
            None => {
                return Err(IdError::Decode);
            },
        };
        let shell = match decode_field(&f.shell) {
            Some(o) => o,
            None => {
                return Err(IdError::Decode);
            },
        };
        Ok(
            Passwd {
                name,
                passwd,
                uid: f.uid,
                gid: f.gid,
                age,
                comment,
                gecos,
                dir,
                shell,
            },
        )
    }
}

impl RawGroup {
    /// Every present text field and every member name holds valid UTF-8.
    pub open spec fn all_text_ok(self) -> bool {
        &&& field_ok(self.name.deep_view())
        &&& field_ok(self.passwd.deep_view())
        &&& (self.members matches Some(ms) ==> forall|i: int|
            0 <= i < ms@.len() ==> valid_utf8(ms@[i]@))
    }
}

/// The text of a raw member list: absent stays absent, and a present list
/// decodes member for member, order kept.
pub open spec fn members_text(m: Option<Vec<Vec<u8>>>) -> Option<Seq<Seq<char>>> {
    match m {
        Option::None => None,
        Option::Some(ms) => Some(ms.deep_view().map_values(|b: Seq<u8>| decode_utf8(b))),
    }
}

/// The record is the raw entry, field for field, the member list included.
pub open spec fn group_matches(g: Group, f: RawGroup) -> bool {
    &&& g.name.deep_view() == field_text(f.name.deep_view())
    &&& g.passwd.deep_view() == field_text(f.passwd.deep_view())
    &&& g.gid == f.gid
    &&& g.members.deep_view() == members_text(f.members)
}

impl Group {
    /// Build the owned record from a raw entry. Succeeds exactly when every
    /// present text field and member name is valid UTF-8; the member list
    /// keeps its order and its length, so an empty raw list comes out as an
    /// explicitly-empty list, never as an error.
    pub fn from_raw(f: &RawGroup) -> (r: Result<Group, IdError>)
        ensures
            r is Ok <==> f.all_text_ok(),
            r matches Ok(g) ==> group_matches(g, *f),
            !f.all_text_ok() ==> r == Err::<Group, IdError>(IdError::Decode),
            f.all_text_ok() && f.members is Some ==> (r matches Ok(g)
                && (g.members matches Some(out) && out@.len() == f.members->0@.len())),
    {
        let members: Option<Vec<String>> = match &f.members {
            None => None,
            Some(ms) => {
                let mut out: Vec<String> = Vec::new();
                proof {
                    assert(out.deep_view() =~= Seq::new(0, |j: int| decode_utf8(ms@[j]@)));
                }
                let mut i: usize = 0;
                while i < ms.len()
                    invariant
                        f.members == Some(*ms),
                        i <= ms@.len(),
                        forall|j: int| 0 <= j < i ==> valid_utf8(#[trigger] ms@[j]@),
                        out@.len() == i,
                        out.deep_view() == Seq::new(i as nat, |j: int| decode_utf8(ms@[j]@)),
                    decreases ms@.len() - i,
                {
                    match try_decode(ms[i].as_slice()) {
                        Some(s) => {
                            let ghost before = out@;
                            let ghost before_dv = out.deep_view();
                            out.push(s);
                            proof {
                                assert(out@ == before.push(s));
                                assert forall|j: int| 0 <= j < i + 1 implies out.deep_view()[j]
                                    == decode_utf8(ms@[j]@) by {
                                    assert(out.deep_view()[j] == out@[j].deep_view());
                                    if j < i {
                                        assert(out@[j] == before[j]);
                                        assert(before_dv[j] == before[j].deep_view());
                                        assert(before_dv[j] == decode_utf8(ms@[j]@));
                                    } else {
                                        assert(out@[j] == s);
                                    }
                                }
                                assert(out.deep_view() =~= Seq::new(
                                    (i + 1) as nat,
                                    |j: int| decode_utf8(ms@[j]@),
                                ));
                            }
                        },
                        None => {
                            proof {
                                assert(!valid_utf8(ms@[i as int]@));
                                assert(!f.all_text_ok()) by {
                                    let msv = f.members->0;
                                    assert(msv@[i as int]@ == ms@[i as int]@);
                                    assert(!valid_utf8(msv@[i as int]@));
                                }
                            }
                            return Err(IdError::Decode);
                        },
                    }
                    i += 1;
                }
                proof {
                    assert forall|j: int| 0 <= j < ms@.len() implies ms.deep_view().map_values(
                        |b: Seq<u8>| decode_utf8(b),
                    )[j] == decode_utf8(ms@[j]@) by {
                        assert(ms@[j].deep_view() =~= ms@[j]@);
                    }
                    assert(ms.deep_view().map_values(|b: Seq<u8>| decode_utf8(b)) =~= Seq::new(
                        ms@.len(),
                        |j: int| decode_utf8(ms@[j]@),
                    ));
                }
                Some(out)
            },
        };
        let name = match decode_field(&f.name) {
            Some(o) => o,
            None => {
                return Err(IdError::Decode);
            },
        };
        let passwd = match decode_field(&f.passwd) {
            Some(o) => o,
            None => {
                return Err(IdError::Decode);
            },
        };
        Ok(Group { name, passwd, gid: f.gid, members })
    }
}

} // verus!
