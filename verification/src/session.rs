//! Authenticated identities and the directory-authentication rules: the
//! distinguished-name template, the membership filter, and the exact
//! one-row rule that grants the administrative role.

use vstd::prelude::*;

verus! {

/// An authenticated caller: unique subject name plus privilege flag.
pub struct UserSession {
    pub uid: String,
    pub is_admin: bool,
}

/// Mathematical image of a `UserSession`.
pub struct UserSessionView {
    pub uid: Seq<char>,
    pub is_admin: bool,
}

impl View for UserSession {
    type V = UserSessionView;

    open spec fn view(&self) -> UserSessionView {
        UserSessionView { uid: self.uid@, is_admin: self.is_admin }
    }
}

impl Clone for UserSession {
    fn clone(&self) -> (r: Self)
        ensures
            r@ == self@,
    {
        UserSession { uid: self.uid.clone(), is_admin: self.is_admin }
    }
}

impl UserSession {
    /// A well-formed identity has a non-empty subject name.
    pub open spec fn wf(&self) -> bool {
        self@.uid.len() > 0
    }
}

/// The distinguished name bound for `uid`: the template with every
/// occurrence of the placeholder `{}` replaced by `uid`.
pub open spec fn user_dn_spec(template: Seq<char>, uid: Seq<char>) -> Seq<char>
    decreases template.len(),
{
    if template.len() < 2 {
        template
    } else if template[0] == '{' && template[1] == '}' {
        uid + user_dn_spec(template.skip(2), uid)
    } else {
        seq![template[0]] + user_dn_spec(template.skip(1), uid)
    }
}

/// Builds the distinguished name to bind as, from the configured template
/// (one `{}` placeholder) and the user's name.
pub fn user_dn(template: &str, uid: &str) -> (r: String)
    ensures
        r@ == user_dn_spec(template@, uid@),
{
    let chars = crate::text::to_chars(template);
    let n = chars.len();
    let mut out: Vec<char> = Vec::new();
    let mut i: usize = 0;
    assert(out@ + user_dn_spec(template@.skip(0), uid@) =~= user_dn_spec(template@, uid@)) by {
        assert(template@.skip(0) =~= template@);
    }
    while i < n
        invariant
            n == chars@.len(),
            chars@ == template@,
            i <= n,
            user_dn_spec(template@, uid@) == out@ + user_dn_spec(template@.skip(i as int), uid@),
        decreases n - i,
    {
        if i + 1 < n && chars[i] == '{' && chars[i + 1] == '}' {
            let mut uid_chars = crate::text::to_chars(uid);
            out.append(&mut uid_chars);
            i = i + 2;
            assert(template@.skip(i - 2).skip(2) =~= template@.skip(i as int));
        } else {
            out.push(chars[i]);
            i = i + 1;
            assert(seq![template@[i - 1]] =~= template@.skip(i - 1).take(1));
            assert(template@.skip(i - 1).skip(1) =~= template@.skip(i as int));
        }
        assert(user_dn_spec(template@, uid@) == out@ + user_dn_spec(
            template@.skip(i as int),
            uid@,
        ));
    }
    assert(template@.skip(n as int) =~= Seq::<char>::empty());
    crate::text::from_chars(&out)
}

/// The membership filter sent to the directory: `member=` followed by the
/// caller's distinguished name.
pub open spec fn member_filter_spec(dn: Seq<char>) -> Seq<char> {
    seq!['m', 'e', 'm', 'b', 'e', 'r', '='] + dn
}

/// Builds the admin-group membership filter for the bound name.
pub fn member_filter(dn: &str) -> (r: String)
    ensures
        r@ == member_filter_spec(dn@),
{
    proof {
        reveal_strlit("member=");
    }
    let mut r = String::from_str("member=");
    r.append(dn);
    proof {
        assert(r@ =~= member_filter_spec(dn@));
    }
    r
}

/// Law: authentication yields exactly one identity for the bound user, and
/// it is privileged precisely when the admin-group membership search
/// returned exactly one row -- zero rows or several rows both leave it
/// unprivileged.
pub fn directory_identity(uid: &str, admin_rows: usize) -> (r: UserSession)
    ensures
        r@.uid == uid@,
        r@.is_admin == (admin_rows == 1),
{
    UserSession { uid: String::from_str(uid), is_admin: admin_rows == 1 }
}

} // verus!
