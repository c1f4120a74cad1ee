//! Job sessions of the upstream execution service, as far as the
//! authorization policy reads them, and the pure policy decisions over
//! them: which sessions a caller may see (with the log field always
//! redacted) and which sessions a caller may kill.

use vstd::prelude::*;

use crate::session::UserSession;
use crate::session::UserSessionView;

verus! {

/// One job session as reported by the upstream service: its identifier,
/// the owning user (possibly absent), descriptive fields, and the log
/// lines, which this layer always strips before serving.
pub struct JobSession {
    pub id: i64,
    pub proxy_user: Option<String>,
    pub kind: String,
    pub state: String,
    pub app_id: Option<String>,
    pub log: Option<Vec<String>>,
}

/// Mathematical image of a `JobSession`.
pub struct JobSessionView {
    pub id: int,
    pub proxy_user: Option<Seq<char>>,
    pub kind: Seq<char>,
    pub state: Seq<char>,
    pub app_id: Option<Seq<char>>,
    pub log: Option<Seq<Seq<char>>>,
}

impl View for JobSession {
    type V = JobSessionView;

    open spec fn view(&self) -> JobSessionView {
        JobSessionView {
            id: self.id as int,
            proxy_user: match self.proxy_user {
                Some(p) => Some(p@),
                None => None,
            },
            kind: self.kind@,
            state: self.state@,
            app_id: match self.app_id {
                Some(a) => Some(a@),
                None => None,
            },
            log: match self.log {
                Some(l) => Some(l@.map_values(|line: String| line@)),
                None => None,
            },
        }
    }
}

/// The views of a vector of job sessions, in order.
pub open spec fn job_views(ss: Seq<JobSession>) -> Seq<JobSessionView> {
    ss.map_values(|s: JobSession| s@)
}

/// The view of an optional caller identity.
pub open spec fn user_view(user: Option<&UserSession>) -> Option<UserSessionView> {
    match user {
        Some(u) => Some(u@),
        None => None,
    }
}

/// Whether the caller may see job session `s`. With authentication
/// disabled everything is visible; otherwise an unauthenticated caller
/// sees nothing, a privileged caller sees everything, and any other caller
/// sees exactly the sessions whose owning user equals their subject (an
/// absent owner is never visible to them).
pub open spec fn visible_to(
    auth_enabled: bool,
    user: Option<UserSessionView>,
    s: JobSessionView,
) -> bool {
    if !auth_enabled {
        true
    } else {
        match user {
            Some(u) => u.is_admin || s.proxy_user == Some(u.uid),
            None => false,
        }
    }
}

/// `s` with its log lines redacted.
pub open spec fn strip_log(s: JobSessionView) -> JobSessionView {
    JobSessionView { log: None, ..s }
}

/// The sessions the caller may see, in upstream order, each with its log
/// redacted.
pub open spec fn filter_spec(
    auth_enabled: bool,
    user: Option<UserSessionView>,
    ss: Seq<JobSessionView>,
) -> Seq<JobSessionView>
    decreases ss.len(),
{
    if ss.len() == 0 {
        Seq::empty()
    } else {
        filter_spec(auth_enabled, user, ss.drop_last()) + if visible_to(
            auth_enabled,
            user,
            ss.last(),
        ) {
            seq![strip_log(ss.last())]
        } else {
            Seq::empty()
        }
    }
}

/// Law: every served job session has its log field absent, whatever the
/// mode and whoever the caller.
pub proof fn lemma_filter_log_absent(
    auth_enabled: bool,
    user: Option<UserSessionView>,
    ss: Seq<JobSessionView>,
)
    ensures
        forall|i: int|
            0 <= i < filter_spec(auth_enabled, user, ss).len() ==> (#[trigger] filter_spec(
                auth_enabled,
                user,
                ss,
            )[i]).log is None,
    decreases ss.len(),
{
    if ss.len() > 0 {
        lemma_filter_log_absent(auth_enabled, user, ss.drop_last());
    }
}

/// Law: a non-privileged caller is never served a job session owned by
/// anyone else, nor one with an absent owner.
pub proof fn lemma_filter_nonprivileged(u: UserSessionView, ss: Seq<JobSessionView>)
    requires
        !u.is_admin,
    ensures
        forall|i: int|
            0 <= i < filter_spec(true, Some(u), ss).len() ==> (#[trigger] filter_spec(
                true,
                Some(u),
                ss,
            )[i]).proxy_user == Some(u.uid),
    decreases ss.len(),
{
    if ss.len() > 0 {
        lemma_filter_nonprivileged(u, ss.drop_last());
    }
}

/// Law: with authentication disabled every session is served to every
/// caller, in order, with only the log redacted.
pub proof fn lemma_filter_auth_disabled(user: Option<UserSessionView>, ss: Seq<JobSessionView>)
    ensures
        filter_spec(false, user, ss) == ss.map_values(|s: JobSessionView| strip_log(s)),
    decreases ss.len(),
{
    if ss.len() == 0 {
        assert(filter_spec(false, user, ss) =~= ss.map_values(
            |s: JobSessionView| strip_log(s),
        ));
    } else {
        lemma_filter_auth_disabled(user, ss.drop_last());
        assert(ss.drop_last().map_values(|s: JobSessionView| strip_log(s)) =~= ss.map_values(
            |s: JobSessionView| strip_log(s),
        ).drop_last());
        assert(filter_spec(false, user, ss) =~= ss.map_values(|s: JobSessionView| strip_log(s)));
    }
}

/// Law: a privileged caller is served every session, in order, with only
/// the log redacted -- exactly what the disabled mode serves.
pub proof fn lemma_filter_privileged(u: UserSessionView, ss: Seq<JobSessionView>)
    requires
        u.is_admin,
    ensures
        filter_spec(true, Some(u), ss) == ss.map_values(|s: JobSessionView| strip_log(s)),
    decreases ss.len(),
{
    if ss.len() == 0 {
        assert(filter_spec(true, Some(u), ss) =~= ss.map_values(
            |s: JobSessionView| strip_log(s),
        ));
    } else {
        lemma_filter_privileged(u, ss.drop_last());
        assert(ss.drop_last().map_values(|s: JobSessionView| strip_log(s)) =~= ss.map_values(
            |s: JobSessionView| strip_log(s),
        ).drop_last());
        assert(filter_spec(true, Some(u), ss) =~= ss.map_values(
            |s: JobSessionView| strip_log(s),
        ));
    }
}

/// A copy of `s` with the log dropped.
fn strip_clone(s: &JobSession) -> (r: JobSession)
    ensures
        r@ == strip_log(s@),
{
    JobSession {
        id: s.id,
        proxy_user: match &s.proxy_user {
            Some(p) => Some(p.clone()),
            None => None,
        },
        kind: s.kind.clone(),
        state: s.state.clone(),
        app_id: match &s.app_id {
            Some(a) => Some(a.clone()),
            None => None,
        },
        log: None,
    }
}

/// Whether the caller may see `s`.
fn visible_exec(auth_enabled: bool, user: Option<&UserSession>, s: &JobSession) -> (r: bool)
    ensures
        r == visible_to(auth_enabled, user_view(user), s@),
{
    if !auth_enabled {
        return true;
    }
    match user {
        Some(u) => {
            if u.is_admin {
                true
            } else {
                match &s.proxy_user {
                    Some(p) => crate::text::str_eq(p.as_str(), u.uid.as_str()),
                    None => false,
                }
            }
        },
        None => false,
    }
}

/// The sessions the caller may see, in upstream order, logs redacted.
pub fn filter_sessions(
    auth_enabled: bool,
    user: Option<&UserSession>,
    sessions: &Vec<JobSession>,
) -> (r: Vec<JobSession>)
    ensures
        job_views(r@) == filter_spec(auth_enabled, user_view(user), job_views(sessions@)),
{
    let ghost all = job_views(sessions@);
    let mut r: Vec<JobSession> = Vec::new();
    let n = sessions.len();
    let mut i: usize = 0;
    assert(job_views(r@) =~= filter_spec(auth_enabled, user_view(user), all.take(0)));
    while i < n
        invariant
            i <= n,
            n == sessions@.len(),
            all == job_views(sessions@),
            job_views(r@) == filter_spec(auth_enabled, user_view(user), all.take(i as int)),
        decreases n - i,
    {
        let ghost prefix = all.take(i as int);
        if visible_exec(auth_enabled, user, &sessions[i]) {
            r.push(strip_clone(&sessions[i]));
        }
        i = i + 1;
        proof {
            assert(all.take(i as int).drop_last() =~= prefix);
            assert(all.take(i as int).last() == sessions@[i - 1]@);
            assert(job_views(r@) =~= filter_spec(
                auth_enabled,
                user_view(user),
                all.take(i as int),
            ));
        }
    }
    proof {
        assert(all.take(n as int) =~= all);
    }
    r
}

/// Whether the caller may kill a job session, given what fetching that
/// session from the upstream service returned (`None` stands for a failed
/// fetch as well as for an unknown id). With authentication disabled every
/// kill is permitted; otherwise an unauthenticated caller may kill
/// nothing, a privileged caller may kill anything, and any other caller
/// may kill exactly the sessions whose owning user equals their subject.
pub open spec fn kill_allowed(
    auth_enabled: bool,
    user: Option<UserSessionView>,
    fetched: Option<JobSessionView>,
) -> bool {
    if !auth_enabled {
        true
    } else {
        match user {
            Some(u) => u.is_admin || (match fetched {
                Some(s) => s.proxy_user == Some(u.uid),
                None => false,
            }),
            None => false,
        }
    }
}

/// Law: a privileged caller may kill any session; a non-privileged caller
/// may kill exactly the sessions fetched with their own subject as owner;
/// when the fetch fails the kill is rejected whoever asks.
pub proof fn lemma_kill_authority(u: UserSessionView, fetched: Option<JobSessionView>)
    ensures
        u.is_admin ==> kill_allowed(true, Some(u), fetched),
        !u.is_admin ==> (kill_allowed(true, Some(u), fetched) <==> (fetched matches Some(s)
            && s.proxy_user == Some(u.uid))),
        fetched is None && !u.is_admin ==> !kill_allowed(true, Some(u), fetched),
        !kill_allowed(true, None, fetched),
{
}

/// Decides a kill request from the fetched target session.
pub fn has_kill_session_authority(
    auth_enabled: bool,
    user: Option<&UserSession>,
    fetched: Option<&JobSession>,
) -> (r: bool)
    ensures
        r == kill_allowed(
            auth_enabled,
            user_view(user),
            match fetched {
                Some(s) => Some(s@),
                None => None,
            },
        ),
{
    if !auth_enabled {
        return true;
    }
    match user {
        Some(u) => {
            if u.is_admin {
                true
            } else {
                match fetched {
                    Some(s) => match &s.proxy_user {
                        Some(p) => crate::text::str_eq(p.as_str(), u.uid.as_str()),
                        None => false,
                    },
                    None => false,
                }
            }
        },
        None => false,
    }
}

} // verus!
