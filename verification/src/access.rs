//! Who may watch a stream.

use vstd::prelude::*;

use crate::format::occurs;
use crate::text::{contents, join, join_interspersed, joined};

verus! {

/// The role of viewers who have not signed in.
pub const ANONYMOUS: &'static str = "anonymous";

/// What the viewers in one role may do with a stream.
pub struct Role {
    /// The name of the role.
    pub name: String,
    /// Whether they may learn that the stream is there.
    pub access: bool,
    /// Whether they may watch it.
    pub construct: bool,
}

/// The contents of a [`Role`].
pub struct RoleState {
    pub name: Seq<char>,
    pub access: bool,
    pub construct: bool,
}

impl View for Role {
    type V = RoleState;

    open spec fn view(&self) -> RoleState {
        RoleState { name: self.name@, access: self.access, construct: self.construct }
    }
}

/// The contents of a list of roles.
pub open spec fn role_states(roles: Seq<Role>) -> Seq<RoleState> {
    roles.map_values(|role: Role| role@)
}

/// The role of a viewer who may watch.
pub open spec fn watcher(name: Seq<char>) -> RoleState {
    RoleState { name, access: true, construct: true }
}

/// The roles of a stream that `permitted` may watch.  Viewers who have not signed in learn that
/// the stream is there in any case, because that is looked at before they can sign in.
pub open spec fn granted(permitted: Seq<Seq<char>>) -> Seq<RoleState> {
    permitted.map_values(|name: Seq<char>| watcher(name)) + if permitted.contains(ANONYMOUS@) {
        Seq::empty()
    } else {
        seq![RoleState { name: ANONYMOUS@, access: true, construct: false }]
    }
}

/// Lists the roles of a stream that `permitted` may watch.
pub fn grant(permitted: &[&str]) -> (roles: Vec<Role>)
    ensures
        role_states(roles@) == granted(contents(permitted@)),
{
    let anonymous = String::from_str(ANONYMOUS);
    let mut anonymous_permitted = false;
    let mut roles: Vec<Role> = Vec::new();
    let mut i: usize = 0;
    while i < permitted.len()
        invariant
            i <= permitted@.len(),
            anonymous@ == ANONYMOUS@,
            anonymous_permitted == contents(permitted@.take(i as int)).contains(ANONYMOUS@),
            role_states(roles@) == contents(permitted@.take(i as int)).map_values(
                |name: Seq<char>| watcher(name),
            ),
        decreases permitted@.len() - i,
    {
        let name = String::from_str(permitted[i]);
        let ghost before = contents(permitted@.take(i as int));
        let ghost after = contents(permitted@.take(i + 1));
        let ghost old_roles = roles@;
        assert(after == before.push(name@));
        assert(after.contains(ANONYMOUS@) <==> before.contains(ANONYMOUS@) || name@ == ANONYMOUS@)
            by {
            if before.contains(ANONYMOUS@) {
                let k = choose|k: int| 0 <= k < before.len() && before[k] == ANONYMOUS@;
                assert(after[k] == ANONYMOUS@);
            }
            if name@ == ANONYMOUS@ {
                assert(after[before.len() as int] == ANONYMOUS@);
            }
        }
        if name == anonymous {
            anonymous_permitted = true;
        }
        roles.push(Role { name, access: true, construct: true });
        assert(role_states(roles@) == role_states(old_roles).push(watcher(after.last())));
        assert(role_states(roles@) == after.map_values(|name: Seq<char>| watcher(name)));
        i = i + 1;
    }
    assert(permitted@.take(i as int) == permitted@);
    if !anonymous_permitted {
        let ghost old_roles = roles@;
        roles.push(Role { name: anonymous, access: true, construct: false });
        assert(role_states(roles@) == role_states(old_roles).push(
            RoleState { name: ANONYMOUS@, access: true, construct: false },
        ));
    }
    assert(role_states(roles@) == granted(contents(permitted@)));
    roles
}

/// The sentence about `users` who may watch a stream under `paths`.
pub open spec fn notice_text(paths: Seq<Seq<char>>, users: Seq<Seq<char>>) -> Seq<char> {
    "Permitting "@ + joined(users, ", "@) + " to access "@ + joined(paths, ", "@)
}

/// The sentence that announces which users may watch a stream, and under which paths.
pub fn access_notice(paths: &[&str], permitted_users: &[&str]) -> (notice: String)
    ensures
        notice@ == "Permitting "@ + joined(contents(permitted_users@), ", "@) + " to access "@
            + joined(contents(paths@), ", "@),
        notice@ == notice_text(contents(paths@), contents(permitted_users@)),
{
    let mut notice = String::from_str("Permitting ");
    notice.append(join_interspersed(permitted_users, ", ").as_str());
    notice.append(" to access ");
    notice.append(join(paths, ", ").as_str());
    notice
}

/// What the role `name` may do.  Where the name stands more than once, the last entry decides.
pub open spec fn rights_of(roles: Seq<RoleState>, name: Seq<char>) -> Option<RoleState>
    decreases roles.len(),
{
    if roles.len() == 0 {
        None
    } else if roles.last().name == name {
        Some(roles.last())
    } else {
        rights_of(roles.drop_last(), name)
    }
}

/// Viewers in the role `name` may learn that the stream is there.
pub open spec fn may_access(roles: Seq<RoleState>, name: Seq<char>) -> bool {
    rights_of(roles, name) is Some && rights_of(roles, name)->0.access
}

/// Viewers in the role `name` may watch the stream.
pub open spec fn may_construct(roles: Seq<RoleState>, name: Seq<char>) -> bool {
    rights_of(roles, name) is Some && rights_of(roles, name)->0.construct
}

/// How a request for a stream is answered.
pub enum Reply {
    /// As if the stream were not there.
    NotFound,
    /// The viewer is refused.
    NotAuthorised,
    /// The viewer watches the stream.
    Played,
}

/// How a viewer in the role `name` is answered.  The server first asks, before the viewer has
/// signed in, whether anybody may know of the stream, and then whether the viewer may watch it.
pub open spec fn reply(roles: Seq<RoleState>, name: Seq<char>) -> Reply {
    if !may_access(roles, ANONYMOUS@) {
        Reply::NotFound
    } else if !may_construct(roles, name) {
        Reply::NotAuthorised
    } else {
        Reply::Played
    }
}

proof fn lemma_rights_of_is_an_entry(roles: Seq<RoleState>, name: Seq<char>)
    ensures
        rights_of(roles, name) is Some <==> exists|i: int|
            0 <= i < roles.len() && (#[trigger] roles[i]).name == name,
        rights_of(roles, name) is Some ==> exists|i: int|
            0 <= i < roles.len() && (#[trigger] roles[i]).name == name && rights_of(roles, name)
                == Some(roles[i]),
    decreases roles.len(),
{
    if roles.len() > 0 {
        let before = roles.drop_last();
        assert(roles[roles.len() - 1] == roles.last());
        lemma_rights_of_is_an_entry(before, name);
        if roles.last().name != name && rights_of(before, name) is Some {
            let i = choose|i: int|
                0 <= i < before.len() && (#[trigger] before[i]).name == name && rights_of(
                    before,
                    name,
                ) == Some(before[i]);
            assert(roles[i] == before[i]);
        }
        assert forall|i: int|
            0 <= i < roles.len() && (#[trigger] roles[i]).name == name implies rights_of(
            roles,
            name,
        ) is Some by {
            if i < before.len() {
                assert(before[i].name == name);
            }
        }
    }
}

/// Exactly the permitted roles may watch, and beside them only viewers who have not signed in
/// learn that the stream is there.
pub proof fn law_rights_of_roles(permitted: Seq<Seq<char>>, name: Seq<char>)
    ensures
        may_construct(granted(permitted), name) <==> permitted.contains(name),
        may_access(granted(permitted), name) <==> permitted.contains(name) || name == ANONYMOUS@,
{
    let roles = granted(permitted);
    lemma_rights_of_is_an_entry(roles, name);
    if permitted.contains(name) {
        let k = choose|k: int| 0 <= k < permitted.len() && permitted[k] == name;
        assert(roles[k] == watcher(name));
    }
    if name == ANONYMOUS@ && !permitted.contains(name) {
        assert(roles[permitted.len() as int].name == name);
    }
    assert forall|i: int| 0 <= i < roles.len() implies (#[trigger] roles[i]).access && (
    roles[i].construct <==> i < permitted.len()) && (if i < permitted.len() {
        roles[i].name == permitted[i]
    } else {
        roles[i].name == ANONYMOUS@ && !permitted.contains(ANONYMOUS@)
    }) by {}
}

/// Roles that are added later decide about the names among them, and about no others.
pub proof fn law_later_roles_decide(
    roles: Seq<RoleState>,
    permitted: Seq<Seq<char>>,
    name: Seq<char>,
)
    ensures
        may_construct(roles + granted(permitted), name) <==> if permitted.contains(name) || name
            == ANONYMOUS@ {
            permitted.contains(name)
        } else {
            may_construct(roles, name)
        },
        may_access(roles + granted(permitted), name) <==> permitted.contains(name) || name
            == ANONYMOUS@ || may_access(roles, name),
{
    lemma_rights_of_concatenation(roles, granted(permitted), name);
    law_rights_of_roles(permitted, name);
    lemma_rights_of_is_an_entry(granted(permitted), name);
    let added = granted(permitted);
    assert forall|i: int| 0 <= i < added.len() implies permitted.contains(
        (#[trigger] added[i]).name,
    ) || added[i].name == ANONYMOUS@ by {
        if i < permitted.len() {
            assert(added[i].name == permitted[i]);
        }
    }
}

proof fn lemma_rights_of_concatenation(
    first: Seq<RoleState>,
    second: Seq<RoleState>,
    name: Seq<char>,
)
    ensures
        rights_of(first + second, name) == (if rights_of(second, name) is Some {
            rights_of(second, name)
        } else {
            rights_of(first, name)
        }),
    decreases second.len(),
{
    if second.len() == 0 {
        assert(first + second == first);
    } else {
        assert((first + second).last() == second.last());
        assert((first + second).drop_last() == first + second.drop_last());
        lemma_rights_of_concatenation(first, second.drop_last(), name);
    }
}

/// A permitted viewer gets to watch, and any other is told that they are not authorised, never
/// that there is no such stream.
pub proof fn law_reply_to_viewers(permitted: Seq<Seq<char>>, name: Seq<char>)
    ensures
        reply(granted(permitted), name) == (if permitted.contains(name) {
            Reply::Played
        } else {
            Reply::NotAuthorised
        }),
{
    law_rights_of_roles(permitted, ANONYMOUS@);
    law_rights_of_roles(permitted, name);
}

/// The contents of a role are its name and its rights, and those of a list are those of its roles,
/// one for one.
pub proof fn law_role_states_one_for_one(roles: Seq<Role>)
    ensures
        role_states(roles).len() == roles.len(),
        forall|i: int|
            0 <= i < roles.len() ==> (#[trigger] role_states(roles)[i]).name == roles[i].name@
                && role_states(roles)[i].access == roles[i].access
                && role_states(roles)[i].construct == roles[i].construct,
{
}

/// The roles of a stream are the permitted ones, in their order and with all rights, and then the
/// anonymous one, which only learns of the stream, unless it is among them.
pub proof fn law_granted_lists_permitted_in_order(permitted: Seq<Seq<char>>)
    ensures
        granted(permitted).len() == permitted.len() + if permitted.contains("anonymous"@) {
            0int
        } else {
            1
        },
        forall|i: int|
            0 <= i < permitted.len() ==> (#[trigger] granted(permitted)[i]).name == permitted[i]
                && granted(permitted)[i].access && granted(permitted)[i].construct,
        !permitted.contains("anonymous"@) ==> {
            let last = granted(permitted)[permitted.len() as int];
            last.name == "anonymous"@ && last.access && !last.construct
        },
{
}

/// The rights of a role are those of its last entry, whatever else is listed, and without an entry
/// it has none.
pub proof fn law_last_entry_decides(roles: Seq<RoleState>, name: Seq<char>, at: int)
    ensures
        0 <= at < roles.len() && roles[at].name == name && (forall|j: int|
            at < j < roles.len() ==> (#[trigger] roles[j]).name != name) ==> rights_of(roles, name)
            == Some(roles[at]) && may_access(roles, name) == roles[at].access && may_construct(
            roles,
            name,
        ) == roles[at].construct,
        (forall|j: int| 0 <= j < roles.len() ==> (#[trigger] roles[j]).name != name) ==> rights_of(
            roles,
            name,
        ) is None && !may_access(roles, name) && !may_construct(roles, name),
    decreases roles.len(),
{
    if roles.len() > 0 {
        let before = roles.drop_last();
        assert(roles[roles.len() - 1] == roles.last());
        assert(forall|j: int| 0 <= j < before.len() ==> #[trigger] before[j] == roles[j]);
        law_last_entry_decides(before, name, at);
    }
}

/// A request is answered as if there were no stream if and only if the anonymous role may not know
/// of it; otherwise it is refused if and only if the viewer may not watch.
pub proof fn law_reply_by_rights(roles: Seq<RoleState>, name: Seq<char>)
    ensures
        reply(roles, name) is NotFound <==> !may_access(roles, "anonymous"@),
        reply(roles, name) is NotAuthorised <==> may_access(roles, "anonymous"@) && !may_construct(
            roles,
            name,
        ),
        reply(roles, name) is Played <==> may_access(roles, "anonymous"@) && may_construct(
            roles,
            name,
        ),
{
}

proof fn lemma_part_occurs(parts: Seq<Seq<char>>, sep: Seq<char>, at: int)
    requires
        0 <= at < parts.len(),
    ensures
        occurs(parts[at], joined(parts, sep)),
    decreases parts.len(),
{
    let part = parts[at];
    let whole = joined(parts, sep);
    let none = Seq::<char>::empty();
    if parts.len() == 1 {
        assert(whole == none + part + none);
    } else if at == parts.len() - 1 {
        assert(whole == (joined(parts.drop_last(), sep) + sep) + part + none);
    } else {
        let head = joined(parts.drop_last(), sep);
        lemma_part_occurs(parts.drop_last(), sep, at);
        let (before, after) = choose|before: Seq<char>, after: Seq<char>|
            head == #[trigger] (before + part + after);
        assert(whole == before + part + (after + sep + parts.last()));
    }
}

/// The announcement leaves nobody and no path out: it names every user, and then every path.
pub proof fn law_notice_names_everyone(
    paths: Seq<Seq<char>>,
    users: Seq<Seq<char>>,
    user: int,
    path: int,
)
    requires
        0 <= user < users.len(),
        0 <= path < paths.len(),
    ensures
        exists|listed_users: Seq<char>, listed_paths: Seq<char>|
            {
                &&& notice_text(paths, users) == #[trigger] ("Permitting "@ + listed_users
                    + " to access "@ + listed_paths)
                &&& occurs(users[user], listed_users)
                &&& occurs(paths[path], listed_paths)
            },
{
    lemma_part_occurs(users, ", "@, user);
    lemma_part_occurs(paths, ", "@, path);
    assert(notice_text(paths, users) == "Permitting "@ + joined(users, ", "@) + " to access "@
        + joined(paths, ", "@));
}

} // verus!
