//! Group members as the event list describes them, and finding a member's name.
use vstd::prelude::*;

verus! {

/// A member of the group an event was sent to.
#[derive(Clone, Debug, PartialEq, Eq)]
pub struct Member {
    pub first_name: String,
    pub last_name: String,
    pub id: String,
}

/// The group an event was sent to.
#[derive(Clone, Debug, PartialEq, Eq)]
pub struct Group {
    pub members: Vec<Member>,
}

/// The recipients of an event.
#[derive(Clone, Debug, PartialEq, Eq)]
pub struct Recipient {
    pub group: Group,
}

/// An event, as far as member lookup needs it.
#[derive(Clone, Debug, PartialEq, Eq)]
pub struct Event {
    pub recipients: Recipient,
}

/// The name of the first member in `members` whose id is `id`.
pub open spec fn find_member(members: Seq<Member>, id: Seq<char>) -> Option<(Seq<char>, Seq<char>)>
    decreases members.len(),
{
    if members.len() == 0 {
        None
    } else if members[0].id@ == id {
        Some((members[0].first_name@, members[0].last_name@))
    } else {
        find_member(members.drop_first(), id)
    }
}

/// The name of the first member with id `id`, searching the events in order
/// and each event's members in order.
pub open spec fn find_in_events(events: Seq<Event>, id: Seq<char>) -> Option<(Seq<char>, Seq<char>)>
    decreases events.len(),
{
    if events.len() == 0 {
        None
    } else {
        match find_member(events[0].recipients.group.members@, id) {
            Some(name) => Some(name),
            None => find_in_events(events.drop_first(), id),
        }
    }
}

pub open spec fn name_view(r: Option<(String, String)>) -> Option<(Seq<char>, Seq<char>)> {
    match r {
        Some(p) => Some((p.0@, p.1@)),
        None => None,
    }
}

/// Looks up the first and last name of the member with id `id`.
pub fn get_name_by_id(events: &Vec<Event>, id: &str) -> (r: Option<(String, String)>)
    ensures
        name_view(r) == find_in_events(events@, id@),
{
    let wanted = id.to_owned();
    let n = events.len();
    let mut i: usize = 0;
    assert(events@.skip(0) =~= events@);
    while i < n
        invariant
            n == events.len(),
            i <= n,
            wanted@ == id@,
            find_in_events(events@, id@) == find_in_events(events@.skip(i as int), id@),
        decreases n - i,
    {
        assert(events@.skip(i as int).drop_first() =~= events@.skip(i + 1));
        assert(events@.skip(i as int)[0] == events@[i as int]);
        let members = &events[i].recipients.group.members;
        let m = members.len();
        let mut j: usize = 0;
        assert(members@.skip(0) =~= members@);
        while j < m
            invariant
                members == &events@[i as int].recipients.group.members,
                n == events.len(),
                i < n,
                find_in_events(events@, id@) == find_in_events(events@.skip(i as int), id@),
                events@.skip(i as int)[0] == events@[i as int],
                m == members.len(),
                j <= m,
                wanted@ == id@,
                find_member(members@, id@) == find_member(members@.skip(j as int), id@),
            decreases m - j,
        {
            assert(members@.skip(j as int).drop_first() =~= members@.skip(j + 1));
            if members[j].id == wanted {
                return Some((members[j].first_name.clone(), members[j].last_name.clone()));
            }
            j = j + 1;
        }
        i = i + 1;
    }
    None
}

/// The text shown for a looked-up name: "first last", or "No user found".
pub open spec fn display_name_spec(found: Option<(Seq<char>, Seq<char>)>) -> Seq<char> {
    match found {
        Some(p) => p.0 + " "@ + p.1,
        None => "No user found"@,
    }
}

/// Renders a looked-up name for display.
pub fn user_display_name(found: Option<(String, String)>) -> (r: String)
    ensures
        r@ == display_name_spec(name_view(found)),
{
    match found {
        Some((first, last)) => {
            let mut s = first;
            s.append(" ");
            s.append(last.as_str());
            s
        },
        None => "No user found".to_owned(),
    }
}

/// The greeting printed for a member's display name: the name alone when no
/// member was found, "Hello there {name}!" otherwise.
pub open spec fn hello_line_spec(name: Seq<char>) -> Seq<char> {
    if name == "No user found"@ {
        name
    } else {
        "Hello there "@ + name + "!"@
    }
}

/// The greeting printed for a member's display name.
pub fn hello_line(name: &str) -> (r: String)
    ensures
        r@ == hello_line_spec(name@),
{
    let own = name.to_owned();
    if own == "No user found".to_owned() {
        own
    } else {
        let mut s = "Hello there ".to_owned();
        s.append(name);
        s.append("!");
        s
    }
}


/// The members of the `i`-th event.
pub open spec fn members_of(events: Seq<Event>, i: int) -> Seq<Member> {
    events[i].recipients.group.members@
}

proof fn lemma_find_member(members: Seq<Member>, id: Seq<char>)
    ensures
        find_member(members, id) is None <==> forall|j: int| 0 <= j < members.len() ==> (#[trigger] members[j]).id@ != id,
        find_member(members, id) matches Some(name) ==> exists|j: int|
            0 <= j < members.len() && (#[trigger] members[j]).id@ == id
                && name == (members[j].first_name@, members[j].last_name@),
    decreases members.len(),
{
    if members.len() > 0 {
        let rest = members.drop_first();
        lemma_find_member(rest, id);
        assert forall|j: int| 0 <= j < rest.len() implies #[trigger] rest[j] == members[j + 1] by {}
        if members[0].id@ != id {
            if find_member(rest, id) is None {
                assert forall|j: int| 0 <= j < members.len() implies (#[trigger] members[j]).id@ != id by {
                    if j > 0 {
                        assert(members[j] == rest[j - 1]);
                    }
                }
            } else {
                let name = find_member(rest, id)->0;
                let j = choose|j: int| 0 <= j < rest.len() && (#[trigger] rest[j]).id@ == id
                    && name == (rest[j].first_name@, rest[j].last_name@);
                assert(members[j + 1] == rest[j]);
            }
        }
    }
}

/// Looking up a member by id finds nothing exactly when no event has a member
/// with that id; what it finds is the first and last name of a member with
/// that id.
pub proof fn law_name_lookup(events: Seq<Event>, id: Seq<char>)
    ensures
        find_in_events(events, id) is None <==> forall|i: int, j: int|
            0 <= i < events.len() && 0 <= j < members_of(events, i).len() ==> (#[trigger] members_of(events, i)[j]).id@ != id,
        find_in_events(events, id) matches Some(name) ==> exists|i: int, j: int| {
            &&& 0 <= i < events.len()
            &&& 0 <= j < members_of(events, i).len()
            &&& (#[trigger] members_of(events, i)[j]).id@ == id
            &&& name == (members_of(events, i)[j].first_name@, members_of(events, i)[j].last_name@)
        },
    decreases events.len(),
{
    if events.len() > 0 {
        let rest = events.drop_first();
        law_name_lookup(rest, id);
        lemma_find_member(members_of(events, 0), id);
        assert forall|i: int| 0 <= i < rest.len() implies #[trigger] members_of(rest, i) == members_of(events, i + 1) by {}
        match find_member(members_of(events, 0), id) {
            Some(name) => {
                let j = choose|j: int| 0 <= j < members_of(events, 0).len() && (#[trigger] members_of(events, 0)[j]).id@ == id
                    && name == (members_of(events, 0)[j].first_name@, members_of(events, 0)[j].last_name@);
                assert(members_of(events, 0)[j].id@ == id);
            },
            None => {
                if find_in_events(rest, id) is None {
                    assert forall|i: int, j: int|
                        0 <= i < events.len() && 0 <= j < members_of(events, i).len() implies (#[trigger] members_of(events, i)[j]).id@ != id by {
                        if i > 0 {
                            assert(members_of(events, i) == members_of(rest, i - 1));
                        }
                    }
                } else {
                    let name = find_in_events(rest, id)->0;
                    let (i, j) = choose|i: int, j: int| {
                        &&& 0 <= i < rest.len()
                        &&& 0 <= j < members_of(rest, i).len()
                        &&& (#[trigger] members_of(rest, i)[j]).id@ == id
                        &&& name == (members_of(rest, i)[j].first_name@, members_of(rest, i)[j].last_name@)
                    };
                    assert(members_of(events, i + 1) == members_of(rest, i));
                    assert(members_of(events, i + 1)[j].id@ == id);
                }
            },
        }
    }
}

} // verus!
