use vstd::prelude::*;
use vstd::string::StringExecFns;

verus! {

/// The account that owns the bot: it may use developer commands.
pub const DEVELOPER: &'static str = "juno0x153";

/// The second account that may always use administrator commands.
pub const CO_OWNER: &'static str = "novo2424";

/// The administrator table: a list of usernames without repetition.
pub struct Admins {
    pub names: Vec<String>,
}

/// The usernames of a list of strings, as character sequences.
pub open spec fn names_of(v: Seq<String>) -> Seq<Seq<char>> {
    v.map_values(|s: String| s@)
}

/// `s` with every occurrence of `u` taken out, order kept.
pub open spec fn without(s: Seq<Seq<char>>, u: Seq<char>) -> Seq<Seq<char>>
    decreases s.len(),
{
    if s.len() == 0 {
        s
    } else {
        let rest = without(s.drop_last(), u);
        if s.last() == u {
            rest
        } else {
            rest.push(s.last())
        }
    }
}

impl Admins {
    pub open spec fn view(&self) -> Seq<Seq<char>> {
        names_of(self.names@)
    }

    pub open spec fn wf(&self) -> bool {
        self@.no_duplicates()
    }

    /// The table as a fresh store seeds it: both owners listed.
    pub fn with_owners() -> (r: Admins)
        ensures
            r@ == seq![DEVELOPER@, CO_OWNER@],
            r.wf(),
    {
        let mut names: Vec<String> = Vec::new();
        names.push(String::from_str(DEVELOPER));
        names.push(String::from_str(CO_OWNER));
        let r = Admins { names };
        proof {
            reveal_strlit("juno0x153");
            reveal_strlit("novo2424");
            assert(r@ =~= seq![DEVELOPER@, CO_OWNER@]);
            assert(DEVELOPER@[0] != CO_OWNER@[0]);
        }
        r
    }
}

/// Position of `u` in `v`, if it is there.
fn find_name(v: &Vec<String>, u: &String) -> (r: Option<usize>)
    ensures
        match r {
            Some(i) => i < v@.len() && v@[i as int]@ == u@,
            None => !names_of(v@).contains(u@),
        },
{
    let mut i: usize = 0;
    while i < v.len()
        invariant
            i <= v@.len(),
            forall|k: int| 0 <= k < i ==> v@[k]@ != u@,
        decreases v@.len() - i,
    {
        if v[i] == *u {
            return Some(i);
        }
        i += 1;
    }
    proof {
        if names_of(v@).contains(u@) {
            let k = choose|k: int| 0 <= k < names_of(v@).len() && names_of(v@)[k] == u@;
            assert(v@[k]@ == u@);
        }
    }
    None
}

/// Adds `username` to the administrators; a name already listed stays once.
pub fn add_admin(admins: &mut Admins, username: String)
    requires
        old(admins).wf(),
    ensures
        final(admins).wf(),
        old(admins)@.contains(username@) ==> final(admins)@ == old(admins)@,
        !old(admins)@.contains(username@) ==> final(admins)@ == old(admins)@.push(username@),
{
    match find_name(&admins.names, &username) {
        Some(i) => {
            assert(admins@[i as int] == username@);
        },
        None => {
            let ghost before = admins@;
            admins.names.push(username);
            proof {
                assert(admins@ =~= before.push(username@));
                assert forall|a: int, b: int|
                    0 <= a < admins@.len() && 0 <= b < admins@.len() && a != b implies admins@[a]
                    != admins@[b] by {
                    if a < before.len() && b < before.len() {
                    } else if a < before.len() {
                        assert(before.contains(before[a]));
                    } else {
                        assert(before.contains(before[b]));
                    }
                }
            }
        },
    }
}

proof fn lemma_without_facts(s: Seq<Seq<char>>, u: Seq<char>)
    ensures
        !without(s, u).contains(u),
        forall|x: Seq<char>| x != u ==> (without(s, u).contains(x) <==> s.contains(x)),
        s.no_duplicates() ==> without(s, u).no_duplicates(),
    decreases s.len(),
{
    if s.len() > 0 {
        lemma_without_facts(s.drop_last(), u);
        let rest = without(s.drop_last(), u);
        assert forall|x: Seq<char>| x != u implies (without(s, u).contains(x) <==> s.contains(x)) by {
            if s.contains(x) {
                let k = choose|k: int| 0 <= k < s.len() && s[k] == x;
                if k < s.len() - 1 {
                    assert(s.drop_last()[k] == x);
                    assert(s.drop_last().contains(x));
                    assert(rest.contains(x));
                    let j = choose|j: int| 0 <= j < rest.len() && rest[j] == x;
                    if s.last() != u {
                        assert(without(s, u)[j] == x);
                    }
                } else {
                    assert(without(s, u) == rest.push(s.last()));
                    assert(without(s, u)[rest.len() as int] == x);
                }
            }
            if without(s, u).contains(x) {
                if rest.contains(x) {
                    assert(s.drop_last().contains(x));
                    let k = choose|k: int| 0 <= k < s.drop_last().len() && s.drop_last()[k] == x;
                    assert(s[k] == x);
                } else {
                    if s.last() == u {
                        assert(without(s, u) == rest);
                    } else {
                        assert(without(s, u) == rest.push(s.last()));
                        let k = choose|k: int| 0 <= k < without(s, u).len() && without(s, u)[k] == x;
                        if k < rest.len() {
                            assert(rest[k] == x);
                        }
                        assert(s[s.len() - 1] == x);
                    }
                }
            }
        }
        if s.no_duplicates() {
            assert(s.drop_last().no_duplicates());
            if s.last() != u {
                assert(!s.drop_last().contains(s.last()));
                assert(!rest.contains(s.last()));
                assert(without(s, u) == rest.push(s.last()));
            }
        }
    }
}

/// Removes `username` from the administrators, if it is listed.
pub fn remove_admin(admins: &mut Admins, username: &str)
    requires
        old(admins).wf(),
    ensures
        final(admins).wf(),
        final(admins)@ == without(old(admins)@, username@),
        !final(admins)@.contains(username@),
{
    let u = String::from_str(username);
    let ghost before = admins@;
    let mut kept: Vec<String> = Vec::new();
    let mut i: usize = 0;
    while i < admins.names.len()
        invariant
            i <= admins.names@.len(),
            admins@ == before,
            u@ == username@,
            names_of(kept@) == without(before.take(i as int), username@),
        decreases admins.names@.len() - i,
    {
        assert(before.take(i + 1).drop_last() =~= before.take(i as int));
        if admins.names[i] != u {
            kept.push(admins.names[i].clone());
            assert(names_of(kept@) =~= without(before.take(i as int), username@).push(before[i as int]));
        }
        i += 1;
    }
    assert(before.take(i as int) =~= before);
    admins.names = kept;
    proof {
        lemma_without_facts(before, username@);
    }
}

/// The administrators, in the order they were added.
pub fn list_admins(admins: &Admins) -> (r: Vec<String>)
    ensures
        names_of(r@) == admins@,
{
    let mut r: Vec<String> = Vec::new();
    let mut i: usize = 0;
    while i < admins.names.len()
        invariant
            i <= admins.names@.len(),
            r@.len() == i,
            names_of(r@) == admins@.take(i as int),
        decreases admins.names@.len() - i,
    {
        let name = admins.names[i].clone();
        r.push(name);
        assert(r@[i as int]@ == admins@[i as int]);
        assert(names_of(r@) =~= admins@.take(i + 1));
        i += 1;
    }
    assert(admins@.take(i as int) =~= admins@);
    r
}

/// Whether `username` is listed as an administrator.
pub fn is_admin(admins: &Admins, username: &str) -> (r: bool)
    ensures
        r == admins@.contains(username@),
{
    let u = String::from_str(username);
    let found = find_name(&admins.names, &u);
    match found {
        Some(i) => {
            assert(admins@[i as int] == username@);
            true
        },
        None => false,
    }
}

/// Whether a sender may use administrator commands: an owner or a listed
/// administrator. A sender without a username never may.
pub fn is_authorized_sender(admins: &Admins, username: Option<&str>) -> (r: bool)
    ensures
        r == match username {
            Some(u) => u@ == DEVELOPER@ || u@ == CO_OWNER@ || admins@.contains(u@),
            None => false,
        },
{
    match username {
        Some(u) => {
            let s = String::from_str(u);
            s == String::from_str(DEVELOPER) || s == String::from_str(CO_OWNER) || is_admin(admins, u)
        },
        None => false,
    }
}

/// Whether a sender may use developer commands.
pub fn is_authorized_dev(username: Option<&str>) -> (r: bool)
    ensures
        r == match username {
            Some(u) => u@ == DEVELOPER@,
            None => false,
        },
{
    match username {
        Some(u) => String::from_str(u) == String::from_str(DEVELOPER),
        None => false,
    }
}

} // verus!
